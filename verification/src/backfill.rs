//! Replaying the whole history of a source into its destination: fetching
//! it page by page, putting it into the order it was written in, and sending
//! it message by message at a measured pace.
//!
//! The job does no sending or fetching itself. It says what is to be done
//! next, and is told how that went.

use crate::dispatch::{advance, fresh, send_plan, AttemptView, DispatchAttempt, DispatchStatus, OutboundRequest, RequestView};
use crate::error::TransportError;
use crate::message::{is_regular_user_message, InboundMessage};
use crate::registry::{Mapping, MappingView};
use crate::text::{decimal, push_decimal};
use vstd::prelude::*;
use vstd::string::StringExecFns;

pub mod laws;

verus! {

/// How many messages are asked for in one page of history.
pub const PAGE_SIZE: usize = 100;

/// How long to wait after a message has been delivered, in milliseconds.
pub const PACING_MILLIS: u64 = 500;

/// The messages of a history in the order they are replayed in: those that
/// are eligible, oldest first. The history is given newest first, as it is fetched.
pub open spec fn replay_order(newest_first: Seq<InboundMessage>) -> Seq<InboundMessage> {
    newest_first.reverse().filter(|m: InboundMessage| m.is_eligible())
}

/// How a replay ended well.
#[derive(Clone, Copy, Debug, PartialEq, Eq)]
pub struct BackfillSummary {
    pub source_id: u64,
    pub destination_id: u64,
    pub started_at: i64,
    /// How many messages the history held.
    pub total_known: usize,
    /// How many of them were eligible.
    pub eligible: usize,
    /// How many were delivered.
    pub transferred_count: usize,
    /// How many could not be delivered and were passed over.
    pub skipped_count: usize,
}

/// Why a replay was given up.
#[derive(Clone, Copy, Debug, PartialEq, Eq)]
pub enum BackfillError {
    /// A page of the history could not be fetched.
    Fetch(TransportError),
    /// A notice could not be posted to the destination.
    Notice(TransportError),
}

/// Where a replay stands.
#[derive(Clone, Copy, Debug, PartialEq, Eq)]
pub enum Phase {
    /// The notice that the replay starts is being posted.
    Starting,
    /// A page of history is being fetched.
    Fetching,
    /// The notice of how many messages will come is being posted.
    Announcing,
    /// A message is being sent.
    Replaying,
    /// A message was delivered; the pause after it is running.
    Pacing,
    /// The notice that the replay is complete is being posted.
    Completing,
    /// A fetch failed; the notice that says so is being posted.
    Aborting(TransportError),
    /// The replay has ended.
    Done(Result<BackfillSummary, BackfillError>),
}

/// What the job asks to be done next.
#[derive(Debug, PartialEq, Eq)]
pub enum BackfillAction<'a> {
    PostNotice { destination_id: u64, text: String },
    FetchPage { source_id: u64, before: Option<u64>, limit: usize },
    Send(&'a OutboundRequest),
    Pause { millis: u64 },
    Finished(Result<BackfillSummary, BackfillError>),
}

/// What an action says.
pub enum ActionView {
    PostNotice { destination_id: u64, text: Seq<char> },
    FetchPage { source_id: u64, before: Option<u64>, limit: usize },
    Send(RequestView),
    Pause { millis: u64 },
    Finished(Result<BackfillSummary, BackfillError>),
}

impl<'a> View for BackfillAction<'a> {
    type V = ActionView;

    open spec fn view(&self) -> ActionView {
        match *self {
            BackfillAction::PostNotice { destination_id, text } => ActionView::PostNotice {
                destination_id,
                text: text@,
            },
            BackfillAction::FetchPage { source_id, before, limit } => ActionView::FetchPage {
                source_id,
                before,
                limit,
            },
            BackfillAction::Send(request) => ActionView::Send(request@),
            BackfillAction::Pause { millis } => ActionView::Pause { millis },
            BackfillAction::Finished(result) => ActionView::Finished(result),
        }
    }
}

/// How what the job asked for went.
#[derive(Debug)]
pub enum BackfillEvent {
    NoticePosted(Result<(), TransportError>),
    /// A page of history, newest message first.
    PageFetched(Result<Vec<InboundMessage>, TransportError>),
    SendCompleted(Result<(), TransportError>),
    PauseElapsed,
}

/// The notice that a replay starts.
pub open spec fn starting_notice() -> Seq<char> {
    "starting: fetching every message of this thread for transfer"@
}

/// The notice of how many messages will be transferred.
pub open spec fn count_notice(n: nat) -> Seq<char> {
    decimal(n) + " messages will be transferred"@
}

/// The notice that a replay of `n` eligible messages is complete.
pub open spec fn completed_notice(n: nat) -> Seq<char> {
    "completed: "@ + decimal(n) + " messages"@
}

/// The notice that the history could not be fetched.
pub open spec fn failure_notice() -> Seq<char> {
    "failed: the message history could not be fetched"@
}

/// What an event says.
pub enum EventView {
    NoticePosted(Result<(), TransportError>),
    PageFetched(Result<Seq<InboundMessage>, TransportError>),
    SendCompleted(Result<(), TransportError>),
    PauseElapsed,
}

impl View for BackfillEvent {
    type V = EventView;

    open spec fn view(&self) -> EventView {
        match *self {
            BackfillEvent::NoticePosted(r) => EventView::NoticePosted(r),
            BackfillEvent::PageFetched(Ok(page)) => EventView::PageFetched(Ok(page@)),
            BackfillEvent::PageFetched(Err(e)) => EventView::PageFetched(Err(e)),
            BackfillEvent::SendCompleted(r) => EventView::SendCompleted(r),
            BackfillEvent::PauseElapsed => EventView::PauseElapsed,
        }
    }
}

/// The state of a replay.
pub struct JobView {
    /// The mapping as it stood when the replay began.
    pub mapping: MappingView,
    pub zone_offset_seconds: i32,
    pub started_at: i64,
    /// How many messages have been fetched; nothing before the first page has come.
    pub total_known: Option<nat>,
    pub transferred_count: nat,
    pub skipped_count: nat,
    /// The oldest message seen so far; the next page is asked for before it.
    pub cursor: Option<u64>,
    /// The pages fetched so far, one after the other: newest message first.
    pub fetched: Seq<InboundMessage>,
    /// The messages to send, oldest first; empty until the history is complete.
    pub plan: Seq<InboundMessage>,
    /// The sending of the message in turn, while one is being sent.
    pub attempt: Option<AttemptView>,
    pub phase: Phase,
}

impl JobView {
    /// How many messages of the plan are done with, delivered or passed over.
    /// While a message is being sent, it is the one at this place in the plan.
    pub open spec fn next(self) -> nat {
        self.transferred_count + self.skipped_count
    }

    /// How the replay ends when it ends well.
    pub open spec fn summary(self) -> BackfillSummary {
        BackfillSummary {
            source_id: self.mapping.source_id,
            destination_id: self.mapping.destination_id,
            started_at: self.started_at,
            total_known: match self.total_known {
                Some(n) => n as usize,
                None => 0,
            },
            eligible: self.plan.len() as usize,
            transferred_count: self.transferred_count as usize,
            skipped_count: self.skipped_count as usize,
        }
    }

    /// The state with the message in turn taken up: its sending begins, or,
    /// where the plan is through, the notice of completion is posted.
    pub open spec fn take_up_next(self) -> JobView {
        if self.next() < self.plan.len() {
            JobView {
                phase: Phase::Replaying,
                attempt: Some(
                    fresh(
                        send_plan(
                            self.mapping,
                            self.plan[self.next() as int],
                            true,
                            self.zone_offset_seconds,
                        ),
                    ),
                ),
                ..self
            }
        } else {
            JobView { phase: Phase::Completing, attempt: None, ..self }
        }
    }

    /// The state with one more page of history.
    ///
    /// The page joins what was fetched, and its last message is the oldest
    /// seen. A full page is followed by another fetch. A page that is not
    /// full is the last: the history is put in order and the count is announced.
    pub open spec fn with_page(self, page: Seq<InboundMessage>) -> JobView {
        let all = self.fetched + page;
        let cursor = if page.len() > 0 {
            Some(page.last().message_id)
        } else {
            self.cursor
        };
        if page.len() >= PAGE_SIZE {
            JobView { fetched: all, total_known: Some(all.len()), cursor, ..self }
        } else {
            JobView {
                fetched: Seq::empty(),
                plan: replay_order(all),
                total_known: Some(all.len()),
                cursor,
                phase: Phase::Announcing,
                ..self
            }
        }
    }

    /// The state once the request in turn has come back.
    ///
    /// While another way of sending is left after a recoverable failure, the
    /// same message stays in turn. A delivered message is counted and
    /// followed by a pause. A message that could not be delivered is counted
    /// as passed over, and the next is taken up at once.
    pub open spec fn with_outcome(self, outcome: Result<(), TransportError>) -> JobView {
        let attempt = advance(self.attempt.unwrap(), outcome);
        match attempt.status {
            DispatchStatus::Pending => JobView { attempt: Some(attempt), ..self },
            DispatchStatus::Delivered => JobView {
                phase: Phase::Pacing,
                attempt: None,
                transferred_count: self.transferred_count + 1,
                ..self
            },
            DispatchStatus::Failed(_) => (JobView {
                attempt: None,
                skipped_count: self.skipped_count + 1,
                ..self
            }).take_up_next(),
        }
    }

    /// The state after an event.
    ///
    /// A notice that cannot be posted ends the replay. A fetch that fails
    /// ends it too, after a notice that says so. An event that does not
    /// answer what the job asked for changes nothing.
    pub open spec fn step(self, event: EventView) -> JobView {
        match (self.phase, event) {
            (Phase::Starting, EventView::NoticePosted(Ok(_))) => JobView {
                phase: Phase::Fetching,
                ..self
            },
            (Phase::Fetching, EventView::PageFetched(Ok(page))) => self.with_page(page),
            (Phase::Fetching, EventView::PageFetched(Err(e))) => JobView {
                phase: Phase::Aborting(e),
                ..self
            },
            (Phase::Aborting(e), EventView::NoticePosted(Ok(_))) => JobView {
                phase: Phase::Done(Err(BackfillError::Fetch(e))),
                ..self
            },
            (Phase::Announcing, EventView::NoticePosted(Ok(_))) => self.take_up_next(),
            (Phase::Replaying, EventView::SendCompleted(outcome)) => self.with_outcome(outcome),
            (Phase::Pacing, EventView::PauseElapsed) => self.take_up_next(),
            (Phase::Completing, EventView::NoticePosted(Ok(_))) => JobView {
                phase: Phase::Done(Ok(self.summary())),
                ..self
            },
            (Phase::Starting, EventView::NoticePosted(Err(e)))
            | (Phase::Aborting(_), EventView::NoticePosted(Err(e)))
            | (Phase::Announcing, EventView::NoticePosted(Err(e)))
            | (Phase::Completing, EventView::NoticePosted(Err(e))) => JobView {
                phase: Phase::Done(Err(BackfillError::Notice(e))),
                ..self
            },
            _ => self,
        }
    }

    /// What the job asks for in this state.
    pub open spec fn action(self) -> ActionView {
        match self.phase {
            Phase::Starting => ActionView::PostNotice {
                destination_id: self.mapping.destination_id,
                text: starting_notice(),
            },
            Phase::Fetching => ActionView::FetchPage {
                source_id: self.mapping.source_id,
                before: self.cursor,
                limit: PAGE_SIZE,
            },
            Phase::Announcing => ActionView::PostNotice {
                destination_id: self.mapping.destination_id,
                text: count_notice(self.plan.len()),
            },
            Phase::Replaying => ActionView::Send(
                self.attempt.unwrap().plan[self.attempt.unwrap().position as int],
            ),
            Phase::Pacing => ActionView::Pause { millis: PACING_MILLIS },
            Phase::Completing => ActionView::PostNotice {
                destination_id: self.mapping.destination_id,
                text: completed_notice(self.plan.len()),
            },
            Phase::Aborting(_) => ActionView::PostNotice {
                destination_id: self.mapping.destination_id,
                text: failure_notice(),
            },
            Phase::Done(result) => ActionView::Finished(result),
        }
    }

    /// What holds of every state a job passes through: the counts stay within
    /// the plan, and the message being sent is the one in turn.
    pub open spec fn consistent(self) -> bool {
        &&& self.next() <= self.plan.len()
        &&& self.phase == Phase::Replaying ==> {
            &&& self.next() < self.plan.len()
            &&& self.attempt is Some
            &&& self.attempt.unwrap().status == DispatchStatus::Pending
            &&& self.attempt.unwrap().position < self.attempt.unwrap().plan.len()
            &&& self.attempt.unwrap().plan == send_plan(
                self.mapping,
                self.plan[self.next() as int],
                true,
                self.zone_offset_seconds,
            )
        }
        &&& (self.phase == Phase::Starting || self.phase == Phase::Fetching
            || self.phase is Aborting) ==> self.plan.len() == 0
    }
}

/// The state a replay for `mapping` begins in.
pub open spec fn initial(mapping: MappingView, started_at: i64, zone_offset_seconds: i32)
    -> JobView {
    JobView {
        mapping,
        zone_offset_seconds,
        started_at,
        total_known: None,
        transferred_count: 0,
        skipped_count: 0,
        cursor: None,
        fetched: Seq::empty(),
        plan: Seq::empty(),
        attempt: None,
        phase: Phase::Starting,
    }
}

/// One step back in a history: the oldest message comes first in the
/// replay if it is eligible, and the rest follows in its own replay order.
pub proof fn lemma_replay_oldest_first(newest_first: Seq<InboundMessage>)
    requires
        newest_first.len() > 0,
    ensures
        replay_order(newest_first) == (if newest_first.last().is_eligible() {
            seq![newest_first.last()]
        } else {
            Seq::empty()
        }) + replay_order(newest_first.drop_last()),
{
    let eligible = |m: InboundMessage| m.is_eligible();
    let rest = newest_first.drop_last();
    assert(newest_first.reverse() =~= seq![newest_first.last()] + rest.reverse());
    rest.reverse().lemma_filter_prepend(newest_first.last(), eligible);
}

/// Puts a fetched history into the order of the replay.
fn plan_replay(fetched: Vec<InboundMessage>) -> (plan: Vec<InboundMessage>)
    ensures
        plan@ == replay_order(fetched@),
{
    let mut rest = fetched;
    let mut plan: Vec<InboundMessage> = Vec::new();
    assert(Seq::<InboundMessage>::empty() + replay_order(rest@) == replay_order(rest@));
    loop
        invariant
            plan@ + replay_order(rest@) == replay_order(fetched@),
        ensures
            rest@.len() == 0,
        decreases rest@.len(),
    {
        let ghost before = rest@;
        match rest.pop() {
            Some(message) => {
                proof {
                    lemma_replay_oldest_first(before);
                    assert(rest@ == before.drop_last());
                }
                if is_regular_user_message(&message) {
                    assert(plan@.push(message) + replay_order(rest@) == plan@ + (seq![message]
                        + replay_order(rest@)));
                    plan.push(message);
                } else {
                    assert(Seq::<InboundMessage>::empty() + replay_order(rest@) == replay_order(
                        rest@,
                    ));
                }
            },
            None => {
                break;
            },
        }
    }
    proof {
        let eligible = |m: InboundMessage| m.is_eligible();
        assert(rest@.reverse() =~= Seq::<InboundMessage>::empty());
        assert(rest@.reverse().filter(eligible).len() <= 0) by {
            rest@.reverse().lemma_filter_len(eligible);
        }
        assert(replay_order(rest@) =~= Seq::<InboundMessage>::empty());
        assert(plan@ + Seq::<InboundMessage>::empty() == plan@);
    }
    plan
}

/// A replay of one source's history into its destination.
#[derive(Debug)]
pub struct BackfillJob {
    mapping: Mapping,
    zone_offset_seconds: i32,
    started_at: i64,
    total_known: Option<usize>,
    transferred_count: usize,
    skipped_count: usize,
    cursor: Option<u64>,
    fetched: Vec<InboundMessage>,
    plan: Vec<InboundMessage>,
    attempt: Option<DispatchAttempt>,
    phase: Phase,
}

/// An optional count as a number.
pub open spec fn opt_nat(n: Option<usize>) -> Option<nat> {
    match n {
        Some(n) => Some(n as nat),
        None => None,
    }
}

/// What an optional attempt says.
pub open spec fn opt_attempt(a: Option<DispatchAttempt>) -> Option<AttemptView> {
    match a {
        Some(a) => Some(a@),
        None => None,
    }
}

impl View for BackfillJob {
    type V = JobView;

    closed spec fn view(&self) -> JobView {
        JobView {
            mapping: self.mapping@,
            zone_offset_seconds: self.zone_offset_seconds,
            started_at: self.started_at,
            total_known: opt_nat(self.total_known),
            transferred_count: self.transferred_count as nat,
            skipped_count: self.skipped_count as nat,
            cursor: self.cursor,
            fetched: self.fetched@,
            plan: self.plan@,
            attempt: opt_attempt(self.attempt),
            phase: self.phase,
        }
    }
}

impl BackfillJob {
    #[verifier::type_invariant]
    spec fn well_formed(self) -> bool {
        self@.consistent()
    }

    /// Begins a replay for `mapping`. Nothing has happened yet: the first
    /// thing the job asks for is the notice that the replay starts.
    pub fn begin(mapping: Mapping, started_at: i64, zone_offset_seconds: i32) -> (job: Self)
        ensures
            job@ == initial(mapping@, started_at, zone_offset_seconds),
            job@.consistent(),
    {
        BackfillJob {
            mapping,
            zone_offset_seconds,
            started_at,
            total_known: None,
            transferred_count: 0,
            skipped_count: 0,
            cursor: None,
            fetched: Vec::new(),
            plan: Vec::new(),
            attempt: None,
            phase: Phase::Starting,
        }
    }

    /// The source whose history is replayed.
    pub fn source_id(&self) -> (id: u64)
        ensures
            id == self@.mapping.source_id,
    {
        self.mapping.source_id
    }

    /// The destination of the replay.
    pub fn destination_id(&self) -> (id: u64)
        ensures
            id == self@.mapping.destination_id,
    {
        self.mapping.destination_id
    }

    /// When the replay began.
    pub fn started_at(&self) -> (at: i64)
        ensures
            at == self@.started_at,
    {
        self.started_at
    }

    /// How many messages have been fetched, once the first page has come.
    pub fn total_known(&self) -> (n: Option<usize>)
        ensures
            opt_nat(n) == self@.total_known,
    {
        self.total_known
    }

    /// How many messages have been delivered.
    pub fn transferred_count(&self) -> (n: usize)
        ensures
            n == self@.transferred_count,
    {
        self.transferred_count
    }

    /// The oldest message seen so far.
    pub fn cursor(&self) -> (cursor: Option<u64>)
        ensures
            cursor == self@.cursor,
    {
        self.cursor
    }

    /// Where the replay stands.
    pub fn phase(&self) -> (phase: Phase)
        ensures
            phase == self@.phase,
    {
        self.phase
    }

    /// Whether the replay has ended.
    pub fn is_finished(&self) -> (finished: bool)
        ensures
            finished == (self@.phase is Done),
    {
        match self.phase {
            Phase::Done(_) => true,
            _ => false,
        }
    }
}

fn counted_notice(before: &str, n: usize, after: &str) -> (text: String)
    ensures
        text@ == before@ + decimal(n as nat) + after@,
{
    let mut text = String::from_str(before);
    push_decimal(&mut text, n as u64);
    text.append(after);
    text
}

impl BackfillJob {
    /// What is to be done next.
    pub fn action(&self) -> (action: BackfillAction<'_>)
        ensures
            action@ == self@.action(),
    {
        proof {
            use_type_invariant(self);
        }
        let destination_id: u64 = self.mapping.destination_id;
        match self.phase {
            Phase::Starting => BackfillAction::PostNotice {
                destination_id,
                text: String::from_str(
                    "starting: fetching every message of this thread for transfer",
                ),
            },
            Phase::Fetching => BackfillAction::FetchPage {
                source_id: self.mapping.source_id,
                before: self.cursor,
                limit: PAGE_SIZE,
            },
            Phase::Announcing => {
                let text = counted_notice("", self.plan.len(), " messages will be transferred");
                proof {
                    reveal_strlit("");
                    assert(""@ + decimal(self.plan.len() as nat) == decimal(
                        self.plan.len() as nat,
                    ));
                }
                BackfillAction::PostNotice { destination_id, text }
            },
            Phase::Replaying => match &self.attempt {
                Some(attempt) => match attempt.pending() {
                    Some(request) => BackfillAction::Send(request),
                    None => vstd::pervasive::unreached(),
                },
                None => vstd::pervasive::unreached(),
            },
            Phase::Pacing => BackfillAction::Pause { millis: PACING_MILLIS },
            Phase::Completing => BackfillAction::PostNotice {
                destination_id,
                text: counted_notice("completed: ", self.plan.len(), " messages"),
            },
            Phase::Aborting(_) => BackfillAction::PostNotice {
                destination_id,
                text: String::from_str("failed: the message history could not be fetched"),
            },
            Phase::Done(result) => BackfillAction::Finished(result),
        }
    }
}

impl BackfillJob {
    /// The job with the message in turn taken up: its sending begins, or,
    /// where the plan is through, the notice of completion is asked for.
    fn take_up_next(self) -> (job: Self)
        requires
            self.transferred_count + self.skipped_count <= self.plan.len(),
        ensures
            job@ == self@.take_up_next(),
            job@.consistent(),
    {
        let next: usize = self.transferred_count + self.skipped_count;
        if next < self.plan.len() {
            proof {
                crate::dispatch::lemma_plan_order(
                    self.mapping@,
                    self.plan@[next as int],
                    true,
                    self.zone_offset_seconds,
                );
            }
            let attempt = DispatchAttempt::start(
                &self.mapping,
                &self.plan[next],
                true,
                self.zone_offset_seconds,
            );
            BackfillJob { attempt: Some(attempt), phase: Phase::Replaying, ..self }
        } else {
            BackfillJob { attempt: None, phase: Phase::Completing, ..self }
        }
    }

    /// The job in another phase, where the phase is not that of a send.
    fn in_phase(self, phase: Phase) -> (job: Self)
        requires
            self@.consistent(),
            phase != Phase::Replaying,
            (phase == Phase::Starting || phase == Phase::Fetching || phase is Aborting)
                ==> self.plan@.len() == 0,
        ensures
            job@ == (JobView { phase, ..self@ }),
            job@.consistent(),
    {
        BackfillJob { phase, ..self }
    }

    fn after_notice(self, posted: Result<(), TransportError>) -> (job: Self)
        requires
            self@.consistent(),
        ensures
            job@ == self@.step(EventView::NoticePosted(posted)),
            job@.consistent(),
    {
        match (self.phase, posted) {
            (Phase::Starting, Ok(_)) => self.in_phase(Phase::Fetching),
            (Phase::Aborting(e), Ok(_)) => self.in_phase(Phase::Done(Err(BackfillError::Fetch(e)))),
            (Phase::Announcing, Ok(_)) => self.take_up_next(),
            (Phase::Completing, Ok(_)) => {
                let summary = BackfillSummary {
                    source_id: self.mapping.source_id,
                    destination_id: self.mapping.destination_id,
                    started_at: self.started_at,
                    total_known: match self.total_known {
                        Some(n) => n,
                        None => 0,
                    },
                    eligible: self.plan.len(),
                    transferred_count: self.transferred_count,
                    skipped_count: self.skipped_count,
                };
                self.in_phase(Phase::Done(Ok(summary)))
            },
            (Phase::Starting, Err(e))
            | (Phase::Aborting(_), Err(e))
            | (Phase::Announcing, Err(e))
            | (Phase::Completing, Err(e)) => self.in_phase(
                Phase::Done(Err(BackfillError::Notice(e))),
            ),
            _ => self,
        }
    }

    fn after_fetch(self, fetch: Result<Vec<InboundMessage>, TransportError>) -> (job: Self)
        requires
            self@.consistent(),
        ensures
            job@ == self@.step(
                EventView::PageFetched(
                    match fetch {
                        Ok(page) => Ok(page@),
                        Err(e) => Err(e),
                    },
                ),
            ),
            job@.consistent(),
    {
        match (self.phase, fetch) {
            (Phase::Fetching, Ok(page)) => {
                let mut page = page;
                let full: bool = page.len() >= PAGE_SIZE;
                let cursor = if page.len() > 0 {
                    Some(page[page.len() - 1].message_id)
                } else {
                    self.cursor
                };
                let BackfillJob {
                    mapping,
                    zone_offset_seconds,
                    started_at,
                    transferred_count,
                    skipped_count,
                    fetched,
                    plan,
                    attempt,
                    ..
                } = self;
                let mut fetched = fetched;
                fetched.append(&mut page);
                let total_known = Some(fetched.len());
                let (fetched, plan, phase) = if full {
                    (fetched, plan, Phase::Fetching)
                } else {
                    (Vec::new(), plan_replay(fetched), Phase::Announcing)
                };
                BackfillJob {
                    mapping,
                    zone_offset_seconds,
                    started_at,
                    total_known,
                    transferred_count,
                    skipped_count,
                    cursor,
                    fetched,
                    plan,
                    attempt,
                    phase,
                }
            },
            (Phase::Fetching, Err(e)) => self.in_phase(Phase::Aborting(e)),
            _ => self,
        }
    }

    fn after_send(self, outcome: Result<(), TransportError>) -> (job: Self)
        requires
            self@.consistent(),
        ensures
            job@ == self@.step(EventView::SendCompleted(outcome)),
            job@.consistent(),
    {
        let ghost before = self@;
        let BackfillJob {
            mapping,
            zone_offset_seconds,
            started_at,
            total_known,
            transferred_count,
            skipped_count,
            cursor,
            fetched,
            plan,
            attempt,
            phase,
        } = self;
        assert(before.next() == transferred_count + skipped_count);
        assert(before.plan == plan@);
        match (phase, attempt) {
            (Phase::Replaying, Some(attempt)) => {
                let mut attempt = attempt;
                let status = attempt.record(outcome);
                // One message more is done with, unless another way of sending is left.
                let (attempt, phase, delivered, skipped): (
                    Option<DispatchAttempt>,
                    Phase,
                    usize,
                    usize,
                ) = match status {
                    DispatchStatus::Pending => (Some(attempt), Phase::Replaying, 0, 0),
                    DispatchStatus::Delivered => (None, Phase::Pacing, 1, 0),
                    DispatchStatus::Failed(_) => (None, Phase::Pacing, 0, 1),
                };
                assert(transferred_count + skipped_count < plan.len());
                assert(delivered + skipped <= 1);
                let job = BackfillJob {
                    mapping,
                    zone_offset_seconds,
                    started_at,
                    total_known,
                    transferred_count: transferred_count + delivered,
                    skipped_count: skipped_count + skipped,
                    cursor,
                    fetched,
                    plan,
                    attempt,
                    phase,
                };
                if skipped == 1 {
                    job.take_up_next()
                } else {
                    job
                }
            },
            (phase, attempt) => BackfillJob {
                mapping,
                zone_offset_seconds,
                started_at,
                total_known,
                transferred_count,
                skipped_count,
                cursor,
                fetched,
                plan,
                attempt,
                phase,
            },
        }
    }

    /// The job after `event`: what was asked for has been done, and this is
    /// how it went.
    pub fn step(self, event: BackfillEvent) -> (job: Self)
        ensures
            job@ == self@.step(event@),
            job@.consistent(),
    {
        proof {
            use_type_invariant(&self);
        }
        match event {
            BackfillEvent::NoticePosted(posted) => self.after_notice(posted),
            BackfillEvent::PageFetched(fetch) => self.after_fetch(fetch),
            BackfillEvent::SendCompleted(outcome) => self.after_send(outcome),
            BackfillEvent::PauseElapsed => match self.phase {
                Phase::Pacing => self.take_up_next(),
                _ => self,
            },
        }
    }
}

} // verus!
