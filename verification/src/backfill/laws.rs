//! What holds of every replay: the order of the sends, and that a replay
//! comes to its end.

use crate::backfill::{initial, replay_order, EventView, JobView, Phase, PAGE_SIZE};
use crate::dispatch::lemma_plan_order;
use crate::message::InboundMessage;
use crate::registry::MappingView;
use vstd::prelude::*;

verus! {

/// The state after a run of events, each taken in its turn.
pub open spec fn run(a: JobView, events: Seq<EventView>) -> JobView
    decreases events.len(),
{
    if events.len() == 0 {
        a
    } else {
        run(a, events.drop_last()).step(events.last())
    }
}

/// The pages of a whole history, as fetched: every page full but the last.
pub open spec fn pages_complete(pages: Seq<Seq<InboundMessage>>) -> bool {
    &&& pages.len() > 0
    &&& forall|i: int| 0 <= i < pages.len() - 1 ==> (#[trigger] pages[i]).len() >= PAGE_SIZE
    &&& pages.last().len() < PAGE_SIZE
}

/// The events that report the pages one by one.
pub open spec fn page_events(pages: Seq<Seq<InboundMessage>>) -> Seq<EventView> {
    Seq::new(pages.len(), |i: int| EventView::PageFetched(Ok(pages[i])))
}

/// Only eligible messages are replayed: none by an automated author, none
/// that the platform wrote itself.
pub proof fn lemma_replay_only_eligible(newest_first: Seq<InboundMessage>, i: int)
    requires
        0 <= i < replay_order(newest_first).len(),
    ensures
        replay_order(newest_first)[i].is_eligible(),
        !replay_order(newest_first)[i].is_automated_author,
{
    let eligible = |m: InboundMessage| m.is_eligible();
    newest_first.reverse().lemma_filter_pred(eligible, i);
}

/// A history that was written in the order `chronological` and is fetched
/// newest first is replayed in the order it was written in, less what is not
/// eligible.
pub proof fn lemma_replay_is_chronological(chronological: Seq<InboundMessage>)
    ensures
        replay_order(chronological.reverse()) == chronological.filter(
            |m: InboundMessage| m.is_eligible(),
        ),
{
    assert(chronological.reverse().reverse() =~= chronological);
}

/// While full pages come in, the job goes on fetching and keeps them in the
/// order they came in.
pub proof fn lemma_full_pages_accumulate(a: JobView, pages: Seq<Seq<InboundMessage>>)
    requires
        a.phase == Phase::Fetching,
        forall|i: int| 0 <= i < pages.len() ==> (#[trigger] pages[i]).len() >= PAGE_SIZE,
    ensures
        run(a, page_events(pages)).phase == Phase::Fetching,
        run(a, page_events(pages)).fetched == a.fetched + pages.flatten(),
        run(a, page_events(pages)).plan == a.plan,
        run(a, page_events(pages)).mapping == a.mapping,
        run(a, page_events(pages)).transferred_count == a.transferred_count,
        run(a, page_events(pages)).skipped_count == a.skipped_count,
    decreases pages.len(),
{
    if pages.len() == 0 {
        assert(a.fetched + pages.flatten() == a.fetched);
    } else {
        let earlier = pages.drop_last();
        lemma_full_pages_accumulate(a, earlier);
        assert(page_events(pages).drop_last() == page_events(earlier));
        assert(pages == earlier.push(pages.last()));
        earlier.lemma_flatten_push(pages.last());
        assert(a.fetched + earlier.flatten() + pages.last() == a.fetched + (earlier.flatten()
            + pages.last()));
    }
}

/// When the last page has come in, the plan is the whole history in replay order.
pub proof fn lemma_pages_become_plan(a: JobView, pages: Seq<Seq<InboundMessage>>)
    requires
        a.phase == Phase::Fetching,
        pages_complete(pages),
    ensures
        run(a, page_events(pages)).phase == Phase::Announcing,
        run(a, page_events(pages)).plan == replay_order(a.fetched + pages.flatten()),
        run(a, page_events(pages)).total_known == Some((a.fetched + pages.flatten()).len()),
{
    let earlier = pages.drop_last();
    lemma_full_pages_accumulate(a, earlier);
    assert(page_events(pages).drop_last() == page_events(earlier));
    assert(pages == earlier.push(pages.last()));
    earlier.lemma_flatten_push(pages.last());
    assert(a.fetched + earlier.flatten() + pages.last() == a.fetched + (earlier.flatten()
        + pages.last()));
}

/// The messages of a source are sent in the order they were written in,
/// however the history is cut into pages: where the pages, in the order they
/// are fetched, hold the history newest first, the plan is the eligible
/// messages oldest first.
pub proof fn lemma_backfill_keeps_written_order(
    mapping: MappingView,
    started_at: i64,
    zone_offset_seconds: i32,
    chronological: Seq<InboundMessage>,
    pages: Seq<Seq<InboundMessage>>,
)
    requires
        pages_complete(pages),
        pages.flatten() == chronological.reverse(),
    ensures
        ({
            let fetching = initial(mapping, started_at, zone_offset_seconds).step(
                EventView::NoticePosted(Ok(())),
            );
            let planned = run(fetching, page_events(pages));
            &&& planned.phase == Phase::Announcing
            &&& planned.plan == chronological.filter(|m: InboundMessage| m.is_eligible())
        }),
{
    let fetching = initial(mapping, started_at, zone_offset_seconds).step(
        EventView::NoticePosted(Ok(())),
    );
    lemma_pages_become_plan(fetching, pages);
    assert(fetching.fetched + pages.flatten() == pages.flatten());
    lemma_replay_is_chronological(chronological);
}

/// Every step keeps the state consistent, leaves the plan as it is once it
/// is made, and moves on by one message at most. So the messages are taken
/// up one after the other in the order of the plan, and while one is being
/// sent, it is the one in turn.
pub proof fn lemma_step_keeps_order(a: JobView, event: EventView)
    requires
        a.consistent(),
    ensures
        a.step(event).consistent(),
        a.step(event).mapping == a.mapping,
        a.phase != Phase::Fetching ==> a.step(event).plan == a.plan,
        a.step(event).next() == a.next() || a.step(event).next() == a.next() + 1,
        a.step(event).next() == a.next() + 1 ==> a.phase == Phase::Replaying,
        a.step(event).transferred_count == a.transferred_count + 1 ==> (event
            matches EventView::SendCompleted(outcome) && outcome is Ok),
{
    match (a.phase, event) {
        (Phase::Replaying, EventView::SendCompleted(_)) => {
            let after = JobView {
                attempt: None,
                skipped_count: a.skipped_count + 1,
                ..a
            };
            if after.next() < after.plan.len() {
                lemma_plan_order(
                    a.mapping,
                    a.plan[after.next() as int],
                    true,
                    a.zone_offset_seconds,
                );
            }
        },
        (Phase::Announcing, EventView::NoticePosted(Ok(_)))
        | (Phase::Pacing, EventView::PauseElapsed) => {
            if a.next() < a.plan.len() {
                lemma_plan_order(
                    a.mapping,
                    a.plan[a.next() as int],
                    true,
                    a.zone_offset_seconds,
                );
            }
        },
        _ => {},
    }
}

/// A finished job stays finished: no event makes it ask for anything more.
pub proof fn lemma_done_is_final(a: JobView, event: EventView)
    requires
        a.phase is Done,
    ensures
        a.step(event) == a,
{
}

impl JobView {
    /// How many messages of the plan have been taken up: those that are done
    /// with, and the one that is being sent.
    pub open spec fn taken_up(self) -> nat {
        if self.phase == Phase::Replaying {
            self.next() + 1
        } else {
            self.next()
        }
    }
}

/// The messages whose sending begins in a run of events, in the order in
/// which it begins.
pub open spec fn sends_begun(a: JobView, events: Seq<EventView>) -> Seq<InboundMessage>
    decreases events.len(),
{
    if events.len() == 0 {
        Seq::empty()
    } else {
        let before = run(a, events.drop_last());
        let after = before.step(events.last());
        let earlier = sends_begun(a, events.drop_last());
        if after.taken_up() > before.taken_up() {
            earlier.push(after.plan[after.next() as int])
        } else {
            earlier
        }
    }
}

/// A step takes up one message at most, and the message it takes up is the
/// next of the plan.
pub proof fn lemma_step_takes_up_next(a: JobView, event: EventView)
    requires
        a.consistent(),
    ensures
        a.step(event).taken_up() == a.taken_up() || (a.step(event).taken_up() == a.taken_up() + 1
            && a.step(event).phase == Phase::Replaying && a.step(event).next() == a.taken_up()),
        a.step(event).taken_up() <= a.step(event).plan.len(),
{
    lemma_step_keeps_order(a, event);
}

/// Whatever happens in a replay, the messages are sent in the order of the
/// plan, each once at most: the messages whose sending has begun are the
/// first of the plan, as many as have been taken up.
pub proof fn lemma_sends_follow_plan(
    mapping: MappingView,
    started_at: i64,
    zone_offset_seconds: i32,
    events: Seq<EventView>,
)
    ensures
        ({
            let start = initial(mapping, started_at, zone_offset_seconds);
            let end = run(start, events);
            &&& end.consistent()
            &&& end.taken_up() <= end.plan.len()
            &&& sends_begun(start, events) == end.plan.take(end.taken_up() as int)
        }),
    decreases events.len(),
{
    let start = initial(mapping, started_at, zone_offset_seconds);
    if events.len() == 0 {
        assert(start.plan.take(0) == Seq::<InboundMessage>::empty());
    } else {
        lemma_sends_follow_plan(mapping, started_at, zone_offset_seconds, events.drop_last());
        let before = run(start, events.drop_last());
        let after = before.step(events.last());
        lemma_step_keeps_order(before, events.last());
        lemma_step_takes_up_next(before, events.last());
        if before.phase == Phase::Fetching {
            assert(before.taken_up() == 0);
            assert(after.taken_up() == 0);
            assert(after.plan.take(0) == before.plan.take(0));
        } else {
            let k = before.taken_up() as int;
            if after.taken_up() > before.taken_up() {
                assert(after.plan.take(k + 1) == after.plan.take(k).push(after.plan[k]));
            }
        }
    }
}

/// A run of events in two parts is the run of the second part after the first.
pub proof fn lemma_run_in_parts(a: JobView, first: Seq<EventView>, second: Seq<EventView>)
    ensures
        run(a, first + second) == run(run(a, first), second),
    decreases second.len(),
{
    if second.len() == 0 {
        assert(first + second == first);
    } else {
        lemma_run_in_parts(a, first, second.drop_last());
        assert((first + second).drop_last() == first + second.drop_last());
        assert((first + second).last() == second.last());
    }
}

impl JobView {
    /// The history has been fetched and put in order.
    pub open spec fn is_planned(self) -> bool {
        self.phase == Phase::Announcing || self.phase == Phase::Replaying || self.phase
            == Phase::Pacing || self.phase == Phase::Completing || self.phase is Done
    }
}

/// Once the plan is made, nothing changes it: no later event adds a
/// message to it, takes one away, or puts two in another order.
pub proof fn lemma_plan_stays(a: JobView, events: Seq<EventView>)
    requires
        a.consistent(),
        a.is_planned(),
    ensures
        run(a, events).plan == a.plan,
        run(a, events).is_planned(),
        run(a, events).consistent(),
    decreases events.len(),
{
    if events.len() > 0 {
        lemma_plan_stays(a, events.drop_last());
        lemma_step_keeps_order(run(a, events.drop_last()), events.last());
    }
}

/// The sends of a replay occur in the order the messages were written in,
/// whatever the order the history is fetched in and whatever happens after:
/// where the pages hold the history newest first, the messages whose sending
/// has begun are, at every moment, the first of the eligible messages in the
/// order they were written in.
pub proof fn lemma_backfill_sends_in_written_order(
    mapping: MappingView,
    started_at: i64,
    zone_offset_seconds: i32,
    chronological: Seq<InboundMessage>,
    pages: Seq<Seq<InboundMessage>>,
    later: Seq<EventView>,
)
    requires
        pages_complete(pages),
        pages.flatten() == chronological.reverse(),
    ensures
        ({
            let start = initial(mapping, started_at, zone_offset_seconds);
            let events = seq![EventView::NoticePosted(Ok(()))] + page_events(pages) + later;
            let eligible = chronological.filter(|m: InboundMessage| m.is_eligible());
            &&& run(start, events).taken_up() <= eligible.len()
            &&& sends_begun(start, events) == eligible.take(run(start, events).taken_up() as int)
        }),
{
    let start = initial(mapping, started_at, zone_offset_seconds);
    let notice = seq![EventView::NoticePosted(Ok(()))];
    let fetching = start.step(EventView::NoticePosted(Ok(())));
    assert(run(start, notice) == fetching) by {
        assert(notice.drop_last() == Seq::<EventView>::empty());
        assert(run(start, notice.drop_last()) == start);
    }
    lemma_backfill_keeps_written_order(mapping, started_at, zone_offset_seconds, chronological, pages);
    let planned = run(fetching, page_events(pages));
    lemma_run_in_parts(start, notice, page_events(pages));
    lemma_sends_follow_plan(mapping, started_at, zone_offset_seconds, notice + page_events(pages));
    lemma_run_in_parts(start, notice + page_events(pages), later);
    lemma_plan_stays(planned, later);
    lemma_sends_follow_plan(
        mapping,
        started_at,
        zone_offset_seconds,
        notice + page_events(pages) + later,
    );
}

impl JobView {
    /// Whether `event` reports on what the job asked for in this state.
    pub open spec fn answers(self, event: EventView) -> bool {
        match self.phase {
            Phase::Starting | Phase::Announcing | Phase::Completing | Phase::Aborting(_) => event
                is NoticePosted,
            Phase::Fetching => event is PageFetched,
            Phase::Replaying => event is SendCompleted,
            Phase::Pacing => event is PauseElapsed,
            Phase::Done(_) => false,
        }
    }

    /// A bound on the answers that a planned replay still waits for before
    /// it has ended: five for each message that is not done with, a send by
    /// each way of sending and a pause among them, and the notices.
    pub open spec fn work_left(self) -> int {
        let messages = self.plan.len() - self.next();
        match self.phase {
            Phase::Announcing => 5 * messages + 3,
            Phase::Pacing => 5 * messages + 2,
            Phase::Replaying => 5 * messages - 2 + (self.attempt.unwrap().plan.len()
                - self.attempt.unwrap().position),
            Phase::Completing => 1,
            _ => 0,
        }
    }
}

/// A planned replay moves on with every answer: each takes at least one
/// from the work that is left, so after five answers for each eligible message
/// and three more, at the most, the replay has ended.
pub proof fn lemma_replay_moves_on(a: JobView, event: EventView)
    requires
        a.consistent(),
        a.is_planned(),
        a.answers(event),
    ensures
        0 <= a.step(event).work_left() < a.work_left(),
        a.work_left() <= 5 * a.plan.len() + 3,
        a.step(event).work_left() == 0 <==> a.step(event).phase is Done,
{
    lemma_step_keeps_order(a, event);
    let after = a.step(event);
    if after.phase == Phase::Replaying {
        lemma_plan_order(
            after.mapping,
            after.plan[after.next() as int],
            true,
            after.zone_offset_seconds,
        );
    }
    if a.phase == Phase::Replaying {
        lemma_plan_order(
            a.mapping,
            a.plan[a.next() as int],
            true,
            a.zone_offset_seconds,
        );
    }
}

} // verus!
