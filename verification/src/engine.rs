//! The forwarding engine: it owns the mappings, looks at every message that
//! comes in, and decides what becomes of it.

use crate::backfill::{initial, BackfillJob, JobView};
use crate::command::{command_of, parse_command, CommandView, ControlCommand};
use crate::dispatch::{fresh, send_plan, AttemptView, DispatchAttempt};
use crate::endpoint::{is_valid_endpoint, is_webhook_url};
use crate::error::{AlreadyRunning, InvalidEndpoint, NotBound};
use crate::message::{opt_text, ChannelKind, InboundMessage};
use crate::text::{decimal, push_decimal};
use crate::registry::{Mapping, MappingRegistry, MappingView};
use std::collections::HashSet;
use vstd::prelude::*;
use vstd::string::StringExecFns;

verus! {

broadcast use vstd::std_specs::hash::group_hash_axioms;

/// Why a message is passed over.
#[derive(Clone, Copy, Debug, PartialEq, Eq)]
pub enum IgnoreReason {
    /// The author is automated: its posts may be this program's own.
    AutomatedAuthor,
    /// The platform wrote the message itself.
    SystemGenerated,
    /// The conversation is not a thread.
    NotAThread,
    /// The conversation has no mapping.
    Unmapped,
}

/// Why a command is turned down. The member who gave it is told.
#[derive(Clone, Copy, Debug, PartialEq, Eq)]
pub enum Rejection {
    NotBound(NotBound),
    AlreadyRunning(AlreadyRunning),
    InvalidEndpoint(InvalidEndpoint),
}

/// What becomes of a message that came in.
#[derive(Debug)]
pub enum Disposition {
    /// Nothing is done.
    Ignored(IgnoreReason),
    /// A command was turned down.
    Rejected(Rejection),
    /// The conversation has been mapped to a destination.
    Bound { source_id: u64, destination_id: u64, backfill_on_demand: bool },
    /// The conversation's authors are impersonated from now on.
    TransportSet { source_id: u64 },
    /// The history of the conversation is to be replayed by this job.
    BackfillRequested(BackfillJob),
    /// The message is to be sent on by this attempt.
    Dispatching(DispatchAttempt),
}

/// What a disposition says.
pub enum DispositionView {
    Ignored(IgnoreReason),
    Rejected(Rejection),
    Bound { source_id: u64, destination_id: u64, backfill_on_demand: bool },
    TransportSet { source_id: u64 },
    BackfillRequested(JobView),
    Dispatching(AttemptView),
}

impl View for Disposition {
    type V = DispositionView;

    open spec fn view(&self) -> DispositionView {
        match *self {
            Disposition::Ignored(reason) => DispositionView::Ignored(reason),
            Disposition::Rejected(rejection) => DispositionView::Rejected(rejection),
            Disposition::Bound { source_id, destination_id, backfill_on_demand } => {
                DispositionView::Bound { source_id, destination_id, backfill_on_demand }
            },
            Disposition::TransportSet { source_id } => DispositionView::TransportSet { source_id },
            Disposition::BackfillRequested(job) => DispositionView::BackfillRequested(job@),
            Disposition::Dispatching(attempt) => DispositionView::Dispatching(attempt@),
        }
    }
}

/// The state of the engine.
pub struct EngineView {
    pub registry: Map<u64, MappingView>,
    /// The sources whose history is being replayed.
    pub running: Set<u64>,
    pub zone_offset_seconds: i32,
}

/// Whether a message asks for a replay: by `!all`, or by `!start` where the
/// mapping allows replays on demand.
pub open spec fn wants_backfill(command: Option<CommandView>, mapping: MappingView) -> bool {
    command == Some(CommandView::TriggerBackfill) || (command == Some(CommandView::AutoBackfill)
        && mapping.backfill_on_demand)
}

impl EngineView {
    /// What becomes of a message.
    ///
    /// Messages of automated authors and of the platform itself are passed
    /// over, and so are messages outside threads. A command to map the
    /// conversation is carried out. A command to set the endpoint is carried out
    /// where the conversation is mapped and the address has the shape of an
    /// endpoint. Anything else in a conversation without mapping is passed
    /// over. In a mapped conversation, a request for a replay is granted
    /// unless a replay of the conversation is under way; everything else is
    /// content and is sent on.
    pub open spec fn decide(self, msg: InboundMessage, kind: ChannelKind, now: i64)
        -> DispositionView {
        let source_id = msg.source_id;
        if msg.is_automated_author {
            DispositionView::Ignored(IgnoreReason::AutomatedAuthor)
        } else if msg.is_system_generated {
            DispositionView::Ignored(IgnoreReason::SystemGenerated)
        } else if !kind.is_thread() {
            DispositionView::Ignored(IgnoreReason::NotAThread)
        } else {
            match command_of(msg.body@) {
                Some(CommandView::Bind { destination_id, backfill_on_demand }) => {
                    DispositionView::Bound { source_id, destination_id, backfill_on_demand }
                },
                Some(CommandView::SetTransport { endpoint }) => {
                    if !self.registry.contains_key(source_id) {
                        DispositionView::Rejected(Rejection::NotBound(NotBound { source_id }))
                    } else if !is_webhook_url(endpoint) {
                        DispositionView::Rejected(Rejection::InvalidEndpoint(InvalidEndpoint))
                    } else {
                        DispositionView::TransportSet { source_id }
                    }
                },
                command => {
                    if !self.registry.contains_key(source_id) {
                        DispositionView::Ignored(IgnoreReason::Unmapped)
                    } else if wants_backfill(command, self.registry[source_id]) {
                        if self.running.contains(source_id) {
                            DispositionView::Rejected(
                                Rejection::AlreadyRunning(AlreadyRunning { source_id }),
                            )
                        } else {
                            DispositionView::BackfillRequested(
                                initial(self.registry[source_id], now, self.zone_offset_seconds),
                            )
                        }
                    } else {
                        DispositionView::Dispatching(
                            fresh(
                                send_plan(
                                    self.registry[source_id],
                                    msg,
                                    false,
                                    self.zone_offset_seconds,
                                ),
                            ),
                        )
                    }
                },
            }
        }
    }

    /// The state of the engine after a message.
    ///
    /// Mapping a conversation and setting its endpoint change the registry.
    /// A replay that is granted marks its source as running. Nothing else
    /// changes anything.
    pub open spec fn after(self, msg: InboundMessage, kind: ChannelKind) -> EngineView {
        let source_id = msg.source_id;
        match self.decide(msg, kind, 0) {
            DispositionView::Bound { source_id, destination_id, backfill_on_demand } => EngineView {
                registry: self.registry.insert(
                    source_id,
                    MappingView {
                        source_id,
                        destination_id,
                        backfill_on_demand,
                        impersonation_endpoint: None,
                    },
                ),
                ..self
            },
            DispositionView::TransportSet { source_id } => EngineView {
                registry: self.registry.insert(
                    source_id,
                    MappingView {
                        impersonation_endpoint: Some(
                            command_of(msg.body@).unwrap()->endpoint,
                        ),
                        ..self.registry[source_id]
                    },
                ),
                ..self
            },
            DispositionView::BackfillRequested(_) => EngineView {
                running: self.running.insert(source_id),
                ..self
            },
            _ => self,
        }
    }
}

/// The forwarding engine.
#[derive(Debug)]
pub struct ForwardingEngine {
    registry: MappingRegistry,
    running: HashSet<u64>,
    zone_offset_seconds: i32,
}

impl View for ForwardingEngine {
    type V = EngineView;

    closed spec fn view(&self) -> EngineView {
        EngineView {
            registry: self.registry@,
            running: self.running@,
            zone_offset_seconds: self.zone_offset_seconds,
        }
    }
}

impl ForwardingEngine {
    /// An engine over `registry`, with no replay running. Time labels are
    /// given in the zone `zone_offset_seconds` east of UTC.
    pub fn new(registry: MappingRegistry, zone_offset_seconds: i32) -> (engine: Self)
        ensures
            engine@ == (EngineView {
                registry: registry@,
                running: Set::empty(),
                zone_offset_seconds,
            }),
    {
        ForwardingEngine { registry, running: HashSet::new(), zone_offset_seconds }
    }

    /// The mappings.
    pub fn registry(&self) -> (registry: &MappingRegistry)
        ensures
            registry@ == self@.registry,
    {
        &self.registry
    }

    /// Whether the history of `source_id` is being replayed.
    pub fn is_running(&self, source_id: u64) -> (running: bool)
        ensures
            running == self@.running.contains(source_id),
    {
        self.running.contains(&source_id)
    }

    /// Takes the right to replay the history of `source_id`, unless it is taken.
    pub fn acquire(&mut self, source_id: u64) -> (taken: Result<(), AlreadyRunning>)
        ensures
            !old(self)@.running.contains(source_id) ==> taken is Ok && final(self)@ == (EngineView {
                running: old(self)@.running.insert(source_id),
                ..old(self)@
            }),
            old(self)@.running.contains(source_id) ==> taken == Err::<(), AlreadyRunning>(
                AlreadyRunning { source_id },
            ) && final(self)@ == old(self)@,
    {
        if self.running.insert(source_id) {
            Ok(())
        } else {
            assert(self.running@ =~= old(self).running@);
            Err(AlreadyRunning { source_id })
        }
    }

    /// Gives back the right to replay the history of `source_id`. To be called
    /// when a replay has ended, however it ended.
    pub fn release(&mut self, source_id: u64)
        ensures
            final(self)@ == (EngineView {
                running: old(self)@.running.remove(source_id),
                ..old(self)@
            }),
    {
        self.running.remove(&source_id);
    }

    /// Takes in a message posted in a conversation of kind `kind`, at the
    /// instant `now`, and says what becomes of it.
    pub fn receive(&mut self, msg: &InboundMessage, kind: ChannelKind, now: i64) -> (disposition:
        Disposition)
        ensures
            disposition@ == old(self)@.decide(*msg, kind, now),
            final(self)@ == old(self)@.after(*msg, kind),
    {
        let source_id: u64 = msg.source_id;
        if msg.is_automated_author {
            return Disposition::Ignored(IgnoreReason::AutomatedAuthor);
        }
        if msg.is_system_generated {
            return Disposition::Ignored(IgnoreReason::SystemGenerated);
        }
        if !kind.thread() {
            return Disposition::Ignored(IgnoreReason::NotAThread);
        }
        // A replay is asked for by `!all` everywhere, and by `!start` where the
        // mapping allows it: `Some(true)` stands for the latter.
        let asked: Option<bool> = match parse_command(msg.body.as_str()) {
            Some(ControlCommand::Bind { destination_id, backfill_on_demand }) => {
                self.registry.bind(source_id, destination_id, backfill_on_demand);
                return Disposition::Bound { source_id, destination_id, backfill_on_demand };
            },
            Some(ControlCommand::SetTransport { endpoint }) => {
                if self.registry.get_target_channel(source_id).is_none() {
                    return Disposition::Rejected(Rejection::NotBound(NotBound { source_id }));
                }
                if !is_valid_endpoint(endpoint.as_str()) {
                    return Disposition::Rejected(Rejection::InvalidEndpoint(InvalidEndpoint));
                }
                let _ = self.registry.set_transport(source_id, endpoint);
                return Disposition::TransportSet { source_id };
            },
            Some(ControlCommand::TriggerBackfill) => Some(false),
            Some(ControlCommand::AutoBackfill) => Some(true),
            None => None,
        };
        let mapping = match self.registry.lookup(source_id) {
            Some(mapping) => mapping,
            None => {
                return Disposition::Ignored(IgnoreReason::Unmapped);
            },
        };
        let replay: bool = match asked {
            Some(on_demand_only) => !on_demand_only || mapping.backfill_on_demand,
            None => false,
        };
        if replay {
            match self.acquire(source_id) {
                Ok(_) => Disposition::BackfillRequested(
                    BackfillJob::begin(mapping, now, self.zone_offset_seconds),
                ),
                Err(running) => Disposition::Rejected(Rejection::AlreadyRunning(running)),
            }
        } else {
            Disposition::Dispatching(
                DispatchAttempt::start(&mapping, msg, false, self.zone_offset_seconds),
            )
        }
    }
}

/// What the member who posted a message is told, where anything.
pub open spec fn reply_of(d: DispositionView) -> Option<Seq<char>> {
    match d {
        DispositionView::Rejected(Rejection::NotBound(_)) => Some(
            "this thread is not mapped to a channel yet"@,
        ),
        DispositionView::Rejected(Rejection::AlreadyRunning(_)) => Some(
            "a transfer of this thread is already running"@,
        ),
        DispositionView::Rejected(Rejection::InvalidEndpoint(_)) => Some(
            "this is not the address of a webhook"@,
        ),
        DispositionView::Bound { destination_id, .. } => Some(
            "messages of this thread now go to channel "@ + decimal(destination_id as nat),
        ),
        DispositionView::TransportSet { .. } => Some(
            "messages of this thread are now sent through the webhook"@,
        ),
        _ => None,
    }
}

impl Disposition {
    /// What to tell the member who posted the message, where anything.
    pub fn reply(&self) -> (text: Option<String>)
        ensures
            opt_text(text) == reply_of(self@),
    {
        match self {
            Disposition::Rejected(Rejection::NotBound(_)) => Some(
                String::from_str("this thread is not mapped to a channel yet"),
            ),
            Disposition::Rejected(Rejection::AlreadyRunning(_)) => Some(
                String::from_str("a transfer of this thread is already running"),
            ),
            Disposition::Rejected(Rejection::InvalidEndpoint(_)) => Some(
                String::from_str("this is not the address of a webhook"),
            ),
            Disposition::Bound { destination_id, .. } => {
                let mut text = String::from_str("messages of this thread now go to channel ");
                push_decimal(&mut text, *destination_id);
                Some(text)
            },
            Disposition::TransportSet { .. } => Some(
                String::from_str("messages of this thread are now sent through the webhook"),
            ),
            _ => None,
        }
    }
}

/// Nothing is ever sent for a message of an automated author: the message
/// is passed over, no attempt and no job comes of it, and the engine stays
/// as it is. The engine's own posts, seen again, go no further.
pub proof fn lemma_automated_authors_are_ignored(
    engine: EngineView,
    msg: InboundMessage,
    kind: ChannelKind,
    now: i64,
)
    requires
        msg.is_automated_author,
    ensures
        engine.decide(msg, kind, now) == DispositionView::Ignored(IgnoreReason::AutomatedAuthor),
        engine.after(msg, kind) == engine,
{
}

/// A message is sent on only if a person wrote it, in a mapped thread.
pub proof fn lemma_only_eligible_messages_are_sent(
    engine: EngineView,
    msg: InboundMessage,
    kind: ChannelKind,
    now: i64,
)
    requires
        engine.decide(msg, kind, now) is Dispatching || engine.decide(msg, kind, now)
            is BackfillRequested,
    ensures
        msg.is_eligible(),
        kind.is_thread(),
        engine.registry.contains_key(msg.source_id),
{
}

/// Whether a message asks for a replay of its conversation, as the engine stands.
pub open spec fn asks_for_backfill(engine: EngineView, msg: InboundMessage, kind: ChannelKind)
    -> bool {
    msg.is_eligible() && kind.is_thread() && engine.registry.contains_key(msg.source_id)
        && wants_backfill(command_of(msg.body@), engine.registry[msg.source_id])
}

/// Of two requests for a replay of the same source, one is granted: while
/// the replay that the first was granted is under way, the second is turned
/// down at once as already running, and changes nothing.
pub proof fn lemma_single_flight(
    engine: EngineView,
    first: InboundMessage,
    first_kind: ChannelKind,
    first_now: i64,
    second: InboundMessage,
    second_kind: ChannelKind,
    second_now: i64,
)
    requires
        first.source_id == second.source_id,
        engine.decide(first, first_kind, first_now) is BackfillRequested,
        asks_for_backfill(engine.after(first, first_kind), second, second_kind),
    ensures
        engine.after(first, first_kind).running.contains(first.source_id),
        engine.after(first, first_kind).decide(second, second_kind, second_now)
            == DispositionView::Rejected(
            Rejection::AlreadyRunning(AlreadyRunning { source_id: second.source_id }),
        ),
        engine.after(first, first_kind).after(second, second_kind) == engine.after(
            first,
            first_kind,
        ),
{
}

/// A replay is granted only for a source that has none running, and marks
/// the source as running: no source ever has two replays alive.
pub proof fn lemma_backfill_needs_free_slot(
    engine: EngineView,
    msg: InboundMessage,
    kind: ChannelKind,
    now: i64,
)
    requires
        engine.decide(msg, kind, now) is BackfillRequested,
    ensures
        !engine.running.contains(msg.source_id),
        engine.after(msg, kind).running == engine.running.insert(msg.source_id),
        engine.after(msg, kind).registry == engine.registry,
        engine.decide(msg, kind, now)->BackfillRequested_0 == initial(
            engine.registry[msg.source_id],
            now,
            engine.zone_offset_seconds,
        ),
{
}

/// No message takes a mapping away, and none ends a replay: every source
/// that is mapped stays mapped, and every source that is running stays running.
pub proof fn lemma_receive_keeps_mappings(
    engine: EngineView,
    msg: InboundMessage,
    kind: ChannelKind,
    source_id: u64,
)
    ensures
        engine.registry.contains_key(source_id) ==> engine.after(msg, kind).registry.contains_key(
            source_id,
        ),
        engine.running.contains(source_id) ==> engine.after(msg, kind).running.contains(
            source_id,
        ),
{
}

} // verus!
