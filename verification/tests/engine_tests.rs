use thread2channel::backfill::{BackfillAction, BackfillEvent, BackfillJob, Phase};
use thread2channel::config::parse_thread_mappings;
use thread2channel::dispatch::{DispatchStatus, OutboundRequest};
use thread2channel::engine::{Disposition, ForwardingEngine, IgnoreReason, Rejection};
use thread2channel::error::{AlreadyRunning, InvalidEndpoint, NotBound, TransportError};
use thread2channel::message::{ChannelKind, InboundMessage};
use thread2channel::registry::{Mapping, MappingRegistry};

const HOOK: &str = "https://discord.com/api/webhooks/1234567890/aB3-dE_f";
const THREAD: ChannelKind = ChannelKind::PublicThread;

fn says(source_id: u64, author: &str, body: &str) -> InboundMessage {
    InboundMessage {
        message_id: 9001,
        source_id,
        author_id: 42,
        author_display_name: String::from(author),
        author_avatar_ref: None,
        body: String::from(body),
        attachments: Vec::new(),
        created_at: 1_700_000_000,
        is_system_generated: false,
        is_automated_author: false,
    }
}

fn prior(id: u64, author: &str, body: &str) -> InboundMessage {
    let mut m = says(111, author, body);
    m.message_id = id;
    m
}

fn engine_from(entries: &[&str]) -> ForwardingEngine {
    let vars: Vec<(String, String)> = entries
        .iter()
        .enumerate()
        .map(|(i, e)| (format!("THREAD_MAPPING_{}", i + 1), String::from(*e)))
        .collect();
    ForwardingEngine::new(parse_thread_mappings(&vars), 0)
}

fn job_of(disposition: Disposition) -> BackfillJob {
    match disposition {
        Disposition::BackfillRequested(job) => job,
        other => panic!("a replay was expected, not {:?}", other),
    }
}

#[test]
fn ordinary_message_reaches_the_destination_as_labelled_text() {
    let mut engine = engine_from(&["111:222"]);
    let disposition = engine.receive(&says(111, "Ann", "hi"), THREAD, 1_700_000_500);
    let mut attempt = match disposition {
        Disposition::Dispatching(attempt) => attempt,
        other => panic!("a dispatch was expected, not {:?}", other),
    };
    match attempt.pending() {
        Some(OutboundRequest::Card { destination_id, card }) => {
            assert_eq!(*destination_id, 222);
            assert_eq!(card.description, Some(String::from("**Ann**: hi")));
            assert_eq!(card.footer, None);
        }
        other => panic!("a card was expected, not {:?}", other),
    }
    assert_eq!(attempt.record(Err(TransportError::Recoverable)), DispatchStatus::Pending);
    assert_eq!(
        attempt.pending(),
        Some(&OutboundRequest::Text { destination_id: 222, text: String::from("**Ann**: hi") })
    );
    assert_eq!(attempt.record(Ok(())), DispatchStatus::Delivered);
}

#[test]
fn with_endpoint_the_message_is_impersonated_first() {
    let mut engine = engine_from(&[&format!("111:222:{}", HOOK)]);
    let disposition = engine.receive(&says(111, "Ann", "hi"), THREAD, 1_700_000_500);
    let mut attempt = match disposition {
        Disposition::Dispatching(attempt) => attempt,
        other => panic!("a dispatch was expected, not {:?}", other),
    };
    match attempt.pending() {
        Some(OutboundRequest::Impersonated { endpoint, display_name, text, .. }) => {
            assert_eq!(endpoint, HOOK);
            assert_eq!(display_name, "Ann");
            assert_eq!(text, "hi\n2023/11/14 22:13:20");
        }
        other => panic!("an impersonated send was expected, not {:?}", other),
    }
    assert_eq!(attempt.record(Err(TransportError::Recoverable)), DispatchStatus::Pending);
    assert!(matches!(attempt.pending(), Some(OutboundRequest::Card { destination_id: 222, .. })));
    assert_eq!(attempt.record(Err(TransportError::Recoverable)), DispatchStatus::Pending);
    assert_eq!(
        attempt.pending(),
        Some(&OutboundRequest::Text { destination_id: 222, text: String::from("**Ann**: hi") })
    );
}

#[test]
fn backfill_command_replays_three_prior_messages_in_order() {
    let mut engine = engine_from(&["111:222"]);
    let mut job = job_of(engine.receive(&says(111, "Ann", "!all"), THREAD, 1_700_000_500));
    assert!(engine.is_running(111));
    // The platform serves the history newest first.
    let page = vec![prior(3, "Ann", "three"), prior(2, "Bob", "two"), prior(1, "Ann", "one")];
    let mut page = Some(page);
    let mut received: Vec<String> = Vec::new();
    loop {
        let event = match job.action() {
            BackfillAction::PostNotice { destination_id, text } => {
                assert_eq!(destination_id, 222);
                received.push(text);
                BackfillEvent::NoticePosted(Ok(()))
            }
            BackfillAction::FetchPage { source_id, .. } => {
                assert_eq!(source_id, 111);
                BackfillEvent::PageFetched(Ok(page.take().unwrap()))
            }
            BackfillAction::Send(OutboundRequest::Card { destination_id, card }) => {
                assert_eq!(*destination_id, 222);
                received.push(card.description.clone().unwrap());
                BackfillEvent::SendCompleted(Ok(()))
            }
            BackfillAction::Send(other) => panic!("a card was expected, not {:?}", other),
            BackfillAction::Pause { .. } => BackfillEvent::PauseElapsed,
            BackfillAction::Finished(result) => {
                assert_eq!(result.unwrap().transferred_count, 3);
                break;
            }
        };
        job = job.step(event);
    }
    engine.release(job.source_id());
    assert!(!engine.is_running(111));
    assert_eq!(
        received,
        vec![
            String::from("starting: fetching every message of this thread for transfer"),
            String::from("3 messages will be transferred"),
            String::from("**Ann**: one"),
            String::from("**Bob**: two"),
            String::from("**Ann**: three"),
            String::from("completed: 3 messages"),
        ]
    );
}

#[test]
fn automated_authors_are_never_forwarded() {
    let mut engine = engine_from(&["111:222:all"]);
    for body in ["hi", "!all", "!start", "!thread2channel 333", &format!("!set_webhook {}", HOOK)] {
        let mut msg = says(111, "Relay", body);
        msg.is_automated_author = true;
        let disposition = engine.receive(&msg, THREAD, 0);
        assert!(matches!(disposition, Disposition::Ignored(IgnoreReason::AutomatedAuthor)), "{:?}", body);
    }
    assert!(!engine.is_running(111));
    assert_eq!(
        engine.registry().lookup(111),
        Some(Mapping {
            source_id: 111,
            destination_id: 222,
            backfill_on_demand: true,
            impersonation_endpoint: None,
        })
    );
}

#[test]
fn messages_of_the_platform_are_ignored() {
    let mut engine = engine_from(&["111:222"]);
    let mut msg = says(111, "Ann", "pinned a message");
    msg.is_system_generated = true;
    assert!(matches!(engine.receive(&msg, THREAD, 0), Disposition::Ignored(IgnoreReason::SystemGenerated)));
}

#[test]
fn messages_outside_threads_are_ignored() {
    let mut engine = engine_from(&["111:222"]);
    for body in ["hi", "!all", "!thread2channel 5"] {
        assert!(matches!(
            engine.receive(&says(111, "Ann", body), ChannelKind::Other, 0),
            Disposition::Ignored(IgnoreReason::NotAThread)
        ));
    }
    assert!(matches!(
        engine.receive(&says(111, "Ann", "hi"), ChannelKind::PrivateThread, 0),
        Disposition::Dispatching(_)
    ));
}

#[test]
fn messages_in_unmapped_conversations_are_ignored() {
    let mut engine = engine_from(&["111:222"]);
    for body in ["hi", "!all", "!start"] {
        assert!(matches!(
            engine.receive(&says(999, "Ann", body), THREAD, 0),
            Disposition::Ignored(IgnoreReason::Unmapped)
        ));
    }
    assert!(!engine.is_running(999));
}

#[test]
fn second_backfill_trigger_is_turned_down_while_the_first_runs() {
    let mut engine = engine_from(&["111:222:all", "333:444"]);
    let job = job_of(engine.receive(&says(111, "Ann", "!all"), THREAD, 10));
    assert_eq!(job.phase(), Phase::Starting);
    assert_eq!(job.started_at(), 10);
    for body in ["!all", "!start", " !all "] {
        let again = engine.receive(&says(111, "Bob", body), THREAD, 11);
        assert!(
            matches!(again, Disposition::Rejected(Rejection::AlreadyRunning(AlreadyRunning { source_id: 111 }))),
            "{:?}",
            again
        );
    }
    // Another source is not held up.
    let other = engine.receive(&says(333, "Ann", "!all"), THREAD, 12);
    assert!(matches!(other, Disposition::BackfillRequested(_)));
    // Ordinary messages of the running source still go through.
    assert!(matches!(engine.receive(&says(111, "Ann", "hi"), THREAD, 13), Disposition::Dispatching(_)));
    engine.release(111);
    assert!(!engine.is_running(111));
    assert!(engine.is_running(333));
    assert!(matches!(
        engine.receive(&says(111, "Ann", "!all"), THREAD, 14),
        Disposition::BackfillRequested(_)
    ));
}

#[test]
fn acquire_and_release_of_the_slot() {
    let mut engine = ForwardingEngine::new(MappingRegistry::new(), 0);
    assert!(!engine.is_running(7));
    assert_eq!(engine.acquire(7), Ok(()));
    assert!(engine.is_running(7));
    assert_eq!(engine.acquire(7), Err(AlreadyRunning { source_id: 7 }));
    assert_eq!(engine.acquire(8), Ok(()));
    engine.release(7);
    assert!(!engine.is_running(7));
    assert!(engine.is_running(8));
    engine.release(7);
    assert_eq!(engine.acquire(7), Ok(()));
}

#[test]
fn start_triggers_a_replay_only_where_replays_are_on_demand() {
    let mut engine = engine_from(&["111:222", "333:444:all"]);
    assert!(matches!(engine.receive(&says(111, "Ann", "!start"), THREAD, 0), Disposition::Dispatching(_)));
    assert!(!engine.is_running(111));
    assert!(matches!(
        engine.receive(&says(333, "Ann", "!start"), THREAD, 0),
        Disposition::BackfillRequested(_)
    ));
    assert!(engine.is_running(333));
    assert!(matches!(
        engine.receive(&says(111, "Ann", "!all"), THREAD, 0),
        Disposition::BackfillRequested(_)
    ));
}

#[test]
fn bind_command_maps_the_conversation() {
    let mut engine = ForwardingEngine::new(MappingRegistry::new(), 0);
    let disposition = engine.receive(&says(111, "Ann", "!thread2channel 222 all"), THREAD, 0);
    assert!(matches!(
        disposition,
        Disposition::Bound { source_id: 111, destination_id: 222, backfill_on_demand: true }
    ));
    assert_eq!(disposition.reply(), Some(String::from("messages of this thread now go to channel 222")));
    assert_eq!(
        engine.registry().lookup(111),
        Some(Mapping {
            source_id: 111,
            destination_id: 222,
            backfill_on_demand: true,
            impersonation_endpoint: None,
        })
    );
    assert!(matches!(engine.receive(&says(111, "Ann", "hi"), THREAD, 0), Disposition::Dispatching(_)));
}

#[test]
fn set_webhook_needs_a_mapping_and_an_address() {
    let mut engine = engine_from(&["111:222"]);
    let unbound = engine.receive(&says(999, "Ann", &format!("!set_webhook {}", HOOK)), THREAD, 0);
    assert!(matches!(unbound, Disposition::Rejected(Rejection::NotBound(NotBound { source_id: 999 }))));
    assert_eq!(unbound.reply(), Some(String::from("this thread is not mapped to a channel yet")));
    let malformed = engine.receive(&says(111, "Ann", "!set_webhook https://example.com/hook"), THREAD, 0);
    assert!(matches!(malformed, Disposition::Rejected(Rejection::InvalidEndpoint(InvalidEndpoint))));
    assert_eq!(malformed.reply(), Some(String::from("this is not the address of a webhook")));
    assert_eq!(engine.registry().lookup(111).unwrap().impersonation_endpoint, None);
    let set = engine.receive(&says(111, "Ann", &format!("!set_webhook {}", HOOK)), THREAD, 0);
    assert!(matches!(set, Disposition::TransportSet { source_id: 111 }));
    assert_eq!(set.reply(), Some(String::from("messages of this thread are now sent through the webhook")));
    assert_eq!(
        engine.registry().lookup(111),
        Some(Mapping {
            source_id: 111,
            destination_id: 222,
            backfill_on_demand: false,
            impersonation_endpoint: Some(String::from(HOOK)),
        })
    );
}

#[test]
fn replies_are_given_for_commands_only() {
    let mut engine = engine_from(&["111:222"]);
    assert_eq!(engine.receive(&says(111, "Ann", "hi"), THREAD, 0).reply(), None);
    assert_eq!(engine.receive(&says(5, "Ann", "hi"), THREAD, 0).reply(), None);
    let job = engine.receive(&says(111, "Ann", "!all"), THREAD, 0);
    assert_eq!(job.reply(), None);
    let again = engine.receive(&says(111, "Ann", "!all"), THREAD, 0);
    assert_eq!(again.reply(), Some(String::from("a transfer of this thread is already running")));
}

#[test]
fn the_job_sends_through_the_mapping_as_it_stood_at_the_start() {
    let mut engine = engine_from(&["111:222"]);
    let job = job_of(engine.receive(&says(111, "Ann", "!all"), THREAD, 0));
    engine.receive(&says(111, "Ann", "!thread2channel 333"), THREAD, 0);
    assert_eq!(job.destination_id(), 222);
    assert_eq!(engine.registry().get_target_channel(111), Some(333));
    assert!(engine.is_running(111));
}

#[test]
fn time_labels_use_the_zone_of_the_engine() {
    let vars = vec![(String::from("THREAD_MAPPING_1"), format!("111:222:{}", HOOK))];
    let mut engine = ForwardingEngine::new(parse_thread_mappings(&vars), 9 * 3600);
    match engine.receive(&says(111, "Ann", "hi"), THREAD, 0) {
        Disposition::Dispatching(attempt) => match attempt.pending() {
            Some(OutboundRequest::Impersonated { text, .. }) => assert_eq!(text, "hi\n2023/11/15 07:13:20"),
            other => panic!("an impersonated send was expected, not {:?}", other),
        },
        other => panic!("a dispatch was expected, not {:?}", other),
    }
}
