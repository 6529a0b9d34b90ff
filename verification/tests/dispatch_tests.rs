use thread2channel::dispatch::{
    classify_failure, DispatchAttempt, DispatchError, DispatchStatus, OutboundRequest, Strategy,
};
use thread2channel::embed::{Embed, EmbedAuthor, EmbedField, EmbedFooter};
use thread2channel::error::TransportError;
use thread2channel::message::{Attachment, InboundMessage};
use thread2channel::registry::Mapping;

const HOOK: &str = "https://discord.com/api/webhooks/1234567890/aB3-dE_f";

fn ann_says_hi() -> InboundMessage {
    InboundMessage {
        message_id: 9001,
        source_id: 111,
        author_id: 42,
        author_display_name: String::from("Ann"),
        author_avatar_ref: None,
        body: String::from("hi"),
        attachments: Vec::new(),
        created_at: 1_700_000_000,
        is_system_generated: false,
        is_automated_author: false,
    }
}

fn plain_mapping() -> Mapping {
    Mapping { source_id: 111, destination_id: 222, backfill_on_demand: false, impersonation_endpoint: None }
}

fn hook_mapping() -> Mapping {
    Mapping {
        source_id: 111,
        destination_id: 222,
        backfill_on_demand: false,
        impersonation_endpoint: Some(String::from(HOOK)),
    }
}

fn strategy_name(request: &OutboundRequest) -> &'static str {
    match request {
        OutboundRequest::Impersonated { .. } => "impersonation",
        OutboundRequest::Card { .. } => "card",
        OutboundRequest::Text { .. } => "text",
    }
}

#[test]
fn without_endpoint_the_card_comes_first() {
    let attempt = DispatchAttempt::start(&plain_mapping(), &ann_says_hi(), false, 0);
    assert_eq!(attempt.status(), DispatchStatus::Pending);
    assert_eq!(
        attempt.pending(),
        Some(&OutboundRequest::Card {
            destination_id: 222,
            card: Embed {
                author: Some(EmbedAuthor {
                    name: String::from("Ann"),
                    icon_url: Some(String::from("https://cdn.discordapp.com/embed/avatars/2.png")),
                }),
                color: Some(42),
                description: Some(String::from("**Ann**: hi")),
                fields: Vec::new(),
                footer: None,
                kind: String::from("rich"),
                timestamp: Some(1_700_000_000),
                title: None,
            },
        })
    );
}

#[test]
fn card_failure_falls_back_to_plain_text() {
    let mut attempt = DispatchAttempt::start(&plain_mapping(), &ann_says_hi(), false, 0);
    assert_eq!(attempt.record(Err(TransportError::Recoverable)), DispatchStatus::Pending);
    assert_eq!(
        attempt.pending(),
        Some(&OutboundRequest::Text { destination_id: 222, text: String::from("**Ann**: hi") })
    );
    assert_eq!(attempt.record(Ok(())), DispatchStatus::Delivered);
    assert_eq!(attempt.pending(), None);
}

#[test]
fn success_short_circuits_the_chain() {
    let mut attempt = DispatchAttempt::start(&hook_mapping(), &ann_says_hi(), false, 0);
    assert_eq!(attempt.record(Ok(())), DispatchStatus::Delivered);
    assert_eq!(attempt.status(), DispatchStatus::Delivered);
    assert_eq!(attempt.pending(), None);
    // Whatever is reported afterwards changes nothing.
    assert_eq!(attempt.record(Err(TransportError::Recoverable)), DispatchStatus::Delivered);
    assert_eq!(attempt.record(Err(TransportError::Fatal)), DispatchStatus::Delivered);
    assert_eq!(attempt.pending(), None);
}

#[test]
fn impersonation_is_attempted_first_then_card_then_text() {
    let mut attempt = DispatchAttempt::start(&hook_mapping(), &ann_says_hi(), false, 9 * 3600);
    assert_eq!(
        attempt.pending(),
        Some(&OutboundRequest::Impersonated {
            endpoint: String::from(HOOK),
            display_name: String::from("Ann"),
            avatar_ref: Some(String::from("https://cdn.discordapp.com/embed/avatars/2.png")),
            text: String::from("hi\n2023/11/15 07:13:20"),
        })
    );
    assert_eq!(attempt.record(Err(TransportError::Recoverable)), DispatchStatus::Pending);
    match attempt.pending() {
        Some(OutboundRequest::Card { destination_id, card }) => {
            assert_eq!(*destination_id, 222);
            assert_eq!(card.author.as_ref().unwrap().name, "Ann");
            assert_eq!(card.description, Some(String::from("hi")));
            assert_eq!(card.footer, Some(EmbedFooter { text: String::from("2023/11/15 07:13:20") }));
        }
        other => panic!("a card was expected, not {:?}", other),
    }
    assert_eq!(attempt.record(Err(TransportError::Recoverable)), DispatchStatus::Pending);
    assert_eq!(
        attempt.pending(),
        Some(&OutboundRequest::Text { destination_id: 222, text: String::from("**Ann**: hi") })
    );
    assert_eq!(
        attempt.record(Err(TransportError::Recoverable)),
        DispatchStatus::Failed(DispatchError { attempts: 3, recoverable: true })
    );
    assert_eq!(attempt.pending(), None);
}

#[test]
fn fatal_failure_ends_the_attempt_at_once() {
    let mut attempt = DispatchAttempt::start(&hook_mapping(), &ann_says_hi(), false, 0);
    assert_eq!(
        attempt.record(Err(TransportError::Fatal)),
        DispatchStatus::Failed(DispatchError { attempts: 1, recoverable: false })
    );
    assert_eq!(attempt.pending(), None);
    assert_eq!(
        attempt.record(Ok(())),
        DispatchStatus::Failed(DispatchError { attempts: 1, recoverable: false })
    );

    let mut attempt = DispatchAttempt::start(&plain_mapping(), &ann_says_hi(), false, 0);
    assert_eq!(attempt.record(Err(TransportError::Recoverable)), DispatchStatus::Pending);
    assert_eq!(
        attempt.record(Err(TransportError::Fatal)),
        DispatchStatus::Failed(DispatchError { attempts: 2, recoverable: false })
    );
}

#[test]
fn every_strategy_is_tried_once_at_most() {
    for endpoint in [false, true] {
        let mapping = if endpoint { hook_mapping() } else { plain_mapping() };
        let mut attempt = DispatchAttempt::start(&mapping, &ann_says_hi(), true, 0);
        let mut tried: Vec<&'static str> = Vec::new();
        while let Some(request) = attempt.pending() {
            tried.push(strategy_name(request));
            attempt.record(Err(TransportError::Recoverable));
        }
        if endpoint {
            assert_eq!(tried, vec!["impersonation", "card", "text"]);
        } else {
            assert_eq!(tried, vec!["card", "text"]);
        }
    }
}

#[test]
fn impersonated_text_carries_label_and_links() {
    let mut msg = ann_says_hi();
    msg.attachments = vec![
        Attachment { filename: String::from("a.png"), url: String::from("https://files.example/a.png") },
        Attachment { filename: String::from("b.txt"), url: String::from("https://files.example/b.txt") },
    ];
    msg.author_avatar_ref = Some(String::from("f00"));
    let attempt = DispatchAttempt::start(&hook_mapping(), &msg, true, 0);
    assert_eq!(
        attempt.pending(),
        Some(&OutboundRequest::Impersonated {
            endpoint: String::from(HOOK),
            display_name: String::from("Ann"),
            avatar_ref: Some(String::from("https://cdn.discordapp.com/avatars/42/f00.png")),
            text: String::from(
                "hi\n2023/11/14 22:13:20\nhttps://files.example/a.png\nhttps://files.example/b.txt"
            ),
        })
    );
}

#[test]
fn replayed_message_without_endpoint_shows_its_time_on_the_card() {
    let mut msg = ann_says_hi();
    msg.attachments =
        vec![Attachment { filename: String::from("a.png"), url: String::from("https://files.example/a.png") }];
    let mut attempt = DispatchAttempt::start(&plain_mapping(), &msg, true, 0);
    match attempt.pending() {
        Some(OutboundRequest::Card { card, .. }) => {
            assert_eq!(card.footer, Some(EmbedFooter { text: String::from("2023/11/14 22:13:20") }));
            assert_eq!(
                card.fields,
                vec![EmbedField {
                    name: String::from("Attachment"),
                    value: String::from("[a.png](https://files.example/a.png)"),
                    inline: false,
                }]
            );
        }
        other => panic!("a card was expected, not {:?}", other),
    }
    attempt.record(Err(TransportError::Recoverable));
    assert_eq!(
        attempt.pending(),
        Some(&OutboundRequest::Text {
            destination_id: 222,
            text: String::from("**Ann**: hi\nhttps://files.example/a.png"),
        })
    );
}

#[test]
fn failures_are_fatal_only_where_the_credentials_are_refused() {
    assert_eq!(classify_failure(Strategy::RichCard, Some(401)), TransportError::Fatal);
    assert_eq!(classify_failure(Strategy::PlainText, Some(401)), TransportError::Fatal);
    assert_eq!(classify_failure(Strategy::Impersonation, Some(401)), TransportError::Recoverable);
    for status in [Some(400u16), Some(403), Some(404), Some(429), Some(500), Some(503), None] {
        for strategy in [Strategy::Impersonation, Strategy::RichCard, Strategy::PlainText] {
            assert_eq!(classify_failure(strategy, status), TransportError::Recoverable);
        }
    }
}

#[test]
fn requests_know_their_strategy() {
    let mut attempt = DispatchAttempt::start(&hook_mapping(), &ann_says_hi(), false, 0);
    assert_eq!(attempt.pending().unwrap().strategy(), Strategy::Impersonation);
    attempt.record(Err(TransportError::Recoverable));
    assert_eq!(attempt.pending().unwrap().strategy(), Strategy::RichCard);
    attempt.record(Err(TransportError::Recoverable));
    assert_eq!(attempt.pending().unwrap().strategy(), Strategy::PlainText);
}
