//! Sending one rendered message: the ways to send it, in the order they are
//! tried, and the record of how far the attempt has come.

use crate::embed::{card_for, card_of, Embed, EmbedView};
use crate::error::TransportError;
use crate::message::{attachment_urls, copy_opt_text, opt_text, InboundMessage};
use crate::registry::{Mapping, MappingView};
use crate::render::{
    create_full_message_content, full_text, link_lines, push_link_lines, render, rendered,
    PayloadView, RenderContext, RenderedPayload,
};
use vstd::prelude::*;
use vstd::string::StringExecFns;

verus! {

/// A way to send a message.
#[derive(Clone, Copy, Debug, PartialEq, Eq)]
pub enum Strategy {
    /// Through the impersonation endpoint, under the author's name and avatar.
    Impersonation,
    /// As a structured card.
    RichCard,
    /// As plain text.
    PlainText,
}

/// One send, ready to be made.
#[derive(Clone, Debug, PartialEq, Eq)]
pub enum OutboundRequest {
    Impersonated { endpoint: String, display_name: String, avatar_ref: Option<String>, text: String },
    Card { destination_id: u64, card: Embed },
    Text { destination_id: u64, text: String },
}

/// What a request says.
pub enum RequestView {
    Impersonated {
        endpoint: Seq<char>,
        display_name: Seq<char>,
        avatar_ref: Option<Seq<char>>,
        text: Seq<char>,
    },
    Card { destination_id: u64, card: EmbedView },
    Text { destination_id: u64, text: Seq<char> },
}

impl View for OutboundRequest {
    type V = RequestView;

    open spec fn view(&self) -> RequestView {
        match *self {
            OutboundRequest::Impersonated { endpoint, display_name, avatar_ref, text } => {
                RequestView::Impersonated {
                    endpoint: endpoint@,
                    display_name: display_name@,
                    avatar_ref: opt_text(avatar_ref),
                    text: text@,
                }
            },
            OutboundRequest::Card { destination_id, card } => RequestView::Card {
                destination_id,
                card: card@,
            },
            OutboundRequest::Text { destination_id, text } => RequestView::Text {
                destination_id,
                text: text@,
            },
        }
    }
}

impl RequestView {
    /// The way of sending that the request belongs to.
    pub open spec fn strategy(self) -> Strategy {
        match self {
            RequestView::Impersonated { .. } => Strategy::Impersonation,
            RequestView::Card { .. } => Strategy::RichCard,
            RequestView::Text { .. } => Strategy::PlainText,
        }
    }
}

/// The ways to send to a mapping, in the order they are tried: through the
/// impersonation endpoint where the mapping has one, then as a card, then as
/// plain text.
pub open spec fn strategies(impersonation: bool) -> Seq<Strategy> {
    if impersonation {
        seq![Strategy::Impersonation, Strategy::RichCard, Strategy::PlainText]
    } else {
        seq![Strategy::RichCard, Strategy::PlainText]
    }
}

/// The class of a failed send or fetch, by the way it was made and the
/// status the platform answered with, if it answered.
///
/// A failure is fatal where the platform turns the program's own credentials
/// down: nothing the program sends under them will get through. Every other
/// failure is recoverable. An impersonation endpoint has credentials of its
/// own, so no failure there says anything of other ways of sending.
pub open spec fn failure_class(strategy: Strategy, status: Option<u16>) -> TransportError {
    if strategy != Strategy::Impersonation && status == Some(401u16) {
        TransportError::Fatal
    } else {
        TransportError::Recoverable
    }
}

/// Classes a failed send or fetch.
pub fn classify_failure(strategy: Strategy, status: Option<u16>) -> (class: TransportError)
    ensures
        class == failure_class(strategy, status),
{
    let own: bool = match strategy {
        Strategy::Impersonation => false,
        _ => true,
    };
    let refused: bool = match status {
        Some(code) => code == 401,
        None => false,
    };
    if own && refused {
        TransportError::Fatal
    } else {
        TransportError::Recoverable
    }
}

impl OutboundRequest {
    /// The way of sending that the request belongs to.
    pub fn strategy(&self) -> (strategy: Strategy)
        ensures
            strategy == self@.strategy(),
    {
        match self {
            OutboundRequest::Impersonated { .. } => Strategy::Impersonation,
            OutboundRequest::Card { .. } => Strategy::RichCard,
            OutboundRequest::Text { .. } => Strategy::PlainText,
        }
    }
}

/// What an impersonated send says: the body, the time label on a line of its
/// own where there is one, and every link on a line of its own.
pub open spec fn impersonated_text(payload: PayloadView) -> Seq<char> {
    payload.body_text + match payload.rendered_timestamp_label {
        Some(label) => "\n"@ + label,
        None => Seq::empty(),
    } + link_lines(payload.attachment_links)
}

/// The circumstances a message for `mapping` is rendered in.
pub open spec fn context_for(mapping: MappingView, backfill: bool, zone_offset_seconds: i32)
    -> RenderContext {
    RenderContext {
        impersonated: mapping.impersonation_endpoint is Some,
        backfill,
        zone_offset_seconds,
    }
}

/// The request that sends `msg`, rendered to `payload`, by one strategy.
pub open spec fn request_for(
    strategy: Strategy,
    mapping: MappingView,
    msg: InboundMessage,
    payload: PayloadView,
) -> RequestView {
    match strategy {
        Strategy::Impersonation => RequestView::Impersonated {
            endpoint: mapping.impersonation_endpoint.unwrap(),
            display_name: payload.display_name,
            avatar_ref: payload.avatar_ref,
            text: impersonated_text(payload),
        },
        Strategy::RichCard => RequestView::Card {
            destination_id: mapping.destination_id,
            card: card_of(msg, payload),
        },
        Strategy::PlainText => RequestView::Text {
            destination_id: mapping.destination_id,
            text: full_text(
                msg.author_display_name@,
                msg.body@,
                attachment_urls(msg.attachments@),
            ),
        },
    }
}

/// The requests that may be made for one message, in the order they are tried.
pub open spec fn send_plan(
    mapping: MappingView,
    msg: InboundMessage,
    backfill: bool,
    zone_offset_seconds: i32,
) -> Seq<RequestView> {
    let payload = rendered(msg, context_for(mapping, backfill, zone_offset_seconds));
    strategies(mapping.impersonation_endpoint is Some).map_values(
        |s: Strategy| request_for(s, mapping, msg, payload),
    )
}

/// Why a message could not be delivered.
#[derive(Clone, Copy, Debug, PartialEq, Eq)]
pub struct DispatchError {
    /// How many requests were made; the last of them is the one that failed.
    pub attempts: usize,
    /// Whether that failure was a recoverable one.
    pub recoverable: bool,
}

/// How far the sending of one message has come.
#[derive(Clone, Copy, Debug, PartialEq, Eq)]
pub enum DispatchStatus {
    /// A request waits to be made.
    Pending,
    /// A request succeeded; none is made after it.
    Delivered,
    /// No request succeeded, and none is left to try.
    Failed(DispatchError),
}

/// The sending of one message as a record: the plan and the progress in it.
pub struct AttemptView {
    pub plan: Seq<RequestView>,
    /// The place in the plan of the request that is made next, or was made last.
    pub position: nat,
    pub status: DispatchStatus,
}

/// The record after the request in turn has come back with `outcome`.
///
/// A success ends the attempt as delivered. A fatal failure ends it as
/// failed. After a recoverable failure the next request of the plan is in
/// turn; where there is none, the attempt has failed. Once the attempt has
/// ended, nothing changes it.
pub open spec fn advance(a: AttemptView, outcome: Result<(), TransportError>) -> AttemptView {
    if a.status != DispatchStatus::Pending {
        a
    } else {
        match outcome {
            Ok(_) => AttemptView { status: DispatchStatus::Delivered, ..a },
            Err(TransportError::Fatal) => AttemptView {
                status: DispatchStatus::Failed(
                    DispatchError { attempts: (a.position + 1) as usize, recoverable: false },
                ),
                ..a
            },
            Err(TransportError::Recoverable) => if a.position + 1 < a.plan.len() {
                AttemptView { position: a.position + 1, ..a }
            } else {
                AttemptView {
                    status: DispatchStatus::Failed(
                        DispatchError { attempts: (a.position + 1) as usize, recoverable: true },
                    ),
                    ..a
                }
            },
        }
    }
}

/// The sending of one message: the requests that may be made for it and how
/// far the attempt has come.
#[derive(Debug)]
pub struct DispatchAttempt {
    requests: Vec<OutboundRequest>,
    position: usize,
    status: DispatchStatus,
}

/// What a sequence of requests says.
pub open spec fn request_views(r: Seq<OutboundRequest>) -> Seq<RequestView> {
    Seq::new(r.len(), |i: int| r[i]@)
}

impl View for DispatchAttempt {
    type V = AttemptView;

    closed spec fn view(&self) -> AttemptView {
        AttemptView {
            plan: request_views(self.requests@),
            position: self.position as nat,
            status: self.status,
        }
    }
}

fn impersonated_content(payload: &RenderedPayload) -> (text: String)
    ensures
        text@ == impersonated_text(payload@),
{
    let mut text = payload.body_text.clone();
    match &payload.rendered_timestamp_label {
        Some(label) => {
            text.append("\n");
            text.append(label.as_str());
        },
        None => {
            assert(text@ + Seq::<char>::empty() == text@);
        },
    }
    push_link_lines(&mut text, &payload.attachment_links);
    text
}

impl DispatchAttempt {
    /// While a request waits, it is one of the plan.
    #[verifier::type_invariant]
    spec fn in_plan(self) -> bool {
        self.status == DispatchStatus::Pending ==> self.position < self.requests.len()
    }

    /// Prepares the sending of `msg` to where `mapping` directs it.
    pub fn start(
        mapping: &Mapping,
        msg: &InboundMessage,
        backfill: bool,
        zone_offset_seconds: i32,
    ) -> (attempt: Self)
        ensures
            attempt@ == (AttemptView {
                plan: send_plan(mapping@, *msg, backfill, zone_offset_seconds),
                position: 0,
                status: DispatchStatus::Pending,
            }),
    {
        let ctx = RenderContext {
            impersonated: mapping.impersonation_endpoint.is_some(),
            backfill,
            zone_offset_seconds,
        };
        let payload = render(msg, &ctx);
        let mut requests: Vec<OutboundRequest> = Vec::new();
        match &mapping.impersonation_endpoint {
            Some(endpoint) => {
                requests.push(
                    OutboundRequest::Impersonated {
                        endpoint: endpoint.clone(),
                        display_name: payload.display_name.clone(),
                        avatar_ref: copy_opt_text(&payload.avatar_ref),
                        text: impersonated_content(&payload),
                    },
                );
            },
            None => {},
        }
        requests.push(
            OutboundRequest::Card {
                destination_id: mapping.destination_id,
                card: card_for(msg, &payload),
            },
        );
        requests.push(
            OutboundRequest::Text {
                destination_id: mapping.destination_id,
                text: create_full_message_content(
                    msg.author_display_name.as_str(),
                    msg.body.as_str(),
                    msg.attachments.as_slice(),
                ),
            },
        );
        assert(request_views(requests@) =~= send_plan(
            mapping@,
            *msg,
            backfill,
            zone_offset_seconds,
        ));
        DispatchAttempt { requests, position: 0, status: DispatchStatus::Pending }
    }

    /// How far the attempt has come.
    pub fn status(&self) -> (status: DispatchStatus)
        ensures
            status == self@.status,
    {
        self.status
    }

    /// The request to make now, while the attempt has not ended.
    pub fn pending(&self) -> (request: Option<&OutboundRequest>)
        ensures
            self@.status == DispatchStatus::Pending ==> self@.position < self@.plan.len(),
            self@.status == DispatchStatus::Pending ==> request is Some && request.unwrap()@
                == self@.plan[self@.position as int],
            self@.status != DispatchStatus::Pending ==> request is None,
    {
        proof {
            use_type_invariant(self);
        }
        match self.status {
            DispatchStatus::Pending => Some(&self.requests[self.position]),
            _ => None,
        }
    }

    /// Takes note of how the pending request came back, and says where the
    /// attempt stands after it.
    pub fn record(&mut self, outcome: Result<(), TransportError>) -> (status: DispatchStatus)
        ensures
            final(self)@ == advance(old(self)@, outcome),
            status == final(self)@.status,
    {
        proof {
            use_type_invariant(&*self);
        }
        match self.status {
            DispatchStatus::Pending => {
                match outcome {
                    Ok(_) => {
                        self.status = DispatchStatus::Delivered;
                    },
                    Err(TransportError::Fatal) => {
                        self.status = DispatchStatus::Failed(
                            DispatchError { attempts: self.position + 1, recoverable: false },
                        );
                    },
                    Err(TransportError::Recoverable) => {
                        if self.position + 1 < self.requests.len() {
                            self.position = self.position + 1;
                        } else {
                            self.status = DispatchStatus::Failed(
                                DispatchError { attempts: self.position + 1, recoverable: true },
                            );
                        }
                    },
                }
            },
            _ => {},
        }
        self.status
    }
}

/// The record after a run of outcomes, each taken in its turn.
pub open spec fn advance_all(a: AttemptView, outcomes: Seq<Result<(), TransportError>>)
    -> AttemptView
    decreases outcomes.len(),
{
    if outcomes.len() == 0 {
        a
    } else {
        advance(advance_all(a, outcomes.drop_last()), outcomes.last())
    }
}

/// The places in the plan of the requests that were made in a run: one for
/// each outcome that arrived while a request was pending.
pub open spec fn requests_made(a: AttemptView, outcomes: Seq<Result<(), TransportError>>) -> Seq<
    nat,
>
    decreases outcomes.len(),
{
    if outcomes.len() == 0 {
        Seq::empty()
    } else {
        let before = advance_all(a, outcomes.drop_last());
        let made = requests_made(a, outcomes.drop_last());
        if before.status == DispatchStatus::Pending {
            made.push(before.position)
        } else {
            made
        }
    }
}

/// An attempt at its beginning.
pub open spec fn fresh(plan: Seq<RequestView>) -> AttemptView {
    AttemptView { plan, position: 0, status: DispatchStatus::Pending }
}

/// Whatever comes back, the requests are made in the order of the plan, each
/// once at most, and none after the attempt has ended: the requests made are
/// the first of the plan, as many as were made.
pub proof fn lemma_requests_follow_plan(
    plan: Seq<RequestView>,
    outcomes: Seq<Result<(), TransportError>>,
)
    requires
        plan.len() > 0,
    ensures
        ({
            let made = requests_made(fresh(plan), outcomes);
            let end = advance_all(fresh(plan), outcomes);
            &&& made.len() <= plan.len()
            &&& forall|i: int| 0 <= i < made.len() ==> made[i] == i
            &&& end.plan == plan
            &&& end.status == DispatchStatus::Pending ==> end.position == made.len()
                && end.position < plan.len()
            &&& end.status != DispatchStatus::Pending ==> end.position + 1 == made.len()
        }),
    decreases outcomes.len(),
{
    if outcomes.len() > 0 {
        lemma_requests_follow_plan(plan, outcomes.drop_last());
    }
}

/// The first success wins: after a success the attempt is delivered, and
/// whatever is reported later changes nothing and has no request made.
pub proof fn lemma_success_ends_attempt(a: AttemptView, later: Result<(), TransportError>)
    requires
        a.status == DispatchStatus::Pending,
    ensures
        advance(a, Ok(())).status == DispatchStatus::Delivered,
        advance(advance(a, Ok(())), later) == advance(a, Ok(())),
{
}

/// A recoverable failure moves on to the next way of sending while there is
/// one, and ends the attempt after the last.
pub proof fn lemma_fallback_order(a: AttemptView)
    requires
        a.status == DispatchStatus::Pending,
        a.position < a.plan.len(),
    ensures
        ({
            let next = advance(a, Err(TransportError::Recoverable));
            if a.position + 1 < a.plan.len() {
                next.status == DispatchStatus::Pending && next.position == a.position + 1
            } else {
                next.status == DispatchStatus::Failed(
                    DispatchError { attempts: (a.position + 1) as usize, recoverable: true },
                )
            }
        }),
{
}

/// The plan for a mapping with an impersonation endpoint: impersonation
/// first, then the card, then plain text. Without an endpoint: the card, then
/// plain text.
pub proof fn lemma_plan_order(
    mapping: MappingView,
    msg: InboundMessage,
    backfill: bool,
    zone_offset_seconds: i32,
)
    ensures
        ({
            let plan = send_plan(mapping, msg, backfill, zone_offset_seconds);
            if mapping.impersonation_endpoint is Some {
                &&& plan.len() == 3
                &&& plan[0].strategy() == Strategy::Impersonation
                &&& plan[1].strategy() == Strategy::RichCard
                &&& plan[2].strategy() == Strategy::PlainText
            } else {
                &&& plan.len() == 2
                &&& plan[0].strategy() == Strategy::RichCard
                &&& plan[1].strategy() == Strategy::PlainText
            }
        }),
{
}

/// The plain text names the author whether or not the payload's body does:
/// read off the payload, it is the body as rendered where the label is in
/// it, and the label and the body where it is not; then the links.
pub proof fn lemma_plain_text_of_payload(msg: InboundMessage, ctx: RenderContext)
    ensures
        ({
            let payload = rendered(msg, ctx);
            let text = full_text(
                msg.author_display_name@,
                msg.body@,
                attachment_urls(msg.attachments@),
            );
            if ctx.impersonated {
                text == "**"@ + payload.display_name + "**: "@ + payload.body_text + link_lines(
                    payload.attachment_links,
                )
            } else {
                text == payload.body_text + link_lines(payload.attachment_links)
            }
        }),
{
}

} // verus!
