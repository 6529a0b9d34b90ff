//! The structured card: a message shown with its author, body, time and
//! attachments as separate parts.

use crate::message::{opt_text, Attachment, InboundMessage};
use crate::render::{avatar_url, avatar_url_text, calculate_color, color_of, PayloadView, RenderedPayload};
use vstd::prelude::*;
use vstd::string::StringExecFns;

verus! {

/// Who a card is attributed to.
#[derive(Clone, Debug, PartialEq, Eq)]
pub struct EmbedAuthor {
    pub name: String,
    pub icon_url: Option<String>,
}

/// A named part of a card.
#[derive(Clone, Debug, PartialEq, Eq)]
pub struct EmbedField {
    pub name: String,
    pub value: String,
    pub inline: bool,
}

/// The small print at the foot of a card.
#[derive(Clone, Debug, PartialEq, Eq)]
pub struct EmbedFooter {
    pub text: String,
}

/// A structured card.
#[derive(Clone, Debug, PartialEq, Eq)]
pub struct Embed {
    pub author: Option<EmbedAuthor>,
    pub color: Option<u32>,
    pub description: Option<String>,
    pub fields: Vec<EmbedField>,
    pub footer: Option<EmbedFooter>,
    pub kind: String,
    /// Seconds after 1970-01-01 00:00:00 UTC.
    pub timestamp: Option<i64>,
    pub title: Option<String>,
}

/// What the attribution of a card says.
pub struct AuthorView {
    pub name: Seq<char>,
    pub icon_url: Option<Seq<char>>,
}

/// What a field of a card says.
pub struct FieldView {
    pub name: Seq<char>,
    pub value: Seq<char>,
    pub inline: bool,
}

/// What a card says.
pub struct EmbedView {
    pub author: Option<AuthorView>,
    pub color: Option<u32>,
    pub description: Option<Seq<char>>,
    pub fields: Seq<FieldView>,
    pub footer: Option<Seq<char>>,
    pub kind: Seq<char>,
    pub timestamp: Option<i64>,
    pub title: Option<Seq<char>>,
}

impl View for EmbedAuthor {
    type V = AuthorView;

    open spec fn view(&self) -> AuthorView {
        AuthorView { name: self.name@, icon_url: opt_text(self.icon_url) }
    }
}

impl View for EmbedField {
    type V = FieldView;

    open spec fn view(&self) -> FieldView {
        FieldView { name: self.name@, value: self.value@, inline: self.inline }
    }
}

/// What an optional attribution says.
pub open spec fn author_view(a: Option<EmbedAuthor>) -> Option<AuthorView> {
    match a {
        Some(a) => Some(a@),
        None => None,
    }
}

/// The text of an optional footer.
pub open spec fn footer_view(f: Option<EmbedFooter>) -> Option<Seq<char>> {
    match f {
        Some(f) => Some(f.text@),
        None => None,
    }
}

/// What a sequence of fields says.
pub open spec fn field_views(f: Seq<EmbedField>) -> Seq<FieldView> {
    Seq::new(f.len(), |i: int| f[i]@)
}

impl View for Embed {
    type V = EmbedView;

    open spec fn view(&self) -> EmbedView {
        EmbedView {
            author: author_view(self.author),
            color: self.color,
            description: opt_text(self.description),
            fields: field_views(self.fields@),
            footer: footer_view(self.footer),
            kind: self.kind@,
            timestamp: self.timestamp,
            title: opt_text(self.title),
        }
    }
}

/// A card with nothing on it yet: of the rich kind, and without a title.
pub open spec fn blank_card() -> EmbedView {
    EmbedView {
        author: None,
        color: None,
        description: None,
        fields: Seq::empty(),
        footer: None,
        kind: "rich"@,
        timestamp: None,
        title: None,
    }
}

/// Collects the parts of a card, then builds it.
#[derive(Debug)]
pub struct MessageEmbedBuilder {
    author: Option<EmbedAuthor>,
    description: Option<String>,
    color: Option<u32>,
    timestamp: Option<i64>,
    fields: Vec<EmbedField>,
    footer: Option<EmbedFooter>,
}

impl View for MessageEmbedBuilder {
    type V = EmbedView;

    /// The card that `build` would give now.
    closed spec fn view(&self) -> EmbedView {
        EmbedView {
            author: author_view(self.author),
            color: self.color,
            description: opt_text(self.description),
            fields: field_views(self.fields@),
            footer: footer_view(self.footer),
            kind: "rich"@,
            timestamp: self.timestamp,
            title: None,
        }
    }
}

impl MessageEmbedBuilder {
    /// A builder of a card with nothing on it.
    pub fn new() -> (builder: Self)
        ensures
            builder@ == blank_card(),
    {
        let builder = Self {
            author: None,
            description: None,
            color: None,
            timestamp: None,
            fields: Vec::new(),
            footer: None,
        };
        assert(field_views(builder.fields@) =~= Seq::empty());
        builder
    }

    /// Attributes the card to an author, shown with the author's avatar.
    pub fn with_author(self, name: &str, author_id: u64, avatar: &Option<String>) -> (builder: Self)
        ensures
            builder@ == (EmbedView {
                author: Some(
                    AuthorView {
                        name: name@,
                        icon_url: Some(avatar_url_text(author_id, opt_text(*avatar))),
                    },
                ),
                ..self@
            }),
    {
        let mut builder = self;
        builder.author = Some(
            EmbedAuthor {
                name: String::from_str(name),
                icon_url: Some(avatar_url(author_id, avatar)),
            },
        );
        builder
    }

    /// Sets the body of the card.
    pub fn with_description(self, description: String) -> (builder: Self)
        ensures
            builder@ == (EmbedView { description: Some(description@), ..self@ }),
    {
        let mut builder = self;
        builder.description = Some(description);
        builder
    }

    /// Sets the accent colour of the card.
    pub fn with_color(self, color: u32) -> (builder: Self)
        ensures
            builder@ == (EmbedView { color: Some(color), ..self@ }),
    {
        let mut builder = self;
        builder.color = Some(color);
        builder
    }

    /// Sets the instant the card is dated at, in seconds after the Unix epoch.
    pub fn with_timestamp(self, timestamp: i64) -> (builder: Self)
        ensures
            builder@ == (EmbedView { timestamp: Some(timestamp), ..self@ }),
    {
        let mut builder = self;
        builder.timestamp = Some(timestamp);
        builder
    }

    /// Sets the small print at the foot of the card.
    pub fn with_footer(self, text: String) -> (builder: Self)
        ensures
            builder@ == (EmbedView { footer: Some(text@), ..self@ }),
    {
        let mut builder = self;
        builder.footer = Some(EmbedFooter { text });
        builder
    }

    /// Adds a field after those the card has.
    pub fn add_field(self, name: String, value: String, inline: bool) -> (builder: Self)
        ensures
            builder@ == (EmbedView {
                fields: self@.fields.push(FieldView { name: name@, value: value@, inline }),
                ..self@
            }),
    {
        let mut builder = self;
        builder.fields.push(EmbedField { name, value, inline });
        assert(field_views(builder.fields@) =~= field_views(self.fields@).push(
            FieldView { name: name@, value: value@, inline },
        ));
        builder
    }

    /// The card with the parts collected so far.
    pub fn build(self) -> (card: Embed)
        ensures
            card@ == self@,
    {
        Embed {
            author: self.author,
            color: self.color,
            description: self.description,
            fields: self.fields,
            footer: self.footer,
            kind: String::from_str("rich"),
            timestamp: self.timestamp,
            title: None,
        }
    }
}

/// The field that shows an attachment: a link that reads as the file's name.
pub open spec fn attachment_field(a: Attachment) -> FieldView {
    FieldView {
        name: "Attachment"@,
        value: "["@ + a.filename@ + "]("@ + a.url@ + ")"@,
        inline: false,
    }
}

/// The fields that show the attachments of a message, in their order.
pub open spec fn attachment_fields(a: Seq<Attachment>) -> Seq<FieldView> {
    Seq::new(a.len(), |i: int| attachment_field(a[i]))
}

/// The card for a message and its rendered payload: the author with avatar,
/// the payload's body, the author's colour, the time the message was written
/// at, one field for each attachment, and the time label at the foot.
pub open spec fn card_of(msg: InboundMessage, payload: PayloadView) -> EmbedView {
    EmbedView {
        author: Some(
            AuthorView {
                name: msg.author_display_name@,
                icon_url: Some(avatar_url_text(msg.author_id, opt_text(msg.author_avatar_ref))),
            },
        ),
        color: Some(color_of(msg.author_id)),
        description: Some(payload.body_text),
        fields: attachment_fields(msg.attachments@),
        footer: payload.rendered_timestamp_label,
        kind: "rich"@,
        timestamp: Some(msg.created_at),
        title: None,
    }
}

/// Builds the card for a message that has been rendered to `payload`.
pub fn card_for(msg: &InboundMessage, payload: &RenderedPayload) -> (card: Embed)
    ensures
        card@ == card_of(*msg, payload@),
{
    let mut builder = MessageEmbedBuilder::new().with_author(
        msg.author_display_name.as_str(),
        msg.author_id,
        &msg.author_avatar_ref,
    ).with_description(payload.body_text.clone()).with_color(
        calculate_color(msg.author_id),
    ).with_timestamp(msg.created_at);
    match &payload.rendered_timestamp_label {
        Some(label) => {
            builder = builder.with_footer(label.clone());
        },
        None => {},
    }
    let mut i: usize = 0;
    assert(attachment_fields(msg.attachments@).take(0) =~= Seq::empty());
    assert(builder@.footer == payload@.rendered_timestamp_label);
    while i < msg.attachments.len()
        invariant
            i <= msg.attachments.len(),
            builder@ == (EmbedView {
                fields: attachment_fields(msg.attachments@).take(i as int),
                ..card_of(*msg, payload@)
            }),
        decreases msg.attachments.len() - i,
    {
        let attachment = &msg.attachments[i];
        let mut value = String::new();
        value.append("[");
        value.append(attachment.filename.as_str());
        value.append("](");
        value.append(attachment.url.as_str());
        value.append(")");
        assert(value@ == attachment_field(*attachment).value) by {
            assert(Seq::<char>::empty() + "["@ == "["@);
        }
        builder = builder.add_field(String::from_str("Attachment"), value, false);
        i = i + 1;
        assert(attachment_fields(msg.attachments@).take(i as int) == attachment_fields(
            msg.attachments@,
        ).take(i - 1).push(attachment_field(*attachment)));
    }
    assert(attachment_fields(msg.attachments@).take(i as int) == attachment_fields(
        msg.attachments@,
    ));
    builder.build()
}

} // verus!
