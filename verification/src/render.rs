//! Turning an inbound message into what a transport can send: the text
//! line, the list of links, the avatar address and the time label.

use crate::clock::{label_of, timestamp_label};
use crate::message::{attachment_urls, opt_text, texts, Attachment, InboundMessage};
use crate::text::{decimal, push_decimal};
use vstd::prelude::*;
use vstd::string::StringExecFns;

verus! {

/// How many default avatars the platform offers.
pub const DEFAULT_AVATAR_COUNT: u64 = 5;

/// The accent colour of an author's card: the low 24 bits of the author id.
pub open spec fn color_of(user_id: u64) -> u32 {
    (user_id % 0x100_0000) as u32
}

/// Derives a stable accent colour from an author id.
pub fn calculate_color(user_id: u64) -> (color: u32)
    ensures
        color == color_of(user_id),
        color <= 0xFF_FFFF,
{
    let masked: u64 = user_id & 0xFF_FFFF;
    assert(masked == user_id % 0x100_0000) by (bit_vector)
        requires
            masked == user_id & 0xFF_FFFF,
    ;
    masked as u32
}

/// The author's name as a bold label, then the body.
pub open spec fn labelled_line(name: Seq<char>, body: Seq<char>) -> Seq<char> {
    "**"@ + name + "**: "@ + body
}

/// Every link on a line of its own, each line begun by a line feed.
pub open spec fn link_lines(links: Seq<Seq<char>>) -> Seq<char>
    decreases links.len(),
{
    if links.len() == 0 {
        Seq::empty()
    } else {
        link_lines(links.drop_last()) + "\n"@ + links.last()
    }
}

/// The whole of a message as plain text: the labelled line, then the links.
pub open spec fn full_text(name: Seq<char>, body: Seq<char>, links: Seq<Seq<char>>) -> Seq<char> {
    labelled_line(name, body) + link_lines(links)
}

/// The address of an author's avatar: the configured image, or one of the
/// platform's default images picked by the author id.
pub open spec fn avatar_url_text(author_id: u64, avatar: Option<Seq<char>>) -> Seq<char> {
    match avatar {
        Some(image) => "https://cdn.discordapp.com/avatars/"@ + decimal(author_id as nat) + "/"@
            + image + ".png"@,
        None => "https://cdn.discordapp.com/embed/avatars/"@ + decimal(
            (author_id % DEFAULT_AVATAR_COUNT) as nat,
        ) + ".png"@,
    }
}

/// Composes the author's name and the message body into one line.
pub fn format_message_content(author_name: &str, content: &str) -> (line: String)
    ensures
        line@ == labelled_line(author_name@, content@),
{
    let mut line = String::new();
    line.append("**");
    line.append(author_name);
    line.append("**: ");
    line.append(content);
    assert(line@ == labelled_line(author_name@, content@)) by {
        assert(Seq::<char>::empty() + "**"@ == "**"@);
    }
    line
}

/// Appends every link of `links` to `out`, each on a new line.
pub fn push_link_lines(out: &mut String, links: &Vec<String>)
    ensures
        final(out)@ == old(out)@ + link_lines(texts(links@)),
{
    let ghost all = texts(links@);
    let mut i: usize = 0;
    assert(all.take(0) == Seq::<Seq<char>>::empty());
    assert(old(out)@ + link_lines(all.take(0)) == old(out)@);
    while i < links.len()
        invariant
            i <= links.len(),
            all == texts(links@),
            out@ == old(out)@ + link_lines(all.take(i as int)),
        decreases links.len() - i,
    {
        out.append("\n");
        out.append(links[i].as_str());
        proof {
            let next = all.take(i + 1);
            assert(next.drop_last() == all.take(i as int));
            assert(next.last() == links@[i as int]@);
            assert(old(out)@ + link_lines(all.take(i as int)) + "\n"@ + links@[i as int]@ == old(
                out,
            )@ + link_lines(next));
        }
        i = i + 1;
    }
    assert(all.take(links.len() as int) == all);
}

/// The addresses of `attachments`, in their order.
pub fn attachment_links(attachments: &[Attachment]) -> (links: Vec<String>)
    ensures
        texts(links@) == attachment_urls(attachments@),
{
    let mut links: Vec<String> = Vec::new();
    let mut i: usize = 0;
    while i < attachments.len()
        invariant
            i <= attachments.len(),
            links.len() == i,
            forall|j: int| 0 <= j < i ==> links@[j]@ == attachments@[j].url@,
        decreases attachments.len() - i,
    {
        links.push(attachments[i].url.clone());
        i = i + 1;
    }
    assert(texts(links@) =~= attachment_urls(attachments@));
    links
}

/// The links of the attachments as text: empty where there are none, else
/// every address on a line of its own.
pub fn format_attachments(attachments: &[Attachment]) -> (lines: String)
    ensures
        lines@ == link_lines(attachment_urls(attachments@)),
{
    let mut lines = String::new();
    let links = attachment_links(attachments);
    push_link_lines(&mut lines, &links);
    assert(Seq::<char>::empty() + link_lines(texts(links@)) == link_lines(texts(links@)));
    lines
}

/// The whole of a message as plain text: who wrote it, what it says, and
/// where its attachments are.
pub fn create_full_message_content(
    author_name: &str,
    content: &str,
    attachments: &[Attachment],
) -> (text: String)
    ensures
        text@ == full_text(author_name@, content@, attachment_urls(attachments@)),
{
    let mut text = format_message_content(author_name, content);
    let links = format_attachments(attachments);
    text.append(links.as_str());
    text
}

/// The address of the avatar to show for an author.
pub fn avatar_url(author_id: u64, avatar: &Option<String>) -> (url: String)
    ensures
        url@ == avatar_url_text(author_id, opt_text(*avatar)),
{
    let mut url = String::new();
    match avatar {
        Some(image) => {
            url.append("https://cdn.discordapp.com/avatars/");
            push_decimal(&mut url, author_id);
            url.append("/");
            url.append(image.as_str());
            url.append(".png");
            assert(Seq::<char>::empty() + "https://cdn.discordapp.com/avatars/"@
                == "https://cdn.discordapp.com/avatars/"@);
        },
        None => {
            url.append("https://cdn.discordapp.com/embed/avatars/");
            push_decimal(&mut url, author_id % DEFAULT_AVATAR_COUNT);
            url.append(".png");
            assert(Seq::<char>::empty() + "https://cdn.discordapp.com/embed/avatars/"@
                == "https://cdn.discordapp.com/embed/avatars/"@);
        },
    }
    url
}

/// The circumstances a message is rendered in.
#[derive(Clone, Copy, Debug, PartialEq, Eq)]
pub struct RenderContext {
    /// An impersonating transport will show the sender's identity.
    pub impersonated: bool,
    /// The message is replayed from history.
    pub backfill: bool,
    /// The zone that time labels are given in, in seconds east of UTC.
    pub zone_offset_seconds: i32,
}

/// A message made ready to send, whatever transport will carry it.
#[derive(Clone, Debug, PartialEq, Eq)]
pub struct RenderedPayload {
    pub display_name: String,
    pub avatar_ref: Option<String>,
    pub body_text: String,
    pub attachment_links: Vec<String>,
    pub rendered_timestamp_label: Option<String>,
}

/// What a rendered payload says.
pub struct PayloadView {
    pub display_name: Seq<char>,
    pub avatar_ref: Option<Seq<char>>,
    pub body_text: Seq<char>,
    pub attachment_links: Seq<Seq<char>>,
    pub rendered_timestamp_label: Option<Seq<char>>,
}

impl View for RenderedPayload {
    type V = PayloadView;

    open spec fn view(&self) -> PayloadView {
        PayloadView {
            display_name: self.display_name@,
            avatar_ref: opt_text(self.avatar_ref),
            body_text: self.body_text@,
            attachment_links: texts(self.attachment_links@),
            rendered_timestamp_label: opt_text(self.rendered_timestamp_label),
        }
    }
}

/// The payload that a message renders to.
///
/// The name is kept as it is. The avatar is the author's own image or a
/// default one picked by the author id. Where no impersonating transport will
/// show who wrote the message, the body carries the name as a bold label. A
/// replayed or impersonated message carries the time it was written at.
pub open spec fn rendered(msg: InboundMessage, ctx: RenderContext) -> PayloadView {
    PayloadView {
        display_name: msg.author_display_name@,
        avatar_ref: Some(avatar_url_text(msg.author_id, opt_text(msg.author_avatar_ref))),
        body_text: if ctx.impersonated {
            msg.body@
        } else {
            labelled_line(msg.author_display_name@, msg.body@)
        },
        attachment_links: attachment_urls(msg.attachments@),
        rendered_timestamp_label: if ctx.backfill || ctx.impersonated {
            Some(label_of(msg.created_at + ctx.zone_offset_seconds))
        } else {
            None
        },
    }
}

/// Renders a message for sending.
pub fn render(msg: &InboundMessage, ctx: &RenderContext) -> (payload: RenderedPayload)
    ensures
        payload@ == rendered(*msg, *ctx),
{
    let body_text = if ctx.impersonated {
        msg.body.clone()
    } else {
        format_message_content(msg.author_display_name.as_str(), msg.body.as_str())
    };
    let rendered_timestamp_label = if ctx.backfill || ctx.impersonated {
        Some(timestamp_label(msg.created_at, ctx.zone_offset_seconds))
    } else {
        None
    };
    RenderedPayload {
        display_name: msg.author_display_name.clone(),
        avatar_ref: Some(avatar_url(msg.author_id, &msg.author_avatar_ref)),
        body_text,
        attachment_links: attachment_links(msg.attachments.as_slice()),
        rendered_timestamp_label,
    }
}

/// Rendering twice gives the same payload: nothing but the message and the
/// circumstances enters it, the default avatar included.
pub proof fn lemma_render_is_reproducible(a: InboundMessage, b: InboundMessage, ctx: RenderContext)
    requires
        a.author_id == b.author_id,
        a.author_display_name@ == b.author_display_name@,
        opt_text(a.author_avatar_ref) == opt_text(b.author_avatar_ref),
        a.body@ == b.body@,
        attachment_urls(a.attachments@) == attachment_urls(b.attachments@),
        a.created_at == b.created_at,
    ensures
        rendered(a, ctx) == rendered(b, ctx),
{
}

} // verus!
