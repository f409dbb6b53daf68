//! Data model and wire codec for the provider's inbound webhook: the
//! deeply nested payload of a received email, serialized to and parsed
//! from its PascalCase JSON shape, with the fixed date pattern and
//! base64 attachment content handled by the crate's own codecs.

use vstd::prelude::*;
use vstd::string::StringExecFns;
use crate::b64;
use crate::client::{join_commas, lemma_join_snoc};
use crate::date::{self, UtcDateTime};
use crate::json::{
    int_scan, parse_int_at, parse_string_at, push_quoted, quoted, skip_value_at, skip_value_scan,
    skip_ws, str_scan, ws_end,
};
use crate::text::{chars_to_string, int_digits, push_dec_i64, push_str_chars, str_to_chars};

verus! {

/// One participant record of the payload: address, display name, and
/// the provider's mailbox-hash routing tag.
#[derive(PartialEq, Clone, Debug)]
pub struct Participant {
    pub email: String,
    pub name: String,
    pub mailbox_hash: String,
}

/// One raw message header of the payload.
#[derive(PartialEq, Clone, Debug)]
pub struct Header {
    pub name: String,
    pub value: String,
}

/// One attachment of the payload; `content` holds the decoded bytes
/// that travel base64-encoded on the wire.
#[derive(PartialEq, Clone, Debug)]
pub struct Attachment {
    pub name: String,
    pub content: Vec<u8>,
    pub content_type: String,
    pub content_length: i32,
}

/// The parsed inbound-email payload.
#[derive(PartialEq, Clone, Debug)]
pub struct InboundEmail {
    pub from_name: String,
    pub message_stream: String,
    pub from_full: Participant,
    pub to_full: Vec<Participant>,
    pub cc_full: Vec<Participant>,
    pub bcc_full: Vec<Participant>,
    pub original_recipient: String,
    pub subject: String,
    pub message_id: String,
    pub reply_to: String,
    pub mailbox_hash: String,
    pub date: UtcDateTime,
    pub text_body: String,
    pub html_body: String,
    pub stripped_text_reply: String,
    pub tag: String,
    pub headers: Vec<Header>,
    pub attachments: Vec<Attachment>,
}

impl InboundEmail {
    /// What parsing guarantees and serialization expects: the date is a
    /// valid whole-second UTC instant, which is all the wire pattern
    /// can carry.
    pub open spec fn wf(self) -> bool {
        self.date.wf() && self.date.nanosecond == 0
    }
}

/// The JSON object of one participant.
pub open spec fn participant_json(p: Participant) -> Seq<char> {
    "{\"Email\":"@ + quoted(p.email@) + ",\"Name\":"@ + quoted(p.name@) + ",\"MailboxHash\":"@
        + quoted(p.mailbox_hash@) + "}"@
}

/// The JSON object of one header.
pub open spec fn header_json(h: Header) -> Seq<char> {
    "{\"Name\":"@ + quoted(h.name@) + ",\"Value\":"@ + quoted(h.value@) + "}"@
}

/// The JSON object of one attachment, its content base64-encoded.
pub open spec fn attachment_json(a: Attachment) -> Seq<char> {
    "{\"Name\":"@ + quoted(a.name@) + ",\"Content\":"@ + quoted(b64::encode_spec(a.content@))
        + ",\"ContentType\":"@ + quoted(a.content_type@) + ",\"ContentLength\":"@ + int_digits(
        a.content_length as int,
    ) + "}"@
}

/// A JSON array of already-rendered items.
pub open spec fn array_json(items: Seq<Seq<char>>) -> Seq<char> {
    seq!['['] + join_commas(items) + seq![']']
}

/// The full JSON object of an inbound email, members in the payload's
/// order, with the irregularly cased `MessageID` key.
pub open spec fn inbound_json(x: InboundEmail) -> Seq<char> {
    "{\"FromName\":"@ + quoted(x.from_name@) + ",\"MessageStream\":"@ + quoted(x.message_stream@)
        + ",\"FromFull\":"@ + participant_json(x.from_full) + ",\"ToFull\":"@ + array_json(
        x.to_full@.map_values(|p: Participant| participant_json(p)),
    ) + ",\"CcFull\":"@ + array_json(x.cc_full@.map_values(|p: Participant| participant_json(p)))
        + ",\"BccFull\":"@ + array_json(
        x.bcc_full@.map_values(|p: Participant| participant_json(p)),
    ) + ",\"OriginalRecipient\":"@ + quoted(x.original_recipient@) + ",\"Subject\":"@ + quoted(
        x.subject@,
    ) + ",\"MessageID\":"@ + quoted(x.message_id@) + ",\"ReplyTo\":"@ + quoted(x.reply_to@)
        + ",\"MailboxHash\":"@ + quoted(x.mailbox_hash@) + ",\"Date\":"@ + quoted(
        date::format_spec(x.date),
    ) + ",\"TextBody\":"@ + quoted(x.text_body@) + ",\"HtmlBody\":"@ + quoted(x.html_body@)
        + ",\"StrippedTextReply\":"@ + quoted(x.stripped_text_reply@) + ",\"Tag\":"@ + quoted(
        x.tag@,
    ) + ",\"Headers\":"@ + array_json(x.headers@.map_values(|h: Header| header_json(h)))
        + ",\"Attachments\":"@ + array_json(
        x.attachments@.map_values(|a: Attachment| attachment_json(a)),
    ) + "}"@
}

fn push_participant(out: &mut Vec<char>, p: &Participant)
    ensures
        final(out)@ == old(out)@ + participant_json(*p),
{
    push_str_chars(out, "{\"Email\":");
    push_quoted(out, p.email.as_str());
    push_str_chars(out, ",\"Name\":");
    push_quoted(out, p.name.as_str());
    push_str_chars(out, ",\"MailboxHash\":");
    push_quoted(out, p.mailbox_hash.as_str());
    push_str_chars(out, "}");
    assert(out@ =~= old(out)@ + participant_json(*p));
}

fn push_header(out: &mut Vec<char>, h: &Header)
    ensures
        final(out)@ == old(out)@ + header_json(*h),
{
    push_str_chars(out, "{\"Name\":");
    push_quoted(out, h.name.as_str());
    push_str_chars(out, ",\"Value\":");
    push_quoted(out, h.value.as_str());
    push_str_chars(out, "}");
    assert(out@ =~= old(out)@ + header_json(*h));
}

fn push_attachment(out: &mut Vec<char>, a: &Attachment)
    ensures
        final(out)@ == old(out)@ + attachment_json(*a),
{
    push_str_chars(out, "{\"Name\":");
    push_quoted(out, a.name.as_str());
    push_str_chars(out, ",\"Content\":");
    let encoded = b64::serialize(&a.content);
    push_quoted(out, encoded.as_str());
    push_str_chars(out, ",\"ContentType\":");
    push_quoted(out, a.content_type.as_str());
    push_str_chars(out, ",\"ContentLength\":");
    push_dec_i64(out, a.content_length as i64);
    push_str_chars(out, "}");
    assert(out@ =~= old(out)@ + attachment_json(*a));
}

fn push_participant_array(out: &mut Vec<char>, ps: &Vec<Participant>)
    ensures
        final(out)@ == old(out)@ + array_json(
            ps@.map_values(|p: Participant| participant_json(p)),
        ),
{
    let ghost views = ps@.map_values(|p: Participant| participant_json(p));
    out.push('[');
    let mut i: usize = 0;
    while i < ps.len()
        invariant
            i <= ps.len(),
            views == ps@.map_values(|p: Participant| participant_json(p)),
            out@ == old(out)@ + seq!['['] + join_commas(views.take(i as int)),
        decreases ps.len() - i,
    {
        if i > 0 {
            out.push(',');
        }
        push_participant(out, &ps[i]);
        proof {
            if i == 0 {
                assert(views.take(1) =~= seq![views[0]]);
                assert(out@ =~= old(out)@ + seq!['['] + join_commas(views.take(1)));
            } else {
                lemma_join_snoc(views, i as int);
                assert(out@ =~= old(out)@ + seq!['['] + join_commas(views.take(i as int + 1)));
            }
        }
        i += 1;
    }
    proof {
        assert(views.take(views.len() as int) =~= views);
    }
    out.push(']');
    assert(out@ =~= old(out)@ + array_json(views));
}

fn push_header_array(out: &mut Vec<char>, hs: &Vec<Header>)
    ensures
        final(out)@ == old(out)@ + array_json(hs@.map_values(|h: Header| header_json(h))),
{
    let ghost views = hs@.map_values(|h: Header| header_json(h));
    out.push('[');
    let mut i: usize = 0;
    while i < hs.len()
        invariant
            i <= hs.len(),
            views == hs@.map_values(|h: Header| header_json(h)),
            out@ == old(out)@ + seq!['['] + join_commas(views.take(i as int)),
        decreases hs.len() - i,
    {
        if i > 0 {
            out.push(',');
        }
        push_header(out, &hs[i]);
        proof {
            if i == 0 {
                assert(views.take(1) =~= seq![views[0]]);
                assert(out@ =~= old(out)@ + seq!['['] + join_commas(views.take(1)));
            } else {
                lemma_join_snoc(views, i as int);
                assert(out@ =~= old(out)@ + seq!['['] + join_commas(views.take(i as int + 1)));
            }
        }
        i += 1;
    }
    proof {
        assert(views.take(views.len() as int) =~= views);
    }
    out.push(']');
    assert(out@ =~= old(out)@ + array_json(views));
}

fn push_attachment_array(out: &mut Vec<char>, attachments: &Vec<Attachment>)
    ensures
        final(out)@ == old(out)@ + array_json(
            attachments@.map_values(|a: Attachment| attachment_json(a)),
        ),
{
    let ghost views = attachments@.map_values(|a: Attachment| attachment_json(a));
    out.push('[');
    let mut i: usize = 0;
    while i < attachments.len()
        invariant
            i <= attachments.len(),
            views == attachments@.map_values(|a: Attachment| attachment_json(a)),
            out@ == old(out)@ + seq!['['] + join_commas(views.take(i as int)),
        decreases attachments.len() - i,
    {
        if i > 0 {
            out.push(',');
        }
        push_attachment(out, &attachments[i]);
        proof {
            if i == 0 {
                assert(views.take(1) =~= seq![views[0]]);
                assert(out@ =~= old(out)@ + seq!['['] + join_commas(views.take(1)));
            } else {
                lemma_join_snoc(views, i as int);
                assert(out@ =~= old(out)@ + seq!['['] + join_commas(views.take(i as int + 1)));
            }
        }
        i += 1;
    }
    proof {
        assert(views.take(views.len() as int) =~= views);
    }
    out.push(']');
    assert(out@ =~= old(out)@ + array_json(views));
}

/// Serializes an inbound email to its exact JSON wire form, per
/// [`inbound_json`].
#[verifier::rlimit(100)]
pub fn serialize(x: &InboundEmail) -> (r: String)
    requires
        x.wf(),
    ensures
        r@ == inbound_json(*x),
{
    let mut out: Vec<char> = Vec::new();
    push_str_chars(&mut out, "{\"FromName\":");
    push_quoted(&mut out, x.from_name.as_str());
    push_str_chars(&mut out, ",\"MessageStream\":");
    push_quoted(&mut out, x.message_stream.as_str());
    push_str_chars(&mut out, ",\"FromFull\":");
    push_participant(&mut out, &x.from_full);
    push_str_chars(&mut out, ",\"ToFull\":");
    push_participant_array(&mut out, &x.to_full);
    push_str_chars(&mut out, ",\"CcFull\":");
    push_participant_array(&mut out, &x.cc_full);
    push_str_chars(&mut out, ",\"BccFull\":");
    push_participant_array(&mut out, &x.bcc_full);
    push_str_chars(&mut out, ",\"OriginalRecipient\":");
    push_quoted(&mut out, x.original_recipient.as_str());
    push_str_chars(&mut out, ",\"Subject\":");
    push_quoted(&mut out, x.subject.as_str());
    push_str_chars(&mut out, ",\"MessageID\":");
    push_quoted(&mut out, x.message_id.as_str());
    push_str_chars(&mut out, ",\"ReplyTo\":");
    push_quoted(&mut out, x.reply_to.as_str());
    push_str_chars(&mut out, ",\"MailboxHash\":");
    push_quoted(&mut out, x.mailbox_hash.as_str());
    push_str_chars(&mut out, ",\"Date\":");
    let date_text = date::serialize(&x.date);
    push_quoted(&mut out, date_text.as_str());
    push_str_chars(&mut out, ",\"TextBody\":");
    push_quoted(&mut out, x.text_body.as_str());
    push_str_chars(&mut out, ",\"HtmlBody\":");
    push_quoted(&mut out, x.html_body.as_str());
    push_str_chars(&mut out, ",\"StrippedTextReply\":");
    push_quoted(&mut out, x.stripped_text_reply.as_str());
    push_str_chars(&mut out, ",\"Tag\":");
    push_quoted(&mut out, x.tag.as_str());
    push_str_chars(&mut out, ",\"Headers\":");
    push_header_array(&mut out, &x.headers);
    push_str_chars(&mut out, ",\"Attachments\":");
    push_attachment_array(&mut out, &x.attachments);
    push_str_chars(&mut out, "}");
    assert(out@ =~= inbound_json(*x));
    chars_to_string(&out)
}

/// The plain-value fields of a scanned participant.
pub struct ParticipantFields {
    pub email: Seq<char>,
    pub name: Seq<char>,
    pub mailbox_hash: Seq<char>,
}

/// The plain-value fields of a scanned header.
pub struct HeaderFields {
    pub name: Seq<char>,
    pub value: Seq<char>,
}

/// The plain-value fields of a scanned attachment.
pub struct AttachmentFields {
    pub name: Seq<char>,
    pub content: Seq<u8>,
    pub content_type: Seq<char>,
    pub content_length: i32,
}

pub open spec fn participant_fields(p: Participant) -> ParticipantFields {
    ParticipantFields { email: p.email@, name: p.name@, mailbox_hash: p.mailbox_hash@ }
}

pub open spec fn header_fields(h: Header) -> HeaderFields {
    HeaderFields { name: h.name@, value: h.value@ }
}

pub open spec fn attachment_fields(a: Attachment) -> AttachmentFields {
    AttachmentFields {
        name: a.name@,
        content: a.content@,
        content_type: a.content_type@,
        content_length: a.content_length,
    }
}

pub open spec fn participant_fields_of(ps: Seq<Participant>) -> Seq<ParticipantFields> {
    ps.map_values(|p: Participant| participant_fields(p))
}

pub open spec fn header_fields_of(hs: Seq<Header>) -> Seq<HeaderFields> {
    hs.map_values(|h: Header| header_fields(h))
}

pub open spec fn attachment_fields_of(attachments: Seq<Attachment>) -> Seq<AttachmentFields> {
    attachments.map_values(|a: Attachment| attachment_fields(a))
}

pub open spec fn opt_text(v: Option<String>) -> Option<Seq<char>> {
    match v {
        Some(s) => Some(s@),
        None => None,
    }
}

pub open spec fn opt_participant(v: Option<Participant>) -> Option<ParticipantFields> {
    match v {
        Some(p) => Some(participant_fields(p)),
        None => None,
    }
}

pub open spec fn opt_participants(v: Option<Vec<Participant>>) -> Option<Seq<ParticipantFields>> {
    match v {
        Some(ps) => Some(participant_fields_of(ps@)),
        None => None,
    }
}

pub open spec fn opt_headers(v: Option<Vec<Header>>) -> Option<Seq<HeaderFields>> {
    match v {
        Some(hs) => Some(header_fields_of(hs@)),
        None => None,
    }
}

pub open spec fn opt_attachments(v: Option<Vec<Attachment>>) -> Option<Seq<AttachmentFields>> {
    match v {
        Some(xs) => Some(attachment_fields_of(xs@)),
        None => None,
    }
}

/// Scan of the members of a participant object from `i` (at a key),
/// carrying the members already seen: member order is free, unknown
/// members are skipped, a repeated member keeps its later value, and
/// all three members must be present at the closing brace.
pub open spec fn participant_members_scan(
    s: Seq<char>,
    i: int,
    email: Option<Seq<char>>,
    name: Option<Seq<char>>,
    mailbox_hash: Option<Seq<char>>,
) -> Option<(ParticipantFields, int)>
    decreases s.len() - i,
{
    match str_scan(s, i) {
        None => None,
        Some(key_p) => {
            let j2 = ws_end(s, key_p.1);
            if !(j2 < s.len() && s[j2] == ':') {
                None
            } else {
                let j3 = ws_end(s, j2 + 1);
                let step: Option<(Option<Seq<char>>, Option<Seq<char>>, Option<Seq<char>>, int)> =
                    if key_p.0 == "Email"@ {
                    match str_scan(s, j3) {
                        Some(vp) => Some((Some(vp.0), name, mailbox_hash, vp.1)),
                        None => None,
                    }
                } else if key_p.0 == "Name"@ {
                    match str_scan(s, j3) {
                        Some(vp) => Some((email, Some(vp.0), mailbox_hash, vp.1)),
                        None => None,
                    }
                } else if key_p.0 == "MailboxHash"@ {
                    match str_scan(s, j3) {
                        Some(vp) => Some((email, name, Some(vp.0), vp.1)),
                        None => None,
                    }
                } else {
                    match skip_value_scan(s, j3) {
                        Some(jn) => Some((email, name, mailbox_hash, jn)),
                        None => None,
                    }
                };
                match step {
                    None => None,
                    Some(st) => {
                        let j5 = ws_end(s, st.3);
                        if !(i < j5 <= s.len()) {
                            None  // never: every member scan moves forward in range
                        } else if j5 < s.len() && s[j5] == ',' {
                            let j6 = ws_end(s, j5 + 1);
                            if j6 <= i || j6 > s.len() {
                                None
                            } else {
                                participant_members_scan(s, j6, st.0, st.1, st.2)
                            }
                        } else if j5 < s.len() && s[j5] == '}' {
                            match (st.0, st.1, st.2) {
                                (Some(e0), Some(n0), Some(h0)) => Some(
                                    (
                                        ParticipantFields {
                                            email: e0,
                                            name: n0,
                                            mailbox_hash: h0,
                                        },
                                        j5 + 1,
                                    ),
                                ),
                                _ => None,
                            }
                        } else {
                            None
                        }
                    },
                }
            }
        },
    }
}

/// Scan of one participant object starting at `i`.
pub open spec fn participant_scan(s: Seq<char>, i: int) -> Option<(ParticipantFields, int)> {
    if !(0 <= i < s.len() && s[i] == '{') {
        None
    } else {
        let j = ws_end(s, i + 1);
        if !(i < j <= s.len()) {
            None  // never
        } else if j < s.len() && s[j] == '}' {
            None  // the required members are missing
        } else {
            participant_members_scan(s, j, None, None, None)
        }
    }
}

/// Scan of the members of a header object, in the same style.
pub open spec fn header_members_scan(
    s: Seq<char>,
    i: int,
    name: Option<Seq<char>>,
    value: Option<Seq<char>>,
) -> Option<(HeaderFields, int)>
    decreases s.len() - i,
{
    match str_scan(s, i) {
        None => None,
        Some(key_p) => {
            let j2 = ws_end(s, key_p.1);
            if !(j2 < s.len() && s[j2] == ':') {
                None
            } else {
                let j3 = ws_end(s, j2 + 1);
                let step: Option<(Option<Seq<char>>, Option<Seq<char>>, int)> = if key_p.0
                    == "Name"@ {
                    match str_scan(s, j3) {
                        Some(vp) => Some((Some(vp.0), value, vp.1)),
                        None => None,
                    }
                } else if key_p.0 == "Value"@ {
                    match str_scan(s, j3) {
                        Some(vp) => Some((name, Some(vp.0), vp.1)),
                        None => None,
                    }
                } else {
                    match skip_value_scan(s, j3) {
                        Some(jn) => Some((name, value, jn)),
                        None => None,
                    }
                };
                match step {
                    None => None,
                    Some(st) => {
                        let j5 = ws_end(s, st.2);
                        if !(i < j5 <= s.len()) {
                            None  // never
                        } else if j5 < s.len() && s[j5] == ',' {
                            let j6 = ws_end(s, j5 + 1);
                            if j6 <= i || j6 > s.len() {
                                None
                            } else {
                                header_members_scan(s, j6, st.0, st.1)
                            }
                        } else if j5 < s.len() && s[j5] == '}' {
                            match (st.0, st.1) {
                                (Some(n0), Some(v0)) => Some(
                                    (HeaderFields { name: n0, value: v0 }, j5 + 1),
                                ),
                                _ => None,
                            }
                        } else {
                            None
                        }
                    },
                }
            }
        },
    }
}

/// Scan of one header object starting at `i`.
pub open spec fn header_scan(s: Seq<char>, i: int) -> Option<(HeaderFields, int)> {
    if !(0 <= i < s.len() && s[i] == '{') {
        None
    } else {
        let j = ws_end(s, i + 1);
        if !(i < j <= s.len()) {
            None  // never
        } else if j < s.len() && s[j] == '}' {
            None  // the required members are missing
        } else {
            header_members_scan(s, j, None, None)
        }
    }
}

/// Scan of the members of an attachment object, in the same style;
/// the content member is base64-decoded through [`b64::decode_spec`]
/// and the length must fit `i32`.
pub open spec fn attachment_members_scan(
    s: Seq<char>,
    i: int,
    name: Option<Seq<char>>,
    content: Option<Seq<u8>>,
    content_type: Option<Seq<char>>,
    content_length: Option<i32>,
) -> Option<(AttachmentFields, int)>
    decreases s.len() - i,
{
    match str_scan(s, i) {
        None => None,
        Some(key_p) => {
            let j2 = ws_end(s, key_p.1);
            if !(j2 < s.len() && s[j2] == ':') {
                None
            } else {
                let j3 = ws_end(s, j2 + 1);
                let step: Option<
                    (Option<Seq<char>>, Option<Seq<u8>>, Option<Seq<char>>, Option<i32>, int),
                > = if key_p.0 == "Name"@ {
                    match str_scan(s, j3) {
                        Some(vp) => Some((Some(vp.0), content, content_type, content_length, vp.1)),
                        None => None,
                    }
                } else if key_p.0 == "Content"@ {
                    match str_scan(s, j3) {
                        Some(vp) => match b64::decode_spec(vp.0) {
                            Some(bytes) => Some(
                                (name, Some(bytes), content_type, content_length, vp.1),
                            ),
                            None => None,
                        },
                        None => None,
                    }
                } else if key_p.0 == "ContentType"@ {
                    match str_scan(s, j3) {
                        Some(vp) => Some((name, content, Some(vp.0), content_length, vp.1)),
                        None => None,
                    }
                } else if key_p.0 == "ContentLength"@ {
                    match int_scan(s, j3) {
                        Some(vp) => if -2147483648 <= vp.0 <= 2147483647 {
                            Some((name, content, content_type, Some(vp.0 as i32), vp.1))
                        } else {
                            None
                        },
                        None => None,
                    }
                } else {
                    match skip_value_scan(s, j3) {
                        Some(jn) => Some((name, content, content_type, content_length, jn)),
                        None => None,
                    }
                };
                match step {
                    None => None,
                    Some(st) => {
                        let j5 = ws_end(s, st.4);
                        if !(i < j5 <= s.len()) {
                            None  // never
                        } else if j5 < s.len() && s[j5] == ',' {
                            let j6 = ws_end(s, j5 + 1);
                            if j6 <= i || j6 > s.len() {
                                None
                            } else {
                                attachment_members_scan(s, j6, st.0, st.1, st.2, st.3)
                            }
                        } else if j5 < s.len() && s[j5] == '}' {
                            match (st.0, st.1, st.2, st.3) {
                                (Some(n0), Some(c0), Some(t0), Some(l0)) => Some(
                                    (
                                        AttachmentFields {
                                            name: n0,
                                            content: c0,
                                            content_type: t0,
                                            content_length: l0,
                                        },
                                        j5 + 1,
                                    ),
                                ),
                                _ => None,
                            }
                        } else {
                            None
                        }
                    },
                }
            }
        },
    }
}

/// Scan of one attachment object starting at `i`.
pub open spec fn attachment_scan(s: Seq<char>, i: int) -> Option<(AttachmentFields, int)> {
    if !(0 <= i < s.len() && s[i] == '{') {
        None
    } else {
        let j = ws_end(s, i + 1);
        if !(i < j <= s.len()) {
            None  // never
        } else if j < s.len() && s[j] == '}' {
            None  // the required members are missing
        } else {
            attachment_members_scan(s, j, None, None, None, None)
        }
    }
}

/// Scan of the items of a participant array from `i` (at an item),
/// accumulating onto `acc`.
pub open spec fn participant_items_scan(s: Seq<char>, i: int, acc: Seq<ParticipantFields>) -> Option<
    (Seq<ParticipantFields>, int),
>
    decreases s.len() - i,
{
    match participant_scan(s, i) {
        None => None,
        Some(p) => {
            if !(i < p.1 <= s.len()) {
                None  // never: an item scan moves forward in range
            } else {
                let j2 = ws_end(s, p.1);
                if !(j2 <= s.len()) {
                    None  // never
                } else if j2 < s.len() && s[j2] == ',' {
                    let j3 = ws_end(s, j2 + 1);
                    if j3 <= i || j3 > s.len() {
                        None
                    } else {
                        participant_items_scan(s, j3, acc.push(p.0))
                    }
                } else if j2 < s.len() && s[j2] == ']' {
                    Some((acc.push(p.0), j2 + 1))
                } else {
                    None
                }
            }
        },
    }
}

/// Scan of a whole participant array starting at `i`.
pub open spec fn participant_array_scan(s: Seq<char>, i: int) -> Option<(Seq<ParticipantFields>, int)> {
    if !(0 <= i < s.len() && s[i] == '[') {
        None
    } else {
        let j = ws_end(s, i + 1);
        if !(i < j <= s.len()) {
            None  // never
        } else if j < s.len() && s[j] == ']' {
            Some((Seq::empty(), j + 1))
        } else {
            participant_items_scan(s, j, Seq::empty())
        }
    }
}

/// Scan of the items of a header array, in the same style.
pub open spec fn header_items_scan(s: Seq<char>, i: int, acc: Seq<HeaderFields>) -> Option<
    (Seq<HeaderFields>, int),
>
    decreases s.len() - i,
{
    match header_scan(s, i) {
        None => None,
        Some(p) => {
            if !(i < p.1 <= s.len()) {
                None  // never
            } else {
                let j2 = ws_end(s, p.1);
                if !(j2 <= s.len()) {
                    None  // never
                } else if j2 < s.len() && s[j2] == ',' {
                    let j3 = ws_end(s, j2 + 1);
                    if j3 <= i || j3 > s.len() {
                        None
                    } else {
                        header_items_scan(s, j3, acc.push(p.0))
                    }
                } else if j2 < s.len() && s[j2] == ']' {
                    Some((acc.push(p.0), j2 + 1))
                } else {
                    None
                }
            }
        },
    }
}

/// Scan of a whole header array starting at `i`.
pub open spec fn header_array_scan(s: Seq<char>, i: int) -> Option<(Seq<HeaderFields>, int)> {
    if !(0 <= i < s.len() && s[i] == '[') {
        None
    } else {
        let j = ws_end(s, i + 1);
        if !(i < j <= s.len()) {
            None  // never
        } else if j < s.len() && s[j] == ']' {
            Some((Seq::empty(), j + 1))
        } else {
            header_items_scan(s, j, Seq::empty())
        }
    }
}

/// Scan of the items of an attachment array, in the same style.
pub open spec fn attachment_items_scan(s: Seq<char>, i: int, acc: Seq<AttachmentFields>) -> Option<
    (Seq<AttachmentFields>, int),
>
    decreases s.len() - i,
{
    match attachment_scan(s, i) {
        None => None,
        Some(p) => {
            if !(i < p.1 <= s.len()) {
                None  // never
            } else {
                let j2 = ws_end(s, p.1);
                if !(j2 <= s.len()) {
                    None  // never
                } else if j2 < s.len() && s[j2] == ',' {
                    let j3 = ws_end(s, j2 + 1);
                    if j3 <= i || j3 > s.len() {
                        None
                    } else {
                        attachment_items_scan(s, j3, acc.push(p.0))
                    }
                } else if j2 < s.len() && s[j2] == ']' {
                    Some((acc.push(p.0), j2 + 1))
                } else {
                    None
                }
            }
        },
    }
}

/// Scan of a whole attachment array starting at `i`.
pub open spec fn attachment_array_scan(s: Seq<char>, i: int) -> Option<(Seq<AttachmentFields>, int)> {
    if !(0 <= i < s.len() && s[i] == '[') {
        None
    } else {
        let j = ws_end(s, i + 1);
        if !(i < j <= s.len()) {
            None  // never
        } else if j < s.len() && s[j] == ']' {
            Some((Seq::empty(), j + 1))
        } else {
            attachment_items_scan(s, j, Seq::empty())
        }
    }
}

/// The plain-value fields of a scanned payload.
pub struct InboundFields {
    pub from_name: Seq<char>,
    pub message_stream: Seq<char>,
    pub from_full: ParticipantFields,
    pub to_full: Seq<ParticipantFields>,
    pub cc_full: Seq<ParticipantFields>,
    pub bcc_full: Seq<ParticipantFields>,
    pub original_recipient: Seq<char>,
    pub subject: Seq<char>,
    pub message_id: Seq<char>,
    pub reply_to: Seq<char>,
    pub mailbox_hash: Seq<char>,
    pub date: UtcDateTime,
    pub text_body: Seq<char>,
    pub html_body: Seq<char>,
    pub stripped_text_reply: Seq<char>,
    pub tag: Seq<char>,
    pub headers: Seq<HeaderFields>,
    pub attachments: Seq<AttachmentFields>,
}

pub open spec fn inbound_fields(e: InboundEmail) -> InboundFields {
    InboundFields {
        from_name: e.from_name@,
        message_stream: e.message_stream@,
        from_full: participant_fields(e.from_full),
        to_full: participant_fields_of(e.to_full@),
        cc_full: participant_fields_of(e.cc_full@),
        bcc_full: participant_fields_of(e.bcc_full@),
        original_recipient: e.original_recipient@,
        subject: e.subject@,
        message_id: e.message_id@,
        reply_to: e.reply_to@,
        mailbox_hash: e.mailbox_hash@,
        date: e.date,
        text_body: e.text_body@,
        html_body: e.html_body@,
        stripped_text_reply: e.stripped_text_reply@,
        tag: e.tag@,
        headers: header_fields_of(e.headers@),
        attachments: attachment_fields_of(e.attachments@),
    }
}

/// The members of a payload scan seen so far.
pub struct InboundPartial {
    pub from_name: Option<Seq<char>>,
    pub message_stream: Option<Seq<char>>,
    pub from_full: Option<ParticipantFields>,
    pub to_full: Option<Seq<ParticipantFields>>,
    pub cc_full: Option<Seq<ParticipantFields>>,
    pub bcc_full: Option<Seq<ParticipantFields>>,
    pub original_recipient: Option<Seq<char>>,
    pub subject: Option<Seq<char>>,
    pub message_id: Option<Seq<char>>,
    pub reply_to: Option<Seq<char>>,
    pub mailbox_hash: Option<Seq<char>>,
    pub date: Option<UtcDateTime>,
    pub text_body: Option<Seq<char>>,
    pub html_body: Option<Seq<char>>,
    pub stripped_text_reply: Option<Seq<char>>,
    pub tag: Option<Seq<char>>,
    pub headers: Option<Seq<HeaderFields>>,
    pub attachments: Option<Seq<AttachmentFields>>,
}

/// One member of the payload, dispatched by key: the updated partial
/// state and the position after the member's value, or `None` where
/// the value does not scan. String members go through [`str_scan`],
/// the date through the fixed-pattern [`date::parse_spec`], the
/// nested objects and arrays through their own scans, and unknown
/// members are skipped.
pub open spec fn inbound_member_scan(s: Seq<char>, j3: int, key: Seq<char>, st: InboundPartial) -> Option<
    (InboundPartial, int),
> {
    if key == "FromName"@ {
        match str_scan(s, j3) {
            Some(vp) => Some((InboundPartial { from_name: Some(vp.0), ..st }, vp.1)),
            None => None,
        }
    } else if key == "MessageStream"@ {
        match str_scan(s, j3) {
            Some(vp) => Some((InboundPartial { message_stream: Some(vp.0), ..st }, vp.1)),
            None => None,
        }
    } else if key == "FromFull"@ {
        match participant_scan(s, j3) {
            Some(vp) => Some((InboundPartial { from_full: Some(vp.0), ..st }, vp.1)),
            None => None,
        }
    } else if key == "ToFull"@ {
        match participant_array_scan(s, j3) {
            Some(vp) => Some((InboundPartial { to_full: Some(vp.0), ..st }, vp.1)),
            None => None,
        }
    } else if key == "CcFull"@ {
        match participant_array_scan(s, j3) {
            Some(vp) => Some((InboundPartial { cc_full: Some(vp.0), ..st }, vp.1)),
            None => None,
        }
    } else if key == "BccFull"@ {
        match participant_array_scan(s, j3) {
            Some(vp) => Some((InboundPartial { bcc_full: Some(vp.0), ..st }, vp.1)),
            None => None,
        }
    } else if key == "OriginalRecipient"@ {
        match str_scan(s, j3) {
            Some(vp) => Some((InboundPartial { original_recipient: Some(vp.0), ..st }, vp.1)),
            None => None,
        }
    } else if key == "Subject"@ {
        match str_scan(s, j3) {
            Some(vp) => Some((InboundPartial { subject: Some(vp.0), ..st }, vp.1)),
            None => None,
        }
    } else if key == "MessageID"@ {
        match str_scan(s, j3) {
            Some(vp) => Some((InboundPartial { message_id: Some(vp.0), ..st }, vp.1)),
            None => None,
        }
    } else if key == "ReplyTo"@ {
        match str_scan(s, j3) {
            Some(vp) => Some((InboundPartial { reply_to: Some(vp.0), ..st }, vp.1)),
            None => None,
        }
    } else if key == "MailboxHash"@ {
        match str_scan(s, j3) {
            Some(vp) => Some((InboundPartial { mailbox_hash: Some(vp.0), ..st }, vp.1)),
            None => None,
        }
    } else if key == "Date"@ {
        match str_scan(s, j3) {
            Some(vp) => match date::parse_spec(vp.0) {
                Some(t) => Some((InboundPartial { date: Some(t), ..st }, vp.1)),
                None => None,
            },
            None => None,
        }
    } else if key == "TextBody"@ {
        match str_scan(s, j3) {
            Some(vp) => Some((InboundPartial { text_body: Some(vp.0), ..st }, vp.1)),
            None => None,
        }
    } else if key == "HtmlBody"@ {
        match str_scan(s, j3) {
            Some(vp) => Some((InboundPartial { html_body: Some(vp.0), ..st }, vp.1)),
            None => None,
        }
    } else if key == "StrippedTextReply"@ {
        match str_scan(s, j3) {
            Some(vp) => Some((InboundPartial { stripped_text_reply: Some(vp.0), ..st }, vp.1)),
            None => None,
        }
    } else if key == "Tag"@ {
        match str_scan(s, j3) {
            Some(vp) => Some((InboundPartial { tag: Some(vp.0), ..st }, vp.1)),
            None => None,
        }
    } else if key == "Headers"@ {
        match header_array_scan(s, j3) {
            Some(vp) => Some((InboundPartial { headers: Some(vp.0), ..st }, vp.1)),
            None => None,
        }
    } else if key == "Attachments"@ {
        match attachment_array_scan(s, j3) {
            Some(vp) => Some((InboundPartial { attachments: Some(vp.0), ..st }, vp.1)),
            None => None,
        }
    } else {
        match skip_value_scan(s, j3) {
            Some(jn) => Some((st, jn)),
            None => None,
        }
    }
}

/// The completed fields once every member was seen, or `None` where
/// one is missing.
pub open spec fn inbound_complete(st: InboundPartial) -> Option<InboundFields> {
    if st.from_name is Some && st.message_stream is Some && st.from_full is Some && st.to_full
        is Some && st.cc_full is Some && st.bcc_full is Some && st.original_recipient is Some
        && st.subject is Some && st.message_id is Some && st.reply_to is Some && st.mailbox_hash
        is Some && st.date is Some && st.text_body is Some && st.html_body is Some
        && st.stripped_text_reply is Some && st.tag is Some && st.headers is Some
        && st.attachments is Some {
        Some(
            InboundFields {
                from_name: st.from_name->Some_0,
                message_stream: st.message_stream->Some_0,
                from_full: st.from_full->Some_0,
                to_full: st.to_full->Some_0,
                cc_full: st.cc_full->Some_0,
                bcc_full: st.bcc_full->Some_0,
                original_recipient: st.original_recipient->Some_0,
                subject: st.subject->Some_0,
                message_id: st.message_id->Some_0,
                reply_to: st.reply_to->Some_0,
                mailbox_hash: st.mailbox_hash->Some_0,
                date: st.date->Some_0,
                text_body: st.text_body->Some_0,
                html_body: st.html_body->Some_0,
                stripped_text_reply: st.stripped_text_reply->Some_0,
                tag: st.tag->Some_0,
                headers: st.headers->Some_0,
                attachments: st.attachments->Some_0,
            },
        )
    } else {
        None
    }
}

/// Scan of the members of a payload object from `i` (at a key),
/// carrying the members already seen: member order is free, unknown
/// members are skipped, a repeated member keeps its later value, and
/// every member of the model must be present at the closing brace.
pub open spec fn inbound_members_scan(s: Seq<char>, i: int, st: InboundPartial) -> Option<
    (InboundFields, int),
>
    decreases s.len() - i,
{
    match str_scan(s, i) {
        None => None,
        Some(key_p) => {
            let j2 = ws_end(s, key_p.1);
            if !(j2 < s.len() && s[j2] == ':') {
                None
            } else {
                let j3 = ws_end(s, j2 + 1);
                match inbound_member_scan(s, j3, key_p.0, st) {
                    None => None,
                    Some(stp) => {
                        let j5 = ws_end(s, stp.1);
                        if !(i < j5 <= s.len()) {
                            None  // never: every member scan moves forward in range
                        } else if j5 < s.len() && s[j5] == ',' {
                            let j6 = ws_end(s, j5 + 1);
                            if j6 <= i || j6 > s.len() {
                                None
                            } else {
                                inbound_members_scan(s, j6, stp.0)
                            }
                        } else if j5 < s.len() && s[j5] == '}' {
                            match inbound_complete(stp.0) {
                                Some(fields) => Some((fields, j5 + 1)),
                                None => None,
                            }
                        } else {
                            None
                        }
                    },
                }
            }
        },
    }
}

pub open spec fn inbound_empty_partial() -> InboundPartial {
    InboundPartial {
        from_name: None,
        message_stream: None,
        from_full: None,
        to_full: None,
        cc_full: None,
        bcc_full: None,
        original_recipient: None,
        subject: None,
        message_id: None,
        reply_to: None,
        mailbox_hash: None,
        date: None,
        text_body: None,
        html_body: None,
        stripped_text_reply: None,
        tag: None,
        headers: None,
        attachments: None,
    }
}

/// Scan of a whole inbound payload with nothing but whitespace around
/// it: the payload's fields exactly when the body is well-formed with
/// every member present.
pub open spec fn inbound_scan(s: Seq<char>) -> Option<InboundFields> {
    let i = ws_end(s, 0);
    if !(0 <= i < s.len() && s[i] == '{') {
        None
    } else {
        let j = ws_end(s, i + 1);
        if !(0 <= j <= s.len()) {
            None  // never
        } else if j < s.len() && s[j] == '}' {
            None  // the required members are missing
        } else {
            match inbound_members_scan(s, j, inbound_empty_partial()) {
                Some(p) => if ws_end(s, p.1) == s.len() {
                    Some(p.0)
                } else {
                    None
                },
                None => None,
            }
        }
    }
}

pub open spec fn opt_bytes(v: Option<Vec<u8>>) -> Option<Seq<u8>> {
    match v {
        Some(b) => Some(b@),
        None => None,
    }
}

#[verifier::spinoff_prover]
#[verifier::rlimit(100)]
fn participant_members_at(
    cs: &Vec<char>,
    i: usize,
    email: Option<String>,
    name: Option<String>,
    mailbox_hash: Option<String>,
) -> (r: Option<(Participant, usize)>)
    requires
        i <= cs.len(),
    ensures
        match r {
            Some(p) => participant_members_scan(
                cs@,
                i as int,
                opt_text(email),
                opt_text(name),
                opt_text(mailbox_hash),
            ) == Some((participant_fields(p.0), p.1 as int)) && i < p.1 <= cs.len(),
            None => participant_members_scan(
                cs@,
                i as int,
                opt_text(email),
                opt_text(name),
                opt_text(mailbox_hash),
            ) is None,
        },
    decreases cs.len() - i,
{
    let (key, j) = match parse_string_at(cs, i) {
        Some(p) => p,
        None => {
            return None;
        },
    };
    let j2 = skip_ws(cs, j);
    if j2 >= cs.len() || cs[j2] != ':' {
        return None;
    }
    let j3 = skip_ws(cs, j2 + 1);
    let mut c_email = email;
    let mut c_name = name;
    let mut c_hash = mailbox_hash;
    let j4: usize;
    if key.eq(&String::from_str("Email")) {
        let (v, jn) = match parse_string_at(cs, j3) {
            Some(p) => p,
            None => {
                return None;
            },
        };
        c_email = Some(v);
        j4 = jn;
    } else if key.eq(&String::from_str("Name")) {
        let (v, jn) = match parse_string_at(cs, j3) {
            Some(p) => p,
            None => {
                return None;
            },
        };
        c_name = Some(v);
        j4 = jn;
    } else if key.eq(&String::from_str("MailboxHash")) {
        let (v, jn) = match parse_string_at(cs, j3) {
            Some(p) => p,
            None => {
                return None;
            },
        };
        c_hash = Some(v);
        j4 = jn;
    } else {
        j4 = match skip_value_at(cs, j3) {
            Some(jn) => jn,
            None => {
                return None;
            },
        };
    }
    let j5 = skip_ws(cs, j4);
    if j5 < cs.len() && cs[j5] == ',' {
        let j6 = skip_ws(cs, j5 + 1);
        if j6 <= i {
            return None;
        }
        participant_members_at(cs, j6, c_email, c_name, c_hash)
    } else if j5 < cs.len() && cs[j5] == '}' {
        match (c_email, c_name, c_hash) {
            (Some(e0), Some(n0), Some(h0)) => Some(
                (Participant { email: e0, name: n0, mailbox_hash: h0 }, j5 + 1),
            ),
            _ => None,
        }
    } else {
        None
    }
}

/// Reads one participant object starting at `start`, per
/// [`participant_scan`].
fn parse_participant_at(cs: &Vec<char>, start: usize) -> (r: Option<(Participant, usize)>)
    requires
        start <= cs.len(),
    ensures
        match r {
            Some(p) => participant_scan(cs@, start as int) == Some(
                (participant_fields(p.0), p.1 as int),
            ) && start < p.1 <= cs.len(),
            None => participant_scan(cs@, start as int) is None,
        },
{
    if start >= cs.len() || cs[start] != '{' {
        return None;
    }
    let j = skip_ws(cs, start + 1);
    if j < cs.len() && cs[j] == '}' {
        return None;
    }
    participant_members_at(cs, j, None, None, None)
}

#[verifier::spinoff_prover]
#[verifier::rlimit(100)]
fn header_members_at(cs: &Vec<char>, i: usize, name: Option<String>, value: Option<String>) -> (r:
    Option<(Header, usize)>)
    requires
        i <= cs.len(),
    ensures
        match r {
            Some(p) => header_members_scan(cs@, i as int, opt_text(name), opt_text(value)) == Some(
                (header_fields(p.0), p.1 as int),
            ) && i < p.1 <= cs.len(),
            None => header_members_scan(cs@, i as int, opt_text(name), opt_text(value)) is None,
        },
    decreases cs.len() - i,
{
    let (key, j) = match parse_string_at(cs, i) {
        Some(p) => p,
        None => {
            return None;
        },
    };
    let j2 = skip_ws(cs, j);
    if j2 >= cs.len() || cs[j2] != ':' {
        return None;
    }
    let j3 = skip_ws(cs, j2 + 1);
    let mut c_name = name;
    let mut c_value = value;
    let j4: usize;
    if key.eq(&String::from_str("Name")) {
        let (v, jn) = match parse_string_at(cs, j3) {
            Some(p) => p,
            None => {
                return None;
            },
        };
        c_name = Some(v);
        j4 = jn;
    } else if key.eq(&String::from_str("Value")) {
        let (v, jn) = match parse_string_at(cs, j3) {
            Some(p) => p,
            None => {
                return None;
            },
        };
        c_value = Some(v);
        j4 = jn;
    } else {
        j4 = match skip_value_at(cs, j3) {
            Some(jn) => jn,
            None => {
                return None;
            },
        };
    }
    let j5 = skip_ws(cs, j4);
    if j5 < cs.len() && cs[j5] == ',' {
        let j6 = skip_ws(cs, j5 + 1);
        if j6 <= i {
            return None;
        }
        header_members_at(cs, j6, c_name, c_value)
    } else if j5 < cs.len() && cs[j5] == '}' {
        match (c_name, c_value) {
            (Some(n0), Some(v0)) => Some((Header { name: n0, value: v0 }, j5 + 1)),
            _ => None,
        }
    } else {
        None
    }
}

/// Reads one header object starting at `start`, per [`header_scan`].
fn parse_header_at(cs: &Vec<char>, start: usize) -> (r: Option<(Header, usize)>)
    requires
        start <= cs.len(),
    ensures
        match r {
            Some(p) => header_scan(cs@, start as int) == Some((header_fields(p.0), p.1 as int))
                && start < p.1 <= cs.len(),
            None => header_scan(cs@, start as int) is None,
        },
{
    if start >= cs.len() || cs[start] != '{' {
        return None;
    }
    let j = skip_ws(cs, start + 1);
    if j < cs.len() && cs[j] == '}' {
        return None;
    }
    header_members_at(cs, j, None, None)
}

#[verifier::spinoff_prover]
#[verifier::rlimit(100)]
fn attachment_members_at(
    cs: &Vec<char>,
    i: usize,
    name: Option<String>,
    content: Option<Vec<u8>>,
    content_type: Option<String>,
    content_length: Option<i32>,
) -> (r: Option<(Attachment, usize)>)
    requires
        i <= cs.len(),
    ensures
        match r {
            Some(p) => attachment_members_scan(
                cs@,
                i as int,
                opt_text(name),
                opt_bytes(content),
                opt_text(content_type),
                content_length,
            ) == Some((attachment_fields(p.0), p.1 as int)) && i < p.1 <= cs.len(),
            None => attachment_members_scan(
                cs@,
                i as int,
                opt_text(name),
                opt_bytes(content),
                opt_text(content_type),
                content_length,
            ) is None,
        },
    decreases cs.len() - i,
{
    let (key, j) = match parse_string_at(cs, i) {
        Some(p) => p,
        None => {
            return None;
        },
    };
    let j2 = skip_ws(cs, j);
    if j2 >= cs.len() || cs[j2] != ':' {
        return None;
    }
    let j3 = skip_ws(cs, j2 + 1);
    let mut c_name = name;
    let mut c_content = content;
    let mut c_type = content_type;
    let mut c_length = content_length;
    let j4: usize;
    if key.eq(&String::from_str("Name")) {
        let (v, jn) = match parse_string_at(cs, j3) {
            Some(p) => p,
            None => {
                return None;
            },
        };
        c_name = Some(v);
        j4 = jn;
    } else if key.eq(&String::from_str("Content")) {
        let (v, jn) = match parse_string_at(cs, j3) {
            Some(p) => p,
            None => {
                return None;
            },
        };
        let bytes = match b64::deserialize(v.as_str()) {
            Ok(bytes) => bytes,
            Err(_) => {
                return None;
            },
        };
        c_content = Some(bytes);
        j4 = jn;
    } else if key.eq(&String::from_str("ContentType")) {
        let (v, jn) = match parse_string_at(cs, j3) {
            Some(p) => p,
            None => {
                return None;
            },
        };
        c_type = Some(v);
        j4 = jn;
    } else if key.eq(&String::from_str("ContentLength")) {
        let (v, jn) = match parse_int_at(cs, j3) {
            Some(p) => p,
            None => {
                return None;
            },
        };
        if v < -2147483648i64 || v > 2147483647i64 {
            return None;
        }
        c_length = Some(v as i32);
        j4 = jn;
    } else {
        j4 = match skip_value_at(cs, j3) {
            Some(jn) => jn,
            None => {
                return None;
            },
        };
    }
    let j5 = skip_ws(cs, j4);
    if j5 < cs.len() && cs[j5] == ',' {
        let j6 = skip_ws(cs, j5 + 1);
        if j6 <= i {
            return None;
        }
        attachment_members_at(cs, j6, c_name, c_content, c_type, c_length)
    } else if j5 < cs.len() && cs[j5] == '}' {
        match (c_name, c_content, c_type, c_length) {
            (Some(n0), Some(b0), Some(t0), Some(l0)) => Some(
                (
                    Attachment {
                        name: n0,
                        content: b0,
                        content_type: t0,
                        content_length: l0,
                    },
                    j5 + 1,
                ),
            ),
            _ => None,
        }
    } else {
        None
    }
}

/// Reads one attachment object starting at `start`, per
/// [`attachment_scan`].
fn parse_attachment_at(cs: &Vec<char>, start: usize) -> (r: Option<(Attachment, usize)>)
    requires
        start <= cs.len(),
    ensures
        match r {
            Some(p) => attachment_scan(cs@, start as int) == Some(
                (attachment_fields(p.0), p.1 as int),
            ) && start < p.1 <= cs.len(),
            None => attachment_scan(cs@, start as int) is None,
        },
{
    if start >= cs.len() || cs[start] != '{' {
        return None;
    }
    let j = skip_ws(cs, start + 1);
    if j < cs.len() && cs[j] == '}' {
        return None;
    }
    attachment_members_at(cs, j, None, None, None, None)
}

fn participant_items_at(cs: &Vec<char>, i: usize, acc: Vec<Participant>) -> (r: Option<(Vec<Participant>, usize)>)
    requires
        i <= cs.len(),
    ensures
        match r {
            Some(p) => participant_items_scan(cs@, i as int, participant_fields_of(acc@)) == Some(
                (participant_fields_of(p.0@), p.1 as int),
            ) && i < p.1 <= cs.len(),
            None => participant_items_scan(cs@, i as int, participant_fields_of(acc@)) is None,
        },
    decreases cs.len() - i,
{
    let (item, j) = match parse_participant_at(cs, i) {
        Some(p) => p,
        None => {
            return None;
        },
    };
    let j2 = skip_ws(cs, j);
    if j2 < cs.len() && cs[j2] == ',' {
        let j3 = skip_ws(cs, j2 + 1);
        if j3 <= i {
            return None;
        }
        let ghost before = participant_fields_of(acc@);
        let mut acc2 = acc;
        acc2.push(item);
        proof {
            assert(participant_fields_of(acc2@) =~= before.push(participant_fields(item)));
        }
        participant_items_at(cs, j3, acc2)
    } else if j2 < cs.len() && cs[j2] == ']' {
        let ghost before = participant_fields_of(acc@);
        let mut acc2 = acc;
        acc2.push(item);
        proof {
            assert(participant_fields_of(acc2@) =~= before.push(participant_fields(item)));
        }
        Some((acc2, j2 + 1))
    } else {
        None
    }
}

/// Reads a whole participant array starting at `start`, per
/// [`participant_array_scan`].
fn parse_participant_array_at(cs: &Vec<char>, start: usize) -> (r: Option<(Vec<Participant>, usize)>)
    requires
        start <= cs.len(),
    ensures
        match r {
            Some(p) => participant_array_scan(cs@, start as int) == Some((participant_fields_of(p.0@), p.1 as int)) && start
                < p.1 <= cs.len(),
            None => participant_array_scan(cs@, start as int) is None,
        },
{
    if start >= cs.len() || cs[start] != '[' {
        return None;
    }
    let j = skip_ws(cs, start + 1);
    if j < cs.len() && cs[j] == ']' {
        let items: Vec<Participant> = Vec::new();
        proof {
            assert(participant_fields_of(items@) =~= Seq::<ParticipantFields>::empty());
        }
        return Some((items, j + 1));
    }
    let items: Vec<Participant> = Vec::new();
    proof {
        assert(participant_fields_of(items@) =~= Seq::<ParticipantFields>::empty());
    }
    participant_items_at(cs, j, items)
}

fn header_items_at(cs: &Vec<char>, i: usize, acc: Vec<Header>) -> (r: Option<(Vec<Header>, usize)>)
    requires
        i <= cs.len(),
    ensures
        match r {
            Some(p) => header_items_scan(cs@, i as int, header_fields_of(acc@)) == Some(
                (header_fields_of(p.0@), p.1 as int),
            ) && i < p.1 <= cs.len(),
            None => header_items_scan(cs@, i as int, header_fields_of(acc@)) is None,
        },
    decreases cs.len() - i,
{
    let (item, j) = match parse_header_at(cs, i) {
        Some(p) => p,
        None => {
            return None;
        },
    };
    let j2 = skip_ws(cs, j);
    if j2 < cs.len() && cs[j2] == ',' {
        let j3 = skip_ws(cs, j2 + 1);
        if j3 <= i {
            return None;
        }
        let ghost before = header_fields_of(acc@);
        let mut acc2 = acc;
        acc2.push(item);
        proof {
            assert(header_fields_of(acc2@) =~= before.push(header_fields(item)));
        }
        header_items_at(cs, j3, acc2)
    } else if j2 < cs.len() && cs[j2] == ']' {
        let ghost before = header_fields_of(acc@);
        let mut acc2 = acc;
        acc2.push(item);
        proof {
            assert(header_fields_of(acc2@) =~= before.push(header_fields(item)));
        }
        Some((acc2, j2 + 1))
    } else {
        None
    }
}

/// Reads a whole header array starting at `start`, per
/// [`header_array_scan`].
fn parse_header_array_at(cs: &Vec<char>, start: usize) -> (r: Option<(Vec<Header>, usize)>)
    requires
        start <= cs.len(),
    ensures
        match r {
            Some(p) => header_array_scan(cs@, start as int) == Some((header_fields_of(p.0@), p.1 as int)) && start
                < p.1 <= cs.len(),
            None => header_array_scan(cs@, start as int) is None,
        },
{
    if start >= cs.len() || cs[start] != '[' {
        return None;
    }
    let j = skip_ws(cs, start + 1);
    if j < cs.len() && cs[j] == ']' {
        let items: Vec<Header> = Vec::new();
        proof {
            assert(header_fields_of(items@) =~= Seq::<HeaderFields>::empty());
        }
        return Some((items, j + 1));
    }
    let items: Vec<Header> = Vec::new();
    proof {
        assert(header_fields_of(items@) =~= Seq::<HeaderFields>::empty());
    }
    header_items_at(cs, j, items)
}

fn attachment_items_at(cs: &Vec<char>, i: usize, acc: Vec<Attachment>) -> (r: Option<(Vec<Attachment>, usize)>)
    requires
        i <= cs.len(),
    ensures
        match r {
            Some(p) => attachment_items_scan(cs@, i as int, attachment_fields_of(acc@)) == Some(
                (attachment_fields_of(p.0@), p.1 as int),
            ) && i < p.1 <= cs.len(),
            None => attachment_items_scan(cs@, i as int, attachment_fields_of(acc@)) is None,
        },
    decreases cs.len() - i,
{
    let (item, j) = match parse_attachment_at(cs, i) {
        Some(p) => p,
        None => {
            return None;
        },
    };
    let j2 = skip_ws(cs, j);
    if j2 < cs.len() && cs[j2] == ',' {
        let j3 = skip_ws(cs, j2 + 1);
        if j3 <= i {
            return None;
        }
        let ghost before = attachment_fields_of(acc@);
        let mut acc2 = acc;
        acc2.push(item);
        proof {
            assert(attachment_fields_of(acc2@) =~= before.push(attachment_fields(item)));
        }
        attachment_items_at(cs, j3, acc2)
    } else if j2 < cs.len() && cs[j2] == ']' {
        let ghost before = attachment_fields_of(acc@);
        let mut acc2 = acc;
        acc2.push(item);
        proof {
            assert(attachment_fields_of(acc2@) =~= before.push(attachment_fields(item)));
        }
        Some((acc2, j2 + 1))
    } else {
        None
    }
}

/// Reads a whole attachment array starting at `start`, per
/// [`attachment_array_scan`].
fn parse_attachment_array_at(cs: &Vec<char>, start: usize) -> (r: Option<(Vec<Attachment>, usize)>)
    requires
        start <= cs.len(),
    ensures
        match r {
            Some(p) => attachment_array_scan(cs@, start as int) == Some((attachment_fields_of(p.0@), p.1 as int)) && start
                < p.1 <= cs.len(),
            None => attachment_array_scan(cs@, start as int) is None,
        },
{
    if start >= cs.len() || cs[start] != '[' {
        return None;
    }
    let j = skip_ws(cs, start + 1);
    if j < cs.len() && cs[j] == ']' {
        let items: Vec<Attachment> = Vec::new();
        proof {
            assert(attachment_fields_of(items@) =~= Seq::<AttachmentFields>::empty());
        }
        return Some((items, j + 1));
    }
    let items: Vec<Attachment> = Vec::new();
    proof {
        assert(attachment_fields_of(items@) =~= Seq::<AttachmentFields>::empty());
    }
    attachment_items_at(cs, j, items)
}

/// The scan-level view of the walker's partial state.
pub open spec fn partial_of(
    from_name: Option<String>,
    message_stream: Option<String>,
    from_full: Option<Participant>,
    to_full: Option<Vec<Participant>>,
    cc_full: Option<Vec<Participant>>,
    bcc_full: Option<Vec<Participant>>,
    original_recipient: Option<String>,
    subject: Option<String>,
    message_id: Option<String>,
    reply_to: Option<String>,
    mailbox_hash: Option<String>,
    date: Option<UtcDateTime>,
    text_body: Option<String>,
    html_body: Option<String>,
    stripped_text_reply: Option<String>,
    tag: Option<String>,
    headers: Option<Vec<Header>>,
    attachments: Option<Vec<Attachment>>,
) -> InboundPartial {
    InboundPartial {
        from_name: opt_text(from_name),
        message_stream: opt_text(message_stream),
        from_full: opt_participant(from_full),
        to_full: opt_participants(to_full),
        cc_full: opt_participants(cc_full),
        bcc_full: opt_participants(bcc_full),
        original_recipient: opt_text(original_recipient),
        subject: opt_text(subject),
        message_id: opt_text(message_id),
        reply_to: opt_text(reply_to),
        mailbox_hash: opt_text(mailbox_hash),
        date: date,
        text_body: opt_text(text_body),
        html_body: opt_text(html_body),
        stripped_text_reply: opt_text(stripped_text_reply),
        tag: opt_text(tag),
        headers: opt_headers(headers),
        attachments: opt_attachments(attachments),
    }
}

#[verifier::spinoff_prover]
#[verifier::rlimit(100)]
fn inbound_members_at(
    cs: &Vec<char>,
    i: usize,
    from_name: Option<String>,
    message_stream: Option<String>,
    from_full: Option<Participant>,
    to_full: Option<Vec<Participant>>,
    cc_full: Option<Vec<Participant>>,
    bcc_full: Option<Vec<Participant>>,
    original_recipient: Option<String>,
    subject: Option<String>,
    message_id: Option<String>,
    reply_to: Option<String>,
    mailbox_hash: Option<String>,
    date: Option<UtcDateTime>,
    text_body: Option<String>,
    html_body: Option<String>,
    stripped_text_reply: Option<String>,
    tag: Option<String>,
    headers: Option<Vec<Header>>,
    attachments: Option<Vec<Attachment>>,
) -> (r: Option<(InboundEmail, usize)>)
    requires
        i <= cs.len(),
        date matches Some(t) ==> t.wf() && t.nanosecond == 0,
    ensures
        match r {
            Some(p) => inbound_members_scan(cs@, i as int, partial_of(from_name, message_stream, from_full, to_full, cc_full, bcc_full, original_recipient, subject, message_id, reply_to, mailbox_hash, date, text_body, html_body, stripped_text_reply, tag, headers, attachments)) == Some(
                (inbound_fields(p.0), p.1 as int),
            ) && i < p.1 <= cs.len() && p.0.wf(),
            None => inbound_members_scan(cs@, i as int, partial_of(from_name, message_stream, from_full, to_full, cc_full, bcc_full, original_recipient, subject, message_id, reply_to, mailbox_hash, date, text_body, html_body, stripped_text_reply, tag, headers, attachments)) is None,
        },
    decreases cs.len() - i,
{
    let (key, j) = match parse_string_at(cs, i) {
        Some(p) => p,
        None => {
            return None;
        },
    };
    let j2 = skip_ws(cs, j);
    if j2 >= cs.len() || cs[j2] != ':' {
        return None;
    }
    let j3 = skip_ws(cs, j2 + 1);
    let mut c_from_name = from_name;
    let mut c_message_stream = message_stream;
    let mut c_from_full = from_full;
    let mut c_to_full = to_full;
    let mut c_cc_full = cc_full;
    let mut c_bcc_full = bcc_full;
    let mut c_original_recipient = original_recipient;
    let mut c_subject = subject;
    let mut c_message_id = message_id;
    let mut c_reply_to = reply_to;
    let mut c_mailbox_hash = mailbox_hash;
    let mut c_date = date;
    let mut c_text_body = text_body;
    let mut c_html_body = html_body;
    let mut c_stripped_text_reply = stripped_text_reply;
    let mut c_tag = tag;
    let mut c_headers = headers;
    let mut c_attachments = attachments;
    let j4: usize;
    if key.eq(&String::from_str("FromName")) {
        let (v, jn) = match parse_string_at(cs, j3) {
            Some(p) => p,
            None => {
                return None;
            },
        };
        c_from_name = Some(v);
        j4 = jn;
    } else if key.eq(&String::from_str("MessageStream")) {
        let (v, jn) = match parse_string_at(cs, j3) {
            Some(p) => p,
            None => {
                return None;
            },
        };
        c_message_stream = Some(v);
        j4 = jn;
    } else if key.eq(&String::from_str("FromFull")) {
        let (v, jn) = match parse_participant_at(cs, j3) {
            Some(p) => p,
            None => {
                return None;
            },
        };
        c_from_full = Some(v);
        j4 = jn;
    } else if key.eq(&String::from_str("ToFull")) {
        let (v, jn) = match parse_participant_array_at(cs, j3) {
            Some(p) => p,
            None => {
                return None;
            },
        };
        c_to_full = Some(v);
        j4 = jn;
    } else if key.eq(&String::from_str("CcFull")) {
        let (v, jn) = match parse_participant_array_at(cs, j3) {
            Some(p) => p,
            None => {
                return None;
            },
        };
        c_cc_full = Some(v);
        j4 = jn;
    } else if key.eq(&String::from_str("BccFull")) {
        let (v, jn) = match parse_participant_array_at(cs, j3) {
            Some(p) => p,
            None => {
                return None;
            },
        };
        c_bcc_full = Some(v);
        j4 = jn;
    } else if key.eq(&String::from_str("OriginalRecipient")) {
        let (v, jn) = match parse_string_at(cs, j3) {
            Some(p) => p,
            None => {
                return None;
            },
        };
        c_original_recipient = Some(v);
        j4 = jn;
    } else if key.eq(&String::from_str("Subject")) {
        let (v, jn) = match parse_string_at(cs, j3) {
            Some(p) => p,
            None => {
                return None;
            },
        };
        c_subject = Some(v);
        j4 = jn;
    } else if key.eq(&String::from_str("MessageID")) {
        let (v, jn) = match parse_string_at(cs, j3) {
            Some(p) => p,
            None => {
                return None;
            },
        };
        c_message_id = Some(v);
        j4 = jn;
    } else if key.eq(&String::from_str("ReplyTo")) {
        let (v, jn) = match parse_string_at(cs, j3) {
            Some(p) => p,
            None => {
                return None;
            },
        };
        c_reply_to = Some(v);
        j4 = jn;
    } else if key.eq(&String::from_str("MailboxHash")) {
        let (v, jn) = match parse_string_at(cs, j3) {
            Some(p) => p,
            None => {
                return None;
            },
        };
        c_mailbox_hash = Some(v);
        j4 = jn;
    } else if key.eq(&String::from_str("Date")) {
        let (v, jn) = match parse_string_at(cs, j3) {
            Some(p) => p,
            None => {
                return None;
            },
        };
        let t = match date::deserialize(v.as_str()) {
            Ok(t) => t,
            Err(_) => {
                return None;
            },
        };
        c_date = Some(t);
        j4 = jn;
    } else if key.eq(&String::from_str("TextBody")) {
        let (v, jn) = match parse_string_at(cs, j3) {
            Some(p) => p,
            None => {
                return None;
            },
        };
        c_text_body = Some(v);
        j4 = jn;
    } else if key.eq(&String::from_str("HtmlBody")) {
        let (v, jn) = match parse_string_at(cs, j3) {
            Some(p) => p,
            None => {
                return None;
            },
        };
        c_html_body = Some(v);
        j4 = jn;
    } else if key.eq(&String::from_str("StrippedTextReply")) {
        let (v, jn) = match parse_string_at(cs, j3) {
            Some(p) => p,
            None => {
                return None;
            },
        };
        c_stripped_text_reply = Some(v);
        j4 = jn;
    } else if key.eq(&String::from_str("Tag")) {
        let (v, jn) = match parse_string_at(cs, j3) {
            Some(p) => p,
            None => {
                return None;
            },
        };
        c_tag = Some(v);
        j4 = jn;
    } else if key.eq(&String::from_str("Headers")) {
        let (v, jn) = match parse_header_array_at(cs, j3) {
            Some(p) => p,
            None => {
                return None;
            },
        };
        c_headers = Some(v);
        j4 = jn;
    } else if key.eq(&String::from_str("Attachments")) {
        let (v, jn) = match parse_attachment_array_at(cs, j3) {
            Some(p) => p,
            None => {
                return None;
            },
        };
        c_attachments = Some(v);
        j4 = jn;
    } else {
        j4 = match skip_value_at(cs, j3) {
            Some(jn) => jn,
            None => {
                return None;
            },
        };
    }
    proof {
        assert(inbound_member_scan(cs@, j3 as int, key@, partial_of(from_name, message_stream, from_full, to_full, cc_full, bcc_full, original_recipient, subject, message_id, reply_to, mailbox_hash, date, text_body, html_body, stripped_text_reply, tag, headers, attachments)) == Some(
            (partial_of(c_from_name, c_message_stream, c_from_full, c_to_full, c_cc_full, c_bcc_full, c_original_recipient, c_subject, c_message_id, c_reply_to, c_mailbox_hash, c_date, c_text_body, c_html_body, c_stripped_text_reply, c_tag, c_headers, c_attachments), j4 as int),
        ));
    }
    let j5 = skip_ws(cs, j4);
    if j5 < cs.len() && cs[j5] == ',' {
        let j6 = skip_ws(cs, j5 + 1);
        if j6 <= i {
            return None;
        }
        inbound_members_at(cs, j6, c_from_name, c_message_stream, c_from_full, c_to_full, c_cc_full, c_bcc_full, c_original_recipient, c_subject, c_message_id, c_reply_to, c_mailbox_hash, c_date, c_text_body, c_html_body, c_stripped_text_reply, c_tag, c_headers, c_attachments)
    } else if j5 < cs.len() && cs[j5] == '}' {
        match (c_from_name, c_message_stream, c_from_full, c_to_full, c_cc_full, c_bcc_full) {
            (Some(w1), Some(w2), Some(w3), Some(w4), Some(w5), Some(w6)) => match (c_original_recipient, c_subject, c_message_id, c_reply_to, c_mailbox_hash, c_date) {
                (Some(w7), Some(w8), Some(w9), Some(w10), Some(w11), Some(w12)) => match (c_text_body, c_html_body, c_stripped_text_reply, c_tag, c_headers, c_attachments) {
                    (Some(w13), Some(w14), Some(w15), Some(w16), Some(w17), Some(w18)) => Some(
                        (
                            InboundEmail {
                                from_name: w1,
                                message_stream: w2,
                                from_full: w3,
                                to_full: w4,
                                cc_full: w5,
                                bcc_full: w6,
                                original_recipient: w7,
                                subject: w8,
                                message_id: w9,
                                reply_to: w10,
                                mailbox_hash: w11,
                                date: w12,
                                text_body: w13,
                                html_body: w14,
                                stripped_text_reply: w15,
                                tag: w16,
                                headers: w17,
                                attachments: w18,
                            },
                            j5 + 1,
                        ),
                    ),
                    _ => None,
                },
                _ => None,
            },
            _ => None,
        }
    } else {
        None
    }
}

/// Parses the JSON of an inbound webhook payload, per
/// [`inbound_scan`]: success and the payload's fields exactly when
/// the scan yields them (members in any order, unknown members
/// skipped, every member of the model required, the date normalized
/// to UTC and attachment content base64-decoded), an error exactly
/// when it does not.
pub fn deserialize(body: &str) -> (r: Result<InboundEmail, String>)
    ensures
        match r {
            Ok(e) => inbound_scan(body@) == Some(inbound_fields(e)) && e.wf(),
            Err(_) => inbound_scan(body@) is None,
        },
{
    let cs = str_to_chars(body);
    let i = skip_ws(&cs, 0);
    if i >= cs.len() || cs[i] != '{' {
        return Err(String::from_str("expected an object"));
    }
    let j = skip_ws(&cs, i + 1);
    if j < cs.len() && cs[j] == '}' {
        return Err(String::from_str("missing member"));
    }
    match inbound_members_at(
        &cs,
        j,
        None,
        None,
        None,
        None,
        None,
        None,
        None,
        None,
        None,
        None,
        None,
        None,
        None,
        None,
        None,
        None,
        None,
        None,
    ) {
        Some((email, end)) => {
            let i2 = skip_ws(&cs, end);
            if i2 != cs.len() {
                Err(String::from_str("trailing characters"))
            } else {
                Ok(email)
            }
        },
        None => Err(String::from_str("unreadable payload")),
    }
}

/// The round-trip law of the payload's two custom codecs: a valid
/// whole-second UTC date and any attachment bytes come back unchanged
/// from their own wire forms.
pub proof fn lemma_inbound_codecs_round_trip(t: UtcDateTime, bytes: Seq<u8>)
    requires
        t.wf(),
        t.nanosecond == 0,
    ensures
        date::parse_spec(date::format_spec(t)) == Some(t),
        b64::decode_spec(b64::encode_spec(bytes)) == Some(bytes),
{
    date::lemma_date_round_trip(t);
    b64::lemma_base64_round_trip(bytes);
}

} // verus!
