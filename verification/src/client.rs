//! Outbound side of the client: the email body sum type, the JSON
//! payload of the "send email" call, and the mapping from the
//! provider's response status to a receipt or a typed failure.

use vstd::prelude::*;
use vstd::string::{StringExecFns, StrSliceExecFns};
use crate::base_url::BaseUrl;
use crate::date::UtcDateTime;
use crate::error::{Error, PostmarkError};
use crate::json::{
    int_scan, parse_int_at, parse_string_at, push_quoted, quoted, skip_value_at, skip_value_scan,
    skip_ws, str_scan, ws_end,
};
use crate::text::{chars_to_string, push_str_chars, str_to_chars};

verus! {

/// Body of an outbound email: HTML, plain text, or both.
///
/// By construction at least one of the two parts is always present;
/// an email with neither body cannot be represented.
#[derive(PartialEq, Copy, Clone, Debug)]
pub enum EmailBody<'a> {
    Html(&'a str),
    Text(&'a str),
    Both { html: &'a str, text: &'a str },
}

/// The HTML part the wire format carries for a body.
pub open spec fn html_part(b: EmailBody) -> Option<Seq<char>> {
    match b {
        EmailBody::Html(html) => Some(html@),
        EmailBody::Text(_) => None,
        EmailBody::Both { html, text } => Some(html@),
    }
}

/// The plain-text part the wire format carries for a body.
pub open spec fn text_part(b: EmailBody) -> Option<Seq<char>> {
    match b {
        EmailBody::Html(_) => None,
        EmailBody::Text(text) => Some(text@),
        EmailBody::Both { html, text } => Some(text@),
    }
}

impl<'a> EmailBody<'a> {
    /// Decomposes the body into the wire format's `(HtmlBody, TextBody)`
    /// pair of optional fields: `Html` fills only the first, `Text` only
    /// the second, `Both` fills both.
    pub fn into_tuple(self) -> (r: (Option<&'a str>, Option<&'a str>))
        ensures
            match self {
                EmailBody::Html(html) => r.0 == Some(html) && r.1 is None,
                EmailBody::Text(text) => r.0 is None && r.1 == Some(text),
                EmailBody::Both { html, text } => r.0 == Some(html) && r.1 == Some(text),
            },
    {
        match self {
            EmailBody::Html(html) => (Some(html), None),
            EmailBody::Text(text) => (None, Some(text)),
            EmailBody::Both { html, text } => (Some(html), Some(text)),
        }
    }
}

/// An outbound email: recipient addresses, subject, and body.
#[derive(PartialEq, Copy, Clone, Debug)]
pub struct OutboundEmail<'a> {
    pub recipients: &'a [&'a str],
    pub subject: &'a str,
    pub body: EmailBody<'a>,
}

/// Configuration consumed once when the client is built: an optional
/// base-URL override (the production endpoint when absent) and the
/// server token presented as the credential header.
#[derive(PartialEq, Clone, Debug)]
pub struct Config {
    pub base_url: Option<BaseUrl>,
    pub server_token: String,
}

/// The provider's receipt for an accepted send: HTTP 200 with the
/// recipient list, the submission instant, and a message identifier.
#[derive(PartialEq, Clone, Debug)]
pub struct SendReceipt {
    pub to: String,
    pub submitted_at: UtcDateTime,
    pub message_id: String,
}

/// The provider's receipt for a rejected send: HTTP 422 with a
/// machine-readable error code and message.
#[derive(PartialEq, Clone, Debug)]
pub struct ErrorReceipt {
    pub error_code: u16,
    pub message: String,
}

impl ErrorReceipt {
    pub open spec fn brief_spec(self) -> Seq<char> {
        crate::text::dec_digits(self.error_code as int) + " - "@ + self.message@
    }

    /// The receipt in the `<code> - <message>` form.
    pub fn brief(&self) -> (r: String)
        ensures
            r@ == self.brief_spec(),
    {
        let mut out: Vec<char> = Vec::new();
        crate::text::push_dec_u64(&mut out, self.error_code as u64);
        push_str_chars(&mut out, " - ");
        push_str_chars(&mut out, self.message.as_str());
        chars_to_string(&out)
    }
}

/// The comma-joined form of an address list.
pub open spec fn join_commas(parts: Seq<Seq<char>>) -> Seq<char>
    decreases parts.len(),
{
    if parts.len() == 0 {
        Seq::empty()
    } else if parts.len() == 1 {
        parts[0]
    } else {
        parts[0] + seq![','] + join_commas(parts.drop_first())
    }
}

pub proof fn lemma_join_snoc(parts: Seq<Seq<char>>, n: int)
    requires
        1 <= n < parts.len(),
    ensures
        join_commas(parts.take(n + 1)) == join_commas(parts.take(n)) + seq![','] + parts[n],
    decreases n,
{
    if n == 1 {
        reveal_with_fuel(join_commas, 3);
        assert(parts.take(2).drop_first() =~= seq![parts[1]]);
        assert(parts.take(1) =~= seq![parts[0]]);
        assert(parts.take(2)[0] == parts[0]);
        assert(join_commas(parts.take(2)) == parts[0] + seq![','] + parts[1]);
    } else {
        let p1 = parts.drop_first();
        assert(parts.take(n + 1).drop_first() =~= p1.take(n));
        assert(parts.take(n).drop_first() =~= p1.take(n - 1));
        assert(parts.take(n + 1)[0] == parts[0]);
        assert(parts.take(n)[0] == parts[0]);
        lemma_join_snoc(p1, n - 1);
        assert(p1[n - 1] == parts[n]);
        assert(parts[0] + seq![','] + (join_commas(p1.take(n - 1)) + seq![','] + parts[n])
            =~= (parts[0] + seq![','] + join_commas(p1.take(n - 1))) + seq![','] + parts[n]);
    }
}

/// The views of the addresses in a recipient slice.
pub open spec fn recipient_views(recipients: Seq<&str>) -> Seq<Seq<char>> {
    recipients.map_values(|s: &str| s@)
}

/// Joins the recipient addresses with `,` into the single address-list
/// string the wire format wants.
pub fn join_recipients(recipients: &[&str]) -> (r: String)
    ensures
        r@ == join_commas(recipient_views(recipients@)),
{
    let ghost views = recipient_views(recipients@);
    let mut out: Vec<char> = Vec::new();
    let mut i: usize = 0;
    while i < recipients.len()
        invariant
            i <= recipients.len(),
            views == recipient_views(recipients@),
            out@ == join_commas(views.take(i as int)),
        decreases recipients.len() - i,
    {
        if i > 0 {
            out.push(',');
        }
        push_str_chars(&mut out, recipients[i]);
        proof {
            assert(views[i as int] == recipients@[i as int]@);
            if i == 0 {
                assert(views.take(1) =~= seq![views[0]]);
                assert(out@ =~= join_commas(views.take(1)));
            } else {
                lemma_join_snoc(views, i as int);
                assert(out@ =~= join_commas(views.take(i as int + 1)));
            }
        }
        i += 1;
    }
    proof {
        assert(views.take(views.len() as int) =~= views);
    }
    chars_to_string(&out)
}

/// An optional member of the payload object: the literal prefix
/// (comma, quoted key and colon) followed by the quoted value, or
/// nothing when the value is absent.
pub open spec fn opt_member(prefix: Seq<char>, v: Option<Seq<char>>) -> Seq<char> {
    match v {
        Some(s) => prefix + quoted(s),
        None => Seq::empty(),
    }
}

/// The exact JSON body of a "send email" request: PascalCase keys,
/// optional members omitted when absent.
pub open spec fn send_body_spec(
    from: Seq<char>,
    to: Seq<char>,
    subject: Seq<char>,
    html: Option<Seq<char>>,
    text: Option<Seq<char>>,
    stream: Option<Seq<char>>,
) -> Seq<char> {
    "{\"From\":"@ + quoted(from) + ",\"To\":"@ + quoted(to) + ",\"Subject\":"@ + quoted(subject)
        + opt_member(",\"HtmlBody\":"@, html) + opt_member(",\"TextBody\":"@, text) + opt_member(
        ",\"MessageStream\":"@,
        stream,
    ) + "}"@
}

/// The view of an optional borrowed string.
pub open spec fn opt_view(v: Option<&str>) -> Option<Seq<char>> {
    match v {
        Some(s) => Some(s@),
        None => None,
    }
}

fn push_opt_member(out: &mut Vec<char>, prefix: &str, v: Option<&str>)
    ensures
        final(out)@ == old(out)@ + opt_member(prefix@, opt_view(v)),
{
    match v {
        Some(s) => {
            push_str_chars(out, prefix);
            push_quoted(out, s);
            assert(out@ =~= old(out)@ + opt_member(prefix@, opt_view(v)));
        },
        None => {
            assert(out@ =~= old(out)@ + opt_member(prefix@, opt_view(v)));
        },
    }
}

/// Builds the JSON request body for one "send email" call, per
/// [`send_body_spec`]: sender, joined recipients, subject, the body
/// decomposed into its optional HTML and text parts, and the optional
/// message stream.
pub fn build_send_body(sender: &str, message_stream: Option<&str>, email: &OutboundEmail) -> (r:
    String)
    ensures
        r@ == send_body_spec(
            sender@,
            join_commas(recipient_views(email.recipients@)),
            email.subject@,
            html_part(email.body),
            text_part(email.body),
            opt_view(message_stream),
        ),
{
    let recipients = join_recipients(email.recipients);
    let (html_body, text_body) = email.body.into_tuple();
    let mut out: Vec<char> = Vec::new();
    push_str_chars(&mut out, "{\"From\":");
    push_quoted(&mut out, sender);
    push_str_chars(&mut out, ",\"To\":");
    push_quoted(&mut out, recipients.as_str());
    push_str_chars(&mut out, ",\"Subject\":");
    push_quoted(&mut out, email.subject);
    push_opt_member(&mut out, ",\"HtmlBody\":", html_body);
    push_opt_member(&mut out, ",\"TextBody\":", text_body);
    push_opt_member(&mut out, ",\"MessageStream\":", message_stream);
    push_str_chars(&mut out, "}");
    proof {
        assert(opt_view(html_body) == html_part(email.body));
        assert(opt_view(text_body) == text_part(email.body));
        assert(out@ =~= send_body_spec(
            sender@,
            join_commas(recipient_views(email.recipients@)),
            email.subject@,
            html_part(email.body),
            text_part(email.body),
            opt_view(message_stream),
        ));
    }
    chars_to_string(&out)
}

/// Position of the first `?` or `#` in the serialization at or after
/// `i`, or its end: where the path part stops and the query or
/// fragment begins.
pub open spec fn path_part_end(s: Seq<char>, i: int) -> int
    decreases s.len() - i,
{
    if 0 <= i < s.len() {
        if s[i] == '?' || s[i] == '#' {
            i
        } else {
            path_part_end(s, i + 1)
        }
    } else {
        i
    }
}

/// The target of a send: the base URL with the `email` path segment
/// appended to the end of its path part, before any query or
/// fragment.
pub open spec fn email_url_spec(base: Seq<char>) -> Seq<char> {
    let cut = path_part_end(base, 0);
    let head = base.take(cut);
    let tail = base.skip(cut);
    if head.len() > 0 && head[head.len() - 1] == '/' {
        head + "email"@ + tail
    } else {
        head + "/email"@ + tail
    }
}

fn path_part_end_at(cs: &Vec<char>, i: usize) -> (r: usize)
    requires
        i <= cs.len(),
    ensures
        r as int == path_part_end(cs@, i as int),
        i <= r <= cs.len(),
    decreases cs.len() - i,
{
    if i < cs.len() {
        if cs[i] == '?' || cs[i] == '#' {
            i
        } else {
            path_part_end_at(cs, i + 1)
        }
    } else {
        i
    }
}

/// The URL text of the "send email" endpoint under `base`, per
/// [`email_url_spec`].
pub fn send_email_url(base: &BaseUrl) -> (r: String)
    ensures
        r@ == email_url_spec(base.spec_serialization()),
{
    let cs = str_to_chars(base.as_url().as_str());
    let cut = path_part_end_at(&cs, 0);
    let ghost head = cs@.take(cut as int);
    let mut out: Vec<char> = Vec::new();
    let mut k: usize = 0;
    while k < cut
        invariant
            k <= cut <= cs.len(),
            out@ == cs@.take(k as int),
        decreases cut - k,
    {
        out.push(cs[k]);
        assert(out@ =~= cs@.take(k as int + 1));
        k += 1;
    }
    assert(out@ == head);
    if cut > 0 && cs[cut - 1] == '/' {
        push_str_chars(&mut out, "email");
    } else {
        push_str_chars(&mut out, "/email");
    }
    let ghost with_segment = out@;
    let mut k2: usize = cut;
    while k2 < cs.len()
        invariant
            cut <= k2 <= cs.len(),
            out@ == with_segment + cs@.subrange(cut as int, k2 as int),
        decreases cs.len() - k2,
    {
        out.push(cs[k2]);
        assert(out@ =~= with_segment + cs@.subrange(cut as int, k2 as int + 1));
        k2 += 1;
    }
    proof {
        assert(cs@.subrange(cut as int, cs@.len() as int) =~= cs@.skip(cut as int));
        assert(head.len() > 0 ==> head[head.len() - 1] == cs@[cut as int - 1]);
        assert(out@ =~= email_url_spec(base.spec_serialization()));
    }
    chars_to_string(&out)
}

/// The view of an optional owned string.
pub open spec fn opt_text(v: Option<String>) -> Option<Seq<char>> {
    match v {
        Some(s) => Some(s@),
        None => None,
    }
}

/// Scan of the members of a 422 body from `i` (at a key), carrying the
/// members already seen: member order is free, unknown members are
/// skipped, a repeated member keeps its later value, and the scan
/// yields the code and message at the closing brace only when both
/// were present. The code must fit the provider's 16-bit code space.
pub open spec fn err_members_scan(
    s: Seq<char>,
    i: int,
    code: Option<u16>,
    msg: Option<Seq<char>>,
) -> Option<(u16, Seq<char>, int)>
    decreases s.len() - i,
{
    match str_scan(s, i) {
        None => None,
        Some(key_p) => {
            let j2 = ws_end(s, key_p.1);
            if !(j2 < s.len() && s[j2] == ':') {
                None
            } else {
                let j3 = ws_end(s, j2 + 1);
                let step: Option<(Option<u16>, Option<Seq<char>>, int)> = if key_p.0
                    == "ErrorCode"@ {
                    match int_scan(s, j3) {
                        Some(vp) => if 0 <= vp.0 <= 65535 {
                            Some((Some(vp.0 as u16), msg, vp.1))
                        } else {
                            None
                        },
                        None => None,
                    }
                } else if key_p.0 == "Message"@ {
                    match str_scan(s, j3) {
                        Some(vp) => Some((code, Some(vp.0), vp.1)),
                        None => None,
                    }
                } else {
                    match skip_value_scan(s, j3) {
                        Some(jn) => Some((code, msg, jn)),
                        None => None,
                    }
                };
                match step {
                    None => None,
                    Some(st) => {
                        let j5 = ws_end(s, st.2);
                        if !(i < j5 <= s.len()) {
                            None  // never: every member scan moves forward in range
                        } else if j5 < s.len() && s[j5] == ',' {
                            let j6 = ws_end(s, j5 + 1);
                            if j6 <= i || j6 > s.len() {
                                None
                            } else {
                                err_members_scan(s, j6, st.0, st.1)
                            }
                        } else if j5 < s.len() && s[j5] == '}' {
                            match (st.0, st.1) {
                                (Some(c0), Some(m0)) => Some((c0, m0, j5 + 1)),
                                _ => None,
                            }
                        } else {
                            None
                        }
                    },
                }
            }
        },
    }
}

/// Scan of a whole 422 body `{"ErrorCode": <number>, "Message":
/// <string>}` with nothing but whitespace around it: the error code
/// and message exactly when the body is well-formed with both members
/// present.
pub open spec fn error_receipt_scan(s: Seq<char>) -> Option<(u16, Seq<char>)> {
    let i = ws_end(s, 0);
    if !(0 <= i < s.len() && s[i] == '{') {
        None
    } else {
        let j = ws_end(s, i + 1);
        if !(0 <= j <= s.len()) {
            None  // never
        } else if j < s.len() && s[j] == '}' {
            None  // both required members are missing
        } else {
            match err_members_scan(s, j, None, None) {
                Some(p) => if ws_end(s, p.2) == s.len() {
                    Some((p.0, p.1))
                } else {
                    None
                },
                None => None,
            }
        }
    }
}

#[verifier::spinoff_prover]
#[verifier::rlimit(100)]
fn err_members_at(cs: &Vec<char>, i: usize, code: Option<u16>, message: Option<String>) -> (r:
    Option<(u16, String, usize)>)
    requires
        i <= cs.len(),
    ensures
        match r {
            Some(p) => err_members_scan(cs@, i as int, code, opt_text(message)) == Some(
                (p.0, p.1@, p.2 as int),
            ) && p.2 <= cs.len(),
            None => err_members_scan(cs@, i as int, code, opt_text(message)) is None,
        },
    decreases cs.len() - i,
{
    let (key, j) = match parse_string_at(cs, i) {
        Some(p) => p,
        None => {
            return None;
        },
    };
    let j2 = skip_ws(cs, j);
    if j2 >= cs.len() || cs[j2] != ':' {
        return None;
    }
    let j3 = skip_ws(cs, j2 + 1);
    let key_code: String = String::from_str("ErrorCode");
    let key_message: String = String::from_str("Message");
    let code2: Option<u16>;
    let message2: Option<String>;
    let j4: usize;
    if key.eq(&key_code) {
        let (v, jn) = match parse_int_at(cs, j3) {
            Some(p) => p,
            None => {
                return None;
            },
        };
        if v < 0 || v > 65535 {
            return None;
        }
        code2 = Some(v as u16);
        message2 = message;
        j4 = jn;
    } else if key.eq(&key_message) {
        let (v, jn) = match parse_string_at(cs, j3) {
            Some(p) => p,
            None => {
                return None;
            },
        };
        code2 = code;
        message2 = Some(v);
        j4 = jn;
    } else {
        let jn = match skip_value_at(cs, j3) {
            Some(jn) => jn,
            None => {
                return None;
            },
        };
        code2 = code;
        message2 = message;
        j4 = jn;
    }
    let j5 = skip_ws(cs, j4);
    if j5 < cs.len() && cs[j5] == ',' {
        let j6 = skip_ws(cs, j5 + 1);
        if j6 <= i {
            return None;
        }
        err_members_at(cs, j6, code2, message2)
    } else if j5 < cs.len() && cs[j5] == '}' {
        match (code2, message2) {
            (Some(c0), Some(m0)) => Some((c0, m0, j5 + 1)),
            _ => None,
        }
    } else {
        None
    }
}

/// Reads the HTTP 422 body, per [`error_receipt_scan`]: success and
/// the receipt's fields exactly when the scan yields them, an error
/// exactly when it does not.
pub fn parse_error_receipt(body: &str) -> (r: Result<ErrorReceipt, String>)
    ensures
        match r {
            Ok(rc) => error_receipt_scan(body@) == Some((rc.error_code, rc.message@)),
            Err(_) => error_receipt_scan(body@) is None,
        },
{
    let cs = str_to_chars(body);
    let i = skip_ws(&cs, 0);
    if i >= cs.len() || cs[i] != '{' {
        return Err(String::from_str("expected an object"));
    }
    let j = skip_ws(&cs, i + 1);
    if j < cs.len() && cs[j] == '}' {
        return Err(String::from_str("missing member"));
    }
    match err_members_at(&cs, j, None, None) {
        Some((error_code, message, end)) => {
            let i2 = skip_ws(&cs, end);
            if i2 != cs.len() {
                Err(String::from_str("trailing characters"))
            } else {
                Ok(ErrorReceipt { error_code, message })
            }
        },
        None => Err(String::from_str("unreadable receipt")),
    }
}

/// Scan of the members of a 200 body from `i` (at a key), carrying the
/// members already seen, in the same style as [`err_members_scan`];
/// the timestamp member goes through [`iso_parse_spec`].
pub open spec fn send_members_scan(
    s: Seq<char>,
    i: int,
    to: Option<Seq<char>>,
    at: Option<UtcDateTime>,
    id: Option<Seq<char>>,
) -> Option<(Seq<char>, UtcDateTime, Seq<char>, int)>
    decreases s.len() - i,
{
    match str_scan(s, i) {
        None => None,
        Some(key_p) => {
            let j2 = ws_end(s, key_p.1);
            if !(j2 < s.len() && s[j2] == ':') {
                None
            } else {
                let j3 = ws_end(s, j2 + 1);
                let step: Option<(Option<Seq<char>>, Option<UtcDateTime>, Option<Seq<char>>, int)> =
                    if key_p.0 == "To"@ {
                    match str_scan(s, j3) {
                        Some(vp) => Some((Some(vp.0), at, id, vp.1)),
                        None => None,
                    }
                } else if key_p.0 == "SubmittedAt"@ {
                    match str_scan(s, j3) {
                        Some(vp) => match crate::date::iso_parse_spec(vp.0) {
                            Some(t) => Some((to, Some(t), id, vp.1)),
                            None => None,
                        },
                        None => None,
                    }
                } else if key_p.0 == "MessageID"@ {
                    match str_scan(s, j3) {
                        Some(vp) => Some((to, at, Some(vp.0), vp.1)),
                        None => None,
                    }
                } else {
                    match skip_value_scan(s, j3) {
                        Some(jn) => Some((to, at, id, jn)),
                        None => None,
                    }
                };
                match step {
                    None => None,
                    Some(st) => {
                        let j5 = ws_end(s, st.3);
                        if !(i < j5 <= s.len()) {
                            None  // never: every member scan moves forward in range
                        } else if j5 < s.len() && s[j5] == ',' {
                            let j6 = ws_end(s, j5 + 1);
                            if j6 <= i || j6 > s.len() {
                                None
                            } else {
                                send_members_scan(s, j6, st.0, st.1, st.2)
                            }
                        } else if j5 < s.len() && s[j5] == '}' {
                            match (st.0, st.1, st.2) {
                                (Some(t0), Some(a0), Some(i0)) => Some((t0, a0, i0, j5 + 1)),
                                _ => None,
                            }
                        } else {
                            None
                        }
                    },
                }
            }
        },
    }
}

/// Scan of a whole 200 body `{"To": <string>, "SubmittedAt": <ISO-8601
/// string>, "MessageID": <string>}` with nothing but whitespace around
/// it: the recipient list, the UTC-normalized submission instant and
/// the message identifier, exactly when the body is well-formed with
/// all three members present.
pub open spec fn send_receipt_scan(s: Seq<char>) -> Option<(Seq<char>, UtcDateTime, Seq<char>)> {
    let i = ws_end(s, 0);
    if !(0 <= i < s.len() && s[i] == '{') {
        None
    } else {
        let j = ws_end(s, i + 1);
        if !(0 <= j <= s.len()) {
            None  // never
        } else if j < s.len() && s[j] == '}' {
            None  // the required members are missing
        } else {
            match send_members_scan(s, j, None, None, None) {
                Some(p) => if ws_end(s, p.3) == s.len() {
                    Some((p.0, p.1, p.2))
                } else {
                    None
                },
                None => None,
            }
        }
    }
}

#[verifier::spinoff_prover]
#[verifier::rlimit(100)]
fn send_members_at(
    cs: &Vec<char>,
    i: usize,
    to: Option<String>,
    at: Option<UtcDateTime>,
    id: Option<String>,
) -> (r: Option<(String, UtcDateTime, String, usize)>)
    requires
        i <= cs.len(),
        at matches Some(t) ==> t.wf(),
    ensures
        match r {
            Some(p) => send_members_scan(cs@, i as int, opt_text(to), at, opt_text(id)) == Some(
                (p.0@, p.1, p.2@, p.3 as int),
            ) && p.3 <= cs.len() && p.1.wf(),
            None => send_members_scan(cs@, i as int, opt_text(to), at, opt_text(id)) is None,
        },
    decreases cs.len() - i,
{
    let (key, j) = match parse_string_at(cs, i) {
        Some(p) => p,
        None => {
            return None;
        },
    };
    let j2 = skip_ws(cs, j);
    if j2 >= cs.len() || cs[j2] != ':' {
        return None;
    }
    let j3 = skip_ws(cs, j2 + 1);
    let key_to: String = String::from_str("To");
    let key_submitted: String = String::from_str("SubmittedAt");
    let key_id: String = String::from_str("MessageID");
    let to2: Option<String>;
    let at2: Option<UtcDateTime>;
    let id2: Option<String>;
    let j4: usize;
    if key.eq(&key_to) {
        let (v, jn) = match parse_string_at(cs, j3) {
            Some(p) => p,
            None => {
                return None;
            },
        };
        to2 = Some(v);
        at2 = at;
        id2 = id;
        j4 = jn;
    } else if key.eq(&key_submitted) {
        let (v, jn) = match parse_string_at(cs, j3) {
            Some(p) => p,
            None => {
                return None;
            },
        };
        let t = match crate::date::parse_iso_utc(v.as_str()) {
            Ok(t) => t,
            Err(_) => {
                return None;
            },
        };
        to2 = to;
        at2 = Some(t);
        id2 = id;
        j4 = jn;
    } else if key.eq(&key_id) {
        let (v, jn) = match parse_string_at(cs, j3) {
            Some(p) => p,
            None => {
                return None;
            },
        };
        to2 = to;
        at2 = at;
        id2 = Some(v);
        j4 = jn;
    } else {
        let jn = match skip_value_at(cs, j3) {
            Some(jn) => jn,
            None => {
                return None;
            },
        };
        to2 = to;
        at2 = at;
        id2 = id;
        j4 = jn;
    }
    let j5 = skip_ws(cs, j4);
    if j5 < cs.len() && cs[j5] == ',' {
        let j6 = skip_ws(cs, j5 + 1);
        if j6 <= i {
            return None;
        }
        send_members_at(cs, j6, to2, at2, id2)
    } else if j5 < cs.len() && cs[j5] == '}' {
        match (to2, at2, id2) {
            (Some(t0), Some(a0), Some(i0)) => Some((t0, a0, i0, j5 + 1)),
            _ => None,
        }
    } else {
        None
    }
}

/// Reads the HTTP 200 body, per [`send_receipt_scan`]: success and the
/// receipt's fields exactly when the scan yields them (the timestamp
/// normalized to UTC), an error exactly when it does not.
pub fn parse_send_receipt(body: &str) -> (r: Result<SendReceipt, String>)
    ensures
        match r {
            Ok(rc) => send_receipt_scan(body@) == Some((rc.to@, rc.submitted_at, rc.message_id@))
                && rc.submitted_at.wf(),
            Err(_) => send_receipt_scan(body@) is None,
        },
{
    let cs = str_to_chars(body);
    let i = skip_ws(&cs, 0);
    if i >= cs.len() || cs[i] != '{' {
        return Err(String::from_str("expected an object"));
    }
    let j = skip_ws(&cs, i + 1);
    if j < cs.len() && cs[j] == '}' {
        return Err(String::from_str("missing member"));
    }
    match send_members_at(&cs, j, None, None, None) {
        Some((to, submitted_at, message_id, end)) => {
            let i2 = skip_ws(&cs, end);
            if i2 != cs.len() {
                Err(String::from_str("trailing characters"))
            } else {
                Ok(SendReceipt { to, submitted_at, message_id })
            }
        },
        None => Err(String::from_str("unreadable receipt")),
    }
}

/// The strict status mapping of a send attempt, over already-parsed
/// bodies: 200 yields the parsed receipt (or a transport error where
/// the body was unreadable); 422 yields the parsed rejection as a
/// domain error (or a transport error where the body was unreadable);
/// any other status yields a domain error carrying only the code.
pub fn interpret_send_parts(
    status: u16,
    receipt: Result<SendReceipt, String>,
    rejection: Result<ErrorReceipt, String>,
) -> (r: Result<SendReceipt, Error>)
    ensures
        status == 200 ==> r == match receipt {
            Ok(sr) => Ok::<SendReceipt, Error>(sr),
            Err(m) => Err(Error::HttpClient(m)),
        },
        status == 422 ==> r == match rejection {
            Ok(er) => Err::<SendReceipt, Error>(
                Error::Postmark(PostmarkError::UnprocessableEntity(er)),
            ),
            Err(m) => Err(Error::HttpClient(m)),
        },
        status != 200 && status != 422 ==> r == Err::<SendReceipt, Error>(
            Error::Postmark(PostmarkError::Other(status)),
        ),
{
    if status == 200 {
        match receipt {
            Ok(sr) => Ok(sr),
            Err(m) => Err(Error::HttpClient(m)),
        }
    } else if status == 422 {
        match rejection {
            Ok(er) => Err(Error::Postmark(PostmarkError::UnprocessableEntity(er))),
            Err(m) => Err(Error::HttpClient(m)),
        }
    } else {
        Err(Error::Postmark(PostmarkError::Other(status)))
    }
}

/// Interprets one response of the "send email" endpoint: parses the
/// body as the status demands and applies the strict status mapping of
/// [`interpret_send_parts`]. A 200 body that scans as a send receipt
/// yields exactly that receipt; a 422 body that scans as an error
/// receipt yields exactly that domain error; an unreadable 200 or 422
/// body yields a transport error; for any other status the body is
/// not read at all.
pub fn interpret_send_response(status: u16, body: &str) -> (r: Result<SendReceipt, Error>)
    ensures
        status == 200 ==> match send_receipt_scan(body@) {
            Some(p) => r matches Ok(rc) && rc.to@ == p.0 && rc.submitted_at == p.1
                && rc.message_id@ == p.2,
            None => r matches Err(Error::HttpClient(_)),
        },
        status == 422 ==> match error_receipt_scan(body@) {
            Some(p) => r matches Err(Error::Postmark(PostmarkError::UnprocessableEntity(rc)))
                && rc.error_code == p.0 && rc.message@ == p.1,
            None => r matches Err(Error::HttpClient(_)),
        },
        status != 200 && status != 422 ==> r == Err::<SendReceipt, Error>(
            Error::Postmark(PostmarkError::Other(status)),
        ),
        r is Ok ==> status == 200,
{
    if status == 200 {
        interpret_send_parts(status, parse_send_receipt(body), Err(String::new()))
    } else if status == 422 {
        interpret_send_parts(status, Err(String::new()), parse_error_receipt(body))
    } else {
        interpret_send_parts(status, Err(String::new()), Err(String::new()))
    }
}

} // verus!
