//! Mails, from their bytes to messages.
use vstd::prelude::*;
use vstd::string::StringExecFns;

use std::borrow::Cow;

use mail_parser::{DateTime, MessageParser, MimeHeaders};

use crate::adapters::mail_shape;
use crate::adapters::mail_shape::is_separable;
use crate::adapters::raw::{RawAttachment, RawMessage};
use crate::text;
use crate::text::{
    copy_option, decimal_string, find_white_space, from_chars, to_chars,
    trim_start_chars,
};
use crate::text_map;
use crate::text_map::TextMap;
use crate::time;
use crate::time::Timestamp;
use crate::types::message;
use crate::types::Channel;
use vstd::slice::slice_subrange;

verus! {

// ---------------------------------------------------------------------------
// What a mail holds
// ---------------------------------------------------------------------------

/// What the headers of a mail say.
#[derive(Debug)]
pub struct MailHeaders {
    /// The name and address of the first sender.
    pub sender: Option<(Option<String>, Option<String>)>,
    pub message_id: Option<String>,
    pub subject: Option<String>,
    /// The seconds since 1970 of the mail's date.
    pub date: Option<i64>,
    pub in_reply_to: Option<Vec<String>>,
    pub references: Option<Vec<String>>,
}

/// The headers as mathematical values.
#[verifier::ext_equal]
pub struct HeadersText {
    pub sender: Option<(Option<Seq<char>>, Option<Seq<char>>)>,
    pub message_id: Option<Seq<char>>,
    pub subject: Option<Seq<char>>,
    pub date: Option<i64>,
    pub in_reply_to: Option<Seq<Seq<char>>>,
    pub references: Option<Seq<Seq<char>>>,
}

/// The texts of strings.
pub open spec fn texts(v: Seq<String>) -> Seq<Seq<char>> {
    v.map_values(|s: String| s@)
}

/// The texts of an optional list.
pub open spec fn optional_texts(o: Option<Vec<String>>) -> Option<Seq<Seq<char>>> {
    match o {
        Some(v) => Some(texts(v@)),
        None => None,
    }
}

impl View for MailHeaders {
    type V = HeadersText;

    open spec fn view(&self) -> HeadersText {
        HeadersText {
            sender: match self.sender {
                Some((name, address)) => Some(
                    (message::optional_text(name), message::optional_text(address)),
                ),
                None => None,
            },
            message_id: message::optional_text(self.message_id),
            subject: message::optional_text(self.subject),
            date: self.date,
            in_reply_to: optional_texts(self.in_reply_to),
            references: optional_texts(self.references),
        }
    }
}

/// A file in a mail.
#[derive(Debug)]
pub struct MailPart {
    /// The type and subtype of the content.
    pub content_type: Option<(String, Option<String>)>,
    pub name: Option<String>,
    /// How many bytes it holds, where that can be told.
    pub size: Option<usize>,
}

/// What the body of a mail holds.
#[derive(Debug)]
pub struct MailBody {
    pub text: Option<String>,
    pub html: Option<String>,
    pub parts: Vec<MailPart>,
}

/// A file as a mathematical value.
#[verifier::ext_equal]
pub struct PartText {
    pub content_type: Option<(Seq<char>, Option<Seq<char>>)>,
    pub name: Option<Seq<char>>,
    pub size: Option<usize>,
}

impl View for MailPart {
    type V = PartText;

    open spec fn view(&self) -> PartText {
        PartText {
            content_type: match self.content_type {
                Some((main, sub)) => Some((main@, message::optional_text(sub))),
                None => None,
            },
            name: message::optional_text(self.name),
            size: self.size,
        }
    }
}

/// The body as a mathematical value.
#[verifier::ext_equal]
pub struct BodyText {
    pub text: Option<Seq<char>>,
    pub html: Option<Seq<char>>,
    pub parts: Seq<PartText>,
}

impl View for MailBody {
    type V = BodyText;

    open spec fn view(&self) -> BodyText {
        BodyText {
            text: message::optional_text(self.text),
            html: message::optional_text(self.html),
            parts: self.parts@.map_values(|p: MailPart| p@),
        }
    }
}

/// What `mail_parser` reads from the headers of a mail.
pub uninterp spec fn mail_headers(bytes: Seq<u8>) -> Option<HeadersText>;

/// What `mail_parser` reads from the body of a mail.
pub uninterp spec fn mail_body(bytes: Seq<u8>) -> Option<BodyText>;

/// `mail_parser::MessageParser::parse_headers`, with a parser that reads the
/// fields below and leaves the others as they are, and of the headers that it
/// gives the first sender, the identifier, the subject, the date as seconds
/// since 1970, and the lists of `In-Reply-To` and `References`. They depend on
/// the bytes alone. None where the bytes are no mail. No body is read.
#[verifier::external_body]
fn read_headers(bytes: &[u8]) -> (r: Option<MailHeaders>)
    ensures
        r is Some <==> mail_headers(bytes@) is Some,
        r is Some ==> r->0@ == mail_headers(bytes@)->0,
{
    let m = MessageParser::new().with_minimal_headers().with_message_ids().parse_headers(bytes)?;
    let list = |l: &[Cow<'_, str>]| l.iter().map(Cow::to_string).collect();
    Some(MailHeaders {
        sender: m.from().and_then(|f| f.first()).map(|a| {
            (a.name().map(String::from), a.address().map(String::from))
        }),
        message_id: m.message_id().map(String::from),
        subject: m.subject().map(String::from),
        date: m.date().map(DateTime::to_timestamp),
        in_reply_to: m.in_reply_to().as_text_list().map(list),
        references: m.references().as_text_list().map(list),
    })
}

/// `mail_parser::MessageParser::parse`, with a parser that reads the fields
/// that shape a mail and leaves the others as they are, and of the message that
/// it gives the first text, the first HTML, and of each attachment the content
/// type, the name and the length. A mail within the mail has no length where it
/// has no part. They depend on the bytes alone. None where the bytes are no
/// mail. On bytes that are not separable the parser may count below zero, or run
/// out of stack.
#[verifier::external_body]
fn read_body(bytes: &[u8]) -> (r: Option<MailBody>)
    requires
        mail_shape::separable(bytes@),
    ensures
        r is Some <==> mail_body(bytes@) is Some,
        r is Some ==> r->0@ == mail_body(bytes@)->0,
{
    let m = MessageParser::new().with_mime_headers().parse(bytes)?;
    Some(MailBody {
        text: m.body_text(0).map(Cow::into_owned),
        html: m.body_html(0).map(Cow::into_owned),
        parts: m.attachments().map(|a| MailPart {
            content_type: a.content_type().map(|c| (c.ctype().into(), c.subtype().map(String::from))),
            name: a.attachment_name().map(String::from),
            size: match a.message() {
                Some(n) => n.parts.first().map(|_| n.raw_message().len()),
                None => Some(a.len()),
            },
        }).collect(),
    })
}

/// What is read of the body of a mail: nothing, where it cannot be taken apart.
pub open spec fn body_read(bytes: Seq<u8>) -> Option<BodyText> {
    if mail_shape::separable(bytes) {
        mail_body(bytes)
    } else {
        Some(BodyText { text: None, html: None, parts: Seq::empty() })
    }
}

fn read_separable(bytes: &[u8]) -> (r: Option<MailBody>)
    ensures
        r is Some <==> body_read(bytes@) is Some,
        r is Some ==> r->0@ == body_read(bytes@)->0,
{
    if is_separable(bytes) {
        read_body(bytes)
    } else {
        let none = MailBody { text: None, html: None, parts: Vec::new() };
        proof {
            assert(none@ =~= body_read(bytes@)->0);
        }
        Some(none)
    }
}

// ---------------------------------------------------------------------------
// What becomes of a mail
// ---------------------------------------------------------------------------

/// An optional text, or what stands for none.
pub open spec fn text_or(o: Option<Seq<char>>, none: Seq<char>) -> Seq<char> {
    match o {
        Some(s) => s,
        None => none,
    }
}

/// The content type of a file.
pub open spec fn mime_type(p: PartText) -> Seq<char> {
    match p.content_type {
        Some((main, sub)) => main + "/"@ + text_or(sub, "octet-stream"@),
        None => "application/octet-stream"@,
    }
}

/// The texts with a space between each two.
pub open spec fn spaced(v: Seq<Seq<char>>) -> Seq<char>
    decreases v.len(),
{
    if v.len() == 0 {
        Seq::empty()
    } else if v.len() == 1 {
        v[0]
    } else {
        spaced(v.drop_last()) + " "@ + v.last()
    }
}

/// The first of the texts.
pub open spec fn first_text(o: Option<Seq<Seq<char>>>) -> Option<Seq<char>> {
    match o {
        Some(v) => if v.len() > 0 {
            Some(v[0])
        } else {
            None
        },
        None => None,
    }
}

/// All of the texts, where there are any.
pub open spec fn all_texts(o: Option<Seq<Seq<char>>>) -> Option<Seq<char>> {
    match o {
        Some(v) => if v.len() > 0 {
            Some(spaced(v))
        } else {
            None
        },
        None => None,
    }
}

/// The first word of a text.
pub open spec fn first_word(s: Seq<char>) -> Option<Seq<char>> {
    let t = text::trim_start(s);
    if t.len() == 0 {
        None
    } else {
        Some(t.take(text::first_white_space(t)))
    }
}

/// The conversation of a mail: the root of its references, else the mail that
/// it replies to, else itself.
pub open spec fn mail_thread(h: HeadersText) -> Seq<char> {
    let root = match all_texts(h.references) {
        Some(refs) => first_word(refs),
        None => None,
    };
    match root {
        Some(w) => w,
        None => match first_text(h.in_reply_to) {
            Some(i) => i,
            None => text_or(h.message_id, Seq::empty()),
        },
    }
}

/// A pair, where there is a value.
pub open spec fn optional_pair(key: Seq<char>, value: Option<Seq<char>>) -> Seq<
    (Seq<char>, Seq<char>),
> {
    match value {
        Some(v) => seq![(key, v)],
        None => Seq::empty(),
    }
}

/// The metadata of a mail.
pub open spec fn mail_metadata(h: HeadersText, uid: Option<u32>) -> Seq<(Seq<char>, Seq<char>)> {
    seq![("message_id"@, text_or(h.message_id, Seq::empty()))] + optional_pair(
        "in_reply_to"@,
        first_text(h.in_reply_to),
    ) + optional_pair("references"@, all_texts(h.references)) + optional_pair(
        "imap_uid"@,
        match uid {
            Some(u) => Some(text::decimal(u as nat)),
            None => None,
        },
    )
}

/// The time of a mail: its date, where that can be told, else `now`.
pub open spec fn mail_time(t: Timestamp, date: Option<i64>, now: Timestamp) -> bool {
    match date {
        Some(d) => if time::valid_time(d as int, 0) {
            t@ == (d as int, 0int)
        } else {
            t == now
        },
        None => t == now,
    }
}

/// `a` is the file `p`.
pub open spec fn part_read(a: RawAttachment, p: PartText) -> bool {
    &&& a.filename@ == text_or(p.name, "unnamed"@)
    &&& a.mime_type@ == mime_type(p)
    &&& a.size_bytes == match p.size {
        Some(n) => n as int,
        None => 0,
    }
}

/// `m` is what becomes of a mail with these headers and this body.
pub open spec fn mail_read(
    m: RawMessage,
    h: HeadersText,
    b: BodyText,
    uid: Option<u32>,
    now: Timestamp,
) -> bool {
    &&& m.external_id@ == text_or(h.message_id, Seq::empty())
    &&& m.channel == Channel::Email
    &&& message::optional_text(m.external_thread_id) == Some(mail_thread(h))
    &&& m.sender_name@ == match h.sender {
        Some((name, _)) => text_or(name, "Unknown"@),
        None => "Unknown"@,
    }
    &&& m.sender_address@ == match h.sender {
        Some((_, address)) => text_or(address, Seq::empty()),
        None => Seq::empty(),
    }
    &&& message::optional_text(m.text) == b.text
    &&& message::optional_text(m.html) == b.html
    &&& message::optional_text(m.subject) == h.subject
    &&& m.attachments@.len() == b.parts.len()
    &&& forall|i: int|
        0 <= i < b.parts.len() ==> part_read(#[trigger] m.attachments@[i], b.parts[i])
    &&& mail_time(m.timestamp, h.date, now)
    &&& m.metadata@ == mail_metadata(h, uid)
    &&& m.metadata.well_formed()
}

fn copy_or(o: &Option<String>, none: &str) -> (r: String)
    ensures
        r@ == text_or(message::optional_text(*o), none@),
{
    match o {
        Some(s) => s.clone(),
        None => none.to_owned(),
    }
}

fn join_spaced(v: &Vec<String>) -> (r: String)
    ensures
        r@ == spaced(texts(v@)),
{
    let mut out = String::new();
    proof {
        assert(out@ =~= Seq::empty());
        assert(texts(v@).take(0).len() == 0);
    }
    for i in 0..v.len()
        invariant
            out@ == spaced(texts(v@).take(i as int)),
    {
        let ghost all = texts(v@);
        proof {
            assert(all.take(i + 1).drop_last() =~= all.take(i as int));
            assert(all.take(i + 1).last() == v@[i as int]@);
        }
        if i > 0 {
            out.append(" ");
            out.append(v[i].as_str());
        } else {
            out = v[i].clone();
            proof {
                assert(all.take(1)[0] == v@[0]@);
            }
        }
    }
    proof {
        assert(texts(v@).take(v@.len() as int) =~= texts(v@));
    }
    out
}

fn take_first(o: &Option<Vec<String>>) -> (r: Option<String>)
    ensures
        message::optional_text(r) == first_text(optional_texts(*o)),
{
    match o {
        Some(v) => if v.len() > 0 {
            Some(v[0].clone())
        } else {
            None
        },
        None => None,
    }
}

fn take_all(o: &Option<Vec<String>>) -> (r: Option<String>)
    ensures
        message::optional_text(r) == all_texts(optional_texts(*o)),
{
    match o {
        Some(v) => if v.len() > 0 {
            Some(join_spaced(v))
        } else {
            None
        },
        None => None,
    }
}

fn take_word(s: &str) -> (r: Option<String>)
    ensures
        message::optional_text(r) == first_word(s@),
{
    let v = to_chars(s);
    let t = trim_start_chars(v.as_slice());
    if t.len() == 0 {
        None
    } else {
        let n: usize = find_white_space(t);
        Some(from_chars(slice_subrange(t, 0, n)))
    }
}

fn write_mime(p: &MailPart) -> (r: String)
    ensures
        r@ == mime_type(p@),
{
    match &p.content_type {
        Some((main, sub)) => {
            let mut out = main.clone();
            out.append("/");
            out.append(copy_or(sub, "octet-stream").as_str());
            out
        },
        None => "application/octet-stream".to_owned(),
    }
}

fn take_parts(parts: &Vec<MailPart>) -> (r: Vec<RawAttachment>)
    ensures
        r@.len() == parts@.len(),
        forall|i: int| 0 <= i < r@.len() ==> part_read(#[trigger] r@[i], parts@[i]@),
{
    let mut r: Vec<RawAttachment> = Vec::new();
    for i in 0..parts.len()
        invariant
            r@.len() == i,
            forall|k: int| 0 <= k < i ==> part_read(#[trigger] r@[k], parts@[k]@),
    {
        let p = &parts[i];
        r.push(
            RawAttachment {
                filename: copy_or(&p.name, "unnamed"),
                mime_type: write_mime(p),
                size_bytes: match p.size {
                    Some(n) => n as u64,
                    None => 0,
                },
            },
        );
    }
    r
}

/// The keys of the metadata of a mail differ.
proof fn lemma_metadata_keys(h: HeadersText, uid: Option<u32>)
    ensures
        text_map::distinct_keys(mail_metadata(h, uid)),
{
    reveal_strlit("message_id");
    reveal_strlit("in_reply_to");
    reveal_strlit("references");
    reveal_strlit("imap_uid");
    assert("message_id"@.len() == 10 && "message_id"@[0] == 'm');
    assert("in_reply_to"@.len() == 11);
    assert("references"@.len() == 10 && "references"@[0] == 'r');
    assert("imap_uid"@.len() == 8);
}

fn write_metadata(h: &MailHeaders, uid: Option<u32>) -> (r: TextMap)
    ensures
        r@ == mail_metadata(h@, uid),
        r.well_formed(),
{
    let mut pairs: Vec<(String, String)> = Vec::new();
    pairs.push(("message_id".to_owned(), copy_or(&h.message_id, "")));
    proof {
        reveal_strlit("");
        assert(""@ =~= Seq::empty());
    }
    if let Some(i) = take_first(&h.in_reply_to) {
        pairs.push(("in_reply_to".to_owned(), i));
    }
    if let Some(refs) = take_all(&h.references) {
        pairs.push(("references".to_owned(), refs));
    }
    if let Some(u) = uid {
        pairs.push(("imap_uid".to_owned(), decimal_string(u as u128)));
    }
    proof {
        lemma_metadata_keys(h@, uid);
        assert(text_map::pairs_texts(pairs@) =~= mail_metadata(h@, uid));
    }
    TextMap::from_pairs(pairs)
}

/// The message that a mail with these headers and this body becomes. `now`
/// stands in for a date that cannot be told.
pub fn mail_to_raw(h: &MailHeaders, b: &MailBody, uid: Option<u32>, now: Timestamp) -> (r:
    RawMessage)
    ensures
        mail_read(r, h@, b@, uid, now),
{
    proof {
        reveal_strlit("");
        assert(""@ =~= Seq::empty());
    }
    let (sender_name, sender_address) = match &h.sender {
        Some((name, address)) => (copy_or(name, "Unknown"), copy_or(address, "")),
        None => ("Unknown".to_owned(), "".to_owned()),
    };
    let timestamp = match h.date {
        Some(d) => match Timestamp::new(d, 0) {
            Some(t) => t,
            None => now,
        },
        None => now,
    };
    let root = match take_all(&h.references) {
        Some(refs) => take_word(refs.as_str()),
        None => None,
    };
    let thread = match root {
        Some(w) => w,
        None => match take_first(&h.in_reply_to) {
            Some(i) => i,
            None => copy_or(&h.message_id, ""),
        },
    };
    RawMessage {
        external_id: copy_or(&h.message_id, ""),
        channel: Channel::Email,
        external_thread_id: Some(thread),
        sender_name,
        sender_address,
        text: copy_option(&b.text),
        html: copy_option(&b.html),
        subject: copy_option(&h.subject),
        attachments: take_parts(&b.parts),
        timestamp,
        metadata: write_metadata(h, uid),
    }
}

/// The message that the bytes of a mail become; none where they are no mail. Of
/// one that cannot be taken apart, what its headers say.
pub fn read_mail(bytes: &[u8], uid: Option<u32>, now: Timestamp) -> (r: Option<RawMessage>)
    ensures
        r is Some <==> mail_headers(bytes@) is Some && body_read(bytes@) is Some,
        r matches Some(m) ==> mail_read(
            m,
            mail_headers(bytes@)->0,
            body_read(bytes@)->0,
            uid,
            now,
        ),
{
    match (read_headers(bytes), read_separable(bytes)) {
        (Some(h), Some(b)) => Some(mail_to_raw(&h, &b, uid, now)),
        _ => None,
    }
}

/// A mail that was fetched.
#[derive(Debug)]
pub struct FetchedMail {
    pub body: Option<Vec<u8>>,
    pub uid: Option<u32>,
}

/// The mail has bytes, and they can be read.
pub open spec fn readable(f: FetchedMail) -> bool {
    f.body matches Some(b) && mail_headers(b@) is Some && body_read(b@) is Some
}

/// The indices of the mails that can be read, in order.
pub open spec fn readable_indices(fetched: Seq<FetchedMail>) -> Seq<int>
    decreases fetched.len(),
{
    if fetched.len() == 0 {
        Seq::empty()
    } else {
        let before = readable_indices(fetched.drop_last());
        if readable(fetched.last()) {
            before.push(fetched.len() - 1)
        } else {
            before
        }
    }
}

/// `m` is what becomes of the mail.
pub open spec fn fetched_read(m: RawMessage, f: FetchedMail, now: Timestamp) -> bool {
    mail_read(m, mail_headers(f.body->0@)->0, body_read(f.body->0@)->0, f.uid, now)
}

/// The messages that the mails become, in order. Mails without bytes and those
/// that cannot be read are passed over.
pub fn read_mails(fetched: &Vec<FetchedMail>, now: Timestamp) -> (r: Vec<RawMessage>)
    ensures
        r@.len() == readable_indices(fetched@).len(),
        forall|i: int|
            0 <= i < r@.len() ==> fetched_read(
                #[trigger] r@[i],
                fetched@[readable_indices(fetched@)[i]],
                now,
            ),
{
    let mut r: Vec<RawMessage> = Vec::new();
    proof {
        assert(fetched@.take(0) =~= Seq::empty());
    }
    for i in 0..fetched.len()
        invariant
            r@.len() == readable_indices(fetched@.take(i as int)).len(),
            forall|k: int|
                0 <= k < r@.len() ==> fetched_read(
                    #[trigger] r@[k],
                    fetched@[readable_indices(fetched@.take(i as int))[k]],
                    now,
                ),
    {
        let ghost before = r@;
        proof {
            assert(fetched@.take(i + 1).drop_last() =~= fetched@.take(i as int));
            assert(fetched@.take(i + 1).last() == fetched@[i as int]);
        }
        if let Some(bytes) = &fetched[i].body {
            if let Some(m) = read_mail(bytes.as_slice(), fetched[i].uid, now) {
                r.push(m);
                proof {
                    let n = readable_indices(fetched@.take(i as int));
                    let n1 = readable_indices(fetched@.take(i + 1));
                    assert(n1 == n.push(i as int));
                    assert forall|k: int| 0 <= k < r@.len() implies fetched_read(
                        #[trigger] r@[k],
                        fetched@[n1[k]],
                        now,
                    ) by {
                        if k < before.len() {
                            assert(r@[k] == before[k]);
                            assert(n1[k] == n[k]);
                        }
                    }
                }
            }
        }
    }
    proof {
        assert(fetched@.take(fetched@.len() as int) =~= fetched@);
    }
    r
}

// ---------------------------------------------------------------------------
// Laws
// ---------------------------------------------------------------------------

/// The text holds no white space.
pub open spec fn is_word(s: Seq<char>) -> bool {
    s.len() > 0 && forall|i: int| 0 <= i < s.len() ==> !text::white_space(#[trigger] s[i])
}

/// The first text stands at the start, and a space behind it, or nothing.
proof fn lemma_spaced_start(v: Seq<Seq<char>>)
    requires
        v.len() > 0,
    ensures
        spaced(v).len() >= v[0].len(),
        spaced(v).take(v[0].len() as int) == v[0],
        spaced(v).len() > v[0].len() ==> text::white_space(spaced(v)[v[0].len() as int]),
    decreases v.len(),
{
    if v.len() == 1 {
        assert(v[0].take(v[0].len() as int) =~= v[0]);
    } else {
        reveal_strlit(" ");
        let rest = v.drop_last();
        lemma_spaced_start(rest);
        let n = v[0].len() as int;
        assert(rest[0] == v[0]);
        assert(spaced(v).take(n) =~= spaced(rest).take(n));
        assert(" "@.len() == 1 && " "@[0] == ' ');
        if spaced(rest).len() > n {
            assert(spaced(v)[n] == spaced(rest)[n]);
        } else {
            assert(spaced(v)[n] == " "@[0]);
        }
    }
}

/// White space that stands first behind a word ends it.
proof fn lemma_first_white_space(s: Seq<char>, n: int)
    requires
        0 <= n <= s.len(),
        forall|i: int| 0 <= i < n ==> !text::white_space(#[trigger] s[i]),
        n < s.len() ==> text::white_space(s[n]),
    ensures
        text::first_white_space(s) == n,
    decreases n,
{
    if n > 0 {
        let rest = s.drop_first();
        assert(!text::white_space(s[0]));
        assert forall|i: int| 0 <= i < n - 1 implies !text::white_space(#[trigger] rest[i]) by {
            assert(rest[i] == s[i + 1]);
        }
        lemma_first_white_space(rest, n - 1);
    }
}

/// A mail with references belongs to the conversation of the first of them, so
/// that all mails with the same root share it. One without them belongs to that
/// of the mail that it replies to, and one that replies to none opens its own.
pub proof fn mails_with_the_same_root_share_a_thread(h: HeadersText)
    ensures
        (h.references matches Some(v) && v.len() > 0 && is_word(v[0])) ==> mail_thread(h)
            == h.references->0[0],
        first_text(h.references) is None && first_text(h.in_reply_to) is Some ==> mail_thread(h)
            == first_text(h.in_reply_to)->0,
        first_text(h.references) is None && first_text(h.in_reply_to) is None && h.message_id
            is Some ==> mail_thread(h) == h.message_id->0,
{
    if h.references matches Some(v) && v.len() > 0 && is_word(v[0]) {
        let v = h.references->0;
        let s = spaced(v);
        let n = v[0].len() as int;
        lemma_spaced_start(v);
        assert forall|i: int| 0 <= i < n implies !text::white_space(#[trigger] s[i]) by {
            assert(s[i] == s.take(n)[i]);
            assert(v[0][i] == s.take(n)[i]);
        }
        text::lemma_first_visible(s, 0);
        assert(text::trim_start(s) =~= s);
        lemma_first_white_space(s, n);
    }
}

} // verus!
