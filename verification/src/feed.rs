//! Feed entries: the persisted form of one accepted message.

use vstd::prelude::*;
use vstd::string::*;
use vstd::utf8::*;
use crate::config::Config;
use crate::header::{HeaderValue, Message};
use crate::mailbox::{get_box, rejected, resolves_to};
use crate::text::decode_text;

verus! {

/// The persisted record of one ingested message.
#[derive(Clone, Debug)]
pub struct Feed {
    /// Storage key and permalink slug, assigned once at construction.
    pub id: String,
    /// Time of ingestion, in milliseconds since the Unix epoch.
    pub created_at: i64,
    pub title: String,
    pub author: String,
    pub content: String,
    pub raw: String,
    pub from_box: String,
}

/// The key of a feed entry.
#[derive(Clone, Debug)]
pub struct Index {
    pub id: String,
}

/// One line of a listing.
#[derive(Clone, Debug)]
pub struct Summary {
    pub title: String,
    pub create_at: String,
    pub id: String,
}

/// A page of a listing.
#[derive(Clone, Debug)]
pub struct List {
    pub items: Vec<Summary>,
}

/// Why a message gave no feed entry.
#[derive(Clone, Copy, Debug, PartialEq, Eq, Structural)]
pub enum FeedError {
    /// The message targets no accepted mailbox and satisfies no rule.
    Rejected,
    /// The raw bytes or the HTML content are not valid UTF-8 text.
    Encoding,
}

/// The number of characters of an identifier.
pub const ID_LENGTH: usize = 10;

/// The characters an identifier is made of: letters, digits, `_` and `-`.
pub open spec fn url_safe(c: char) -> bool {
    ||| c == '_'
    ||| c == '-'
    ||| ('0' <= c && c <= '9')
    ||| ('a' <= c && c <= 'z')
    ||| ('A' <= c && c <= 'Z')
}

/// The text is an identifier: of the fixed length, of URL-safe characters.
pub open spec fn is_id(id: Seq<char>) -> bool {
    &&& id.len() == ID_LENGTH
    &&& forall|i: int| 0 <= i < id.len() ==> url_safe(#[trigger] id[i])
}

/// The title of an entry: the subject, or a placeholder for a missing one.
pub open spec fn title_of(subject: Option<String>) -> Seq<char> {
    match subject {
        Some(s) => s@,
        None => "Unknown Title"@,
    }
}

/// The author of an entry, from the sender header: `address (name)` where a
/// single mailbox has both, the one it has where it has one, and a
/// placeholder otherwise.
pub open spec fn author_of(from: HeaderValue) -> Seq<char> {
    match from {
        HeaderValue::Address(a) => match (a.address, a.name) {
            (Some(addr), Some(name)) => addr@ + " ("@ + name@ + ")"@,
            (None, Some(name)) => name@,
            (Some(addr), None) => addr@,
            (None, None) => "Unknown"@,
        },
        _ => "Unknown"@,
    }
}

/// The bytes of all body parts, one part after the other.
pub open spec fn bodies_concat(bodies: Seq<Vec<u8>>) -> Seq<u8>
    decreases bodies.len(),
{
    if bodies.len() == 0 {
        Seq::empty()
    } else {
        bodies_concat(bodies.drop_last()) + bodies.last()@
    }
}

/// Both the raw bytes and the joined HTML parts are valid UTF-8.
pub open spec fn well_encoded(raw: Seq<u8>, msg: &Message) -> bool {
    valid_utf8(raw) && valid_utf8(bodies_concat(msg.html_bodies@))
}

/// The entry holds what the message gives: title, author, content and raw
/// text.
pub open spec fn reflects(feed: Feed, raw: Seq<u8>, msg: &Message) -> bool {
    &&& feed.title@ == title_of(msg.subject)
    &&& feed.author@ == author_of(msg.from)
    &&& feed.content@ == decode_utf8(bodies_concat(msg.html_bodies@))
    &&& feed.raw@ == decode_utf8(raw)
}

/// Calls `nanoid::format` with the crate's default random source and its
/// URL-safe alphabet, as the `nanoid!` macro does with a length. The claim,
/// for every outcome: the token has the fixed length and only characters
/// of that alphabet. The random source panics where the system gives it no
/// entropy.
#[verifier::external_body]
fn fresh_id() -> (id: String)
    ensures
        is_id(id@),
{
    nanoid::format(nanoid::rngs::default, &nanoid::alphabet::SAFE, ID_LENGTH)
}

/// Calls `chrono::Utc::now` and `DateTime::timestamp_millis`: the current
/// time in milliseconds since the Unix epoch. Nothing is claimed of it.
/// `Utc::now` panics where the system clock stands before the epoch.
#[verifier::external_body]
fn now_millis() -> i64 {
    chrono::Utc::now().timestamp_millis()
}

/// The first millisecond of the year 0 and the last of the year 9999, counted
/// from the Unix epoch: the range of times that have a date text.
pub const FIRST_DATE_MILLIS: i64 = -62_167_219_200_000;

pub const LAST_DATE_MILLIS: i64 = 253_402_300_799_999;

/// The time lies in the years 0 to 9999.
pub open spec fn has_date(millis: i64) -> bool {
    FIRST_DATE_MILLIS <= millis <= LAST_DATE_MILLIS
}

/// The date and time of day, in UTC, that a count of milliseconds since the
/// Unix epoch stands for, written as RFC 2822 has it.
pub uninterp spec fn rfc2822_text(millis: i64) -> Seq<char>;

/// Calls `chrono::DateTime::from_timestamp_millis` and `DateTime::to_rfc2822`.
/// The claim: the text depends on the count alone. The formatter panics
/// outside the years 0 to 9999, which the precondition leaves out.
#[verifier::external_body]
fn rfc2822(millis: i64) -> (text: String)
    requires
        has_date(millis),
    ensures
        text@ == rfc2822_text(millis),
{
    chrono::DateTime::from_timestamp_millis(millis).unwrap_or_default().to_rfc2822()
}

fn author_text(from: &HeaderValue) -> (out: String)
    ensures
        out@ == author_of(*from),
{
    match from {
        HeaderValue::Address(addr) => match &addr.address {
            Some(a) => match &addr.name {
                Some(name) => {
                    let mut out = a.clone();
                    out.append(" (");
                    out.append(name.as_str());
                    out.append(")");
                    out
                },
                None => a.clone(),
            },
            None => match &addr.name {
                Some(name) => name.clone(),
                None => String::from_str("Unknown"),
            },
        },
        _ => String::from_str("Unknown"),
    }
}

fn joined_bodies(bodies: &Vec<Vec<u8>>) -> (out: Vec<u8>)
    ensures
        out@ == bodies_concat(bodies@),
{
    let mut out: Vec<u8> = Vec::new();
    let mut i: usize = 0;
    assert(bodies@.take(0) =~= Seq::<Vec<u8>>::empty());
    while i < bodies.len()
        invariant
            i <= bodies.len(),
            out@ == bodies_concat(bodies@.take(i as int)),
        decreases bodies.len() - i,
    {
        out.extend_from_slice(bodies[i].as_slice());
        proof {
            assert(bodies@.take(i + 1).drop_last() =~= bodies@.take(i as int));
        }
        i += 1;
    }
    assert(bodies@.take(i as int) =~= bodies@);
    out
}

impl Feed {
    /// Builds the entry of a message whose mailbox is resolved, under the
    /// given identifier and time. Fails only on text that is not valid UTF-8.
    pub fn build(
        raw: &Vec<u8>,
        msg: &Message,
        from_box: String,
        id: String,
        created_at: i64,
    ) -> (out: Result<Feed, FeedError>)
        ensures
            out is Ok <==> well_encoded(raw@, msg),
            out is Err ==> out == Err::<Feed, FeedError>(FeedError::Encoding),
            out is Ok ==> {
                let feed = out->Ok_0;
                &&& feed.id == id
                &&& feed.created_at == created_at
                &&& feed.from_box == from_box
                &&& reflects(feed, raw@, msg)
            },
    {
        let author = author_text(&msg.from);
        let title = match &msg.subject {
            Some(s) => s.clone(),
            None => String::from_str("Unknown Title"),
        };
        let content = joined_bodies(&msg.html_bodies);
        let mut raw_copy: Vec<u8> = Vec::new();
        raw_copy.extend_from_slice(raw.as_slice());
        assert(raw_copy@ =~= raw@);
        let raw_text = match decode_text(raw_copy) {
            Some(t) => t,
            None => {
                return Err(FeedError::Encoding);
            },
        };
        let content_text = match decode_text(content) {
            Some(t) => t,
            None => {
                return Err(FeedError::Encoding);
            },
        };
        Ok(Feed { raw: raw_text, content: content_text, created_at, title, author, from_box, id })
    }

    /// Turns a raw message and its parsed form into an entry: resolves the
    /// mailbox, then builds the entry under a fresh identifier and the
    /// current time. A message without a mailbox is rejected before anything
    /// else is looked at.
    pub fn try_from(raw: &Vec<u8>, val: &Message, config: &Config) -> (out: Result<Feed, FeedError>)
        ensures
            rejected(val, config) ==> out == Err::<Feed, FeedError>(FeedError::Rejected),
            !rejected(val, config) && !well_encoded(raw@, val) ==> out == Err::<Feed, FeedError>(
                FeedError::Encoding,
            ),
            !rejected(val, config) && well_encoded(raw@, val) ==> out is Ok,
            out is Ok ==> {
                let feed = out->Ok_0;
                &&& resolves_to(val, config, feed.from_box@)
                &&& is_id(feed.id@)
                &&& reflects(feed, raw@, val)
            },
    {
        let from_box = match get_box(val, config) {
            Some(x) => x,
            None => {
                return Err(FeedError::Rejected);
            },
        };
        Feed::build(raw, val, from_box, fresh_id(), now_millis())
    }

    /// The time of ingestion as a date text, for a time that has one.
    pub fn pub_date(&self) -> (out: Option<String>)
        ensures
            out is Some <==> has_date(self.created_at),
            out is Some ==> out->0@ == rfc2822_text(self.created_at),
    {
        if FIRST_DATE_MILLIS <= self.created_at && self.created_at <= LAST_DATE_MILLIS {
            Some(rfc2822(self.created_at))
        } else {
            None
        }
    }

    /// The line of a listing that stands for the entry: its title, its
    /// identifier and its date text. An entry whose time has no date text has
    /// no line.
    pub fn summary(&self) -> (out: Option<Summary>)
        ensures
            out is Some <==> has_date(self.created_at),
            out is Some ==> {
                let line = out->0;
                &&& line.title@ == self.title@
                &&& line.id@ == self.id@
                &&& line.create_at@ == rfc2822_text(self.created_at)
            },
    {
        match self.pub_date() {
            Some(create_at) => Some(
                Summary { create_at, title: self.title.clone(), id: self.id.clone() },
            ),
            None => None,
        }
    }

    /// The address under which the entry can be read: `https://`, the web
    /// domain, `/feeds/` and the identifier.
    pub fn permalink(&self, web_domain: &str) -> (link: String)
        ensures
            link@ == "https://"@ + web_domain@ + "/feeds/"@ + self.id@,
    {
        let mut link = String::from_str("https://");
        link.append(web_domain);
        link.append("/feeds/");
        link.append(self.id.as_str());
        link
    }
}

} // verus!
