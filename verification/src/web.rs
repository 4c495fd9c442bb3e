//! The decisions of the read side: response headers, redirects, links and
//! the pages that show one entry.

use vstd::prelude::*;
use vstd::string::*;
use crate::feed::Feed;
use crate::text::{is_suffix, str_ends_with};

verus! {

/// The content type with the UTF-8 charset added, for a content type that
/// does not end with it already; nothing for one that does.
pub fn utf8_header(content_type: &str) -> (out: Option<String>)
    ensures
        out is None <==> is_suffix(content_type@, "charset=utf-8"@),
        out is Some ==> out->0@ == content_type@ + "; charset=utf-8"@,
{
    if !str_ends_with(content_type, "charset=utf-8") {
        let mut ret = String::from_str(content_type);
        ret.append("; charset=utf-8");
        Some(ret)
    } else {
        None
    }
}

/// What a request says of the protocol it was forwarded from.
#[derive(Clone, Debug)]
pub enum ForwardedProto {
    /// The request has no such header.
    Absent,
    /// The header is there, but is no text.
    Unreadable,
    /// The header's text.
    Named(String),
}

/// The request has to be sent on to the HTTPS address: it names a forwarded
/// protocol, and not `https`.
pub open spec fn redirects(proto: ForwardedProto) -> bool {
    match proto {
        ForwardedProto::Absent => false,
        ForwardedProto::Unreadable => true,
        ForwardedProto::Named(p) => p@ != "https"@,
    }
}

/// Decides whether a request is redirected to HTTPS.
pub fn wants_redirect(proto: &ForwardedProto) -> (out: bool)
    ensures
        out == redirects(*proto),
{
    match proto {
        ForwardedProto::Absent => false,
        ForwardedProto::Unreadable => true,
        ForwardedProto::Named(p) => !(*p == String::from_str("https")),
    }
}

/// The address of the feed of all mailboxes, or of one mailbox: `https://`,
/// the web domain, `/rss`, and for one mailbox `/` and its name.
pub open spec fn rss_link_of(web_domain: Seq<char>, from_box: Option<String>) -> Seq<char> {
    match from_box {
        Some(b) => "https://"@ + web_domain + "/rss/"@ + b@,
        None => "https://"@ + web_domain + "/rss"@,
    }
}

/// Builds the address of a feed.
pub fn rss_link(web_domain: &str, from_box: &Option<String>) -> (link: String)
    ensures
        link@ == rss_link_of(web_domain@, *from_box),
{
    let mut link = String::from_str("https://");
    link.append(web_domain);
    match from_box {
        Some(b) => {
            link.append("/rss/");
            link.append(b.as_str());
        },
        None => {
            link.append("/rss");
        },
    }
    link
}

/// What the storage engine answered when asked for one entry.
#[derive(Clone, Debug)]
pub enum Lookup {
    Found(Feed),
    Missing,
    /// The engine failed; its message.
    Failed(String),
}

/// A response: status code, content type where one is set, and body.
#[derive(Clone, Debug)]
pub struct Page {
    pub status: u16,
    pub content_type: Option<String>,
    pub body: String,
}

/// The page for one entry is right: the chosen text of a found entry with
/// status 200 and the given content type; status 404 and a note of the key
/// for a missing one; status 500 and the engine's message for a failure.
pub open spec fn page_shows(
    page: Page,
    lookup: Lookup,
    key: Seq<char>,
    content_type: Seq<char>,
    raw: bool,
) -> bool {
    match lookup {
        Lookup::Found(feed) => {
            &&& page.status == 200
            &&& page.content_type is Some
            &&& page.content_type->0@ == content_type
            &&& page.body@ == if raw {
                feed.raw@
            } else {
                feed.content@
            }
        },
        Lookup::Missing => {
            &&& page.status == 404
            &&& page.content_type is None
            &&& page.body@ == "Cannot find "@ + key
        },
        Lookup::Failed(message) => {
            &&& page.status == 500
            &&& page.content_type is None
            &&& page.body@ == message@
        },
    }
}

fn entry_page(lookup: Lookup, key: &str, content_type: &str, raw: bool) -> (page: Page)
    ensures
        page_shows(page, lookup, key@, content_type@, raw),
{
    match lookup {
        Lookup::Found(feed) => Page {
            status: 200,
            content_type: Some(String::from_str(content_type)),
            body: if raw {
                feed.raw
            } else {
                feed.content
            },
        },
        Lookup::Missing => {
            let mut body = String::from_str("Cannot find ");
            body.append(key);
            Page { status: 404, content_type: None, body }
        },
        Lookup::Failed(message) => Page { status: 500, content_type: None, body: message },
    }
}

/// The page that shows the HTML content of an entry.
pub fn rendered_html(lookup: Lookup, key: &str) -> (page: Page)
    ensures
        page_shows(page, lookup, key@, "text/html; charset=utf-8"@, false),
{
    entry_page(lookup, key, "text/html; charset=utf-8", false)
}

/// The page that shows the raw text of an entry.
pub fn raw(lookup: Lookup, key: &str) -> (page: Page)
    ensures
        page_shows(page, lookup, key@, "text/plain; charset=utf-8"@, true),
{
    entry_page(lookup, key, "text/plain; charset=utf-8", true)
}

} // verus!
