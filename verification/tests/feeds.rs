use mail_list_rss::config::{Config, Environment};
use mail_list_rss::feed::{Feed, FeedError};
use mail_list_rss::header::{Addr, HeaderValue, Message};
use mail_list_rss::rule::Rule;

fn config(domain: &str, rules: Vec<Rule>) -> Config {
    let env = Environment {
        rules: Some(rules),
        domain: Some(domain.to_owned()),
        web_port: None,
        smtp_port: None,
        per_page: None,
        mongo_con_str: None,
        mongo_db_name: None,
        web_domain: None,
        auth_username: None,
        auth_password: None,
        default_page_limit: None,
    };
    Config::from_env(env).unwrap()
}

fn sender(name: Option<&str>, address: Option<&str>) -> HeaderValue {
    HeaderValue::Address(Addr {
        name: name.map(|n| n.to_owned()),
        address: address.map(|a| a.to_owned()),
    })
}

fn message(from: HeaderValue, subject: Option<&str>, bodies: Vec<Vec<u8>>) -> Message {
    Message {
        from,
        to: HeaderValue::Address(Addr { name: None, address: Some("me@example.com".to_owned()) }),
        subject: subject.map(|s| s.to_owned()),
        html_bodies: bodies,
    }
}

#[test]
fn entry_reflects_the_message() {
    let msg = message(
        sender(Some("Ann Lee"), Some("ann@vendor.com")),
        Some("Weekly digest"),
        vec![b"<p>one</p>".to_vec(), b"<p>two</p>".to_vec()],
    );
    let raw = b"Subject: Weekly digest\r\n\r\nbody".to_vec();
    let feed =
        Feed::build(&raw, &msg, "me@example.com".to_owned(), "abcdefghij".to_owned(), 1234).unwrap();
    assert_eq!(feed.title, "Weekly digest");
    assert_eq!(feed.author, "ann@vendor.com (Ann Lee)");
    assert_eq!(feed.content, "<p>one</p><p>two</p>");
    assert_eq!(feed.raw, "Subject: Weekly digest\r\n\r\nbody");
    assert_eq!(feed.from_box, "me@example.com");
    assert_eq!(feed.id, "abcdefghij");
    assert_eq!(feed.created_at, 1234);
}

#[test]
fn missing_subject_gets_the_placeholder() {
    let msg = message(sender(Some("Ann"), Some("ann@vendor.com")), None, vec![]);
    let feed = Feed::build(&vec![], &msg, "box".to_owned(), "0123456789".to_owned(), 0).unwrap();
    assert_eq!(feed.title, "Unknown Title");
    assert_eq!(feed.content, "");
    assert_eq!(feed.raw, "");
}

#[test]
fn author_follows_what_the_sender_has() {
    let build = |from: HeaderValue| {
        let msg = message(from, Some("s"), vec![]);
        Feed::build(&vec![], &msg, "box".to_owned(), "0123456789".to_owned(), 0).unwrap().author
    };
    assert_eq!(build(sender(None, Some("ann@vendor.com"))), "ann@vendor.com");
    assert_eq!(build(sender(Some("Ann"), None)), "Ann");
    assert_eq!(build(sender(Some("Ann"), Some("ann@vendor.com"))), "ann@vendor.com (Ann)");
    assert_eq!(build(sender(None, None)), "Unknown");
    assert_eq!(build(HeaderValue::Other), "Unknown");
    assert_eq!(build(HeaderValue::Text("ann@vendor.com".to_owned())), "Unknown");
    assert_eq!(
        build(HeaderValue::AddressList(vec![Addr {
            name: None,
            address: Some("ann@vendor.com".to_owned())
        }])),
        "Unknown"
    );
}

#[test]
fn invalid_raw_text_is_an_encoding_error() {
    let msg = message(sender(None, Some("a@b.c")), Some("s"), vec![b"fine".to_vec()]);
    let raw = vec![0x66, 0xff, 0x6f];
    let out = Feed::build(&raw, &msg, "box".to_owned(), "0123456789".to_owned(), 0);
    assert_eq!(out.err(), Some(FeedError::Encoding));
}

#[test]
fn invalid_html_content_is_an_encoding_error() {
    let msg = message(sender(None, Some("a@b.c")), Some("s"), vec![b"ok".to_vec(), vec![0xc3]]);
    let out = Feed::build(&b"raw".to_vec(), &msg, "box".to_owned(), "0123456789".to_owned(), 0);
    assert_eq!(out.err(), Some(FeedError::Encoding));
}

#[test]
fn content_is_decoded_across_part_boundaries() {
    let msg = message(sender(None, Some("a@b.c")), Some("s"), vec![vec![0xc3], vec![0xa9]]);
    let feed = Feed::build(&b"raw".to_vec(), &msg, "box".to_owned(), "0123456789".to_owned(), 0)
        .unwrap();
    assert_eq!(feed.content, "\u{e9}");
    assert_eq!(feed.content.chars().count(), 1);
}

#[test]
fn accepted_message_gets_a_fresh_identifier() {
    let cfg = config("example.com", vec![]);
    let msg = message(sender(None, Some("a@b.c")), Some("s"), vec![b"<b>x</b>".to_vec()]);
    let raw = b"raw text".to_vec();
    let one = Feed::try_from(&raw, &msg, &cfg).unwrap();
    let two = Feed::try_from(&raw, &msg, &cfg).unwrap();
    for feed in [&one, &two] {
        assert_eq!(feed.id.chars().count(), 10);
        assert!(feed.id.chars().all(|c| c.is_ascii_alphanumeric() || c == '_' || c == '-'));
        assert_eq!(feed.from_box, "me@example.com");
        assert_eq!(feed.title, "s");
        assert_eq!(feed.author, "a@b.c");
        assert_eq!(feed.content, "<b>x</b>");
        assert_eq!(feed.raw, "raw text");
        assert!(feed.created_at > 1_600_000_000_000);
    }
    assert!(two.created_at >= one.created_at);
}

#[test]
fn rejection_comes_before_encoding() {
    let cfg = config("elsewhere.org", vec![]);
    let msg = message(sender(None, Some("a@b.c")), Some("s"), vec![vec![0xff]]);
    assert_eq!(Feed::try_from(&vec![0xff], &msg, &cfg).err(), Some(FeedError::Rejected));
    let here = config("example.com", vec![]);
    assert_eq!(Feed::try_from(&vec![0xff], &msg, &here).err(), Some(FeedError::Encoding));
}

#[test]
fn permalink_joins_domain_and_identifier() {
    let msg = message(sender(None, Some("a@b.c")), Some("s"), vec![]);
    let feed = Feed::build(&vec![], &msg, "box".to_owned(), "Ab_-456789".to_owned(), 0).unwrap();
    assert_eq!(feed.permalink("rss.example.com"), "https://rss.example.com/feeds/Ab_-456789");
}

fn at(created_at: i64) -> Feed {
    let msg = message(sender(None, Some("a@b.c")), Some("Hello"), vec![]);
    Feed::build(&vec![], &msg, "box".to_owned(), "0123456789".to_owned(), created_at).unwrap()
}

#[test]
fn date_text_follows_the_time() {
    assert_eq!(at(0).pub_date(), Some("Thu, 1 Jan 1970 00:00:00 +0000".to_owned()));
    assert_eq!(
        at(1_000_000_000_555).pub_date(),
        Some("Sun, 9 Sep 2001 01:46:40 +0000".to_owned())
    );
    assert_eq!(at(-1).pub_date(), Some("Wed, 31 Dec 1969 23:59:59 +0000".to_owned()));
}

#[test]
fn date_text_ends_with_the_four_digit_years() {
    assert_eq!(
        at(253_402_300_799_999).pub_date(),
        Some("Fri, 31 Dec 9999 23:59:59 +0000".to_owned())
    );
    assert_eq!(at(253_402_300_800_000).pub_date(), None);
    assert_eq!(
        at(-62_167_219_200_000).pub_date(),
        Some("Sat, 1 Jan 0000 00:00:00 +0000".to_owned())
    );
    assert_eq!(at(-62_167_219_200_001).pub_date(), None);
    assert_eq!(at(i64::MAX).pub_date(), None);
    assert_eq!(at(i64::MIN).pub_date(), None);
}

#[test]
fn summary_names_title_identifier_and_date() {
    let line = at(1_000_000_000_555).summary().unwrap();
    assert_eq!(line.title, "Hello");
    assert_eq!(line.id, "0123456789");
    assert_eq!(line.create_at, "Sun, 9 Sep 2001 01:46:40 +0000");
    assert!(at(i64::MAX).summary().is_none());
}
