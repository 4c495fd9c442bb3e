use mail_list_rss::feed::Feed;
use mail_list_rss::header::{HeaderValue, Message};
use mail_list_rss::web::{
    raw, rendered_html, rss_link, utf8_header, wants_redirect, ForwardedProto, Lookup,
};

fn feed() -> Feed {
    let msg = Message {
        from: HeaderValue::Other,
        to: HeaderValue::Other,
        subject: None,
        html_bodies: vec![b"<p>hi</p>".to_vec()],
    };
    Feed::build(&b"raw hi".to_vec(), &msg, "box".to_owned(), "0123456789".to_owned(), 0).unwrap()
}

#[test]
fn charset_is_added_once() {
    assert_eq!(utf8_header("application/json"), Some("application/json; charset=utf-8".to_owned()));
    assert_eq!(utf8_header("text/html; charset=utf-8"), None);
    assert_eq!(utf8_header("charset=utf-8"), None);
    assert_eq!(utf8_header(""), Some("; charset=utf-8".to_owned()));
    assert_eq!(
        utf8_header("text/html; charset=utf-8; x"),
        Some("text/html; charset=utf-8; x; charset=utf-8".to_owned())
    );
    assert_eq!(
        utf8_header("text/html; charset=UTF-8"),
        Some("text/html; charset=UTF-8; charset=utf-8".to_owned())
    );
}

#[test]
fn only_forwarded_plain_requests_are_redirected() {
    assert!(!wants_redirect(&ForwardedProto::Absent));
    assert!(wants_redirect(&ForwardedProto::Unreadable));
    assert!(wants_redirect(&ForwardedProto::Named("http".to_owned())));
    assert!(wants_redirect(&ForwardedProto::Named("HTTPS".to_owned())));
    assert!(wants_redirect(&ForwardedProto::Named("".to_owned())));
    assert!(!wants_redirect(&ForwardedProto::Named("https".to_owned())));
}

#[test]
fn feed_links_name_domain_and_mailbox() {
    assert_eq!(rss_link("rss.example.com", &None), "https://rss.example.com/rss");
    assert_eq!(
        rss_link("rss.example.com", &Some("user@example.com".to_owned())),
        "https://rss.example.com/rss/user@example.com"
    );
    assert_eq!(rss_link("d", &Some("".to_owned())), "https://d/rss/");
}

#[test]
fn found_entry_is_shown() {
    let page = rendered_html(Lookup::Found(feed()), "0123456789");
    assert_eq!(page.status, 200);
    assert_eq!(page.content_type, Some("text/html; charset=utf-8".to_owned()));
    assert_eq!(page.body, "<p>hi</p>");
    let page = raw(Lookup::Found(feed()), "0123456789");
    assert_eq!(page.status, 200);
    assert_eq!(page.content_type, Some("text/plain; charset=utf-8".to_owned()));
    assert_eq!(page.body, "raw hi");
}

#[test]
fn missing_entry_and_failure_are_told_apart() {
    let page = rendered_html(Lookup::Missing, "nokey");
    assert_eq!(page.status, 404);
    assert_eq!(page.content_type, None);
    assert_eq!(page.body, "Cannot find nokey");
    let page = raw(Lookup::Missing, "nokey");
    assert_eq!(page.status, 404);
    assert_eq!(page.body, "Cannot find nokey");
    let page = raw(Lookup::Failed("connection lost".to_owned()), "nokey");
    assert_eq!(page.status, 500);
    assert_eq!(page.content_type, None);
    assert_eq!(page.body, "connection lost");
    let page = rendered_html(Lookup::Failed("connection lost".to_owned()), "nokey");
    assert_eq!(page.status, 500);
    assert_eq!(page.body, "connection lost");
}
