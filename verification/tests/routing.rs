use mail_list_rss::config::{Config, Environment};
use mail_list_rss::feed::{Feed, FeedError};
use mail_list_rss::header::{Addr, HeaderValue, Message};
use mail_list_rss::mailbox::get_box;
use mail_list_rss::rule::{Rule, RuleFilter};

fn addr(address: &str) -> Addr {
    Addr { name: None, address: Some(address.to_owned()) }
}

fn to_many(addresses: &[&str]) -> HeaderValue {
    HeaderValue::AddressList(addresses.iter().map(|a| addr(a)).collect())
}

fn message(from: &str, to: HeaderValue) -> Message {
    Message { from: HeaderValue::Address(addr(from)), to, subject: None, html_bodies: vec![] }
}

fn config(domain: &str, rules: Vec<Rule>) -> Config {
    let env = Environment {
        rules: Some(rules),
        domain: Some(domain.to_owned()),
        web_port: None,
        smtp_port: None,
        per_page: None,
        mongo_con_str: None,
        mongo_db_name: None,
        web_domain: None,
        auth_username: None,
        auth_password: None,
        default_page_limit: None,
    };
    Config::from_env(env).unwrap()
}

fn vendor_rules() -> Vec<Rule> {
    vec![Rule {
        to_box: "news".to_owned(),
        filter: vec![RuleFilter::ByFrom("alerts@vendor.com".to_owned())],
    }]
}

#[test]
fn domain_recipient_is_the_mailbox() {
    let cfg = config("example.com", vendor_rules());
    let a = message("someone@else.org", to_many(&["user@example.com"]));
    assert_eq!(get_box(&a, &cfg), Some("user@example.com".to_owned()));
}

#[test]
fn rule_routes_when_no_domain_recipient() {
    let cfg = config("example.com", vendor_rules());
    let b = message("alerts@vendor.com", to_many(&["nobody@other.com"]));
    assert_eq!(get_box(&b, &cfg), Some("news".to_owned()));
}

#[test]
fn unmatched_message_is_rejected() {
    let cfg = config("example.com", vendor_rules());
    let c = message("random@x.com", to_many(&["nobody@other.com"]));
    assert_eq!(get_box(&c, &cfg), None);
    let raw = b"plain".to_vec();
    assert_eq!(Feed::try_from(&raw, &c, &cfg).err(), Some(FeedError::Rejected));
}

#[test]
fn domain_wins_over_a_matching_rule() {
    let cfg = config("example.com", vendor_rules());
    let msg = message("alerts@vendor.com", to_many(&["nobody@other.com", "user@example.com"]));
    assert_eq!(get_box(&msg, &cfg), Some("user@example.com".to_owned()));
}

#[test]
fn earlier_rule_shadows_later_rule() {
    let rules = vec![
        Rule { to_box: "unrelated".to_owned(), filter: vec![RuleFilter::ByTo("x@y.z".to_owned())] },
        Rule {
            to_box: "first".to_owned(),
            filter: vec![RuleFilter::ByFrom("alerts@vendor.com".to_owned())],
        },
        Rule {
            to_box: "second".to_owned(),
            filter: vec![
                RuleFilter::ByTo("nobody@other.com".to_owned()),
                RuleFilter::ByFrom("alerts@vendor.com".to_owned()),
            ],
        },
    ];
    let cfg = config("example.com", rules);
    let msg = message("alerts@vendor.com", to_many(&["nobody@other.com"]));
    assert_eq!(get_box(&msg, &cfg), Some("first".to_owned()));
    let only_second = message("other@vendor.com", to_many(&["nobody@other.com"]));
    assert_eq!(get_box(&only_second, &cfg), Some("second".to_owned()));
}

#[test]
fn first_domain_recipient_in_sorted_order_is_chosen() {
    let cfg = config("example.com", vec![]);
    let msg = message("a@b.c", to_many(&["zed@example.com", "x@other.com", "amy@example.com"]));
    assert_eq!(get_box(&msg, &cfg), Some("amy@example.com".to_owned()));
    let swapped = message("a@b.c", to_many(&["amy@example.com", "zed@example.com", "x@other.com"]));
    assert_eq!(get_box(&swapped, &cfg), Some("amy@example.com".to_owned()));
    let upper = message("a@b.c", to_many(&["b@example.com", "B@example.com"]));
    assert_eq!(get_box(&upper, &cfg), Some("B@example.com".to_owned()));
}

#[test]
fn domain_check_is_a_substring_test() {
    let cfg = config("example.com", vec![]);
    let msg = message("a@b.c", to_many(&["notfoo@example.com"]));
    assert_eq!(get_box(&msg, &cfg), Some("notfoo@example.com".to_owned()));
    let longer = message("a@b.c", to_many(&["foo@example.com.evil.org"]));
    assert_eq!(get_box(&longer, &cfg), Some("foo@example.com.evil.org".to_owned()));
    let other = message("a@b.c", to_many(&["foo@sub.example.com", "example.com"]));
    assert_eq!(get_box(&other, &cfg), None);
}

#[test]
fn message_without_recipients_is_rejected() {
    let cfg = config("example.com", vendor_rules());
    let msg = Message {
        from: HeaderValue::Other,
        to: HeaderValue::Other,
        subject: Some("hi".to_owned()),
        html_bodies: vec![],
    };
    assert_eq!(get_box(&msg, &cfg), None);
    let empty = message("random@x.com", to_many(&[]));
    assert_eq!(get_box(&empty, &cfg), None);
}

#[test]
fn resolution_does_not_depend_on_address_order() {
    let rules = vec![Rule {
        to_box: "lists".to_owned(),
        filter: vec![RuleFilter::ByTo("dev@lists.org".to_owned())],
    }];
    let cfg = config("example.com", rules);
    let one = message("a@b.c", to_many(&["dev@lists.org", "x@other.com", "y@other.com"]));
    let other = message("a@b.c", to_many(&["y@other.com", "x@other.com", "dev@lists.org"]));
    assert_eq!(get_box(&one, &cfg), Some("lists".to_owned()));
    assert_eq!(get_box(&one, &cfg), get_box(&other, &cfg));
}

#[test]
fn sorted_order_is_the_order_of_code_points() {
    let cfg = config("example.com", vec![]);
    let msg = message(
        "a@b.c",
        to_many(&["\u{1f600}@example.com", "\u{ff5e}@example.com", "\u{e9}@example.com"]),
    );
    assert_eq!(get_box(&msg, &cfg), Some("\u{e9}@example.com".to_owned()));
    let two = message("a@b.c", to_many(&["\u{1f600}@example.com", "\u{ff5e}@example.com"]));
    assert_eq!(get_box(&two, &cfg), Some("\u{ff5e}@example.com".to_owned()));
    let prefix = message("a@b.c", to_many(&["ab@example.com", "a@example.com"]));
    assert_eq!(get_box(&prefix, &cfg), Some("a@example.com".to_owned()));
}
