use mail_list_rss::config::{get_config, Config, ConfigError, Environment};
use mail_list_rss::rule::{Rule, RuleFilter};

fn unset() -> Environment {
    Environment {
        rules: None,
        domain: None,
        web_port: None,
        smtp_port: None,
        per_page: None,
        mongo_con_str: None,
        mongo_db_name: None,
        web_domain: None,
        auth_username: None,
        auth_password: None,
        default_page_limit: None,
    }
}

fn text(s: &str) -> Option<String> {
    Some(s.to_owned())
}

#[test]
fn unset_environment_gives_the_defaults() {
    let cfg = get_config(unset());
    assert_eq!(cfg.web_port, 8080);
    assert_eq!(cfg.smtp_port, 10000);
    assert_eq!(cfg.per_page, 10);
    assert_eq!(cfg.default_page_limit, 30);
    assert_eq!(cfg.domain, "example.com");
    assert_eq!(cfg.web_domain, "example.com");
    assert_eq!(cfg.mongo_con_str, "mongodb://localhost:27017");
    assert_eq!(cfg.mongo_db_name, "mail-list-rss");
    assert_eq!(cfg.username, None);
    assert_eq!(cfg.password, None);
    assert!(cfg.rules.is_empty());
    assert!(!cfg.disable_rcpt_filter);
}

#[test]
fn settings_are_taken_as_given() {
    let mut env = unset();
    env.domain = text("mail.test");
    env.web_port = text("+443");
    env.smtp_port = text("0025");
    env.per_page = text("65535");
    env.default_page_limit = text("-9223372036854775808");
    env.mongo_con_str = text("mongodb://db:1");
    env.mongo_db_name = text("feeds");
    env.auth_username = text("u");
    env.auth_password = text("p");
    let cfg = Config::from_env(env).unwrap();
    assert_eq!(cfg.domain, "mail.test");
    assert_eq!(cfg.web_domain, "mail.test");
    assert_eq!(cfg.web_port, 443);
    assert_eq!(cfg.smtp_port, 25);
    assert_eq!(cfg.per_page, 65535);
    assert_eq!(cfg.default_page_limit, i64::MIN);
    assert_eq!(cfg.mongo_con_str, "mongodb://db:1");
    assert_eq!(cfg.mongo_db_name, "feeds");
    assert_eq!(cfg.username, text("u"));
    assert_eq!(cfg.password, text("p"));
}

#[test]
fn web_domain_falls_back_to_the_domain_when_empty() {
    let mut env = unset();
    env.domain = text("mail.test");
    env.web_domain = text("");
    assert_eq!(Config::from_env(env).unwrap().web_domain, "mail.test");
    let mut env = unset();
    env.domain = text("mail.test");
    env.web_domain = text("www.mail.test");
    assert_eq!(Config::from_env(env).unwrap().web_domain, "www.mail.test");
}

#[test]
fn refused_numbers_are_reported_in_order() {
    let mut env = unset();
    env.web_port = text("65536");
    env.smtp_port = text("x");
    assert_eq!(Config::from_env(env).err(), Some(ConfigError::WebPort));
    let mut env = unset();
    env.smtp_port = text("-1");
    env.per_page = text("");
    assert_eq!(Config::from_env(env).err(), Some(ConfigError::SmtpPort));
    let mut env = unset();
    env.per_page = text(" 10");
    env.default_page_limit = text("+");
    assert_eq!(Config::from_env(env).err(), Some(ConfigError::PerPage));
    let mut env = unset();
    env.default_page_limit = text("9223372036854775808");
    assert_eq!(Config::from_env(env).err(), Some(ConfigError::DefaultPageLimit));
    for bad in ["", "+", "-", "1_000", "12a", "0x10", "１２"] {
        let mut env = unset();
        env.default_page_limit = text(bad);
        assert_eq!(Config::from_env(env).err(), Some(ConfigError::DefaultPageLimit));
    }
}

#[test]
fn sender_predicates_switch_the_recipient_filter_off() {
    let by_to = Rule { to_box: "a".to_owned(), filter: vec![RuleFilter::ByTo("x@y".to_owned())] };
    let by_from = Rule {
        to_box: "b".to_owned(),
        filter: vec![RuleFilter::ByTo("x@y".to_owned()), RuleFilter::ByFrom("z@y".to_owned())],
    };
    let mut env = unset();
    env.rules = Some(vec![by_to.clone()]);
    let cfg = Config::from_env(env).unwrap();
    assert!(!cfg.disable_rcpt_filter);
    assert_eq!(cfg.rules.len(), 1);
    let mut env = unset();
    env.rules = Some(vec![by_to, by_from]);
    let cfg = Config::from_env(env).unwrap();
    assert!(cfg.disable_rcpt_filter);
    assert_eq!(cfg.rules.len(), 2);
    assert_eq!(cfg.rules[1].to_box, "b");
}
