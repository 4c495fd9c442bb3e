//! The configuration that the process reads once at start.

use vstd::prelude::*;
use vstd::string::*;
use crate::rule::{Rule, RuleFilter};
use crate::text::{decimal_i64, decimal_u16, parse_i64, parse_u16};

verus! {

/// The settings of a running instance. Built once and read-only afterwards.
#[derive(Clone, Debug)]
pub struct Config {
    pub web_port: u16,
    pub smtp_port: u16,
    pub per_page: u16,
    pub domain: String,
    pub mongo_con_str: String,
    pub mongo_db_name: String,
    pub web_domain: String,
    pub username: Option<String>,
    pub password: Option<String>,
    pub rules: Vec<Rule>,
    pub disable_rcpt_filter: bool,
    pub default_page_limit: i64,
}

/// The settings as the environment gives them: each text as it was found, or
/// nothing where the variable is not set.
#[derive(Clone, Debug)]
pub struct Environment {
    /// The rules of the rule file; nothing where no file is named, or the
    /// file cannot be read or is malformed.
    pub rules: Option<Vec<Rule>>,
    pub domain: Option<String>,
    pub web_port: Option<String>,
    pub smtp_port: Option<String>,
    pub per_page: Option<String>,
    pub mongo_con_str: Option<String>,
    pub mongo_db_name: Option<String>,
    pub web_domain: Option<String>,
    pub auth_username: Option<String>,
    pub auth_password: Option<String>,
    pub default_page_limit: Option<String>,
}

/// The setting whose text is not a number of its range.
#[derive(Clone, Copy, Debug, PartialEq, Eq, Structural)]
pub enum ConfigError {
    WebPort,
    SmtpPort,
    PerPage,
    DefaultPageLimit,
}

/// A 16-bit setting: the default where unset, else what the text gives.
pub open spec fn setting_u16(text: Option<String>, default: u16) -> Option<u16> {
    match text {
        Some(t) => decimal_u16(t@),
        None => Some(default),
    }
}

/// A 64-bit setting: the default where unset, else what the text gives.
pub open spec fn setting_i64(text: Option<String>, default: i64) -> Option<i64> {
    match text {
        Some(t) => decimal_i64(t@),
        None => Some(default),
    }
}

/// A text setting: the default where unset.
pub open spec fn setting_text(text: Option<String>, default: Seq<char>) -> Seq<char> {
    match text {
        Some(t) => t@,
        None => default,
    }
}

/// The rule has a predicate over the sender.
pub open spec fn has_by_from(rule: Rule) -> bool {
    exists|i: int| 0 <= i < rule.filter@.len() && (#[trigger] rule.filter@[i]) is ByFrom
}

/// Some rule has a predicate over the sender.
pub open spec fn any_by_from(rules: Seq<Rule>) -> bool {
    exists|i: int| 0 <= i < rules.len() && has_by_from(#[trigger] rules[i])
}

impl Environment {
    /// The first numeric setting, in the order web port, SMTP port, page
    /// size, page limit, whose text is refused; nothing where all are
    /// accepted.
    pub open spec fn first_refused(&self) -> Option<ConfigError> {
        if setting_u16(self.web_port, 8080) is None {
            Some(ConfigError::WebPort)
        } else if setting_u16(self.smtp_port, 10000) is None {
            Some(ConfigError::SmtpPort)
        } else if setting_u16(self.per_page, 10) is None {
            Some(ConfigError::PerPage)
        } else if setting_i64(self.default_page_limit, 30) is None {
            Some(ConfigError::DefaultPageLimit)
        } else {
            None
        }
    }

    /// User name and password are both set or both unset.
    pub open spec fn credentials_paired(&self) -> bool {
        self.auth_username is Some <==> self.auth_password is Some
    }

    /// The serving domain that the environment gives.
    pub open spec fn serving_domain(&self) -> Seq<char> {
        setting_text(self.domain, "example.com"@)
    }

    /// The rule list that the environment gives: empty where it has none.
    pub open spec fn rule_list(&self) -> Seq<Rule> {
        match self.rules {
            Some(r) => r@,
            None => Seq::empty(),
        }
    }
}

impl Config {
    /// The configuration is the one that the environment describes, every
    /// unset value replaced by its default.
    pub open spec fn describes(&self, env: Environment) -> bool {
        &&& Some(self.web_port) == setting_u16(env.web_port, 8080)
        &&& Some(self.smtp_port) == setting_u16(env.smtp_port, 10000)
        &&& Some(self.per_page) == setting_u16(env.per_page, 10)
        &&& Some(self.default_page_limit) == setting_i64(env.default_page_limit, 30)
        &&& self.domain@ == env.serving_domain()
        &&& self.mongo_con_str@ == setting_text(env.mongo_con_str, "mongodb://localhost:27017"@)
        &&& self.mongo_db_name@ == setting_text(env.mongo_db_name, "mail-list-rss"@)
        &&& self.web_domain@ == match env.web_domain {
            Some(w) => if w@.len() == 0 {
                env.serving_domain()
            } else {
                w@
            },
            None => env.serving_domain(),
        }
        &&& self.username == env.auth_username
        &&& self.password == env.auth_password
        &&& self.rules@ == env.rule_list()
        &&& self.disable_rcpt_filter == any_by_from(env.rule_list())
    }

    /// Builds the configuration from the settings of the environment. A
    /// numeric setting that is no number of its range is an error; the first
    /// such setting is reported.
    pub fn from_env(env: Environment) -> (out: Result<Config, ConfigError>)
        requires
            env.first_refused() is None ==> env.credentials_paired(),
        ensures
            match out {
                Ok(config) => env.first_refused() is None && config.describes(env),
                Err(e) => env.first_refused() == Some(e),
            },
    {
        let rules = match env.rules {
            Some(rules) => rules,
            None => Vec::new(),
        };
        let domain = match env.domain {
            Some(d) => d,
            None => String::from_str("example.com"),
        };
        let web_port = match read_u16(&env.web_port, 8080) {
            Some(p) => p,
            None => {
                return Err(ConfigError::WebPort);
            },
        };
        let smtp_port = match read_u16(&env.smtp_port, 10000) {
            Some(p) => p,
            None => {
                return Err(ConfigError::SmtpPort);
            },
        };
        let per_page = match read_u16(&env.per_page, 10) {
            Some(p) => p,
            None => {
                return Err(ConfigError::PerPage);
            },
        };
        let mongo_con_str = match env.mongo_con_str {
            Some(t) => t,
            None => String::from_str("mongodb://localhost:27017"),
        };
        let mongo_db_name = match env.mongo_db_name {
            Some(t) => t,
            None => String::from_str("mail-list-rss"),
        };
        let web_domain = match env.web_domain {
            Some(w) => if w.as_str().is_empty() {
                domain.clone()
            } else {
                w
            },
            None => domain.clone(),
        };
        let disable_rcpt_filter = filters_by_sender(&rules);
        let default_page_limit = match &env.default_page_limit {
            Some(t) => match parse_i64(t.as_str()) {
                Some(n) => n,
                None => {
                    return Err(ConfigError::DefaultPageLimit);
                },
            },
            None => 30,
        };
        Ok(
            Config {
                web_port,
                smtp_port,
                per_page,
                domain,
                mongo_con_str,
                mongo_db_name,
                web_domain,
                username: env.auth_username,
                password: env.auth_password,
                disable_rcpt_filter,
                rules,
                default_page_limit,
            },
        )
    }
}

fn read_u16(text: &Option<String>, default: u16) -> (out: Option<u16>)
    ensures
        out == setting_u16(*text, default),
{
    match text {
        Some(t) => parse_u16(t.as_str()),
        None => Some(default),
    }
}

fn rule_filters_by_sender(rule: &Rule) -> (out: bool)
    ensures
        out == has_by_from(*rule),
{
    let mut i: usize = 0;
    while i < rule.filter.len()
        invariant
            i <= rule.filter.len(),
            forall|k: int| 0 <= k < i ==> !((#[trigger] rule.filter@[k]) is ByFrom),
        decreases rule.filter.len() - i,
    {
        match &rule.filter[i] {
            RuleFilter::ByFrom(_) => {
                return true;
            },
            RuleFilter::ByTo(_) => {},
        }
        i += 1;
    }
    false
}

fn filters_by_sender(rules: &Vec<Rule>) -> (out: bool)
    ensures
        out == any_by_from(rules@),
{
    let mut i: usize = 0;
    while i < rules.len()
        invariant
            i <= rules.len(),
            forall|k: int| 0 <= k < i ==> !has_by_from(#[trigger] rules@[k]),
        decreases rules.len() - i,
    {
        if rule_filters_by_sender(&rules[i]) {
            return true;
        }
        i += 1;
    }
    false
}

/// The configuration of the process, from an environment whose settings are
/// all accepted.
pub fn get_config(env: Environment) -> (config: Config)
    requires
        env.first_refused() is None,
        env.credentials_paired(),
    ensures
        config.describes(env),
{
    match Config::from_env(env) {
        Ok(config) => config,
        Err(_) => {
            proof {
                assert(false);
            }
            unreached()
        },
    }
}

} // verus!
