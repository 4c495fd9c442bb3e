//! Mailbox resolution: the serving domain first, then the rules in order.

use vstd::prelude::*;
use vstd::string::*;
use crate::config::Config;
use crate::header::{lemma_reordered_same_members, reordered, Message, ToVec};
use crate::rule::{Rule, RuleFilter};
use crate::text::{
    ascending, has_substring, lemma_lex_le_antisymmetric, lemma_lex_le_reflexive,
    lemma_lex_le_total, lemma_lex_le_transitive, lemma_same_members, lex_le, sort_strings,
    str_contains, views,
};

verus! {

/// The text that marks an address of the serving domain: `@` and the domain.
pub open spec fn domain_suffix(domain: Seq<char>) -> Seq<char> {
    seq!['@'] + domain
}

/// Some recipient holds the domain marker.
pub open spec fn has_domain_recipient(recipients: Seq<Seq<char>>, suffix: Seq<char>) -> bool {
    exists|x: Seq<char>| #[trigger] recipients.contains(x) && has_substring(x, suffix)
}

/// `b` is the recipient chosen by the domain check: it holds the marker, and
/// it is the first in lexicographic order of those that do.
pub open spec fn domain_choice(recipients: Seq<Seq<char>>, suffix: Seq<char>, b: Seq<char>) -> bool {
    &&& recipients.contains(b)
    &&& has_substring(b, suffix)
    &&& forall|x: Seq<char>| #[trigger]
        recipients.contains(x) && has_substring(x, suffix) ==> lex_le(b, x)
}

/// Rule `i` is the first of the list that the message satisfies.
pub open spec fn first_satisfied(rules: Seq<Rule>, msg: &Message, i: int) -> bool {
    &&& 0 <= i < rules.len()
    &&& rules[i].satisfied_by(msg)
    &&& forall|j: int| 0 <= j < i ==> !(#[trigger] rules[j]).satisfied_by(msg)
}

/// No rule of the list is satisfied by the message.
pub open spec fn none_satisfied(rules: Seq<Rule>, msg: &Message) -> bool {
    forall|j: int| 0 <= j < rules.len() ==> !(#[trigger] rules[j]).satisfied_by(msg)
}

/// The message resolves to mailbox `b`: by the domain check where a recipient
/// of the serving domain exists, else by the first satisfied rule.
pub open spec fn resolves_to(msg: &Message, config: &Config, b: Seq<char>) -> bool {
    let suffix = domain_suffix(config.domain@);
    if has_domain_recipient(msg.recipients(), suffix) {
        domain_choice(msg.recipients(), suffix, b)
    } else {
        exists|i: int| #[trigger]
            first_satisfied(config.rules@, msg, i) && config.rules@[i].to_box@ == b
    }
}

/// The message is rejected: no recipient of the serving domain, no rule
/// satisfied.
pub open spec fn rejected(msg: &Message, config: &Config) -> bool {
    &&& !has_domain_recipient(msg.recipients(), domain_suffix(config.domain@))
    &&& none_satisfied(config.rules@, msg)
}

/// Decides the mailbox of a message, or that it has none.
pub fn get_box(val: &Message, config: &Config) -> (out: Option<String>)
    ensures
        out is None <==> rejected(val, config),
        out is Some ==> resolves_to(val, config, out->0@),
{
    let mut receivers = val.to.to_vec();
    let ghost unsorted = views(receivers@);
    sort_strings(&mut receivers);
    let ghost sorted = views(receivers@);
    proof {
        lemma_same_members(sorted, unsorted);
    }

    let mut domain_suffix = String::from_str("@");
    domain_suffix.append(config.domain.as_str());
    proof {
        reveal_strlit("@");
        assert(domain_suffix@ =~= self::domain_suffix(config.domain@));
    }
    let ghost suffix = domain_suffix@;

    let mut i: usize = 0;
    while i < receivers.len()
        invariant
            i <= receivers.len(),
            sorted == views(receivers@),
            suffix == domain_suffix@,
            suffix == self::domain_suffix(config.domain@),
            unsorted == val.recipients(),
            ascending(sorted),
            forall|x: Seq<char>| sorted.contains(x) <==> unsorted.contains(x),
            forall|k: int| 0 <= k < i ==> !has_substring(#[trigger] sorted[k], suffix),
        decreases receivers.len() - i,
    {
        if str_contains(receivers[i].as_str(), domain_suffix.as_str()) {
            let found = receivers[i].clone();
            proof {
                let b = sorted[i as int];
                assert(found@ == b);
                assert(sorted.contains(b));
                assert forall|x: Seq<char>| #[trigger]
                    unsorted.contains(x) && has_substring(x, suffix) implies lex_le(b, x) by {
                    assert(sorted.contains(x));
                    let j = choose|j: int| 0 <= j < sorted.len() && sorted[j] == x;
                    if j == i {
                        lemma_lex_le_reflexive(b);
                    } else {
                        assert(i < j);
                        assert(ascending(sorted));
                    }
                }
                assert(unsorted.contains(b));
                assert(has_domain_recipient(unsorted, suffix));
            }
            return Some(found);
        }
        i += 1;
    }
    proof {
        assert forall|x: Seq<char>| unsorted.contains(x) implies !has_substring(x, suffix) by {
            assert(sorted.contains(x));
        }
        assert(!has_domain_recipient(unsorted, suffix));
    }

    let rules = &config.rules;
    let mut r: usize = 0;
    while r < rules.len()
        invariant
            r <= rules.len(),
            rules == &config.rules,
            unsorted == val.recipients(),
            suffix == self::domain_suffix(config.domain@),
            !has_domain_recipient(unsorted, suffix),
            forall|j: int| 0 <= j < r ==> !(#[trigger] rules@[j]).satisfied_by(val),
        decreases rules.len() - r,
    {
        if rules[r].satisfied(val) {
            assert(first_satisfied(rules@, val, r as int));
            return Some(rules[r].to_box.clone());
        }
        r += 1;
    }
    None
}

/// A message resolves to at most one mailbox.
pub proof fn lemma_resolution_unique(msg: &Message, config: &Config, a: Seq<char>, b: Seq<char>)
    requires
        resolves_to(msg, config, a),
        resolves_to(msg, config, b),
    ensures
        a == b,
{
    let suffix = domain_suffix(config.domain@);
    if has_domain_recipient(msg.recipients(), suffix) {
        lemma_lex_le_antisymmetric(a, b);
    } else {
        let i = choose|i: int| #[trigger]
            first_satisfied(config.rules@, msg, i) && config.rules@[i].to_box@ == a;
        let j = choose|j: int| #[trigger]
            first_satisfied(config.rules@, msg, j) && config.rules@[j].to_box@ == b;
        assert(i == j);
    }
}

/// The domain check wins: where a recipient holds the domain marker, the
/// message is not rejected, its mailbox is such a recipient, and the rules
/// have no say in it.
pub proof fn lemma_domain_wins(msg: &Message, config: &Config, other: &Config, b: Seq<char>)
    requires
        has_domain_recipient(msg.recipients(), domain_suffix(config.domain@)),
        other.domain@ == config.domain@,
    ensures
        !rejected(msg, config),
        resolves_to(msg, config, b) ==> msg.recipients().contains(b) && has_substring(
            b,
            domain_suffix(config.domain@),
        ),
        resolves_to(msg, config, b) == resolves_to(msg, other, b),
{
}

/// Without a recipient of the serving domain, the first satisfied rule in
/// declared order gives the mailbox, and no other rule does.
pub proof fn lemma_first_rule_wins(msg: &Message, config: &Config, i: int, b: Seq<char>)
    requires
        !has_domain_recipient(msg.recipients(), domain_suffix(config.domain@)),
        first_satisfied(config.rules@, msg, i),
    ensures
        !rejected(msg, config),
        resolves_to(msg, config, b) <==> b == config.rules@[i].to_box@,
{
    let target = config.rules@[i].to_box@;
    assert(resolves_to(msg, config, target));
    if resolves_to(msg, config, b) {
        lemma_resolution_unique(msg, config, b, target);
    }
}

/// A rejected message resolves to no mailbox, and a message that is not
/// rejected resolves to one.
pub proof fn lemma_rejected_iff_unresolved(msg: &Message, config: &Config)
    ensures
        rejected(msg, config) <==> forall|b: Seq<char>| !resolves_to(msg, config, b),
{
    let suffix = domain_suffix(config.domain@);
    let recipients = msg.recipients();
    if rejected(msg, config) {
        assert forall|b: Seq<char>| !resolves_to(msg, config, b) by {
            if resolves_to(msg, config, b) {
                let i = choose|i: int| #[trigger]
                    first_satisfied(config.rules@, msg, i) && config.rules@[i].to_box@ == b;
                assert(config.rules@[i].satisfied_by(msg));
            }
        }
    } else if has_domain_recipient(recipients, suffix) {
        lemma_least_domain_recipient(recipients, suffix);
        let b = choose|b: Seq<char>| domain_choice(recipients, suffix, b);
        assert(resolves_to(msg, config, b));
    } else {
        let i = first_satisfied_index(config.rules@, msg, config.rules@.len() as int);
        assert(resolves_to(msg, config, config.rules@[i].to_box@));
    }
}

/// Among the first `n` rules, one of which is satisfied, there is a first
/// satisfied one.
proof fn first_satisfied_index(rules: Seq<Rule>, msg: &Message, n: int) -> (i: int)
    requires
        0 <= n <= rules.len(),
        exists|j: int| 0 <= j < n && (#[trigger] rules[j]).satisfied_by(msg),
    ensures
        first_satisfied(rules, msg, i),
    decreases n,
{
    if exists|j: int| 0 <= j < n - 1 && (#[trigger] rules[j]).satisfied_by(msg) {
        first_satisfied_index(rules, msg, n - 1)
    } else {
        n - 1
    }
}

/// Where some recipient holds the marker, one of them is first in
/// lexicographic order.
proof fn lemma_least_domain_recipient(recipients: Seq<Seq<char>>, suffix: Seq<char>)
    requires
        has_domain_recipient(recipients, suffix),
    ensures
        exists|b: Seq<char>| domain_choice(recipients, suffix, b),
    decreases recipients.len(),
{
    let x = choose|x: Seq<char>| #[trigger] recipients.contains(x) && has_substring(x, suffix);
    let k = choose|k: int| 0 <= k < recipients.len() && recipients[k] == x;
    let front = recipients.drop_last();
    let last = recipients.last();
    assert forall|y: Seq<char>| recipients.contains(y) implies front.contains(y) || y == last by {
        let j = choose|j: int| 0 <= j < recipients.len() && recipients[j] == y;
        if j < recipients.len() - 1 {
            assert(front[j] == y);
        }
    }
    assert forall|y: Seq<char>| front.contains(y) implies recipients.contains(y) by {
        let j = choose|j: int| 0 <= j < front.len() && front[j] == y;
        assert(recipients[j] == y);
    }
    assert(recipients.contains(last)) by {
        assert(recipients[recipients.len() - 1] == last);
    }
    if has_domain_recipient(front, suffix) {
        lemma_least_domain_recipient(front, suffix);
        let b = choose|b: Seq<char>| domain_choice(front, suffix, b);
        if has_substring(last, suffix) && !lex_le(b, last) {
            lemma_lex_le_total(b, last);
            assert forall|y: Seq<char>| #[trigger]
                recipients.contains(y) && has_substring(y, suffix) implies lex_le(last, y) by {
                if y == last {
                    lemma_lex_le_reflexive(last);
                } else {
                    lemma_lex_le_transitive(last, b, y);
                }
            }
            assert(domain_choice(recipients, suffix, last));
        } else {
            assert(domain_choice(recipients, suffix, b));
        }
    } else {
        assert(has_substring(last, suffix));
        lemma_lex_le_reflexive(last);
        assert(domain_choice(recipients, suffix, last));
    }
}

/// A resolved mailbox is never empty, as long as no rule names an empty one.
pub proof fn lemma_resolved_mailbox_not_empty(msg: &Message, config: &Config, b: Seq<char>)
    requires
        resolves_to(msg, config, b),
        forall|i: int| 0 <= i < config.rules@.len() ==> (#[trigger] config.rules@[i]).to_box@.len() > 0,
    ensures
        b.len() > 0,
{
    let suffix = domain_suffix(config.domain@);
    if has_domain_recipient(msg.recipients(), suffix) {
        assert(suffix.len() >= 1);
    } else {
        let i = choose|i: int| #[trigger]
            first_satisfied(config.rules@, msg, i) && config.rules@[i].to_box@ == b;
        assert(config.rules@[i].to_box@.len() > 0);
    }
}

/// Two messages whose sender lists have the same members, and whose
/// recipient lists do, satisfy the same rules, resolve to the same mailbox and
/// are rejected together.
pub proof fn lemma_same_members_same_outcome(a: &Message, b: &Message, config: &Config)
    requires
        forall|x: Seq<char>| a.senders().contains(x) <==> b.senders().contains(x),
        forall|x: Seq<char>| a.recipients().contains(x) <==> b.recipients().contains(x),
    ensures
        forall|f: RuleFilter| f.holds(a) == f.holds(b),
        forall|r: Rule| r.satisfied_by(a) == r.satisfied_by(b),
        forall|x: Seq<char>| resolves_to(a, config, x) == resolves_to(b, config, x),
        rejected(a, config) == rejected(b, config),
{
    assert forall|f: RuleFilter| f.holds(a) == f.holds(b) by {}
    assert forall|r: Rule| r.satisfied_by(a) == r.satisfied_by(b) by {
        if r.satisfied_by(a) {
            let i = choose|i: int| 0 <= i < r.filter@.len() && (#[trigger] r.filter@[i]).holds(a);
            assert(r.filter@[i].holds(b));
        }
        if r.satisfied_by(b) {
            let i = choose|i: int| 0 <= i < r.filter@.len() && (#[trigger] r.filter@[i]).holds(b);
            assert(r.filter@[i].holds(a));
        }
    }
    let suffix = domain_suffix(config.domain@);
    assert(has_domain_recipient(a.recipients(), suffix) == has_domain_recipient(
        b.recipients(),
        suffix,
    )) by {
        if has_domain_recipient(a.recipients(), suffix) {
            let x = choose|x: Seq<char>| #[trigger]
                a.recipients().contains(x) && has_substring(x, suffix);
            assert(b.recipients().contains(x));
        }
        if has_domain_recipient(b.recipients(), suffix) {
            let x = choose|x: Seq<char>| #[trigger]
                b.recipients().contains(x) && has_substring(x, suffix);
            assert(a.recipients().contains(x));
        }
    }
    assert forall|x: Seq<char>| resolves_to(a, config, x) == resolves_to(b, config, x) by {
        if has_domain_recipient(a.recipients(), suffix) {
            assert(domain_choice(a.recipients(), suffix, x) == domain_choice(
                b.recipients(),
                suffix,
                x,
            ));
        } else {
            assert forall|i: int|
                first_satisfied(config.rules@, a, i) == first_satisfied(config.rules@, b, i) by {}
            if resolves_to(a, config, x) {
                let i = choose|i: int| #[trigger]
                    first_satisfied(config.rules@, a, i) && config.rules@[i].to_box@ == x;
                assert(first_satisfied(config.rules@, b, i));
            }
            if resolves_to(b, config, x) {
                let i = choose|i: int| #[trigger]
                    first_satisfied(config.rules@, b, i) && config.rules@[i].to_box@ == x;
                assert(first_satisfied(config.rules@, a, i));
            }
        }
    }
}

/// Matching does not depend on the order of the extracted addresses: where
/// the sender lists of two messages are permutations of each other, and the
/// recipient lists are, the outcome is the same.
pub proof fn lemma_order_independent(a: &Message, b: &Message, config: &Config)
    requires
        a.senders().to_multiset() == b.senders().to_multiset(),
        a.recipients().to_multiset() == b.recipients().to_multiset(),
    ensures
        forall|f: RuleFilter| f.holds(a) == f.holds(b),
        forall|r: Rule| r.satisfied_by(a) == r.satisfied_by(b),
        forall|x: Seq<char>| resolves_to(a, config, x) == resolves_to(b, config, x),
        rejected(a, config) == rejected(b, config),
{
    lemma_same_members(a.senders(), b.senders());
    lemma_same_members(a.recipients(), b.recipients());
    lemma_same_members_same_outcome(a, b, config);
}

/// Matching does not depend on the order within the headers: reordering the
/// sub-elements of the sender header and of the recipient header of a
/// message leaves the outcome as it was.
pub proof fn lemma_header_order_independent(a: &Message, b: &Message, config: &Config)
    requires
        reordered(a.from, b.from),
        reordered(a.to, b.to),
    ensures
        forall|f: RuleFilter| f.holds(a) == f.holds(b),
        forall|r: Rule| r.satisfied_by(a) == r.satisfied_by(b),
        forall|x: Seq<char>| resolves_to(a, config, x) == resolves_to(b, config, x),
        rejected(a, config) == rejected(b, config),
{
    lemma_reordered_same_members(a.from, b.from);
    lemma_reordered_same_members(a.to, b.to);
    lemma_same_members_same_outcome(a, b, config);
}

} // verus!
