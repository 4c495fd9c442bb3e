//! Header values of a parsed message and their flattening into address lists.

use vstd::prelude::*;
use vstd::seq_lib::to_multiset_contains;
use crate::text::{lemma_concat_members, views};

verus! {

/// One mailbox of an address header: a display name, an address, or both.
#[derive(Clone, Debug)]
pub struct Addr {
    pub name: Option<String>,
    pub address: Option<String>,
}

/// A named group of mailboxes.
#[derive(Clone, Debug)]
pub struct Group {
    pub name: Option<String>,
    pub addresses: Vec<Addr>,
}

/// The shapes a header value can take. `Other` stands for every shape that
/// carries no address or text (dates, content types, absent headers).
#[derive(Clone, Debug)]
pub enum HeaderValue {
    Address(Addr),
    AddressList(Vec<Addr>),
    Group(Group),
    GroupList(Vec<Group>),
    Text(String),
    TextList(Vec<String>),
    Other,
}

/// The address of one mailbox as a list: one element, or none if it has no
/// address part.
pub open spec fn addr_flat(a: Addr) -> Seq<Seq<char>> {
    match a.address {
        Some(s) => seq![s@],
        None => Seq::empty(),
    }
}

/// The addresses of a list of mailboxes, in order, skipping those without one.
pub open spec fn addrs_flat(list: Seq<Addr>) -> Seq<Seq<char>>
    decreases list.len(),
{
    if list.len() == 0 {
        Seq::empty()
    } else {
        addrs_flat(list.drop_last()) + addr_flat(list.last())
    }
}

/// The addresses of the members of each group, group after group.
pub open spec fn groups_flat(list: Seq<Group>) -> Seq<Seq<char>>
    decreases list.len(),
{
    if list.len() == 0 {
        Seq::empty()
    } else {
        groups_flat(list.drop_last()) + addrs_flat(list.last().addresses@)
    }
}

/// The flat list of address or text strings that a header value stands for.
pub open spec fn header_flat(h: HeaderValue) -> Seq<Seq<char>> {
    match h {
        HeaderValue::Address(a) => addr_flat(a),
        HeaderValue::AddressList(list) => addrs_flat(list@),
        HeaderValue::Group(g) => addrs_flat(g.addresses@),
        HeaderValue::GroupList(list) => groups_flat(list@),
        HeaderValue::Text(t) => seq![t@],
        HeaderValue::TextList(list) => views(list@),
        HeaderValue::Other => Seq::empty(),
    }
}

/// The second value holds the sub-elements of the first in some other order:
/// two address lists, two groups, two group lists or two text lists with the
/// same elements, each as often in one as in the other; any other value is a
/// reordering of itself only.
pub open spec fn reordered(h: HeaderValue, k: HeaderValue) -> bool {
    match (h, k) {
        (HeaderValue::AddressList(a), HeaderValue::AddressList(b)) => a@.to_multiset()
            == b@.to_multiset(),
        (HeaderValue::Group(a), HeaderValue::Group(b)) => a.addresses@.to_multiset()
            == b.addresses@.to_multiset(),
        (HeaderValue::GroupList(a), HeaderValue::GroupList(b)) => a@.to_multiset()
            == b@.to_multiset(),
        (HeaderValue::TextList(a), HeaderValue::TextList(b)) => a@.to_multiset()
            == b@.to_multiset(),
        _ => h == k,
    }
}

/// A string is among the addresses of a list exactly if it is the address of
/// one of its mailboxes.
pub proof fn lemma_addrs_flat_members(list: Seq<Addr>, x: Seq<char>)
    ensures
        addrs_flat(list).contains(x) <==> exists|i: int|
            0 <= i < list.len() && addr_flat(#[trigger] list[i]).contains(x),
    decreases list.len(),
{
    if list.len() != 0 {
        let front = list.drop_last();
        let tail = addr_flat(list.last());
        lemma_addrs_flat_members(front, x);
        lemma_concat_members(addrs_flat(front), tail, x);
        if addrs_flat(front).contains(x) {
            let i = choose|i: int| 0 <= i < front.len() && addr_flat(#[trigger] front[i]).contains(x);
            assert(addr_flat(list[i]).contains(x));
        }
        if tail.contains(x) {
            assert(addr_flat(list[list.len() - 1]).contains(x));
        }
        if exists|i: int| 0 <= i < list.len() && addr_flat(#[trigger] list[i]).contains(x) {
            let i = choose|i: int| 0 <= i < list.len() && addr_flat(#[trigger] list[i]).contains(x);
            if i < list.len() - 1 {
                assert(addr_flat(front[i]).contains(x));
            }
        }
    }
}

/// A string is among the addresses of a list of groups exactly if it is among
/// those of one group.
pub proof fn lemma_groups_flat_members(list: Seq<Group>, x: Seq<char>)
    ensures
        groups_flat(list).contains(x) <==> exists|i: int|
            0 <= i < list.len() && addrs_flat((#[trigger] list[i]).addresses@).contains(x),
    decreases list.len(),
{
    if list.len() != 0 {
        let front = list.drop_last();
        let tail = addrs_flat(list.last().addresses@);
        lemma_groups_flat_members(front, x);
        lemma_concat_members(groups_flat(front), tail, x);
        if groups_flat(front).contains(x) {
            let i = choose|i: int|
                0 <= i < front.len() && addrs_flat((#[trigger] front[i]).addresses@).contains(x);
            assert(addrs_flat(list[i].addresses@).contains(x));
        }
        if tail.contains(x) {
            assert(addrs_flat(list[list.len() - 1].addresses@).contains(x));
        }
        if exists|i: int|
            0 <= i < list.len() && addrs_flat((#[trigger] list[i]).addresses@).contains(x) {
            let i = choose|i: int|
                0 <= i < list.len() && addrs_flat((#[trigger] list[i]).addresses@).contains(x);
            if i < list.len() - 1 {
                assert(addrs_flat(front[i].addresses@).contains(x));
            }
        }
    }
}

/// Reordering the sub-elements of a header value changes the order of its
/// flat list at most, not what the list holds.
pub proof fn lemma_reordered_same_members(h: HeaderValue, k: HeaderValue)
    requires
        reordered(h, k),
    ensures
        forall|x: Seq<char>| header_flat(h).contains(x) <==> header_flat(k).contains(x),
{
    assert forall|x: Seq<char>| header_flat(h).contains(x) implies header_flat(k).contains(x) by {
        lemma_reordered_member(h, k, x);
    }
    assert forall|x: Seq<char>| header_flat(k).contains(x) implies header_flat(h).contains(x) by {
        lemma_reordered_member(k, h, x);
    }
}

proof fn lemma_reordered_member(h: HeaderValue, k: HeaderValue, x: Seq<char>)
    requires
        reordered(h, k) || reordered(k, h),
        header_flat(h).contains(x),
    ensures
        header_flat(k).contains(x),
{
    match (h, k) {
        (HeaderValue::AddressList(a), HeaderValue::AddressList(b)) => {
            lemma_addrs_flat_members(a@, x);
            lemma_addrs_flat_members(b@, x);
            let i = choose|i: int| 0 <= i < a@.len() && addr_flat(#[trigger] a@[i]).contains(x);
            assert(a@.contains(a@[i]));
            to_multiset_contains(a@, a@[i]);
            to_multiset_contains(b@, a@[i]);
            let j = choose|j: int| 0 <= j < b@.len() && b@[j] == a@[i];
            assert(addr_flat(b@[j]).contains(x));
        },
        (HeaderValue::Group(g), HeaderValue::Group(h)) => {
            let a = g.addresses;
            let b = h.addresses;
            lemma_addrs_flat_members(a@, x);
            lemma_addrs_flat_members(b@, x);
            let i = choose|i: int| 0 <= i < a@.len() && addr_flat(#[trigger] a@[i]).contains(x);
            assert(a@.contains(a@[i]));
            to_multiset_contains(a@, a@[i]);
            to_multiset_contains(b@, a@[i]);
            let j = choose|j: int| 0 <= j < b@.len() && b@[j] == a@[i];
            assert(addr_flat(b@[j]).contains(x));
        },
        (HeaderValue::GroupList(a), HeaderValue::GroupList(b)) => {
            lemma_groups_flat_members(a@, x);
            lemma_groups_flat_members(b@, x);
            let i = choose|i: int|
                0 <= i < a@.len() && addrs_flat((#[trigger] a@[i]).addresses@).contains(x);
            assert(a@.contains(a@[i]));
            to_multiset_contains(a@, a@[i]);
            to_multiset_contains(b@, a@[i]);
            let j = choose|j: int| 0 <= j < b@.len() && b@[j] == a@[i];
            assert(addrs_flat(b@[j].addresses@).contains(x));
        },
        (HeaderValue::TextList(a), HeaderValue::TextList(b)) => {
            let i = choose|i: int| 0 <= i < views(a@).len() && views(a@)[i] == x;
            assert(a@.contains(a@[i]));
            to_multiset_contains(a@, a@[i]);
            to_multiset_contains(b@, a@[i]);
            let j = choose|j: int| 0 <= j < b@.len() && b@[j] == a@[i];
            assert(views(b@)[j] == x);
        },
        _ => {},
    }
}

/// Flattening into an ordered list of strings. Absence of data gives an empty
/// list, never a failure.
pub trait ToVec {
    /// The list that `to_vec` produces, as character sequences.
    spec fn flat(&self) -> Seq<Seq<char>>;

    fn to_vec(&self) -> (out: Vec<String>)
        ensures
            views(out@) == self.flat(),
    ;
}

impl ToVec for Addr {
    open spec fn flat(&self) -> Seq<Seq<char>> {
        addr_flat(*self)
    }

    fn to_vec(&self) -> (out: Vec<String>) {
        let mut out: Vec<String> = Vec::new();
        match &self.address {
            Some(s) => {
                out.push(s.clone());
            },
            None => {},
        }
        assert(views(out@) =~= addr_flat(*self));
        out
    }
}

impl ToVec for Vec<Addr> {
    open spec fn flat(&self) -> Seq<Seq<char>> {
        addrs_flat(self@)
    }

    fn to_vec(&self) -> (out: Vec<String>) {
        let mut out: Vec<String> = Vec::new();
        let mut i: usize = 0;
        assert(views(out@) =~= addrs_flat(self@.take(0)));
        while i < self.len()
            invariant
                i <= self.len(),
                views(out@) == addrs_flat(self@.take(i as int)),
            decreases self.len() - i,
        {
            let mut one = self[i].to_vec();
            let ghost before = out@;
            out.append(&mut one);
            proof {
                assert(self@.take(i + 1).drop_last() =~= self@.take(i as int));
                assert(views(out@) =~= views(before) + addr_flat(self@[i as int]));
            }
            i += 1;
        }
        assert(self@.take(i as int) =~= self@);
        out
    }
}

impl ToVec for Group {
    open spec fn flat(&self) -> Seq<Seq<char>> {
        addrs_flat(self.addresses@)
    }

    fn to_vec(&self) -> (out: Vec<String>) {
        self.addresses.to_vec()
    }
}

impl ToVec for Vec<Group> {
    open spec fn flat(&self) -> Seq<Seq<char>> {
        groups_flat(self@)
    }

    fn to_vec(&self) -> (out: Vec<String>) {
        let mut out: Vec<String> = Vec::new();
        let mut i: usize = 0;
        assert(views(out@) =~= groups_flat(self@.take(0)));
        while i < self.len()
            invariant
                i <= self.len(),
                views(out@) == groups_flat(self@.take(i as int)),
            decreases self.len() - i,
        {
            let mut one = self[i].to_vec();
            let ghost before = out@;
            out.append(&mut one);
            proof {
                assert(self@.take(i + 1).drop_last() =~= self@.take(i as int));
                assert(views(out@) =~= views(before) + addrs_flat(self@[i as int].addresses@));
            }
            i += 1;
        }
        assert(self@.take(i as int) =~= self@);
        out
    }
}

impl ToVec for HeaderValue {
    open spec fn flat(&self) -> Seq<Seq<char>> {
        header_flat(*self)
    }

    fn to_vec(&self) -> (out: Vec<String>) {
        match self {
            HeaderValue::Address(addr) => addr.to_vec(),
            HeaderValue::AddressList(list) => list.to_vec(),
            HeaderValue::Group(group) => group.to_vec(),
            HeaderValue::GroupList(list) => list.to_vec(),
            HeaderValue::Text(content) => {
                let mut out: Vec<String> = Vec::new();
                out.push(content.clone());
                assert(views(out@) =~= seq![content@]);
                out
            },
            HeaderValue::TextList(list) => {
                let mut out: Vec<String> = Vec::new();
                let mut i: usize = 0;
                while i < list.len()
                    invariant
                        i <= list.len(),
                        out@.len() == i,
                        forall|k: int| 0 <= k < i ==> (#[trigger] out@[k])@ == list@[k]@,
                    decreases list.len() - i,
                {
                    out.push(list[i].clone());
                    i += 1;
                }
                assert(views(out@) =~= views(list@));
                out
            },
            HeaderValue::Other => {
                let out: Vec<String> = Vec::new();
                assert(views(out@) =~= Seq::<Seq<char>>::empty());
                out
            },
        }
    }
}

/// The parts of a parsed message that routing and feed construction read.
#[derive(Clone, Debug)]
pub struct Message {
    /// The sender header.
    pub from: HeaderValue,
    /// The recipient header.
    pub to: HeaderValue,
    /// The subject, if the message has one.
    pub subject: Option<String>,
    /// The decoded contents of the HTML body parts, in order.
    pub html_bodies: Vec<Vec<u8>>,
}

impl Message {
    /// The flat list of sender addresses.
    pub open spec fn senders(&self) -> Seq<Seq<char>> {
        header_flat(self.from)
    }

    /// The flat list of recipient addresses.
    pub open spec fn recipients(&self) -> Seq<Seq<char>> {
        header_flat(self.to)
    }
}

} // verus!
