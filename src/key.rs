//! Adapter keys and the lookup of adapter files by key.

use vstd::prelude::*;
use crate::text::{
    split_on, join_with, split_str, join_str, lemma_split_nonempty, lemma_split_join,
    lemma_split_avoids, lemma_join_split,
};

verus! {

/// The adapter key of a host: its `.`-separated labels in reverse order,
/// joined by `,` (`www.example.com` gives `com,example,www`).
pub open spec fn key_of(host: Seq<char>) -> Seq<char> {
    join_with(split_on(host, '.').reverse(), seq![','])
}

/// The part of a file name before its first `.`.
pub open spec fn stem_of(name: Seq<char>) -> Seq<char> {
    split_on(name, '.')[0]
}

/// `i` is the first position in `names` whose stem is `key`.
pub open spec fn is_first_match(names: Seq<Seq<char>>, key: Seq<char>, i: int) -> bool {
    &&& 0 <= i < names.len()
    &&& stem_of(names[i]) == key
    &&& forall|j: int| 0 <= j < i ==> stem_of(#[trigger] names[j]) != key
}

/// Some name in `names` has the stem `key`.
pub open spec fn has_match(names: Seq<Seq<char>>, key: Seq<char>) -> bool {
    exists|i: int| 0 <= i < names.len() && stem_of(#[trigger] names[i]) == key
}

/// An adapter key keeps the host's labels: split at `,`, it gives the
/// host's `.`-separated labels in reverse order, and those labels, put back
/// in order and joined by `.`, give the host again, for any host without `,`.
pub proof fn key_labels_reversed(host: Seq<char>)
    requires
        !host.contains(','),
    ensures
        split_on(key_of(host), ',') == split_on(host, '.').reverse(),
        join_with(split_on(key_of(host), ',').reverse(), seq!['.']) == host,
{
    let labels = split_on(host, '.');
    lemma_split_nonempty(host, '.');
    lemma_split_avoids(host, '.', ',');
    let rev = labels.reverse();
    assert forall|i: int| 0 <= i < rev.len() implies !(#[trigger] rev[i]).contains(',') by {
        assert(rev[i] == labels[labels.len() - 1 - i]);
    }
    lemma_split_join(rev, ',');
    assert(rev.reverse() =~= labels);
    lemma_join_split(host, '.');
}

/// A copy of `parts` in reverse order.
fn reversed(parts: &Vec<String>) -> (r: Vec<String>)
    ensures
        r.deep_view() == parts.deep_view().reverse(),
{
    let mut r: Vec<String> = Vec::new();
    let mut i: usize = parts.len();
    while i > 0
        invariant
            i <= parts.len(),
            r.deep_view() =~= parts.deep_view().skip(i as int).reverse(),
        decreases i,
    {
        i -= 1;
        let ghost prev = r.deep_view();
        let item = parts[i].clone();
        r.push(item);
        assert(r.deep_view() =~= prev.push(parts@[i as int]@));
    }
    assert(parts.deep_view().skip(0) =~= parts.deep_view());
    r
}

/// The adapter key of `host`.
pub fn adapter_key(host: &str) -> (r: String)
    ensures
        r@ == key_of(host@),
{
    let labels = split_str(host, '.');
    let rev = reversed(&labels);
    let key = join_str(&rev, ",");
    proof {
        reveal_strlit(",");
        assert(","@ =~= seq![',']);
    }
    key
}

/// The part of `name` before its first `.`.
pub fn file_stem(name: &str) -> (r: String)
    ensures
        r@ == stem_of(name@),
{
    let parts = split_str(name, '.');
    proof {
        lemma_split_nonempty(name@, '.');
    }
    parts[0].clone()
}

/// The position of the first of `names` whose stem is `key`, if any.
pub fn find_entry(names: &Vec<String>, key: &str) -> (r: Option<usize>)
    ensures
        match r {
            Some(i) => is_first_match(names.deep_view(), key@, i as int),
            None => !has_match(names.deep_view(), key@),
        },
{
    let ghost dv = names.deep_view();
    let mut i: usize = 0;
    while i < names.len()
        invariant
            i <= names.len(),
            dv == names.deep_view(),
            forall|j: int| 0 <= j < i ==> stem_of(#[trigger] dv[j]) != key@,
        decreases names.len() - i,
    {
        let stem = file_stem(names[i].as_str());
        let key_owned = String::from_str(key);
        if stem == key_owned {
            return Some(i);
        }
        i += 1;
    }
    None
}

} // verus!
