//! Dictionary of (URL, tidings) key-value pairs

use vstd::prelude::*;
use std::collections::HashMap;
use std::hash::BuildHasherDefault;
use wyhash::WyHash;
use crate::tiding::{Tiding, tidings_view};

verus! {

/// `wyhash::WyHash`, the hasher of the dictionary: the verifier sees nothing
/// inside it.
#[verifier::external_type_specification]
#[verifier::external_body]
pub struct ExWyHash(wyhash::WyHash);

/// `std::hash::BuildHasherDefault`, which makes a hasher by `Default`: the
/// verifier sees nothing inside it.
#[verifier::external_type_specification]
#[verifier::external_body]
#[verifier::reject_recursive_types(H)]
pub struct ExBuildHasherDefault<H>(std::hash::BuildHasherDefault<H>);

/// The tidings that a hash map holds, by URL
pub uninterp spec fn cached_tidings(
    hash_map: HashMap<String, Vec<Tiding>, BuildHasherDefault<WyHash>>,
) -> Map<Seq<char>, Seq<Seq<char>>>;

/// `HashMap::default` with the hasher of `wyhash`: a map that holds nothing.
#[verifier::external_body]
fn hash_map_default() -> (res: HashMap<String, Vec<Tiding>, BuildHasherDefault<WyHash>>)
    ensures
        forall|url: Seq<char>| !cached_tidings(res).contains_key(url),
{
    HashMap::default()
}

/// `HashMap::insert`: the tidings stand under the URL afterwards, in place of
/// what stood there; the other URLs keep theirs. Strings with the same
/// characters are one key.
#[verifier::external_body]
fn hash_map_insert(
    hash_map: &mut HashMap<String, Vec<Tiding>, BuildHasherDefault<WyHash>>,
    url: String,
    tidings: Vec<Tiding>,
)
    ensures
        cached_tidings(*final(hash_map)) == cached_tidings(*old(hash_map)).insert(
            url@,
            tidings_view(tidings@),
        ),
{
    hash_map.insert(url, tidings);
}

/// `HashMap::get`: the tidings under the URL, if any stand there.
#[verifier::external_body]
fn hash_map_get<'a>(
    hash_map: &'a HashMap<String, Vec<Tiding>, BuildHasherDefault<WyHash>>,
    url: &str,
) -> (res: Option<&'a Vec<Tiding>>)
    ensures
        res is Some == cached_tidings(*hash_map).contains_key(url@),
        res is Some ==> tidings_view(res->0@) == cached_tidings(*hash_map)[url@],
{
    hash_map.get(url)
}

/// Dictionary of (Feed URL, tidings) key-value pairs
pub struct Dictionary {
    /// Inner hash map
    hash_map: HashMap<String, Vec<Tiding>, BuildHasherDefault<WyHash>>,
}

impl View for Dictionary {
    type V = Map<Seq<char>, Seq<Seq<char>>>;

    /// The titles of the tidings under each URL
    closed spec fn view(&self) -> Map<Seq<char>, Seq<Seq<char>>> {
        cached_tidings(self.hash_map)
    }
}

impl Dictionary {
    /// Initialize a dictionary
    pub fn new() -> (res: Self)
        ensures
            forall|url: Seq<char>| !res@.contains_key(url),
    {
        Dictionary { hash_map: hash_map_default() }
    }

    /// Insert a key-value pair into the dictionary; the tidings replace
    /// those that stood under the URL
    pub fn insert(&mut self, url: String, tidings: Vec<Tiding>)
        ensures
            final(self)@ == old(self)@.insert(url@, tidings_view(tidings@)),
    {
        hash_map_insert(&mut self.hash_map, url, tidings);
    }

    /// Get tidings from the Feed URL
    pub fn get(&self, url: &str) -> (res: Option<&Vec<Tiding>>)
        ensures
            res is Some == self@.contains_key(url@),
            res is Some ==> tidings_view(res->0@) == self@[url@],
    {
        hash_map_get(&self.hash_map, url)
    }
}

/// What was inserted under a URL is what the dictionary gives for it, until
/// the next insertion under that URL; insertions under other URLs do not
/// touch it.
pub proof fn lemma_insert_then_get(
    before: Map<Seq<char>, Seq<Seq<char>>>,
    url: Seq<char>,
    tidings: Seq<Seq<char>>,
    other: Seq<char>,
    more: Seq<Seq<char>>,
)
    ensures
        before.insert(url, tidings).contains_key(url),
        before.insert(url, tidings)[url] == tidings,
        other != url ==> before.insert(url, tidings).insert(other, more)[url] == tidings,
        before.insert(url, tidings).insert(url, more)[url] == more,
{
}

} // verus!
