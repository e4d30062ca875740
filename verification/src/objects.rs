//! The build description: what to fetch, how to check it, what to run and
//! what the resulting package depends on.

use std::collections::HashMap;
use vstd::prelude::*;

verus! {

/// The epoch of a description that names none.
pub fn default_epoch() -> (epoch: String)
    ensures
        epoch@ == "1"@,
{
    "1".to_owned()
}

/// The alternatives of a description that names none.
pub fn empty_map<K: std::cmp::Eq + std::hash::Hash, V>() -> (m: HashMap<K, V>)
    ensures
        m@ == Map::<K, V>::empty(),
{
    HashMap::new()
}

/// A dependency list of a description that names none.
pub fn empty_vec<T>() -> (v: Vec<T>)
    ensures
        v@ == Seq::<T>::empty(),
{
    Vec::new()
}

/// The views of the strings of a list, in order.
pub open spec fn names(v: Seq<String>) -> Seq<Seq<char>> {
    Seq::new(v.len(), |i: int| v[i]@)
}

#[derive(Debug)]
pub struct BuildSpec {
    pub name: String,
    pub version: String,
    pub epoch: String,
    pub depends: Dependencies,
    pub sources: Vec<Source>,
    pub scripts: Scripts,
    pub alternatives: HashMap<String, HashMap<String, String>>,
}

#[derive(Debug)]
pub struct Dependencies {
    pub all: Vec<String>,
    pub build: Vec<String>,
    pub run: Vec<String>,
}

#[derive(Debug)]
pub struct Source {
    pub href: String,
    pub verification: SourceVerification,
}

/// How a fetched source is checked, by digest algorithm.
#[derive(Debug)]
pub enum SourceVerification {
    Sha256(Sum),
}

#[derive(Debug)]
pub struct Sum {
    pub sum: String,
}

#[derive(Debug)]
pub struct Scripts {
    pub install: Vec<String>,
}

impl SourceVerification {
    /// The digest that the description declares, as written there.
    pub open spec fn expected(self) -> Seq<char> {
        match self {
            SourceVerification::Sha256(s) => s.sum@,
        }
    }
}

} // verus!
