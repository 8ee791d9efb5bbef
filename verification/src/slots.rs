//! Hash indices from keys to positions.
//!
//! A table keeps its entries side by side in vectors and finds the position of
//! a key through one of the indices here: `CodeIndex`, over
//! `ahash::AHashMap`, for keys made of text, and `PortIndex`, over the standard
//! hash map, for port numbers.
use ahash::AHashMap;
use std::collections::HashMap;
use vstd::prelude::*;

verus! {

/// The code by which a key made of text is hashed: a tag that tells the
/// variants of a key apart, and up to three pieces of text.
pub type Code = (u8, String, String, String);

/// A code, as specifications see it.
pub type CodeModel = (u8, Seq<char>, Seq<char>, Seq<char>);

/// `ahash::AHashMap`, the hash map of the `ahash` crate.
#[verifier::external_type_specification]
#[verifier::external_body]
#[verifier::reject_recursive_types(K)]
#[verifier::reject_recursive_types(V)]
#[verifier::reject_recursive_types(S)]
pub struct ExAHashMap<K, V, S>(ahash::AHashMap<K, V, S>);

/// `ahash::RandomState`, the hasher with which an `AHashMap` is made by
/// default.
#[verifier::external_type_specification]
#[verifier::external_body]
pub struct ExAHashRandomState(ahash::RandomState);

/// The positions that a hash map of codes holds, by code.
pub uninterp spec fn positions(
    m: AHashMap<(u8, String, String, String), usize>,
) -> Map<(u8, Seq<char>, Seq<char>, Seq<char>), usize>;

/// `AHashMap::default` makes a map that holds nothing.
#[verifier::external_body]
fn map_default() -> (m: AHashMap<(u8, String, String, String), usize>)
    ensures
        positions(m) =~= Map::empty(),
{
    AHashMap::default()
}

/// `AHashMap::get` hands out the value stored under an equal key, if any.
#[verifier::external_body]
fn map_get(m: &AHashMap<(u8, String, String, String), usize>, code: &(u8, String, String, String))
    -> (r: Option<usize>)
    ensures
        r == positions(*m).get(code.deep_view()),
{
    m.get(code).copied()
}

/// `AHashMap::insert` stores a value under a key, in the place of the value
/// that an equal key had, if any, and leaves every other key alone.
#[verifier::external_body]
fn map_insert(
    m: &mut AHashMap<(u8, String, String, String), usize>,
    code: (u8, String, String, String),
    position: usize,
)
    ensures
        positions(*final(m)) == positions(*old(m)).insert(code.deep_view(), position),
{
    m.insert(code, position);
}

/// `AHashMap::remove` takes the value stored under an equal key out of the map,
/// if there is one, and leaves every other key alone.
#[verifier::external_body]
fn map_remove(
    m: &mut AHashMap<(u8, String, String, String), usize>,
    code: &(u8, String, String, String),
) -> (r: Option<usize>)
    ensures
        r == positions(*old(m)).get(code.deep_view()),
        positions(*final(m)) == positions(*old(m)).remove(code.deep_view()),
{
    m.remove(code)
}

/// An index from keys to positions.
pub trait SlotIndex<K: DeepView>: Sized {
    /// The positions held, by what a key means.
    spec fn slots(&self) -> Map<K::V, usize>;

    /// An index that holds nothing.
    fn empty() -> (r: Self)
        ensures
            r.slots() =~= Map::<K::V, usize>::empty(),
    ;

    /// The position of a key.
    fn find(&self, k: &K) -> (r: Option<usize>)
        ensures
            r == self.slots().get(k.deep_view()),
    ;

    /// Sets the position of a key.
    fn put(&mut self, k: &K, slot: usize)
        ensures
            final(self).slots() =~= old(self).slots().insert(k.deep_view(), slot),
    ;

    /// Forgets a key.
    fn take(&mut self, k: &K)
        ensures
            final(self).slots() =~= old(self).slots().remove(k.deep_view()),
    ;
}

/// A key made of text, with a code that no other key shares.
pub trait Coded: DeepView + Sized {
    /// The code of a key.
    spec fn code_of(m: Self::V) -> CodeModel;

    /// Different keys have different codes.
    proof fn code_is_injective(a: Self::V, b: Self::V)
        ensures
            Self::code_of(a) == Self::code_of(b) ==> a == b,
    ;

    /// Computes the code of a key.
    fn code(&self) -> (r: Code)
        ensures
            r.deep_view() == Self::code_of(self.deep_view()),
    ;
}

impl Coded for String {
    open spec fn code_of(m: Seq<char>) -> CodeModel {
        (0, Seq::empty(), Seq::empty(), m)
    }

    proof fn code_is_injective(a: Seq<char>, b: Seq<char>) {
    }

    fn code(&self) -> (r: Code) {
        (0, String::new(), String::new(), self.clone())
    }
}

/// An index of keys made of text.
#[derive(Debug)]
pub struct CodeIndex {
    map: AHashMap<(u8, String, String, String), usize>,
}

impl<K: Coded> SlotIndex<K> for CodeIndex {
    closed spec fn slots(&self) -> Map<K::V, usize> {
        Map::new(
            |k: K::V| positions(self.map).contains_key(K::code_of(k)),
            |k: K::V| positions(self.map)[K::code_of(k)],
        )
    }

    fn empty() -> (r: Self) {
        CodeIndex { map: map_default() }
    }

    fn find(&self, k: &K) -> (r: Option<usize>) {
        map_get(&self.map, &k.code())
    }

    fn put(&mut self, k: &K, slot: usize) {
        map_insert(&mut self.map, k.code(), slot);
        assert forall|other: K::V| other != k.deep_view() implies #[trigger] K::code_of(other)
            != K::code_of(k.deep_view()) by {
            K::code_is_injective(other, k.deep_view());
        }
    }

    fn take(&mut self, k: &K) {
        let _ = map_remove(&mut self.map, &k.code());
        assert forall|other: K::V| other != k.deep_view() implies #[trigger] K::code_of(other)
            != K::code_of(k.deep_view()) by {
            K::code_is_injective(other, k.deep_view());
        }
    }
}

/// An index of port numbers.
#[derive(Debug)]
pub struct PortIndex {
    map: HashMap<u16, usize>,
}

impl SlotIndex<u16> for PortIndex {
    closed spec fn slots(&self) -> Map<u16, usize> {
        self.map@
    }

    fn empty() -> (r: Self) {
        PortIndex { map: HashMap::new() }
    }

    fn find(&self, k: &u16) -> (r: Option<usize>) {
        broadcast use vstd::std_specs::hash::group_hash_axioms;

        match self.map.get(k) {
            Some(slot) => Some(*slot),
            None => None,
        }
    }

    fn put(&mut self, k: &u16, slot: usize) {
        broadcast use vstd::std_specs::hash::group_hash_axioms;

        let _ = self.map.insert(*k, slot);
    }

    fn take(&mut self, k: &u16) {
        broadcast use vstd::std_specs::hash::group_hash_axioms;

        let _ = self.map.remove(k);
    }
}

} // verus!
