//! The container-at-an-address convention.
//!
//! Truncated hashes let distinct identifiers share an address, so every
//! address stores an ordered list of entries. Readers scan the list for
//! the exact identifier; writers remove the entry with the same identity,
//! insert the new one at its sorted position, and so keep the list sorted
//! by identity key after every write.

use vstd::prelude::*;

use crate::entities::{
    Agent, AgentV, Property, PropertyPage, PropertyPageV, PropertySchema, PropertySchemaV,
    PropertyV, PropertyValue, PropertyValueV, Record, RecordType, RecordTypeV, RecordV,
};
use crate::strings_order::{lex_le, str_eq, str_le};

verus! {

/// A ghost entity with a string identity key.
pub trait SpecKeyed {
    spec fn vkey(self) -> Seq<char>;
}

impl SpecKeyed for AgentV {
    open spec fn vkey(self) -> Seq<char> {
        self.public_key
    }
}

impl SpecKeyed for RecordV {
    open spec fn vkey(self) -> Seq<char> {
        self.record_id
    }
}

impl SpecKeyed for RecordTypeV {
    open spec fn vkey(self) -> Seq<char> {
        self.name
    }
}

impl SpecKeyed for PropertyV {
    open spec fn vkey(self) -> Seq<char> {
        self.name
    }
}

impl SpecKeyed for PropertyPageV {
    open spec fn vkey(self) -> Seq<char> {
        self.name
    }
}

impl SpecKeyed for PropertyValueV {
    open spec fn vkey(self) -> Seq<char> {
        self.name
    }
}

impl SpecKeyed for PropertySchemaV {
    open spec fn vkey(self) -> Seq<char> {
        self.name
    }
}

/// An executable entity whose view carries a string identity key.
pub trait Keyed: View + Sized where Self::V: SpecKeyed {
    /// The identity key, as stored in the entity.
    fn key_str(&self) -> (r: &str)
        ensures
            r@ == self@.vkey(),
    ;

    /// An owned copy with the same view.
    fn dup(&self) -> (r: Self)
        ensures
            r@ == self@,
    ;
}

impl Keyed for Agent {
    fn key_str(&self) -> (r: &str) {
        self.public_key.as_str()
    }

    fn dup(&self) -> (r: Self) {
        self.clone()
    }
}

impl Keyed for Record {
    fn key_str(&self) -> (r: &str) {
        self.record_id.as_str()
    }

    fn dup(&self) -> (r: Self) {
        self.clone()
    }
}

impl Keyed for RecordType {
    fn key_str(&self) -> (r: &str) {
        self.name.as_str()
    }

    fn dup(&self) -> (r: Self) {
        self.clone()
    }
}

impl Keyed for Property {
    fn key_str(&self) -> (r: &str) {
        self.name.as_str()
    }

    fn dup(&self) -> (r: Self) {
        self.clone()
    }
}

impl Keyed for PropertyPage {
    fn key_str(&self) -> (r: &str) {
        self.name.as_str()
    }

    fn dup(&self) -> (r: Self) {
        self.clone()
    }
}

impl Keyed for PropertyValue {
    fn key_str(&self) -> (r: &str) {
        self.name.as_str()
    }

    fn dup(&self) -> (r: Self) {
        self.clone()
    }
}

impl Keyed for PropertySchema {
    fn key_str(&self) -> (r: &str) {
        self.name.as_str()
    }

    fn dup(&self) -> (r: Self) {
        self.clone()
    }
}

/// The views of a list's entries, in order.
pub open spec fn views_of<T: View>(s: Seq<T>) -> Seq<T::V> {
    Seq::new(s.len(), |i: int| s[i]@)
}

/// The least index whose entry has key `k`, if any.
pub open spec fn find_idx<T: SpecKeyed>(s: Seq<T>, k: Seq<char>) -> Option<int>
    decreases s.len(),
{
    if s.len() == 0 {
        None
    } else if s[0].vkey() == k {
        Some(0int)
    } else {
        match find_idx(s.drop_first(), k) {
            Some(j) => Some(j + 1),
            None => None,
        }
    }
}

/// The entry a reader's scan returns for key `k`, if any.
pub open spec fn found<T: SpecKeyed>(s: Seq<T>, k: Seq<char>) -> Option<T> {
    match find_idx(s, k) {
        Some(i) => Some(s[i]),
        None => None,
    }
}

/// `find_idx` returns the least matching index, or none when no entry
/// matches.
pub proof fn lemma_find_idx<T: SpecKeyed>(s: Seq<T>, k: Seq<char>)
    ensures
        match find_idx(s, k) {
            Some(i) => 0 <= i < s.len() && s[i].vkey() == k && forall|j: int|
                0 <= j < i ==> (#[trigger] s[j].vkey()) != k,
            None => forall|j: int| 0 <= j < s.len() ==> (#[trigger] s[j].vkey()) != k,
        },
    decreases s.len(),
{
    if s.len() > 0 && s[0].vkey() != k {
        lemma_find_idx(s.drop_first(), k);
        assert forall|j: int| 1 <= j < s.len() implies s[j].vkey() == s.drop_first()[j - 1].vkey() by {
            assert(s.drop_first()[j - 1] == s[j]);
        }
    }
}

/// The list with the first entry of key `k` removed, if one is there.
pub open spec fn remove_first<T: SpecKeyed>(s: Seq<T>, k: Seq<char>) -> Seq<T> {
    match find_idx(s, k) {
        Some(i) => s.remove(i),
        None => s,
    }
}

/// The position a writer inserts at: the length of the longest prefix
/// whose keys do not exceed `k`. On a sorted list this places the new
/// entry after every entry with a smaller or equal key.
pub open spec fn insert_pos<T: SpecKeyed>(s: Seq<T>, k: Seq<char>) -> int
    decreases s.len(),
{
    if s.len() == 0 {
        0
    } else if lex_le(s[0].vkey(), k) {
        1 + insert_pos(s.drop_first(), k)
    } else {
        0
    }
}

/// `insert_pos` is the first index whose key exceeds `k`, or the length.
pub proof fn lemma_insert_pos<T: SpecKeyed>(s: Seq<T>, k: Seq<char>)
    ensures
        0 <= insert_pos(s, k) <= s.len(),
        forall|j: int| 0 <= j < insert_pos(s, k) ==> lex_le(#[trigger] s[j].vkey(), k),
        insert_pos(s, k) < s.len() ==> !lex_le(s[insert_pos(s, k)].vkey(), k),
    decreases s.len(),
{
    if s.len() > 0 && lex_le(s[0].vkey(), k) {
        lemma_insert_pos(s.drop_first(), k);
        assert forall|j: int| 1 <= j < s.len() implies s[j].vkey() == s.drop_first()[j - 1].vkey() by {
            assert(s.drop_first()[j - 1] == s[j]);
        }
    }
}

/// A write that replaces the entry keyed `k` with the new one: the first
/// entry keyed `k` (if any) leaves, and the new entry takes its sorted
/// position.
pub open spec fn put_with<T: SpecKeyed>(s: Seq<T>, k: Seq<char>, x: T) -> Seq<T> {
    let s1 = remove_first(s, k);
    s1.insert(insert_pos(s1, x.vkey()), x)
}

/// Removing an entry commutes with taking views.
pub proof fn lemma_views_of_remove<T: View>(s: Seq<T>, i: int)
    requires
        0 <= i < s.len(),
    ensures
        views_of(s.remove(i)) =~= views_of(s).remove(i),
{
}

/// Inserting an entry commutes with taking views.
pub proof fn lemma_views_of_insert<T: View>(s: Seq<T>, i: int, x: T)
    requires
        0 <= i <= s.len(),
    ensures
        views_of(s.insert(i, x)) =~= views_of(s).insert(i, x@),
{
}

/// Scans a container's entries for the first one keyed `k` and returns a
/// copy of it.
pub fn find_entity<T: Keyed>(v: &Vec<T>, k: &str) -> (r: Option<T>) where T::V: SpecKeyed
    ensures
        match r {
            Some(x) => found(views_of(v@), k@) == Some(x@),
            None => found(views_of(v@), k@) is None,
        },
{
    let ghost vs = views_of(v@);
    let mut i: usize = 0;
    while i < v.len()
        invariant
            i <= v@.len(),
            vs == views_of(v@),
            forall|j: int| 0 <= j < i ==> (#[trigger] vs[j].vkey()) != k@,
        decreases v@.len() - i,
    {
        if str_eq(v[i].key_str(), k) {
            proof {
                lemma_find_idx(vs, k@);
                assert(vs[i as int].vkey() == k@);
                assert(find_idx(vs, k@) == Some(i as int));
            }
            return Some(v[i].dup());
        }
        i += 1;
    }
    proof {
        lemma_find_idx(vs, k@);
    }
    None
}

/// Removes the first entry keyed `k` (if any) and inserts the new entry
/// at its sorted position.
pub fn put_entity<T: Keyed>(v: &mut Vec<T>, k: &str, x: T) where T::V: SpecKeyed
    ensures
        views_of(final(v)@) == put_with(views_of(old(v)@), k@, x@),
{
    let ghost vs0 = views_of(old(v)@);
    let mut i: usize = 0;
    let mut idx: Option<usize> = None;
    loop
        invariant_except_break
            idx is None,
        invariant
            i <= v@.len(),
            *v == *old(v),
            vs0 == views_of(old(v)@),
            forall|j: int| 0 <= j < i ==> (#[trigger] vs0[j].vkey()) != k@,
        ensures
            *v == *old(v),
            match idx {
                Some(j) => j < v@.len() && vs0[j as int].vkey() == k@ && forall|l: int|
                    0 <= l < j ==> (#[trigger] vs0[l].vkey()) != k@,
                None => forall|l: int|
                    0 <= l < vs0.len() ==> (#[trigger] vs0[l].vkey()) != k@,
            },
        decreases v@.len() - i,
    {
        if i >= v.len() {
            break ;
        }
        if str_eq(v[i].key_str(), k) {
            idx = Some(i);
            break ;
        }
        i += 1;
    }
    proof {
        lemma_find_idx(vs0, k@);
    }
    match idx {
        Some(j) => {
            proof {
                assert(find_idx(vs0, k@) == Some(j as int));
            }
            v.remove(j);
            proof {
                lemma_views_of_remove(old(v)@, j as int);
                assert(views_of(v@) =~= remove_first(vs0, k@));
            }
        },
        None => {
            proof {
                assert(find_idx(vs0, k@) is None);
                assert(views_of(v@) =~= remove_first(vs0, k@));
            }
        },
    }
    insert_sorted(v, x);
}

/// Inserts `x` before the first entry whose key exceeds `x`'s.
fn insert_sorted<T: Keyed>(v: &mut Vec<T>, x: T) where T::V: SpecKeyed
    ensures
        views_of(final(v)@) == views_of(old(v)@).insert(
            insert_pos(views_of(old(v)@), x@.vkey()),
            x@,
        ),
{
    let ghost vs = views_of(old(v)@);
    let mut p: usize = 0;
    loop
        invariant
            p <= v@.len(),
            *v == *old(v),
            vs == views_of(old(v)@),
            forall|j: int| 0 <= j < p ==> lex_le((#[trigger] vs[j].vkey()), x@.vkey()),
        ensures
            p <= v@.len(),
            *v == *old(v),
            forall|j: int| 0 <= j < p ==> lex_le((#[trigger] vs[j].vkey()), x@.vkey()),
            p < v@.len() ==> !lex_le(vs[p as int].vkey(), x@.vkey()),
        decreases v@.len() - p,
    {
        if p >= v.len() {
            break ;
        }
        let le = str_le(v[p].key_str(), x.key_str());
        proof {
            assert(v@[p as int]@ == vs[p as int]);
            assert(le == lex_le(vs[p as int].vkey(), x@.vkey()));
        }
        if !le {
            break ;
        }
        p += 1;
    }
    proof {
        lemma_insert_pos(vs, x@.vkey());
        assert(insert_pos(vs, x@.vkey()) == p as int);
    }
    v.insert(p, x);
    proof {
        lemma_views_of_insert(old(v)@, p as int, x);
    }
}


/// The greatest index whose entry has key `k`, if any. Where writes
/// overwrite earlier entries of the same name, the last occurrence is the
/// effective one.
pub open spec fn find_last_idx<T: SpecKeyed>(s: Seq<T>, k: Seq<char>) -> Option<int>
    decreases s.len(),
{
    if s.len() == 0 {
        None
    } else if s.last().vkey() == k {
        Some(s.len() - 1)
    } else {
        find_last_idx(s.drop_last(), k)
    }
}

/// The last entry with key `k`, if any.
pub open spec fn found_last<T: SpecKeyed>(s: Seq<T>, k: Seq<char>) -> Option<T> {
    match find_last_idx(s, k) {
        Some(i) => Some(s[i]),
        None => None,
    }
}

/// `find_last_idx` returns the greatest matching index, or none when no
/// entry matches.
pub proof fn lemma_find_last_idx<T: SpecKeyed>(s: Seq<T>, k: Seq<char>)
    ensures
        match find_last_idx(s, k) {
            Some(i) => 0 <= i < s.len() && s[i].vkey() == k && forall|j: int|
                i < j < s.len() ==> (#[trigger] s[j].vkey()) != k,
            None => forall|j: int| 0 <= j < s.len() ==> (#[trigger] s[j].vkey()) != k,
        },
    decreases s.len(),
{
    if s.len() > 0 && s.last().vkey() != k {
        lemma_find_last_idx(s.drop_last(), k);
        assert forall|j: int| 0 <= j < s.len() - 1 implies s[j].vkey() == s.drop_last()[j].vkey() by {
            assert(s.drop_last()[j] == s[j]);
        }
    }
}

/// The index of the first entry keyed `k`, if any.
pub fn find_index<T: Keyed>(v: &Vec<T>, k: &str) -> (r: Option<usize>) where T::V: SpecKeyed
    ensures
        match r {
            Some(j) => j < v@.len() && find_idx(views_of(v@), k@) == Some(j as int),
            None => find_idx(views_of(v@), k@) is None,
        },
{
    let ghost vs = views_of(v@);
    let mut i: usize = 0;
    while i < v.len()
        invariant
            i <= v@.len(),
            vs == views_of(v@),
            forall|j: int| 0 <= j < i ==> (#[trigger] vs[j].vkey()) != k@,
        decreases v@.len() - i,
    {
        if str_eq(v[i].key_str(), k) {
            proof {
                lemma_find_idx(vs, k@);
                assert(vs[i as int].vkey() == k@);
                assert(find_idx(vs, k@) == Some(i as int));
            }
            return Some(i);
        }
        i += 1;
    }
    proof {
        lemma_find_idx(vs, k@);
    }
    None
}

/// The index of the last entry keyed `k`, if any.
pub fn find_index_last<T: Keyed>(v: &Vec<T>, k: &str) -> (r: Option<usize>) where T::V: SpecKeyed
    ensures
        match r {
            Some(j) => j < v@.len() && find_last_idx(views_of(v@), k@) == Some(j as int),
            None => find_last_idx(views_of(v@), k@) is None,
        },
{
    let ghost vs = views_of(v@);
    let mut i: usize = v.len();
    while i > 0
        invariant
            i <= v@.len(),
            vs == views_of(v@),
            forall|j: int| i <= j < vs.len() ==> (#[trigger] vs[j].vkey()) != k@,
        decreases i,
    {
        i = i - 1;
        if str_eq(v[i].key_str(), k) {
            proof {
                lemma_find_last_idx(vs, k@);
                assert(vs[i as int].vkey() == k@);
                assert(find_last_idx(vs, k@) == Some(i as int));
            }
            return Some(i);
        }
    }
    proof {
        lemma_find_last_idx(vs, k@);
    }
    None
}

/// Nothing after index `i` carries the same key: entry `i` is the
/// effective occurrence of its name.
pub open spec fn is_last_occurrence<T: SpecKeyed>(s: Seq<T>, i: int) -> bool {
    forall|j: int| i < j < s.len() ==> (#[trigger] s[j].vkey()) != s[i].vkey()
}

/// Decides whether entry `i` is the last occurrence of its key.
pub fn check_last_occurrence<T: Keyed>(v: &Vec<T>, i: usize) -> (r: bool) where T::V: SpecKeyed
    requires
        i < v@.len(),
    ensures
        r == is_last_occurrence(views_of(v@), i as int),
{
    let ghost vs = views_of(v@);
    let n = v.len();
    let mut j: usize = i + 1;
    while j < n
        invariant
            i < j <= v@.len(),
            n == v@.len(),
            vs == views_of(v@),
            forall|l: int| i < l < j ==> (#[trigger] vs[l].vkey()) != vs[i as int].vkey(),
        decreases v@.len() - j,
    {
        if str_eq(v[j].key_str(), v[i].key_str()) {
            assert(vs[j as int].vkey() == vs[i as int].vkey());
            return false;
        }
        j += 1;
    }
    true
}

} // verus!

