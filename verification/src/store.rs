//! The data engine: a mapping from keys to typed entries with optional
//! expiration.
//!
//! Every operation is specified against the model in [`crate::model`]:
//! an operation that observes the clock exists in two forms, a `..._at`
//! method taking the current time in milliseconds with an exact
//! contract, and a convenience method of the same name as the
//! operation, which reads the clock itself and ensures the exact
//! contract for the instant it read.

use std::collections::VecDeque;
use vstd::prelude::*;

use std::collections::HashMap;

use crate::assoc::{
    assoc_find, assoc_view, distinct_keys, lemma_assoc_contains, lemma_assoc_index,
    lemma_assoc_len, lemma_assoc_push, lemma_assoc_remove,
};
use crate::clock::now_millis;
use crate::model::{
    lemma_sweep_remove_expired, op_clear, op_count, op_delete, op_exists, op_expire, op_get,
    op_hdel, op_hexists, op_hget, op_hgetall, op_hlen, op_hset, op_info, op_keys, op_list_keys,
    op_llen, op_lpop, op_lpush, op_lrange, op_rpop, op_rpush, op_set, op_set_with_ttl, op_ttl,
    sweep, EntryModel, StoreModel, ValueKind, ValueModel,
};
use crate::model::{expired_at, remaining_ttl, sat_deadline};
use crate::pattern::{pattern_matches, spec_pattern_matches};
use crate::text::build_info;

verus! {

/// A stored payload: opaque text, a field-to-text hash, or an ordered
/// list of texts.
pub enum Value {
    Str(String),
    Hash(Vec<(String, String)>),
    List(VecDeque<String>),
}

impl View for Value {
    type V = ValueModel;

    open spec fn view(&self) -> ValueModel {
        match self {
            Value::Str(s) => ValueModel::Str(s@),
            Value::Hash(pairs) => ValueModel::Hash(assoc_view(pairs@)),
            Value::List(items) => ValueModel::List(items.deep_view()),
        }
    }
}

impl Value {
    /// A hash keeps its field names pairwise distinct.
    pub open spec fn wf(&self) -> bool {
        match self {
            Value::Hash(pairs) => distinct_keys(pairs@),
            _ => true,
        }
    }

    /// The variant tag of this value.
    pub fn kind(&self) -> (k: ValueKind)
        ensures
            k == self@.kind(),
    {
        match self {
            Value::Str(_) => ValueKind::Str,
            Value::Hash(_) => ValueKind::Hash,
            Value::List(_) => ValueKind::List,
        }
    }

    /// A string value.
    pub fn new(data: String) -> (r: Self)
        ensures
            r@ == ValueModel::Str(data@),
            r.wf(),
    {
        Value::Str(data)
    }

    /// An empty hash value.
    pub fn new_hash() -> (r: Self)
        ensures
            r@ == ValueModel::Hash(Map::<Seq<char>, Seq<char>>::empty()),
            r.wf(),
    {
        let r = Value::Hash(Vec::new());
        proof {
            assert(r@ == ValueModel::Hash(Map::<Seq<char>, Seq<char>>::empty()));
        }
        r
    }

    /// An empty list value.
    pub fn new_list() -> (r: Self)
        ensures
            r@ == ValueModel::List(Seq::<Seq<char>>::empty()),
            r.wf(),
    {
        let d: VecDeque<String> = VecDeque::new();
        proof {
            assert(d.deep_view() =~= Seq::<Seq<char>>::empty());
        }
        Value::List(d)
    }
}

/// An entry: one value and an optional absolute expiration instant in
/// milliseconds.
pub struct ValueWithTtl {
    pub value: Value,
    pub expires_at: Option<u64>,
}

impl View for ValueWithTtl {
    type V = EntryModel;

    open spec fn view(&self) -> EntryModel {
        EntryModel { value: self.value@, expires_at: self.expires_at }
    }
}

impl ValueWithTtl {
    /// The entry's value is well formed.
    pub open spec fn wf(&self) -> bool {
        self.value.wf()
    }

    /// An entry that never expires.
    pub fn new(value: Value) -> (r: Self)
        ensures
            r@ == (EntryModel { value: value@, expires_at: Option::<u64>::None }),
            r.wf() == value.wf(),
    {
        ValueWithTtl { value, expires_at: None }
    }

    /// An entry expiring `ttl_seconds` after `now`.
    pub fn with_ttl_at(value: Value, ttl_seconds: u64, now: u64) -> (r: Self)
        ensures
            r@ == (EntryModel {
                value: value@,
                expires_at: Option::Some(sat_deadline(now, ttl_seconds)),
            }),
            r.wf() == value.wf(),
    {
        let deadline = match ttl_seconds.checked_mul(1000) {
            Some(ms) => now.saturating_add(ms),
            None => u64::MAX,
        };
        proof {
            if ttl_seconds * 1000 > u64::MAX {
                assert(now + ttl_seconds * 1000 > u64::MAX);
            }
        }
        ValueWithTtl { value, expires_at: Some(deadline) }
    }

    /// An entry expiring `ttl_seconds` after the instant of the call.
    pub fn with_ttl(value: Value, ttl_seconds: u64) -> (r: Self)
        ensures
            r@.value == value@,
            r@.expires_at is Some,
            r.wf() == value.wf(),
            exists|now: u64| r@.expires_at == Option::Some(sat_deadline(now, ttl_seconds)),
    {
        let now = now_millis();
        let r = Self::with_ttl_at(value, ttl_seconds, now);
        proof {
            assert(r@.expires_at == Option::Some(sat_deadline(now, ttl_seconds)));
        }
        r
    }

    /// Whether the entry is expired at `now`.
    pub fn is_expired_at(&self, now: u64) -> (r: bool)
        ensures
            r == expired_at(self@, now),
    {
        match self.expires_at {
            None => false,
            Some(t) => now >= t,
        }
    }

    /// Whether the entry is expired at the instant of the call.
    pub fn is_expired(&self) -> (r: bool)
        ensures
            self.expires_at is None ==> r == false,
            exists|now: u64| r == expired_at(self@, now),
    {
        let now = now_millis();
        let r = self.is_expired_at(now);
        proof {
            assert(r == expired_at(self@, now));
        }
        r
    }

    /// Remaining life at `now`, per [`remaining_ttl`].
    pub fn ttl_seconds_at(&self, now: u64) -> (r: Option<i64>)
        ensures
            r == remaining_ttl(self@, now),
    {
        match self.expires_at {
            None => None,
            Some(t) => {
                if now >= t {
                    Some(-1)
                } else {
                    let d = t - now;
                    let secs = (d - 1) / 1000 + 1;
                    proof {
                        assert(secs <= u64::MAX / 1000 + 1) by (nonlinear_arith)
                            requires
                                secs == (d - 1) / 1000 + 1,
                                1 <= d <= u64::MAX,
                        ;
                    }
                    Some(secs as i64)
                }
            },
        }
    }

    /// Remaining life at the instant of the call.
    pub fn ttl_seconds(&self) -> (r: Option<i64>)
        ensures
            (self.expires_at is None) == (r is None),
            exists|now: u64| r == remaining_ttl(self@, now),
    {
        let now = now_millis();
        let r = self.ttl_seconds_at(now);
        proof {
            assert(r == remaining_ttl(self@, now));
        }
        r
    }
}

/// The error an operation can return: the key holds a value of another
/// variant than the operation works on.
#[derive(Debug, PartialEq, Eq)]
pub enum StoreError {
    TypeMismatch { key: String, found: ValueKind },
}

/// Relates an executable result to the model's: a success carries the
/// same optional text, an error names the offending key and the variant
/// actually found.
pub open spec fn opt_text_result_matches(
    r: Result<Option<String>, StoreError>,
    res: Result<Option<Seq<char>>, ValueKind>,
    key: Seq<char>,
) -> bool {
    match (r, res) {
        (Result::Ok(o), Result::Ok(vo)) => o.deep_view() == vo,
        (
            Result::Err(StoreError::TypeMismatch { key: ke, found: fe }),
            Result::Err(fk),
        ) => ke@ == key && fe == fk,
        _ => false,
    }
}

/// Contract of `set_with_ttl` at instant `now`.
pub open spec fn set_with_ttl_post(
    m0: StoreModel,
    key: Seq<char>,
    value: Seq<char>,
    ttl_seconds: u64,
    now: u64,
    r: Result<(), StoreError>,
    m1: StoreModel,
) -> bool {
    m1 == op_set_with_ttl(m0, key, value, ttl_seconds, now) && r is Ok
}

/// Contract of `ttl` at instant `now`.
pub open spec fn ttl_post(
    m0: StoreModel,
    key: Seq<char>,
    now: u64,
    r: Result<Option<i64>, StoreError>,
    m1: StoreModel,
) -> bool {
    let (res, m2) = op_ttl(m0, key, now);
    m1 == m2 && r == Result::<Option<i64>, StoreError>::Ok(res)
}

/// Contract of `expire` at instant `now`.
pub open spec fn expire_post(
    m0: StoreModel,
    key: Seq<char>,
    ttl_seconds: u64,
    now: u64,
    r: Result<bool, StoreError>,
    m1: StoreModel,
) -> bool {
    let (res, m2) = op_expire(m0, key, ttl_seconds, now);
    m1 == m2 && r == Result::<bool, StoreError>::Ok(res)
}

/// Contract of `exists` at instant `now`.
pub open spec fn exists_post(
    m0: StoreModel,
    key: Seq<char>,
    now: u64,
    r: Result<bool, StoreError>,
    m1: StoreModel,
) -> bool {
    let (res, m2) = op_exists(m0, key, now);
    m1 == m2 && r == Result::<bool, StoreError>::Ok(res)
}

/// Contract of `get` at instant `now`.
pub open spec fn get_post(
    m0: StoreModel,
    key: Seq<char>,
    now: u64,
    r: Result<Option<String>, StoreError>,
    m1: StoreModel,
) -> bool {
    let (res, m2) = op_get(m0, key, now);
    m1 == m2 && opt_text_result_matches(r, res, key)
}

/// Relates an executable boolean result to the model's.
pub open spec fn bool_result_matches(
    r: Result<bool, StoreError>,
    res: Result<bool, ValueKind>,
    key: Seq<char>,
) -> bool {
    match (r, res) {
        (Result::Ok(b1), Result::Ok(b2)) => b1 == b2,
        (
            Result::Err(StoreError::TypeMismatch { key: ke, found: fe }),
            Result::Err(fk),
        ) => ke@ == key && fe == fk,
        _ => false,
    }
}

/// Relates an executable length result to the model's.
pub open spec fn len_result_matches(
    r: Result<usize, StoreError>,
    res: Result<nat, ValueKind>,
    key: Seq<char>,
) -> bool {
    match (r, res) {
        (Result::Ok(c), Result::Ok(n)) => c as nat == n,
        (
            Result::Err(StoreError::TypeMismatch { key: ke, found: fe }),
            Result::Err(fk),
        ) => ke@ == key && fe == fk,
        _ => false,
    }
}

/// Contract of `hset` at instant `now`.
pub open spec fn hset_post(
    m0: StoreModel,
    key: Seq<char>,
    field: Seq<char>,
    value: Seq<char>,
    now: u64,
    r: Result<bool, StoreError>,
    m1: StoreModel,
) -> bool {
    let (res, m2) = op_hset(m0, key, field, value, now);
    m1 == m2 && bool_result_matches(r, res, key)
}

/// Contract of `hget` at instant `now`.
pub open spec fn hget_post(
    m0: StoreModel,
    key: Seq<char>,
    field: Seq<char>,
    now: u64,
    r: Result<Option<String>, StoreError>,
    m1: StoreModel,
) -> bool {
    let (res, m2) = op_hget(m0, key, field, now);
    m1 == m2 && opt_text_result_matches(r, res, key)
}

/// Contract of `hgetall` at instant `now`.
pub open spec fn hgetall_post(
    m0: StoreModel,
    key: Seq<char>,
    now: u64,
    r: Result<HashMap<String, String>, StoreError>,
    m1: StoreModel,
) -> bool {
    let (res, m2) = op_hgetall(m0, key, now);
    m1 == m2 && match (r, res) {
        (Result::Ok(h), Result::Ok(hm)) => h.deep_view() == hm,
        (
            Result::Err(StoreError::TypeMismatch { key: ke, found: fe }),
            Result::Err(fk),
        ) => ke@ == key && fe == fk,
        _ => false,
    }
}

/// Contract of `hdel` at instant `now`.
pub open spec fn hdel_post(
    m0: StoreModel,
    key: Seq<char>,
    field: Seq<char>,
    now: u64,
    r: Result<bool, StoreError>,
    m1: StoreModel,
) -> bool {
    let (res, m2) = op_hdel(m0, key, field, now);
    m1 == m2 && bool_result_matches(r, res, key)
}

/// Contract of `hexists` at instant `now`.
pub open spec fn hexists_post(
    m0: StoreModel,
    key: Seq<char>,
    field: Seq<char>,
    now: u64,
    r: Result<bool, StoreError>,
    m1: StoreModel,
) -> bool {
    let (res, m2) = op_hexists(m0, key, field, now);
    m1 == m2 && bool_result_matches(r, res, key)
}

/// Contract of `hlen` at instant `now`.
pub open spec fn hlen_post(
    m0: StoreModel,
    key: Seq<char>,
    now: u64,
    r: Result<usize, StoreError>,
    m1: StoreModel,
) -> bool {
    let (res, m2) = op_hlen(m0, key, now);
    m1 == m2 && len_result_matches(r, res, key)
}

/// Contract of `lpush` at instant `now`.
pub open spec fn lpush_post(
    m0: StoreModel,
    key: Seq<char>,
    value: Seq<char>,
    now: u64,
    r: Result<usize, StoreError>,
    m1: StoreModel,
) -> bool {
    let (res, m2) = op_lpush(m0, key, value, now);
    m1 == m2 && len_result_matches(r, res, key)
}

/// Contract of `rpush` at instant `now`.
pub open spec fn rpush_post(
    m0: StoreModel,
    key: Seq<char>,
    value: Seq<char>,
    now: u64,
    r: Result<usize, StoreError>,
    m1: StoreModel,
) -> bool {
    let (res, m2) = op_rpush(m0, key, value, now);
    m1 == m2 && len_result_matches(r, res, key)
}

/// Contract of `lpop` at instant `now`.
pub open spec fn lpop_post(
    m0: StoreModel,
    key: Seq<char>,
    now: u64,
    r: Result<Option<String>, StoreError>,
    m1: StoreModel,
) -> bool {
    let (res, m2) = op_lpop(m0, key, now);
    m1 == m2 && opt_text_result_matches(r, res, key)
}

/// Contract of `rpop` at instant `now`.
pub open spec fn rpop_post(
    m0: StoreModel,
    key: Seq<char>,
    now: u64,
    r: Result<Option<String>, StoreError>,
    m1: StoreModel,
) -> bool {
    let (res, m2) = op_rpop(m0, key, now);
    m1 == m2 && opt_text_result_matches(r, res, key)
}

/// Contract of `llen` at instant `now`.
pub open spec fn llen_post(
    m0: StoreModel,
    key: Seq<char>,
    now: u64,
    r: Result<usize, StoreError>,
    m1: StoreModel,
) -> bool {
    let (res, m2) = op_llen(m0, key, now);
    m1 == m2 && len_result_matches(r, res, key)
}

/// Contract of `lrange` at instant `now`.
pub open spec fn lrange_post(
    m0: StoreModel,
    key: Seq<char>,
    start: i64,
    stop: i64,
    now: u64,
    r: Result<Vec<String>, StoreError>,
    m1: StoreModel,
) -> bool {
    let (res, m2) = op_lrange(m0, key, start as int, stop as int, now);
    m1 == m2 && match (r, res) {
        (Result::Ok(v), Result::Ok(s)) => v.deep_view() == s,
        (
            Result::Err(StoreError::TypeMismatch { key: ke, found: fe }),
            Result::Err(fk),
        ) => ke@ == key && fe == fk,
        _ => false,
    }
}

/// Contract of `list_keys` at instant `now`.
pub open spec fn list_keys_post(
    m0: StoreModel,
    now: u64,
    r: Result<Vec<String>, StoreError>,
    m1: StoreModel,
) -> bool {
    let (ks, m2) = op_list_keys(m0, now);
    m1 == m2 && match r {
        Result::Ok(v) => v.deep_view().no_duplicates() && v.deep_view().to_set() == ks,
        Result::Err(_) => false,
    }
}

/// Contract of `count` at instant `now`.
pub open spec fn count_post(
    m0: StoreModel,
    now: u64,
    r: Result<usize, StoreError>,
    m1: StoreModel,
) -> bool {
    let (cnt, m2) = op_count(m0, now);
    m1 == m2 && match r {
        Result::Ok(c) => c as nat == cnt,
        Result::Err(_) => false,
    }
}

/// Contract of `keys_pattern` at instant `now`.
pub open spec fn keys_post(
    m0: StoreModel,
    pattern: Seq<char>,
    now: u64,
    r: Result<Vec<String>, StoreError>,
    m1: StoreModel,
) -> bool {
    let (ks, m2) = op_keys(m0, pattern, now);
    m1 == m2 && match r {
        Result::Ok(v) => v.deep_view().no_duplicates() && v.deep_view().to_set() == ks,
        Result::Err(_) => false,
    }
}

/// Contract of `info` at instant `now`.
pub open spec fn info_post(
    m0: StoreModel,
    now: u64,
    r: Result<String, StoreError>,
    m1: StoreModel,
) -> bool {
    let (txt, m2) = op_info(m0, now);
    m1 == m2 && match r {
        Result::Ok(s) => s@ == txt,
        Result::Err(_) => false,
    }
}

/// Writes one field of a hash held as distinct pairs, reporting
/// whether the field is new.
fn hash_put(pairs: &mut Vec<(String, String)>, field: &str, value: String) -> (is_new: bool)
    requires
        distinct_keys(old(pairs)@),
    ensures
        distinct_keys(final(pairs)@),
        assoc_view(final(pairs)@) == assoc_view(old(pairs)@).insert(field@, value@),
        is_new == !assoc_view(old(pairs)@).contains_key(field@),
{
    let ghost h = assoc_view(pairs@);
    let ghost gv = value;
    match assoc_find(pairs, field) {
        Some(j) => {
            proof {
                lemma_assoc_remove(pairs@, j as int);
            }
            let (f, _prev) = pairs.remove(j);
            let ghost mid = pairs@;
            let ghost gf = f;
            proof {
                lemma_assoc_contains(mid, gf@);
                assert(forall|l: int| 0 <= l < mid.len() ==> (#[trigger] mid[l]).0@ != gf@);
            }
            pairs.push((f, value));
            proof {
                lemma_assoc_push(mid, gf, gv);
                assert(h.remove(field@).insert(field@, gv@) =~= h.insert(field@, gv@));
            }
            false
        },
        None => {
            let ghost mid = pairs@;
            proof {
                lemma_assoc_contains(mid, field@);
                assert(forall|l: int| 0 <= l < mid.len() ==> (#[trigger] mid[l]).0@ != field@);
            }
            let f = field.to_owned();
            let ghost gf = f;
            pairs.push((f, value));
            proof {
                lemma_assoc_push(mid, gf, gv);
            }
            true
        },
    }
}

/// Removes one field of a hash held as distinct pairs, reporting
/// whether it was there.
fn hash_del(pairs: &mut Vec<(String, String)>, field: &str) -> (was: bool)
    requires
        distinct_keys(old(pairs)@),
    ensures
        distinct_keys(final(pairs)@),
        assoc_view(final(pairs)@) == assoc_view(old(pairs)@).remove(field@),
        was == assoc_view(old(pairs)@).contains_key(field@),
{
    match assoc_find(pairs, field) {
        Some(j) => {
            proof {
                lemma_assoc_remove(pairs@, j as int);
            }
            let _ = pairs.remove(j);
            true
        },
        None => {
            proof {
                assert(assoc_view(pairs@).remove(field@) =~= assoc_view(pairs@));
            }
            false
        },
    }
}

/// Copies a hash's pairs.
fn clone_pairs(pairs: &Vec<(String, String)>) -> (r: Vec<(String, String)>)
    ensures
        r@ == pairs@,
{
    let n = pairs.len();
    let mut out: Vec<(String, String)> = Vec::new();
    let mut i: usize = 0;
    while i < n
        invariant
            n == pairs@.len(),
            i <= n,
            out@ == pairs@.take(i as int),
        decreases n - i,
    {
        out.push((pairs[i].0.clone(), pairs[i].1.clone()));
        proof {
            assert(pairs@.take(i + 1) =~= pairs@.take(i as int).push(pairs@[i as int]));
        }
        i += 1;
    }
    proof {
        assert(pairs@.take(n as int) =~= pairs@);
    }
    out
}

/// Relies on `HashMap`'s `FromIterator`: collecting key/value pairs
/// yields the map holding exactly those pairs, a later pair winning
/// over an earlier one with the same key, as `assoc_view` also says.
#[verifier::external_body]
fn pairs_to_hash_map(pairs: Vec<(String, String)>) -> (r: HashMap<String, String>)
    ensures
        r.deep_view() == assoc_view(pairs@),
{
    pairs.into_iter().collect()
}

/// The engine: a mapping from non-empty keys to entries, with all keys
/// distinct.
pub struct Store {
    entries: Vec<(String, ValueWithTtl)>,
}

impl View for Store {
    type V = StoreModel;

    closed spec fn view(&self) -> StoreModel {
        assoc_view(self.entries@)
    }
}

impl Store {
    /// Keys are pairwise distinct and non-empty; every entry is well
    /// formed.
    pub closed spec fn wf(&self) -> bool {
        &&& distinct_keys(self.entries@)
        &&& forall|i: int|
            0 <= i < self.entries@.len() ==> (#[trigger] self.entries@[i]).0@.len() > 0
                && self.entries@[i].1.wf()
    }

    /// An empty engine.
    pub fn new() -> (r: Self)
        ensures
            r.wf(),
            r@ == Map::<Seq<char>, EntryModel>::empty(),
    {
        let r = Store { entries: Vec::new() };
        proof {
            assert(r@ == Map::<Seq<char>, EntryModel>::empty());
        }
        r
    }

    /// The index of the pair carrying `key`, when the key is present.
    fn find_index(&self, key: &str) -> (r: Option<usize>)
        requires
            self.wf(),
        ensures
            match r {
                Option::Some(i) => i < self.entries@.len() && self.entries@[i as int].0@ == key@
                    && self@.contains_key(key@) && self@[key@] == self.entries@[i as int].1@,
                Option::None => !self@.contains_key(key@),
            },
    {
        assoc_find(&self.entries, key)
    }

    /// Removes and returns the pair at `i`; its binding leaves the map.
    fn remove_entry(&mut self, i: usize) -> (kv: (String, ValueWithTtl))
        requires
            old(self).wf(),
            i < old(self).entries@.len(),
        ensures
            final(self).wf(),
            kv == old(self).entries@[i as int],
            final(self).entries@ == old(self).entries@.remove(i as int),
            final(self)@ == old(self)@.remove(kv.0@),
            !final(self)@.contains_key(kv.0@),
            kv.0@.len() > 0,
            kv.1.wf(),
    {
        proof {
            lemma_assoc_remove(self.entries@, i as int);
            let s2 = self.entries@.remove(i as int);
            assert(forall|j: int| 0 <= j < s2.len() ==> s2[j].0@ != self.entries@[i as int].0@);
            lemma_assoc_contains(s2, self.entries@[i as int].0@);
            assert(forall|j: int|
                0 <= j < s2.len() ==> (#[trigger] s2[j]).0@.len() > 0 && s2[j].1.wf());
        }
        self.entries.remove(i)
    }

    /// Adds a binding for an absent key.
    fn insert_entry(&mut self, key: String, e: ValueWithTtl)
        requires
            old(self).wf(),
            !old(self)@.contains_key(key@),
            key@.len() > 0,
            e.wf(),
        ensures
            final(self).wf(),
            final(self)@ == old(self)@.insert(key@, e@),
    {
        proof {
            lemma_assoc_contains(self.entries@, key@);
            lemma_assoc_push(self.entries@, key, e);
            let s2 = self.entries@.push((key, e));
            assert(forall|j: int| 0 <= j < self.entries@.len() ==> self.entries@[j].0@ != key@);
            assert(forall|j: int|
                0 <= j < s2.len() ==> (#[trigger] s2[j]).0@.len() > 0 && s2[j].1.wf());
        }
        self.entries.push((key, e));
    }

    /// `set`: unconditionally create or replace a string entry with no
    /// expiration. Never fails.
    pub fn set(&mut self, key: &str, value: &str) -> (r: Result<(), StoreError>)
        requires
            old(self).wf(),
            key@.len() > 0,
        ensures
            final(self).wf(),
            r is Ok,
            final(self)@ == op_set(old(self)@, key@, value@),
    {
        let entry = ValueWithTtl::new(Value::new(value.to_owned()));
        match self.find_index(key) {
            Some(i) => {
                let ghost m0 = self@;
                let (k, _prev) = self.remove_entry(i);
                self.insert_entry(k, entry);
                proof {
                    assert(m0.remove(key@).insert(key@, entry@) =~= m0.insert(key@, entry@));
                }
            },
            None => {
                self.insert_entry(key.to_owned(), entry);
            },
        }
        Ok(())
    }

    /// `get` at instant `now`: the string under `key`; `None` when the
    /// key is absent or expired (an expired entry is removed); a
    /// mismatch error when the key holds a hash or a list.
    pub fn get_at(&mut self, key: &str, now: u64) -> (r: Result<Option<String>, StoreError>)
        requires
            old(self).wf(),
        ensures
            final(self).wf(),
            get_post(old(self)@, key@, now, r, final(self)@),
    {
        match self.find_index(key) {
            None => Ok(None),
            Some(i) => {
                if self.entries[i].1.is_expired_at(now) {
                    let _ = self.remove_entry(i);
                    Ok(None)
                } else {
                    match &self.entries[i].1.value {
                        Value::Str(s) => Ok(Some(s.clone())),
                        Value::Hash(_) => Err(
                            StoreError::TypeMismatch { key: key.to_owned(), found: ValueKind::Hash },
                        ),
                        Value::List(_) => Err(
                            StoreError::TypeMismatch { key: key.to_owned(), found: ValueKind::List },
                        ),
                    }
                }
            },
        }
    }

    /// `get` at the instant of the call.
    pub fn get(&mut self, key: &str) -> (r: Result<Option<String>, StoreError>)
        requires
            old(self).wf(),
        ensures
            final(self).wf(),
            exists|now: u64| get_post(old(self)@, key@, now, r, final(self)@),
    {
        let now = now_millis();
        let r = self.get_at(key, now);
        proof {
            assert(get_post(old(self)@, key@, now, r, self@));
        }
        r
    }

    /// `set_with_ttl` at instant `now`: create or replace a string
    /// entry expiring `ttl_seconds` after `now`; a zero `ttl_seconds`
    /// makes it expired at once. Never fails.
    pub fn set_with_ttl_at(
        &mut self,
        key: &str,
        value: &str,
        ttl_seconds: u64,
        now: u64,
    ) -> (r: Result<(), StoreError>)
        requires
            old(self).wf(),
            key@.len() > 0,
        ensures
            final(self).wf(),
            set_with_ttl_post(old(self)@, key@, value@, ttl_seconds, now, r, final(self)@),
    {
        let entry = ValueWithTtl::with_ttl_at(Value::new(value.to_owned()), ttl_seconds, now);
        match self.find_index(key) {
            Some(i) => {
                let ghost m0 = self@;
                let (k, _prev) = self.remove_entry(i);
                self.insert_entry(k, entry);
                proof {
                    assert(m0.remove(key@).insert(key@, entry@) =~= m0.insert(key@, entry@));
                }
            },
            None => {
                self.insert_entry(key.to_owned(), entry);
            },
        }
        Ok(())
    }

    /// `set_with_ttl` at the instant of the call.
    pub fn set_with_ttl(&mut self, key: &str, value: &str, ttl_seconds: u64) -> (r: Result<
        (),
        StoreError,
    >)
        requires
            old(self).wf(),
            key@.len() > 0,
        ensures
            final(self).wf(),
            r is Ok,
            exists|now: u64|
                set_with_ttl_post(old(self)@, key@, value@, ttl_seconds, now, r, final(self)@),
    {
        let now = now_millis();
        let r = self.set_with_ttl_at(key, value, ttl_seconds, now);
        proof {
            assert(set_with_ttl_post(old(self)@, key@, value@, ttl_seconds, now, r, self@));
        }
        r
    }

    /// `ttl` at instant `now`: `None` when the key is absent or never
    /// expires, `-1` when observed expired (the entry is then
    /// removed), otherwise the remaining whole seconds, rounded up.
    pub fn ttl_at(&mut self, key: &str, now: u64) -> (r: Result<Option<i64>, StoreError>)
        requires
            old(self).wf(),
        ensures
            final(self).wf(),
            ttl_post(old(self)@, key@, now, r, final(self)@),
    {
        match self.find_index(key) {
            None => Ok(None),
            Some(i) => {
                if self.entries[i].1.is_expired_at(now) {
                    let _ = self.remove_entry(i);
                    Ok(Some(-1))
                } else {
                    Ok(self.entries[i].1.ttl_seconds_at(now))
                }
            },
        }
    }

    /// `ttl` at the instant of the call.
    pub fn ttl(&mut self, key: &str) -> (r: Result<Option<i64>, StoreError>)
        requires
            old(self).wf(),
        ensures
            final(self).wf(),
            exists|now: u64| ttl_post(old(self)@, key@, now, r, final(self)@),
    {
        let now = now_millis();
        let r = self.ttl_at(key, now);
        proof {
            assert(ttl_post(old(self)@, key@, now, r, self@));
        }
        r
    }

    /// `expire` at instant `now`: set or refresh the expiration of an
    /// existing key, whatever its variant; `false` when absent.
    pub fn expire_at(&mut self, key: &str, ttl_seconds: u64, now: u64) -> (r: Result<
        bool,
        StoreError,
    >)
        requires
            old(self).wf(),
        ensures
            final(self).wf(),
            expire_post(old(self)@, key@, ttl_seconds, now, r, final(self)@),
    {
        match self.find_index(key) {
            None => Ok(false),
            Some(i) => {
                let ghost m0 = self@;
                let (k, entry) = self.remove_entry(i);
                let ValueWithTtl { value, expires_at: _ } = entry;
                let refreshed = ValueWithTtl::with_ttl_at(value, ttl_seconds, now);
                self.insert_entry(k, refreshed);
                proof {
                    assert(m0.remove(key@).insert(key@, refreshed@) =~= m0.insert(
                        key@,
                        refreshed@,
                    ));
                }
                Ok(true)
            },
        }
    }

    /// `expire` at the instant of the call.
    pub fn expire(&mut self, key: &str, ttl_seconds: u64) -> (r: Result<bool, StoreError>)
        requires
            old(self).wf(),
        ensures
            final(self).wf(),
            exists|now: u64| expire_post(old(self)@, key@, ttl_seconds, now, r, final(self)@),
    {
        let now = now_millis();
        let r = self.expire_at(key, ttl_seconds, now);
        proof {
            assert(expire_post(old(self)@, key@, ttl_seconds, now, r, self@));
        }
        r
    }

    /// `delete`: remove the key whatever its variant or expiration
    /// state; the stored text comes back for a string value, a fixed
    /// marker for a hash or a list, `None` when the key is absent.
    pub fn delete(&mut self, key: &str) -> (r: Result<Option<String>, StoreError>)
        requires
            old(self).wf(),
        ensures
            final(self).wf(),
            ({
                let (res, m2) = op_delete(old(self)@, key@);
                final(self)@ == m2 && match r {
                    Result::Ok(o) => o.deep_view() == res,
                    Result::Err(_) => false,
                }
            }),
    {
        match self.find_index(key) {
            None => Ok(None),
            Some(i) => {
                let (_k, entry) = self.remove_entry(i);
                match entry.value {
                    Value::Str(s) => Ok(Some(s)),
                    _ => Ok(Some("(non-string)".to_owned())),
                }
            },
        }
    }

    /// `exists` at instant `now`: `true` exactly when the key is
    /// present and not expired; an expired entry observed here is
    /// removed.
    pub fn key_exists_at(&mut self, key: &str, now: u64) -> (r: Result<bool, StoreError>)
        requires
            old(self).wf(),
        ensures
            final(self).wf(),
            exists_post(old(self)@, key@, now, r, final(self)@),
    {
        match self.find_index(key) {
            None => Ok(false),
            Some(i) => {
                if self.entries[i].1.is_expired_at(now) {
                    let _ = self.remove_entry(i);
                    Ok(false)
                } else {
                    Ok(true)
                }
            },
        }
    }

    /// `exists` at the instant of the call.
    pub fn key_exists(&mut self, key: &str) -> (r: Result<bool, StoreError>)
        requires
            old(self).wf(),
        ensures
            final(self).wf(),
            exists|now: u64| exists_post(old(self)@, key@, now, r, final(self)@),
    {
        let now = now_millis();
        let r = self.key_exists_at(key, now);
        proof {
            assert(exists_post(old(self)@, key@, now, r, self@));
        }
        r
    }

    /// `clear`: remove every entry unconditionally. Never fails.
    pub fn clear(&mut self) -> (r: Result<(), StoreError>)
        requires
            old(self).wf(),
        ensures
            final(self).wf(),
            r is Ok,
            final(self)@ == op_clear(old(self)@),
    {
        self.entries.clear();
        proof {
            assert(self@ =~= Map::<Seq<char>, EntryModel>::empty());
        }
        Ok(())
    }

    /// Removes every expired entry: the full lazy sweep behind the
    /// enumeration operations.
    fn sweep_entries(&mut self, now: u64)
        requires
            old(self).wf(),
        ensures
            final(self).wf(),
            final(self)@ == sweep(old(self)@, now),
    {
        let mut i: usize = 0;
        while i < self.entries.len()
            invariant
                self.wf(),
                i <= self.entries@.len(),
                forall|j: int| 0 <= j < i ==> !expired_at((#[trigger] self.entries@[j]).1@, now),
                sweep(self@, now) == sweep(old(self)@, now),
            decreases self.entries@.len() - i,
        {
            if self.entries[i].1.is_expired_at(now) {
                proof {
                    lemma_assoc_index(self.entries@, i as int);
                    lemma_sweep_remove_expired(self@, self.entries@[i as int].0@, now);
                }
                let ghost s0 = self.entries@;
                let _ = self.remove_entry(i);
                proof {
                    assert(forall|j: int|
                        0 <= j < i ==> (#[trigger] self.entries@[j]) == s0[j]);
                }
            } else {
                i += 1;
            }
        }
        proof {
            assert forall|k: Seq<char>| self@.dom().contains(k) implies !expired_at(
                self@[k],
                now,
            ) by {
                lemma_assoc_contains(self.entries@, k);
                let l = choose|l: int|
                    0 <= l < self.entries@.len() && self.entries@[l].0@ == k;
                lemma_assoc_index(self.entries@, l);
            }
            assert(sweep(self@, now) =~= self@);
        }
    }

    /// `list_keys` at instant `now`: every live key, in no promised
    /// order and without duplicates, after a full lazy sweep.
    pub fn list_keys_at(&mut self, now: u64) -> (r: Result<Vec<String>, StoreError>)
        requires
            old(self).wf(),
        ensures
            final(self).wf(),
            list_keys_post(old(self)@, now, r, final(self)@),
    {
        self.sweep_entries(now);
        let n = self.entries.len();
        let mut out: Vec<String> = Vec::new();
        let mut i: usize = 0;
        while i < n
            invariant
                self.wf(),
                n == self.entries@.len(),
                i <= n,
                out@.len() == i,
                forall|j: int| 0 <= j < i ==> (#[trigger] out@[j])@ == self.entries@[j].0@,
            decreases n - i,
        {
            out.push(self.entries[i].0.clone());
            i += 1;
        }
        proof {
            assert forall|j1: int, j2: int|
                0 <= j1 < j2 < out.deep_view().len() implies out.deep_view()[j1]
                != out.deep_view()[j2] by {
                assert(out@[j1]@ == self.entries@[j1].0@);
                assert(out@[j2]@ == self.entries@[j2].0@);
            }
            assert forall|k: Seq<char>| #[trigger]
                out.deep_view().to_set().contains(k) == self@.dom().contains(k) by {
                lemma_assoc_contains(self.entries@, k);
                if out.deep_view().to_set().contains(k) {
                    let j = choose|j: int|
                        0 <= j < out.deep_view().len() && out.deep_view()[j] == k;
                    assert(self.entries@[j].0@ == k);
                }
                if self@.dom().contains(k) {
                    let l = choose|l: int|
                        0 <= l < self.entries@.len() && self.entries@[l].0@ == k;
                    assert(out.deep_view()[l] == k);
                }
            }
            assert(out.deep_view().to_set() =~= op_list_keys(old(self)@, now).0);
        }
        Ok(out)
    }

    /// `list_keys` at the instant of the call.
    pub fn list_keys(&mut self) -> (r: Result<Vec<String>, StoreError>)
        requires
            old(self).wf(),
        ensures
            final(self).wf(),
            exists|now: u64| list_keys_post(old(self)@, now, r, final(self)@),
    {
        let now = now_millis();
        let r = self.list_keys_at(now);
        proof {
            assert(list_keys_post(old(self)@, now, r, self@));
        }
        r
    }

    /// `count` at instant `now`: the number of live keys, after a full
    /// lazy sweep.
    pub fn count_at(&mut self, now: u64) -> (r: Result<usize, StoreError>)
        requires
            old(self).wf(),
        ensures
            final(self).wf(),
            count_post(old(self)@, now, r, final(self)@),
    {
        self.sweep_entries(now);
        proof {
            lemma_assoc_len(self.entries@);
        }
        Ok(self.entries.len())
    }

    /// `count` at the instant of the call.
    pub fn count(&mut self) -> (r: Result<usize, StoreError>)
        requires
            old(self).wf(),
        ensures
            final(self).wf(),
            exists|now: u64| count_post(old(self)@, now, r, final(self)@),
    {
        let now = now_millis();
        let r = self.count_at(now);
        proof {
            assert(count_post(old(self)@, now, r, self@));
        }
        r
    }

    /// `keys_pattern` at instant `now`: the live keys matching
    /// `pattern`, without duplicates, after a full lazy sweep.
    pub fn keys_pattern_at(&mut self, pattern: &str, now: u64) -> (r: Result<
        Vec<String>,
        StoreError,
    >)
        requires
            old(self).wf(),
        ensures
            final(self).wf(),
            keys_post(old(self)@, pattern@, now, r, final(self)@),
    {
        self.sweep_entries(now);
        let n = self.entries.len();
        let mut out: Vec<String> = Vec::new();
        let mut i: usize = 0;
        while i < n
            invariant
                self.wf(),
                n == self.entries@.len(),
                i <= n,
                forall|j: int|
                    0 <= j < out@.len() ==> exists|l: int|
                        0 <= l < i && (#[trigger] out@[j])@ == self.entries@[l].0@,
                forall|j: int|
                    0 <= j < out@.len() ==> spec_pattern_matches((#[trigger] out@[j])@, pattern@),
                forall|l: int|
                    0 <= l < i && spec_pattern_matches((#[trigger] self.entries@[l]).0@, pattern@)
                        ==> exists|j: int| 0 <= j < out@.len() && out@[j]@ == self.entries@[l].0@,
                forall|j1: int, j2: int|
                    0 <= j1 < j2 < out@.len() ==> (#[trigger] out@[j1])@ != (#[trigger] out@[j2])@,
            decreases n - i,
        {
            let ghost out0 = out@;
            let matched = pattern_matches(self.entries[i].0.as_str(), pattern);
            if matched {
                proof {
                    assert forall|j: int| 0 <= j < out0.len() implies (#[trigger] out0[j])@
                        != self.entries@[i as int].0@ by {
                        let l = choose|l: int|
                            0 <= l < i && out0[j]@ == self.entries@[l].0@;
                        assert(self.entries@[l].0@ != self.entries@[i as int].0@);
                    }
                }
                out.push(self.entries[i].0.clone());
            }
            proof {
                assert forall|l: int|
                    0 <= l < i + 1 && spec_pattern_matches(
                        (#[trigger] self.entries@[l]).0@,
                        pattern@,
                    ) implies exists|j: int|
                    0 <= j < out@.len() && out@[j]@ == self.entries@[l].0@ by {
                    if l == i {
                        assert(out@[out0.len() as int]@ == self.entries@[l].0@);
                    } else {
                        let j = choose|j: int|
                            0 <= j < out0.len() && out0[j]@ == self.entries@[l].0@;
                        assert(out@[j]@ == self.entries@[l].0@);
                    }
                }
            }
            i += 1;
        }
        proof {
            let ghost ks = op_keys(old(self)@, pattern@, now).0;
            assert forall|j1: int, j2: int|
                0 <= j1 < j2 < out.deep_view().len() implies out.deep_view()[j1]
                != out.deep_view()[j2] by {
                assert(out@[j1]@ != out@[j2]@);
            }
            assert forall|k: Seq<char>| #[trigger] out.deep_view().to_set().contains(k)
                == ks.contains(k) by {
                lemma_assoc_contains(self.entries@, k);
                if out.deep_view().to_set().contains(k) {
                    let j = choose|j: int|
                        0 <= j < out.deep_view().len() && out.deep_view()[j] == k;
                    assert(out@[j]@ == k);
                    let l = choose|l: int|
                        0 <= l < n && out@[j]@ == self.entries@[l].0@;
                    assert(self@.dom().contains(k));
                }
                if ks.contains(k) {
                    let l = choose|l: int|
                        0 <= l < self.entries@.len() && self.entries@[l].0@ == k;
                    let j = choose|j: int|
                        0 <= j < out@.len() && out@[j]@ == self.entries@[l].0@;
                    assert(out.deep_view()[j] == k);
                }
            }
            assert(out.deep_view().to_set() =~= ks);
        }
        Ok(out)
    }

    /// `keys_pattern` at the instant of the call.
    pub fn keys_pattern(&mut self, pattern: &str) -> (r: Result<Vec<String>, StoreError>)
        requires
            old(self).wf(),
        ensures
            final(self).wf(),
            exists|now: u64| keys_post(old(self)@, pattern@, now, r, final(self)@),
    {
        let now = now_millis();
        let r = self.keys_pattern_at(pattern, now);
        proof {
            assert(keys_post(old(self)@, pattern@, now, r, self@));
        }
        r
    }

    /// `keys`: a second name for [`Store::keys_pattern`].
    pub fn keys(&mut self, pattern: &str) -> (r: Result<Vec<String>, StoreError>)
        requires
            old(self).wf(),
        ensures
            final(self).wf(),
            exists|now: u64| keys_post(old(self)@, pattern@, now, r, final(self)@),
    {
        self.keys_pattern(pattern)
    }

    /// `info` at instant `now`: the diagnostic summary for the live
    /// key count, after a full lazy sweep.
    pub fn info_at(&mut self, now: u64) -> (r: Result<String, StoreError>)
        requires
            old(self).wf(),
        ensures
            final(self).wf(),
            info_post(old(self)@, now, r, final(self)@),
    {
        self.sweep_entries(now);
        proof {
            lemma_assoc_len(self.entries@);
        }
        let count = self.entries.len();
        Ok(build_info(count))
    }

    /// `info` at the instant of the call.
    pub fn info(&mut self) -> (r: Result<String, StoreError>)
        requires
            old(self).wf(),
        ensures
            final(self).wf(),
            exists|now: u64| info_post(old(self)@, now, r, final(self)@),
    {
        let now = now_millis();
        let r = self.info_at(now);
        proof {
            assert(info_post(old(self)@, now, r, self@));
        }
        r
    }

    /// Creates a hash entry holding one field, for an absent key.
    fn insert_fresh_hash(&mut self, key: &str, field: &str, value: &str)
        requires
            old(self).wf(),
            !old(self)@.contains_key(key@),
            key@.len() > 0,
        ensures
            final(self).wf(),
            final(self)@ == old(self)@.insert(
                key@,
                (EntryModel {
                    value: ValueModel::Hash(
                        Map::<Seq<char>, Seq<char>>::empty().insert(field@, value@),
                    ),
                    expires_at: Option::None,
                }),
            ),
    {
        let mut pairs: Vec<(String, String)> = Vec::new();
        let f = field.to_owned();
        let ghost gf = f;
        let v = value.to_owned();
        let ghost gv = v;
        proof {
            assert(assoc_view(pairs@) =~= Map::<Seq<char>, Seq<char>>::empty());
        }
        let ghost mid = pairs@;
        pairs.push((f, v));
        proof {
            lemma_assoc_push(mid, gf, gv);
        }
        self.insert_entry(key.to_owned(), ValueWithTtl { value: Value::Hash(pairs), expires_at: None });
    }

    /// `hset` at instant `now`: write one field of the hash under
    /// `key`, `true` when the field is new. An absent key (or one
    /// observed expired, which is replaced) first gets a fresh hash; a
    /// live key of another variant is a mismatch.
    pub fn hset_at(&mut self, key: &str, field: &str, value: &str, now: u64) -> (r: Result<
        bool,
        StoreError,
    >)
        requires
            old(self).wf(),
            key@.len() > 0,
            field@.len() > 0,
        ensures
            final(self).wf(),
            hset_post(old(self)@, key@, field@, value@, now, r, final(self)@),
    {
        let ghost m0 = self@;
        match self.find_index(key) {
            None => {
                self.insert_fresh_hash(key, field, value);
                Ok(true)
            },
            Some(i) => {
                if self.entries[i].1.is_expired_at(now) {
                    let _ = self.remove_entry(i);
                    self.insert_fresh_hash(key, field, value);
                    proof {
                        assert(self@ =~= m0.insert(
                            key@,
                            (EntryModel {
                                value: ValueModel::Hash(
                                    Map::<Seq<char>, Seq<char>>::empty().insert(field@, value@),
                                ),
                                expires_at: Option::None,
                            }),
                        ));
                    }
                    Ok(true)
                } else {
                    let kd = self.entries[i].1.value.kind();
                    if kd != ValueKind::Hash {
                        Err(StoreError::TypeMismatch { key: key.to_owned(), found: kd })
                    } else {
                        let (k, entry) = self.remove_entry(i);
                        let ValueWithTtl { value: val, expires_at } = entry;
                        match val {
                            Value::Hash(mut pairs) => {
                                let ghost h = assoc_view(pairs@);
                                let is_new = hash_put(&mut pairs, field, value.to_owned());
                                self.insert_entry(
                                    k,
                                    ValueWithTtl { value: Value::Hash(pairs), expires_at },
                                );
                                proof {
                                    assert(self@ =~= m0.insert(
                                        key@,
                                        (EntryModel {
                                            value: ValueModel::Hash(h.insert(field@, value@)),
                                            expires_at: m0[key@].expires_at,
                                        }),
                                    ));
                                }
                                Ok(is_new)
                            },
                            _ => {
                                proof {
                                    assert(false);
                                }
                                Ok(false)
                            },
                        }
                    }
                }
            },
        }
    }

    /// `hset` at the instant of the call.
    pub fn hset(&mut self, key: &str, field: &str, value: &str) -> (r: Result<bool, StoreError>)
        requires
            old(self).wf(),
            key@.len() > 0,
            field@.len() > 0,
        ensures
            final(self).wf(),
            exists|now: u64| hset_post(old(self)@, key@, field@, value@, now, r, final(self)@),
    {
        let now = now_millis();
        let r = self.hset_at(key, field, value, now);
        proof {
            assert(hset_post(old(self)@, key@, field@, value@, now, r, self@));
        }
        r
    }

    /// `hget` at instant `now`: one field of the hash under `key`;
    /// an absent key or field reads as `None`, a live key of another
    /// variant is a mismatch.
    pub fn hget_at(&mut self, key: &str, field: &str, now: u64) -> (r: Result<
        Option<String>,
        StoreError,
    >)
        requires
            old(self).wf(),
        ensures
            final(self).wf(),
            hget_post(old(self)@, key@, field@, now, r, final(self)@),
    {
        match self.find_index(key) {
            None => Ok(None),
            Some(i) => {
                if self.entries[i].1.is_expired_at(now) {
                    let _ = self.remove_entry(i);
                    Ok(None)
                } else {
                    match &self.entries[i].1.value {
                        Value::Hash(pairs) => match assoc_find(pairs, field) {
                            Some(j) => Ok(Some(pairs[j].1.clone())),
                            None => Ok(None),
                        },
                        Value::Str(_) => Err(
                            StoreError::TypeMismatch { key: key.to_owned(), found: ValueKind::Str },
                        ),
                        Value::List(_) => Err(
                            StoreError::TypeMismatch { key: key.to_owned(), found: ValueKind::List },
                        ),
                    }
                }
            },
        }
    }

    /// `hget` at the instant of the call.
    pub fn hget(&mut self, key: &str, field: &str) -> (r: Result<Option<String>, StoreError>)
        requires
            old(self).wf(),
        ensures
            final(self).wf(),
            exists|now: u64| hget_post(old(self)@, key@, field@, now, r, final(self)@),
    {
        let now = now_millis();
        let r = self.hget_at(key, field, now);
        proof {
            assert(hget_post(old(self)@, key@, field@, now, r, self@));
        }
        r
    }

    /// `hgetall` at instant `now`: the whole hash under `key`; an
    /// absent or expired key reads as an empty hash.
    pub fn hgetall_at(&mut self, key: &str, now: u64) -> (r: Result<
        HashMap<String, String>,
        StoreError,
    >)
        requires
            old(self).wf(),
        ensures
            final(self).wf(),
            hgetall_post(old(self)@, key@, now, r, final(self)@),
    {
        match self.find_index(key) {
            None => {
                let empty: Vec<(String, String)> = Vec::new();
                proof {
                    assert(assoc_view(empty@) =~= Map::<Seq<char>, Seq<char>>::empty());
                }
                Ok(pairs_to_hash_map(empty))
            },
            Some(i) => {
                if self.entries[i].1.is_expired_at(now) {
                    let _ = self.remove_entry(i);
                    let empty: Vec<(String, String)> = Vec::new();
                    proof {
                        assert(assoc_view(empty@) =~= Map::<Seq<char>, Seq<char>>::empty());
                    }
                    Ok(pairs_to_hash_map(empty))
                } else {
                    match &self.entries[i].1.value {
                        Value::Hash(pairs) => {
                            let copy = clone_pairs(pairs);
                            Ok(pairs_to_hash_map(copy))
                        },
                        Value::Str(_) => Err(
                            StoreError::TypeMismatch { key: key.to_owned(), found: ValueKind::Str },
                        ),
                        Value::List(_) => Err(
                            StoreError::TypeMismatch { key: key.to_owned(), found: ValueKind::List },
                        ),
                    }
                }
            },
        }
    }

    /// `hgetall` at the instant of the call.
    pub fn hgetall(&mut self, key: &str) -> (r: Result<HashMap<String, String>, StoreError>)
        requires
            old(self).wf(),
        ensures
            final(self).wf(),
            exists|now: u64| hgetall_post(old(self)@, key@, now, r, final(self)@),
    {
        let now = now_millis();
        let r = self.hgetall_at(key, now);
        proof {
            assert(hgetall_post(old(self)@, key@, now, r, self@));
        }
        r
    }

    /// `hdel` at instant `now`: remove one field of the hash under
    /// `key`, `true` when it was there; an absent or expired key reads
    /// as an empty hash.
    pub fn hdel_at(&mut self, key: &str, field: &str, now: u64) -> (r: Result<bool, StoreError>)
        requires
            old(self).wf(),
        ensures
            final(self).wf(),
            hdel_post(old(self)@, key@, field@, now, r, final(self)@),
    {
        let ghost m0 = self@;
        match self.find_index(key) {
            None => Ok(false),
            Some(i) => {
                if self.entries[i].1.is_expired_at(now) {
                    let _ = self.remove_entry(i);
                    Ok(false)
                } else {
                    let kd = self.entries[i].1.value.kind();
                    if kd != ValueKind::Hash {
                        Err(StoreError::TypeMismatch { key: key.to_owned(), found: kd })
                    } else {
                        let (k, entry) = self.remove_entry(i);
                        let ValueWithTtl { value: val, expires_at } = entry;
                        match val {
                            Value::Hash(mut pairs) => {
                                let ghost h = assoc_view(pairs@);
                                let was = hash_del(&mut pairs, field);
                                self.insert_entry(
                                    k,
                                    ValueWithTtl { value: Value::Hash(pairs), expires_at },
                                );
                                proof {
                                    assert(self@ =~= m0.insert(
                                        key@,
                                        (EntryModel {
                                            value: ValueModel::Hash(h.remove(field@)),
                                            expires_at: m0[key@].expires_at,
                                        }),
                                    ));
                                }
                                Ok(was)
                            },
                            _ => {
                                proof {
                                    assert(false);
                                }
                                Ok(false)
                            },
                        }
                    }
                }
            },
        }
    }

    /// `hdel` at the instant of the call.
    pub fn hdel(&mut self, key: &str, field: &str) -> (r: Result<bool, StoreError>)
        requires
            old(self).wf(),
        ensures
            final(self).wf(),
            exists|now: u64| hdel_post(old(self)@, key@, field@, now, r, final(self)@),
    {
        let now = now_millis();
        let r = self.hdel_at(key, field, now);
        proof {
            assert(hdel_post(old(self)@, key@, field@, now, r, self@));
        }
        r
    }

    /// `hexists` at instant `now`: whether the hash under `key` holds
    /// `field`.
    pub fn hexists_at(&mut self, key: &str, field: &str, now: u64) -> (r: Result<
        bool,
        StoreError,
    >)
        requires
            old(self).wf(),
        ensures
            final(self).wf(),
            hexists_post(old(self)@, key@, field@, now, r, final(self)@),
    {
        match self.find_index(key) {
            None => Ok(false),
            Some(i) => {
                if self.entries[i].1.is_expired_at(now) {
                    let _ = self.remove_entry(i);
                    Ok(false)
                } else {
                    match &self.entries[i].1.value {
                        Value::Hash(pairs) => Ok(assoc_find(pairs, field).is_some()),
                        Value::Str(_) => Err(
                            StoreError::TypeMismatch { key: key.to_owned(), found: ValueKind::Str },
                        ),
                        Value::List(_) => Err(
                            StoreError::TypeMismatch { key: key.to_owned(), found: ValueKind::List },
                        ),
                    }
                }
            },
        }
    }

    /// `hexists` at the instant of the call.
    pub fn hexists(&mut self, key: &str, field: &str) -> (r: Result<bool, StoreError>)
        requires
            old(self).wf(),
        ensures
            final(self).wf(),
            exists|now: u64| hexists_post(old(self)@, key@, field@, now, r, final(self)@),
    {
        let now = now_millis();
        let r = self.hexists_at(key, field, now);
        proof {
            assert(hexists_post(old(self)@, key@, field@, now, r, self@));
        }
        r
    }

    /// `hlen` at instant `now`: how many fields the hash under `key`
    /// holds; `0` for an absent or expired key.
    pub fn hlen_at(&mut self, key: &str, now: u64) -> (r: Result<usize, StoreError>)
        requires
            old(self).wf(),
        ensures
            final(self).wf(),
            hlen_post(old(self)@, key@, now, r, final(self)@),
    {
        match self.find_index(key) {
            None => Ok(0),
            Some(i) => {
                if self.entries[i].1.is_expired_at(now) {
                    let _ = self.remove_entry(i);
                    Ok(0)
                } else {
                    match &self.entries[i].1.value {
                        Value::Hash(pairs) => {
                            proof {
                                lemma_assoc_len(pairs@);
                            }
                            Ok(pairs.len())
                        },
                        Value::Str(_) => Err(
                            StoreError::TypeMismatch { key: key.to_owned(), found: ValueKind::Str },
                        ),
                        Value::List(_) => Err(
                            StoreError::TypeMismatch { key: key.to_owned(), found: ValueKind::List },
                        ),
                    }
                }
            },
        }
    }

    /// `hlen` at the instant of the call.
    pub fn hlen(&mut self, key: &str) -> (r: Result<usize, StoreError>)
        requires
            old(self).wf(),
        ensures
            final(self).wf(),
            exists|now: u64| hlen_post(old(self)@, key@, now, r, final(self)@),
    {
        let now = now_millis();
        let r = self.hlen_at(key, now);
        proof {
            assert(hlen_post(old(self)@, key@, now, r, self@));
        }
        r
    }

    /// Creates a list entry holding one item, for an absent key.
    fn insert_fresh_list(&mut self, key: &str, value: &str)
        requires
            old(self).wf(),
            !old(self)@.contains_key(key@),
            key@.len() > 0,
        ensures
            final(self).wf(),
            final(self)@ == old(self)@.insert(
                key@,
                (EntryModel { value: ValueModel::List(seq![value@]), expires_at: Option::None }),
            ),
    {
        let mut items: VecDeque<String> = VecDeque::new();
        items.push_back(value.to_owned());
        proof {
            assert(items.deep_view() =~= seq![value@]);
        }
        self.insert_entry(key.to_owned(), ValueWithTtl { value: Value::List(items), expires_at: None });
    }

    /// `lpush` at instant `now`: prepend to the list under `key`,
    /// reporting the new length. An absent key (or one observed
    /// expired, which is replaced) first gets a fresh list; a live key
    /// of another variant is a mismatch.
    pub fn lpush_at(&mut self, key: &str, value: &str, now: u64) -> (r: Result<usize, StoreError>)
        requires
            old(self).wf(),
            key@.len() > 0,
        ensures
            final(self).wf(),
            lpush_post(old(self)@, key@, value@, now, r, final(self)@),
    {
        let ghost m0 = self@;
        match self.find_index(key) {
            None => {
                self.insert_fresh_list(key, value);
                Ok(1)
            },
            Some(i) => {
                if self.entries[i].1.is_expired_at(now) {
                    let _ = self.remove_entry(i);
                    self.insert_fresh_list(key, value);
                    proof {
                        assert(self@ =~= m0.insert(
                            key@,
                            (EntryModel {
                                value: ValueModel::List(seq![value@]),
                                expires_at: Option::None,
                            }),
                        ));
                    }
                    Ok(1)
                } else {
                    let kd = self.entries[i].1.value.kind();
                    if kd != ValueKind::List {
                        Err(StoreError::TypeMismatch { key: key.to_owned(), found: kd })
                    } else {
                        let (k, entry) = self.remove_entry(i);
                        let ValueWithTtl { value: val, expires_at } = entry;
                        match val {
                            Value::List(mut items) => {
                                let ghost dv = items.deep_view();
                                items.push_front(value.to_owned());
                                proof {
                                    assert(items.deep_view() =~= seq![value@] + dv);
                                }
                                let n = items.len();
                                self.insert_entry(
                                    k,
                                    ValueWithTtl { value: Value::List(items), expires_at },
                                );
                                proof {
                                    assert(self@ =~= m0.insert(
                                        key@,
                                        (EntryModel {
                                            value: ValueModel::List(seq![value@] + dv),
                                            expires_at: m0[key@].expires_at,
                                        }),
                                    ));
                                }
                                Ok(n)
                            },
                            _ => {
                                proof {
                                    assert(false);
                                }
                                Ok(0)
                            },
                        }
                    }
                }
            },
        }
    }

    /// `lpush` at the instant of the call.
    pub fn lpush(&mut self, key: &str, value: &str) -> (r: Result<usize, StoreError>)
        requires
            old(self).wf(),
            key@.len() > 0,
        ensures
            final(self).wf(),
            exists|now: u64| lpush_post(old(self)@, key@, value@, now, r, final(self)@),
    {
        let now = now_millis();
        let r = self.lpush_at(key, value, now);
        proof {
            assert(lpush_post(old(self)@, key@, value@, now, r, self@));
        }
        r
    }

    /// `rpush` at instant `now`: append to the list under `key`;
    /// otherwise as [`Store::lpush_at`].
    pub fn rpush_at(&mut self, key: &str, value: &str, now: u64) -> (r: Result<usize, StoreError>)
        requires
            old(self).wf(),
            key@.len() > 0,
        ensures
            final(self).wf(),
            rpush_post(old(self)@, key@, value@, now, r, final(self)@),
    {
        let ghost m0 = self@;
        match self.find_index(key) {
            None => {
                self.insert_fresh_list(key, value);
                Ok(1)
            },
            Some(i) => {
                if self.entries[i].1.is_expired_at(now) {
                    let _ = self.remove_entry(i);
                    self.insert_fresh_list(key, value);
                    proof {
                        assert(self@ =~= m0.insert(
                            key@,
                            (EntryModel {
                                value: ValueModel::List(seq![value@]),
                                expires_at: Option::None,
                            }),
                        ));
                    }
                    Ok(1)
                } else {
                    let kd = self.entries[i].1.value.kind();
                    if kd != ValueKind::List {
                        Err(StoreError::TypeMismatch { key: key.to_owned(), found: kd })
                    } else {
                        let (k, entry) = self.remove_entry(i);
                        let ValueWithTtl { value: val, expires_at } = entry;
                        match val {
                            Value::List(mut items) => {
                                let ghost dv = items.deep_view();
                                items.push_back(value.to_owned());
                                proof {
                                    assert(items.deep_view() =~= dv.push(value@));
                                }
                                let n = items.len();
                                self.insert_entry(
                                    k,
                                    ValueWithTtl { value: Value::List(items), expires_at },
                                );
                                proof {
                                    assert(self@ =~= m0.insert(
                                        key@,
                                        (EntryModel {
                                            value: ValueModel::List(dv.push(value@)),
                                            expires_at: m0[key@].expires_at,
                                        }),
                                    ));
                                }
                                Ok(n)
                            },
                            _ => {
                                proof {
                                    assert(false);
                                }
                                Ok(0)
                            },
                        }
                    }
                }
            },
        }
    }

    /// `rpush` at the instant of the call.
    pub fn rpush(&mut self, key: &str, value: &str) -> (r: Result<usize, StoreError>)
        requires
            old(self).wf(),
            key@.len() > 0,
        ensures
            final(self).wf(),
            exists|now: u64| rpush_post(old(self)@, key@, value@, now, r, final(self)@),
    {
        let now = now_millis();
        let r = self.rpush_at(key, value, now);
        proof {
            assert(rpush_post(old(self)@, key@, value@, now, r, self@));
        }
        r
    }

    /// `lpop` at instant `now`: remove and return the head of the
    /// list under `key`; `None` when the list is empty or the key
    /// absent or expired; a live key of another variant is a mismatch.
    pub fn lpop_at(&mut self, key: &str, now: u64) -> (r: Result<Option<String>, StoreError>)
        requires
            old(self).wf(),
        ensures
            final(self).wf(),
            lpop_post(old(self)@, key@, now, r, final(self)@),
    {
        let ghost m0 = self@;
        match self.find_index(key) {
            None => Ok(None),
            Some(i) => {
                if self.entries[i].1.is_expired_at(now) {
                    let _ = self.remove_entry(i);
                    Ok(None)
                } else {
                    let kd = self.entries[i].1.value.kind();
                    if kd != ValueKind::List {
                        Err(StoreError::TypeMismatch { key: key.to_owned(), found: kd })
                    } else {
                        let (k, entry) = self.remove_entry(i);
                        let ValueWithTtl { value: val, expires_at } = entry;
                        match val {
                            Value::List(mut items) => {
                                let ghost dv = items.deep_view();
                                let popped = items.pop_front();
                                proof {
                                    if popped is Some {
                                        assert(items.deep_view() =~= dv.subrange(
                                            1,
                                            dv.len() as int,
                                        ));
                                    }
                                }
                                self.insert_entry(
                                    k,
                                    ValueWithTtl { value: Value::List(items), expires_at },
                                );
                                proof {
                                    if popped is Some {
                                        assert(self@ =~= m0.insert(
                                            key@,
                                            (EntryModel {
                                                value: ValueModel::List(
                                                    dv.subrange(1, dv.len() as int),
                                                ),
                                                expires_at: m0[key@].expires_at,
                                            }),
                                        ));
                                    } else {
                                        assert(self@ =~= m0);
                                    }
                                }
                                Ok(popped)
                            },
                            _ => {
                                proof {
                                    assert(false);
                                }
                                Ok(None)
                            },
                        }
                    }
                }
            },
        }
    }

    /// `lpop` at the instant of the call.
    pub fn lpop(&mut self, key: &str) -> (r: Result<Option<String>, StoreError>)
        requires
            old(self).wf(),
        ensures
            final(self).wf(),
            exists|now: u64| lpop_post(old(self)@, key@, now, r, final(self)@),
    {
        let now = now_millis();
        let r = self.lpop_at(key, now);
        proof {
            assert(lpop_post(old(self)@, key@, now, r, self@));
        }
        r
    }

    /// `rpop` at instant `now`: remove and return the tail of the
    /// list under `key`; otherwise as [`Store::lpop_at`].
    pub fn rpop_at(&mut self, key: &str, now: u64) -> (r: Result<Option<String>, StoreError>)
        requires
            old(self).wf(),
        ensures
            final(self).wf(),
            rpop_post(old(self)@, key@, now, r, final(self)@),
    {
        let ghost m0 = self@;
        match self.find_index(key) {
            None => Ok(None),
            Some(i) => {
                if self.entries[i].1.is_expired_at(now) {
                    let _ = self.remove_entry(i);
                    Ok(None)
                } else {
                    let kd = self.entries[i].1.value.kind();
                    if kd != ValueKind::List {
                        Err(StoreError::TypeMismatch { key: key.to_owned(), found: kd })
                    } else {
                        let (k, entry) = self.remove_entry(i);
                        let ValueWithTtl { value: val, expires_at } = entry;
                        match val {
                            Value::List(mut items) => {
                                let ghost dv = items.deep_view();
                                let popped = items.pop_back();
                                proof {
                                    if popped is Some {
                                        assert(items.deep_view() =~= dv.subrange(
                                            0,
                                            dv.len() - 1,
                                        ));
                                    }
                                }
                                self.insert_entry(
                                    k,
                                    ValueWithTtl { value: Value::List(items), expires_at },
                                );
                                proof {
                                    if popped is Some {
                                        assert(self@ =~= m0.insert(
                                            key@,
                                            (EntryModel {
                                                value: ValueModel::List(
                                                    dv.subrange(0, dv.len() - 1),
                                                ),
                                                expires_at: m0[key@].expires_at,
                                            }),
                                        ));
                                    } else {
                                        assert(self@ =~= m0);
                                    }
                                }
                                Ok(popped)
                            },
                            _ => {
                                proof {
                                    assert(false);
                                }
                                Ok(None)
                            },
                        }
                    }
                }
            },
        }
    }

    /// `rpop` at the instant of the call.
    pub fn rpop(&mut self, key: &str) -> (r: Result<Option<String>, StoreError>)
        requires
            old(self).wf(),
        ensures
            final(self).wf(),
            exists|now: u64| rpop_post(old(self)@, key@, now, r, final(self)@),
    {
        let now = now_millis();
        let r = self.rpop_at(key, now);
        proof {
            assert(rpop_post(old(self)@, key@, now, r, self@));
        }
        r
    }

    /// `llen` at instant `now`: the length of the list under `key`;
    /// `0` for an absent or expired key.
    pub fn llen_at(&mut self, key: &str, now: u64) -> (r: Result<usize, StoreError>)
        requires
            old(self).wf(),
        ensures
            final(self).wf(),
            llen_post(old(self)@, key@, now, r, final(self)@),
    {
        match self.find_index(key) {
            None => Ok(0),
            Some(i) => {
                if self.entries[i].1.is_expired_at(now) {
                    let _ = self.remove_entry(i);
                    Ok(0)
                } else {
                    match &self.entries[i].1.value {
                        Value::List(items) => Ok(items.len()),
                        Value::Str(_) => Err(
                            StoreError::TypeMismatch { key: key.to_owned(), found: ValueKind::Str },
                        ),
                        Value::Hash(_) => Err(
                            StoreError::TypeMismatch { key: key.to_owned(), found: ValueKind::Hash },
                        ),
                    }
                }
            },
        }
    }

    /// `llen` at the instant of the call.
    pub fn llen(&mut self, key: &str) -> (r: Result<usize, StoreError>)
        requires
            old(self).wf(),
        ensures
            final(self).wf(),
            exists|now: u64| llen_post(old(self)@, key@, now, r, final(self)@),
    {
        let now = now_millis();
        let r = self.llen_at(key, now);
        proof {
            assert(llen_post(old(self)@, key@, now, r, self@));
        }
        r
    }

    /// `lrange` at instant `now`: the inclusive slice `[start, stop]`
    /// of the list under `key`, with negative indices counting from
    /// the end; an absent or expired key yields an empty slice.
    pub fn lrange_at(&mut self, key: &str, start: i64, stop: i64, now: u64) -> (r: Result<
        Vec<String>,
        StoreError,
    >)
        requires
            old(self).wf(),
        ensures
            final(self).wf(),
            lrange_post(old(self)@, key@, start, stop, now, r, final(self)@),
    {
        match self.find_index(key) {
            None => {
                let empty: Vec<String> = Vec::new();
                proof {
                    assert(empty.deep_view() =~= Seq::<Seq<char>>::empty());
                }
                Ok(empty)
            },
            Some(i) => {
                if self.entries[i].1.is_expired_at(now) {
                    let _ = self.remove_entry(i);
                    let empty: Vec<String> = Vec::new();
                    proof {
                        assert(empty.deep_view() =~= Seq::<Seq<char>>::empty());
                    }
                    Ok(empty)
                } else {
                    match &self.entries[i].1.value {
                        Value::Str(_) => Err(
                            StoreError::TypeMismatch { key: key.to_owned(), found: ValueKind::Str },
                        ),
                        Value::Hash(_) => Err(
                            StoreError::TypeMismatch { key: key.to_owned(), found: ValueKind::Hash },
                        ),
                        Value::List(items) => {
                            let ghost dv = items.deep_view();
                            let len = items.len();
                            if len == 0 {
                                let empty: Vec<String> = Vec::new();
                                proof {
                                    assert(empty.deep_view() =~= Seq::<Seq<char>>::empty());
                                }
                                return Ok(empty);
                            }
                            let leni: i128 = len as i128;
                            let s128: i128 = if start < 0 {
                                let t = leni + start as i128;
                                if t < 0 {
                                    0
                                } else {
                                    t
                                }
                            } else {
                                if start as i128 > leni {
                                    leni
                                } else {
                                    start as i128
                                }
                            };
                            let t128: i128 = if stop < 0 {
                                let t = leni + stop as i128;
                                if t < 0 {
                                    0
                                } else {
                                    t
                                }
                            } else {
                                if stop as i128 > leni - 1 {
                                    leni - 1
                                } else {
                                    stop as i128
                                }
                            };
                            if s128 > t128 {
                                let empty: Vec<String> = Vec::new();
                                proof {
                                    assert(empty.deep_view() =~= Seq::<Seq<char>>::empty());
                                }
                                return Ok(empty);
                            }
                            let lo = s128 as usize;
                            let hi = t128 as usize;
                            let mut out: Vec<String> = Vec::new();
                            proof {
                                assert(out.deep_view() =~= dv.subrange(lo as int, lo as int));
                            }
                            let mut j: usize = lo;
                            while j <= hi
                                invariant
                                    lo <= j <= hi + 1,
                                    hi < len,
                                    len == items@.len(),
                                    dv == items.deep_view(),
                                    out.deep_view() == dv.subrange(lo as int, j as int),
                                decreases hi + 1 - j,
                            {
                                out.push(items[j].clone());
                                proof {
                                    assert(dv.subrange(lo as int, j + 1) =~= dv.subrange(
                                        lo as int,
                                        j as int,
                                    ).push(dv[j as int]));
                                    assert(out.deep_view() =~= dv.subrange(lo as int, j + 1));
                                }
                                j += 1;
                            }
                            Ok(out)
                        },
                    }
                }
            },
        }
    }

    /// `lrange` at the instant of the call.
    pub fn lrange(&mut self, key: &str, start: i64, stop: i64) -> (r: Result<
        Vec<String>,
        StoreError,
    >)
        requires
            old(self).wf(),
        ensures
            final(self).wf(),
            exists|now: u64| lrange_post(old(self)@, key@, start, stop, now, r, final(self)@),
    {
        let now = now_millis();
        let r = self.lrange_at(key, start, stop, now);
        proof {
            assert(lrange_post(old(self)@, key@, start, stop, now, r, self@));
        }
        r
    }

    /// `flush_all`: a second name for [`Store::clear`].
    pub fn flush_all(&mut self) -> (r: Result<(), StoreError>)
        requires
            old(self).wf(),
        ensures
            final(self).wf(),
            r is Ok,
            final(self)@ == op_clear(old(self)@),
    {
        self.clear()
    }
}

} // verus!
