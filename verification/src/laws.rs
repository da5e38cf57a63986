//! The laws that relate the engine's operations to each other, proved
//! over the model in [`crate::model`]. Each executable method ensures
//! the corresponding `op_...` function exactly, so these laws carry
//! over to any sequence of calls.

use vstd::prelude::*;

use crate::model::{
    expired_at, op_delete, op_get, op_hset, op_lpush, op_lrange, op_rpush, op_set,
    op_set_with_ttl, op_ttl, sat_deadline, StoreModel, ValueKind, ValueModel,
};

verus! {

/// Writing a key and reading it straight back yields exactly the
/// written value, at any instant: a plain `set` never expires.
pub proof fn lemma_set_then_get(m: StoreModel, k: Seq<char>, v: Seq<char>, now: u64)
    ensures
        ({
            let m2 = op_set(m, k, v);
            let (r, m3) = op_get(m2, k, now);
            r == Result::<Option<Seq<char>>, ValueKind>::Ok(Option::Some(v)) && m3 == m2
        }),
{
}

/// Setting a key with a positive time to live and asking at the same
/// instant reports a remaining life within `[1, ttl]` — exactly `ttl`
/// when the deadline does not saturate — and leaves the store
/// unchanged. The one instant left out is the largest representable
/// one, at which every deadline is already in the past.
pub proof fn lemma_set_with_ttl_then_ttl(
    m: StoreModel,
    k: Seq<char>,
    v: Seq<char>,
    ttl_seconds: u64,
    now: u64,
)
    requires
        1 <= ttl_seconds,
        now < u64::MAX,
    ensures
        ({
            let m2 = op_set_with_ttl(m, k, v, ttl_seconds, now);
            let (r, m3) = op_ttl(m2, k, now);
            m3 == m2 && (r matches Option::Some(t) && 1 <= t <= ttl_seconds)
        }),
        now + ttl_seconds * 1000 <= u64::MAX ==> op_ttl(
            op_set_with_ttl(m, k, v, ttl_seconds, now),
            k,
            now,
        ).0 == Option::Some(ttl_seconds as i64),
{
    let m2 = op_set_with_ttl(m, k, v, ttl_seconds, now);
    let t = sat_deadline(now, ttl_seconds);
    assert(ttl_seconds * 1000 >= 1000) by (nonlinear_arith)
        requires
            1 <= ttl_seconds,
    ;
    assert(t > now);
    let d = t - now;
    assert(d <= ttl_seconds * 1000);
    assert((d - 1) / 1000 + 1 <= ttl_seconds) by (nonlinear_arith)
        requires
            1 <= d <= ttl_seconds * 1000,
            1 <= ttl_seconds,
    ;
    if now + ttl_seconds * 1000 <= u64::MAX {
        assert(d == ttl_seconds * 1000);
        assert((ttl_seconds * 1000 - 1) / 1000 + 1 == ttl_seconds) by (nonlinear_arith)
            requires
                1 <= ttl_seconds <= u64::MAX,
        ;
    }
}

/// Once the expiration instant is reached, the key reads as absent:
/// `get` yields nothing and removes the entry; `ttl` reports the
/// reserved `-1` on its first touch and removes the entry, then
/// reports `None` once the entry is gone.
pub proof fn lemma_set_with_ttl_then_expired(
    m: StoreModel,
    k: Seq<char>,
    v: Seq<char>,
    ttl_seconds: u64,
    now: u64,
    later: u64,
)
    requires
        later >= sat_deadline(now, ttl_seconds),
    ensures
        ({
            let m2 = op_set_with_ttl(m, k, v, ttl_seconds, now);
            let gone = m2.remove(k);
            op_get(m2, k, later) == (Result::<Option<Seq<char>>, ValueKind>::Ok(Option::None), gone)
                && op_ttl(m2, k, later) == (Option::Some(-1 as i64), gone)
                && op_ttl(gone, k, later) == (Option::<i64>::None, gone)
        }),
{
}

/// Deleting a key twice returns what it held the first time and
/// nothing the second: after the first call the key is gone and a
/// second call changes nothing.
pub proof fn lemma_delete_idempotent(m: StoreModel, k: Seq<char>)
    ensures
        ({
            let (r1, m1) = op_delete(m, k);
            let (r2, m2) = op_delete(m1, k);
            (m.dom().contains(k) <==> r1 is Some) && !m1.dom().contains(k)
                && r2 is None && m2 == m1
        }),
{
}

/// The full range `[0, -1]` of a live list key is the whole list in
/// head-to-tail order, and of an absent key the empty sequence, never
/// an error.
pub proof fn lemma_lrange_full(m: StoreModel, k: Seq<char>, now: u64)
    ensures
        (m.dom().contains(k) && !expired_at(m[k], now) && m[k].value is List) ==> op_lrange(
            m,
            k,
            0,
            -1,
            now,
        ) == (Result::<Seq<Seq<char>>, ValueKind>::Ok(m[k].value->List_0), m),
        !m.dom().contains(k) ==> op_lrange(m, k, 0, -1, now) == (
            Result::<Seq<Seq<char>>, ValueKind>::Ok(Seq::<Seq<char>>::empty()),
            m,
        ),
{
    if m.dom().contains(k) && !expired_at(m[k], now) && m[k].value is List {
        let items = m[k].value->List_0;
        if items.len() == 0 {
            assert(items =~= Seq::<Seq<char>>::empty());
        } else {
            assert(items.subrange(0, items.len() as int) =~= items);
        }
    }
}

/// A key created by `hset` is isolated from the other families: `get`
/// and `lpush` on it report a mismatch naming the hash variant, and
/// leave the store unchanged.
pub proof fn lemma_type_isolation_hash(
    m: StoreModel,
    k: Seq<char>,
    f: Seq<char>,
    v: Seq<char>,
    w: Seq<char>,
    now: u64,
)
    requires
        !m.dom().contains(k),
    ensures
        ({
            let (r1, m1) = op_hset(m, k, f, v, now);
            r1 == Result::<bool, ValueKind>::Ok(true) && op_get(m1, k, now) == (
                Result::<Option<Seq<char>>, ValueKind>::Err(ValueKind::Hash),
                m1,
            ) && op_lpush(m1, k, w, now) == (Result::<nat, ValueKind>::Err(ValueKind::Hash), m1)
        }),
{
}

/// A key created by `set` is isolated from the other families: `hset`
/// and `lpush` on it report a mismatch naming the string variant, and
/// leave the store unchanged.
pub proof fn lemma_type_isolation_string(
    m: StoreModel,
    k: Seq<char>,
    v: Seq<char>,
    f: Seq<char>,
    w: Seq<char>,
    now: u64,
)
    ensures
        ({
            let m1 = op_set(m, k, v);
            op_hset(m1, k, f, w, now) == (Result::<bool, ValueKind>::Err(ValueKind::Str), m1)
                && op_lpush(m1, k, w, now) == (Result::<nat, ValueKind>::Err(ValueKind::Str), m1)
        }),
{
}

/// A key created by `rpush` is isolated from the other families:
/// `get` and `hset` on it report a mismatch naming the list variant,
/// and leave the store unchanged.
pub proof fn lemma_type_isolation_list(
    m: StoreModel,
    k: Seq<char>,
    v: Seq<char>,
    f: Seq<char>,
    w: Seq<char>,
    now: u64,
)
    requires
        !m.dom().contains(k),
    ensures
        ({
            let (r1, m1) = op_rpush(m, k, v, now);
            r1 == Result::<nat, ValueKind>::Ok(1) && op_get(m1, k, now) == (
                Result::<Option<Seq<char>>, ValueKind>::Err(ValueKind::List),
                m1,
            ) && op_hset(m1, k, f, w, now) == (Result::<bool, ValueKind>::Err(ValueKind::List), m1)
        }),
{
}

/// Writers of distinct keys do not disturb each other: after both
/// writes, each key reads back its own value, whatever the order the
/// lock serialised the writes into.
pub proof fn lemma_disjoint_writes_independent(
    m: StoreModel,
    k1: Seq<char>,
    v1: Seq<char>,
    k2: Seq<char>,
    v2: Seq<char>,
    now: u64,
)
    requires
        k1 != k2,
    ensures
        ({
            let m2 = op_set(op_set(m, k1, v1), k2, v2);
            op_get(m2, k1, now).0 == Result::<Option<Seq<char>>, ValueKind>::Ok(Option::Some(v1))
                && op_get(m2, k2, now).0 == Result::<Option<Seq<char>>, ValueKind>::Ok(
                Option::Some(v2),
            ) && m2.dom() == m.dom().insert(k1).insert(k2)
        }),
{
    let m2 = op_set(op_set(m, k1, v1), k2, v2);
    assert(m2.dom() =~= m.dom().insert(k1).insert(k2));
}

} // verus!
