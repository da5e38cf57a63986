//! The mathematical model of the engine.
//!
//! A store is modelled as a `Map` from key (a character sequence) to
//! [`EntryModel`]; each operation of the engine has a spec function here
//! that gives its result and the store it leaves behind. The executable
//! methods in `store` ensure exactly these functions, and the laws in
//! `laws` are proved from them.

use vstd::prelude::*;

use crate::pattern::spec_pattern_matches;
use crate::text::info_text;

verus! {

/// The variant a stored value can take, used to report a type mismatch.
#[derive(Clone, Copy, Debug, PartialEq, Eq, Structural)]
pub enum ValueKind {
    Str,
    Hash,
    List,
}

/// Model of a stored value: an opaque text, a field-to-text mapping, or
/// an ordered sequence of texts.
pub enum ValueModel {
    Str(Seq<char>),
    Hash(Map<Seq<char>, Seq<char>>),
    List(Seq<Seq<char>>),
}

impl ValueModel {
    /// The variant tag of this value.
    pub open spec fn kind(self) -> ValueKind {
        match self {
            ValueModel::Str(_) => ValueKind::Str,
            ValueModel::Hash(_) => ValueKind::Hash,
            ValueModel::List(_) => ValueKind::List,
        }
    }
}

/// Model of an entry: a value plus an optional absolute expiration
/// instant in milliseconds. An entry with no expiration never expires.
pub struct EntryModel {
    pub value: ValueModel,
    pub expires_at: Option<u64>,
}

/// The whole engine state: a mapping from key to entry.
pub type StoreModel = Map<Seq<char>, EntryModel>;

/// An entry is expired once the current time is at or past its
/// expiration instant; an entry with no expiration never expires.
pub open spec fn expired_at(e: EntryModel, now: u64) -> bool {
    match e.expires_at {
        Option::None => false,
        Option::Some(t) => now >= t,
    }
}

/// The absolute expiration instant reached `ttl_seconds` after `now`,
/// saturating at the largest representable instant.
pub open spec fn sat_deadline(now: u64, ttl_seconds: u64) -> u64 {
    if now + ttl_seconds * 1000 <= u64::MAX {
        (now + ttl_seconds * 1000) as u64
    } else {
        u64::MAX
    }
}

/// Remaining life of an entry at `now`: `None` when no expiration is
/// set, `-1` when expired, otherwise the remaining time in whole
/// seconds rounded up (never `0` for a live entry).
pub open spec fn remaining_ttl(e: EntryModel, now: u64) -> Option<i64> {
    match e.expires_at {
        Option::None => Option::None,
        Option::Some(t) => if now >= t {
            Option::Some(-1 as i64)
        } else {
            Option::Some((((t - now - 1) / 1000) + 1) as i64)
        },
    }
}

/// The keys of `m` that are live (present and not expired) at `now`.
pub open spec fn live_dom(m: StoreModel, now: u64) -> Set<Seq<char>> {
    Set::new(|k: Seq<char>| m.dom().contains(k) && !expired_at(m[k], now))
}

/// The store after a full lazy sweep at `now`: only live entries remain.
pub open spec fn sweep(m: StoreModel, now: u64) -> StoreModel {
    m.restrict(live_dom(m, now))
}

/// Removing an entry that is expired does not change the swept store.
pub proof fn lemma_sweep_remove_expired(m: StoreModel, k: Seq<char>, now: u64)
    requires
        m.dom().contains(k),
        expired_at(m[k], now),
    ensures
        sweep(m.remove(k), now) == sweep(m, now),
{
    assert(sweep(m.remove(k), now) =~= sweep(m, now));
}

/// `set`: unconditionally create or replace a string entry with no
/// expiration.
pub open spec fn op_set(m: StoreModel, k: Seq<char>, v: Seq<char>) -> StoreModel {
    m.insert(k, EntryModel { value: ValueModel::Str(v), expires_at: Option::None })
}

/// `set_with_ttl`: as `op_set`, but the entry expires `ttl_seconds`
/// after `now`.
pub open spec fn op_set_with_ttl(
    m: StoreModel,
    k: Seq<char>,
    v: Seq<char>,
    ttl_seconds: u64,
    now: u64,
) -> StoreModel {
    m.insert(
        k,
        EntryModel {
            value: ValueModel::Str(v),
            expires_at: Option::Some(sat_deadline(now, ttl_seconds)),
        },
    )
}

/// `get`: the string under `k`, `None` when absent or expired (an
/// expired entry is removed), a type mismatch when the key holds a hash
/// or a list.
pub open spec fn op_get(m: StoreModel, k: Seq<char>, now: u64) -> (Result<
    Option<Seq<char>>,
    ValueKind,
>, StoreModel) {
    if !m.dom().contains(k) {
        (Result::Ok(Option::None), m)
    } else if expired_at(m[k], now) {
        (Result::Ok(Option::None), m.remove(k))
    } else {
        match m[k].value {
            ValueModel::Str(s) => (Result::Ok(Option::Some(s)), m),
            v => (Result::Err(v.kind()), m),
        }
    }
}

/// `ttl`: `None` when the key is absent or carries no expiration,
/// `-1` when present but expired (the entry is then removed), otherwise
/// the remaining whole seconds, rounded up.
pub open spec fn op_ttl(m: StoreModel, k: Seq<char>, now: u64) -> (Option<i64>, StoreModel) {
    if !m.dom().contains(k) {
        (Option::None, m)
    } else if expired_at(m[k], now) {
        (Option::Some(-1 as i64), m.remove(k))
    } else {
        (remaining_ttl(m[k], now), m)
    }
}

/// `expire`: set or refresh the expiration of an existing key,
/// whatever its variant; `false` when the key is absent. An entry that
/// is already expired but not yet removed is revived.
pub open spec fn op_expire(m: StoreModel, k: Seq<char>, ttl_seconds: u64, now: u64) -> (
    bool,
    StoreModel,
) {
    if m.dom().contains(k) {
        (
            true,
            m.insert(
                k,
                EntryModel {
                    value: m[k].value,
                    expires_at: Option::Some(sat_deadline(now, ttl_seconds)),
                },
            ),
        )
    } else {
        (false, m)
    }
}

/// What `delete` reports of a removed value.
pub open spec fn deleted_repr(v: ValueModel) -> Seq<char> {
    match v {
        ValueModel::Str(s) => s,
        _ => "(non-string)"@,
    }
}

/// `delete`: remove the key whatever its variant or expiration state,
/// reporting what was stored; `None` when absent.
pub open spec fn op_delete(m: StoreModel, k: Seq<char>) -> (Option<Seq<char>>, StoreModel) {
    if m.dom().contains(k) {
        (Option::Some(deleted_repr(m[k].value)), m.remove(k))
    } else {
        (Option::None, m)
    }
}

/// `exists`: `true` exactly when the key is present and not expired;
/// an expired entry observed here is removed.
pub open spec fn op_exists(m: StoreModel, k: Seq<char>, now: u64) -> (bool, StoreModel) {
    if !m.dom().contains(k) {
        (false, m)
    } else if expired_at(m[k], now) {
        (false, m.remove(k))
    } else {
        (true, m)
    }
}

/// `list_keys`: every live key, after a full lazy sweep.
pub open spec fn op_list_keys(m: StoreModel, now: u64) -> (Set<Seq<char>>, StoreModel) {
    (live_dom(m, now), sweep(m, now))
}

/// `count`: the number of live keys, after a full lazy sweep.
pub open spec fn op_count(m: StoreModel, now: u64) -> (nat, StoreModel) {
    (sweep(m, now).len(), sweep(m, now))
}

/// `keys`: the live keys matching `p`, after a full lazy sweep.
pub open spec fn op_keys(m: StoreModel, p: Seq<char>, now: u64) -> (Set<Seq<char>>, StoreModel) {
    (
        Set::new(|k: Seq<char>| live_dom(m, now).contains(k) && spec_pattern_matches(k, p)),
        sweep(m, now),
    )
}

/// `clear`: remove every entry unconditionally.
pub open spec fn op_clear(m: StoreModel) -> StoreModel {
    Map::empty()
}

/// `info`: the diagnostic summary for the live key count, after a full
/// lazy sweep.
pub open spec fn op_info(m: StoreModel, now: u64) -> (Seq<char>, StoreModel) {
    (info_text(sweep(m, now).len()), sweep(m, now))
}

/// Field lookup within a hash value.
pub open spec fn hash_lookup(h: Map<Seq<char>, Seq<char>>, f: Seq<char>) -> Option<Seq<char>> {
    if h.dom().contains(f) {
        Option::Some(h[f])
    } else {
        Option::None
    }
}

/// `hset`: write one field of the hash under `k`, reporting whether the
/// field is new. An absent key (or one whose entry is observed expired)
/// first gets a fresh empty hash with no expiration; a live key of
/// another variant is a mismatch.
pub open spec fn op_hset(
    m: StoreModel,
    k: Seq<char>,
    f: Seq<char>,
    v: Seq<char>,
    now: u64,
) -> (Result<bool, ValueKind>, StoreModel) {
    if m.dom().contains(k) && !expired_at(m[k], now) {
        match m[k].value {
            ValueModel::Hash(h) => (
                Result::Ok(!h.dom().contains(f)),
                m.insert(
                    k,
                    EntryModel { value: ValueModel::Hash(h.insert(f, v)), expires_at: m[k].expires_at },
                ),
            ),
            other => (Result::Err(other.kind()), m),
        }
    } else {
        (
            Result::Ok(true),
            m.insert(
                k,
                EntryModel {
                    value: ValueModel::Hash(Map::<Seq<char>, Seq<char>>::empty().insert(f, v)),
                    expires_at: Option::None,
                },
            ),
        )
    }
}

/// `hget`: one field of the hash under `k`; absence of key or field is
/// `None`, a live key of another variant is a mismatch.
pub open spec fn op_hget(m: StoreModel, k: Seq<char>, f: Seq<char>, now: u64) -> (Result<
    Option<Seq<char>>,
    ValueKind,
>, StoreModel) {
    if !m.dom().contains(k) {
        (Result::Ok(Option::None), m)
    } else if expired_at(m[k], now) {
        (Result::Ok(Option::None), m.remove(k))
    } else {
        match m[k].value {
            ValueModel::Hash(h) => (Result::Ok(hash_lookup(h, f)), m),
            other => (Result::Err(other.kind()), m),
        }
    }
}

/// `hgetall`: the whole hash under `k`; an absent or expired key reads
/// as an empty hash.
pub open spec fn op_hgetall(m: StoreModel, k: Seq<char>, now: u64) -> (Result<
    Map<Seq<char>, Seq<char>>,
    ValueKind,
>, StoreModel) {
    if !m.dom().contains(k) {
        (Result::Ok(Map::empty()), m)
    } else if expired_at(m[k], now) {
        (Result::Ok(Map::empty()), m.remove(k))
    } else {
        match m[k].value {
            ValueModel::Hash(h) => (Result::Ok(h), m),
            other => (Result::Err(other.kind()), m),
        }
    }
}

/// `hdel`: remove one field, reporting whether it was there; an absent
/// or expired key reads as an empty hash.
pub open spec fn op_hdel(m: StoreModel, k: Seq<char>, f: Seq<char>, now: u64) -> (Result<
    bool,
    ValueKind,
>, StoreModel) {
    if !m.dom().contains(k) {
        (Result::Ok(false), m)
    } else if expired_at(m[k], now) {
        (Result::Ok(false), m.remove(k))
    } else {
        match m[k].value {
            ValueModel::Hash(h) => (
                Result::Ok(h.dom().contains(f)),
                m.insert(
                    k,
                    EntryModel { value: ValueModel::Hash(h.remove(f)), expires_at: m[k].expires_at },
                ),
            ),
            other => (Result::Err(other.kind()), m),
        }
    }
}

/// `hexists`: whether the hash under `k` holds field `f`.
pub open spec fn op_hexists(m: StoreModel, k: Seq<char>, f: Seq<char>, now: u64) -> (Result<
    bool,
    ValueKind,
>, StoreModel) {
    if !m.dom().contains(k) {
        (Result::Ok(false), m)
    } else if expired_at(m[k], now) {
        (Result::Ok(false), m.remove(k))
    } else {
        match m[k].value {
            ValueModel::Hash(h) => (Result::Ok(h.dom().contains(f)), m),
            other => (Result::Err(other.kind()), m),
        }
    }
}

/// `hlen`: how many fields the hash under `k` holds.
pub open spec fn op_hlen(m: StoreModel, k: Seq<char>, now: u64) -> (Result<nat, ValueKind>, StoreModel) {
    if !m.dom().contains(k) {
        (Result::Ok(0), m)
    } else if expired_at(m[k], now) {
        (Result::Ok(0), m.remove(k))
    } else {
        match m[k].value {
            ValueModel::Hash(h) => (Result::Ok(h.len()), m),
            other => (Result::Err(other.kind()), m),
        }
    }
}

/// `lpush`: prepend to the list under `k`, reporting the new length.
/// An absent key (or one observed expired) first gets a fresh empty
/// list with no expiration; a live key of another variant is a
/// mismatch.
pub open spec fn op_lpush(m: StoreModel, k: Seq<char>, v: Seq<char>, now: u64) -> (Result<
    nat,
    ValueKind,
>, StoreModel) {
    if m.dom().contains(k) && !expired_at(m[k], now) {
        match m[k].value {
            ValueModel::List(items) => (
                Result::Ok(items.len() + 1),
                m.insert(
                    k,
                    EntryModel {
                        value: ValueModel::List(seq![v] + items),
                        expires_at: m[k].expires_at,
                    },
                ),
            ),
            other => (Result::Err(other.kind()), m),
        }
    } else {
        (
            Result::Ok(1),
            m.insert(
                k,
                EntryModel { value: ValueModel::List(seq![v]), expires_at: Option::None },
            ),
        )
    }
}

/// `rpush`: append to the list under `k`; otherwise as `op_lpush`.
pub open spec fn op_rpush(m: StoreModel, k: Seq<char>, v: Seq<char>, now: u64) -> (Result<
    nat,
    ValueKind,
>, StoreModel) {
    if m.dom().contains(k) && !expired_at(m[k], now) {
        match m[k].value {
            ValueModel::List(items) => (
                Result::Ok(items.len() + 1),
                m.insert(
                    k,
                    EntryModel {
                        value: ValueModel::List(items.push(v)),
                        expires_at: m[k].expires_at,
                    },
                ),
            ),
            other => (Result::Err(other.kind()), m),
        }
    } else {
        (
            Result::Ok(1),
            m.insert(
                k,
                EntryModel { value: ValueModel::List(seq![v]), expires_at: Option::None },
            ),
        )
    }
}

/// `lpop`: remove and return the head of the list under `k`; `None`
/// when the list is empty or the key absent or expired.
pub open spec fn op_lpop(m: StoreModel, k: Seq<char>, now: u64) -> (Result<
    Option<Seq<char>>,
    ValueKind,
>, StoreModel) {
    if !m.dom().contains(k) {
        (Result::Ok(Option::None), m)
    } else if expired_at(m[k], now) {
        (Result::Ok(Option::None), m.remove(k))
    } else {
        match m[k].value {
            ValueModel::List(items) => if items.len() == 0 {
                (Result::Ok(Option::None), m)
            } else {
                (
                    Result::Ok(Option::Some(items[0])),
                    m.insert(
                        k,
                        EntryModel {
                            value: ValueModel::List(items.subrange(1, items.len() as int)),
                            expires_at: m[k].expires_at,
                        },
                    ),
                )
            },
            other => (Result::Err(other.kind()), m),
        }
    }
}

/// `rpop`: remove and return the tail of the list under `k`; otherwise
/// as `op_lpop`.
pub open spec fn op_rpop(m: StoreModel, k: Seq<char>, now: u64) -> (Result<
    Option<Seq<char>>,
    ValueKind,
>, StoreModel) {
    if !m.dom().contains(k) {
        (Result::Ok(Option::None), m)
    } else if expired_at(m[k], now) {
        (Result::Ok(Option::None), m.remove(k))
    } else {
        match m[k].value {
            ValueModel::List(items) => if items.len() == 0 {
                (Result::Ok(Option::None), m)
            } else {
                (
                    Result::Ok(Option::Some(items[items.len() - 1])),
                    m.insert(
                        k,
                        EntryModel {
                            value: ValueModel::List(items.subrange(0, items.len() - 1)),
                            expires_at: m[k].expires_at,
                        },
                    ),
                )
            },
            other => (Result::Err(other.kind()), m),
        }
    }
}

/// `llen`: the length of the list under `k`; `0` when absent or
/// expired.
pub open spec fn op_llen(m: StoreModel, k: Seq<char>, now: u64) -> (Result<nat, ValueKind>, StoreModel) {
    if !m.dom().contains(k) {
        (Result::Ok(0), m)
    } else if expired_at(m[k], now) {
        (Result::Ok(0), m.remove(k))
    } else {
        match m[k].value {
            ValueModel::List(items) => (Result::Ok(items.len()), m),
            other => (Result::Err(other.kind()), m),
        }
    }
}

/// The inclusive slice `[start, stop]` of a list, with negative
/// indices counting from the end: a negative index is clamped below by
/// the start of the list, a positive `start` by the length and a
/// positive `stop` by the last element. An inverted range is empty.
pub open spec fn lrange_slice(items: Seq<Seq<char>>, start: int, stop: int) -> Seq<Seq<char>> {
    let len = items.len() as int;
    if len == 0 {
        Seq::empty()
    } else {
        let lo = if start < 0 {
            if len + start < 0 {
                0
            } else {
                len + start
            }
        } else {
            if start > len {
                len
            } else {
                start
            }
        };
        let hi = if stop < 0 {
            if len + stop < 0 {
                0
            } else {
                len + stop
            }
        } else {
            if stop > len - 1 {
                len - 1
            } else {
                stop
            }
        };
        if lo > hi {
            Seq::empty()
        } else {
            items.subrange(lo, hi + 1)
        }
    }
}

/// `lrange`: the inclusive slice of the list under `k`, per
/// [`lrange_slice`]; an absent or expired key yields an empty slice.
pub open spec fn op_lrange(m: StoreModel, k: Seq<char>, start: int, stop: int, now: u64) -> (Result<
    Seq<Seq<char>>,
    ValueKind,
>, StoreModel) {
    if !m.dom().contains(k) {
        (Result::Ok(Seq::empty()), m)
    } else if expired_at(m[k], now) {
        (Result::Ok(Seq::empty()), m.remove(k))
    } else {
        match m[k].value {
            ValueModel::List(items) => (Result::Ok(lrange_slice(items, start, stop)), m),
            other => (Result::Err(other.kind()), m),
        }
    }
}

} // verus!
