//! Scope-keyed, expiry-aware token cache.
//!
//! An in-memory mapping from a scope-sequence key to the most recently
//! obtained token for that exact key. A lookup serves a token only while it
//! remains valid for the caller's requested minimum remaining lifetime;
//! expired entries are removed, not just hidden, during every store.
//!
//! The key is the scope sequence verbatim: two lookups with the same scopes
//! in the same order hit the same entry, and no set-normalization or subset
//! matching is performed — requesting `["a","b"]` and `["b","a"]` makes two
//! distinct entries, by design.

use super::Token;
use vstd::prelude::*;

verus! {

/// What a lookup of `key` in the mapping `m` returns at time `now`, when the
/// caller asks for at least `lifetime` seconds of remaining validity: the
/// stored token, but only if it expires strictly after `now + lifetime`.
pub open spec fn cache_lookup(
    m: Map<Seq<Seq<char>>, Token>,
    key: Seq<Seq<char>>,
    lifetime: i64,
    now: i64,
) -> Option<Token> {
    if m.contains_key(key) && m[key].expires_at > now + lifetime {
        Some(m[key])
    } else {
        None
    }
}

/// The mapping after storing `token` under `key` at time `now`: the entry
/// for `key` is inserted or overwritten, and then every entry whose token
/// expired at or before `now` is swept out — including, if already expired,
/// the entry just inserted.
pub open spec fn cache_store(
    m: Map<Seq<Seq<char>>, Token>,
    key: Seq<Seq<char>>,
    token: Token,
    now: i64,
) -> Map<Seq<Seq<char>>, Token> {
    let inserted = m.insert(key, token);
    Map::new(
        |k: Seq<Seq<char>>| inserted.contains_key(k) && inserted[k].expires_at > now,
        |k: Seq<Seq<char>>| inserted[k],
    )
}

/// An association list represents a map only when its keys are pairwise
/// distinct.
pub open spec fn wf_entries(s: Seq<(Vec<String>, Token)>) -> bool {
    forall|i: int, j: int|
        0 <= i < j < s.len() ==> s[i].0.deep_view() != s[j].0.deep_view()
}

/// The mapping that an association list of entries represents.
pub open spec fn entries_map(s: Seq<(Vec<String>, Token)>) -> Map<Seq<Seq<char>>, Token> {
    Map::new(
        |k: Seq<Seq<char>>| exists|i: int| 0 <= i < s.len() && s[i].0.deep_view() == k,
        |k: Seq<Seq<char>>|
            {
                let i = choose|i: int| 0 <= i < s.len() && s[i].0.deep_view() == k;
                s[i].1
            },
    )
}

/// With pairwise-distinct keys, each entry is exactly the binding of its key.
proof fn lemma_entries_map_at(s: Seq<(Vec<String>, Token)>, i: int)
    requires
        wf_entries(s),
        0 <= i < s.len(),
    ensures
        entries_map(s).contains_key(s[i].0.deep_view()),
        entries_map(s)[s[i].0.deep_view()] == s[i].1,
{
    let k = s[i].0.deep_view();
    assert(entries_map(s).contains_key(k));
    let w = choose|w: int| 0 <= w < s.len() && s[w].0.deep_view() == k;
    if w != i {
        if w < i {
            assert(s[w].0.deep_view() != s[i].0.deep_view());
        } else {
            assert(s[i].0.deep_view() != s[w].0.deep_view());
        }
    }
}

/// Process-local token cache; initialized empty, torn down with its owner.
/// Its abstract value is a mapping from scope-sequence keys to tokens.
pub struct Cache {
    entries: Vec<(Vec<String>, Token)>,
}

impl Cache {
    /// Structural invariant: the association list has pairwise-distinct keys.
    pub closed spec fn wf(&self) -> bool {
        wf_entries(self.entries@)
    }

    pub closed spec fn view(&self) -> Map<Seq<Seq<char>>, Token> {
        entries_map(self.entries@)
    }

    /// An empty cache.
    pub fn new() -> (r: Cache)
        ensures
            r.wf(),
            r@ == Map::<Seq<Seq<char>>, Token>::empty(),
    {
        let r = Cache { entries: Vec::new() };
        proof {
            assert(r@ =~= Map::<Seq<Seq<char>>, Token>::empty());
        }
        r
    }

    /// Exact-match lookup: returns the token stored for this scope sequence
    /// if it stays valid for `lifetime` more seconds past `now`, and nothing
    /// otherwise. A pure read: stale entries are left in place here and are
    /// swept by [`Cache::put`].
    pub fn get<'a>(&'a self, scopes: &Vec<String>, lifetime: i64, now: i64) -> (r: Option<
        &'a Token,
    >)
        requires
            self.wf(),
        ensures
            match r {
                Some(t) => cache_lookup(self@, scopes.deep_view(), lifetime, now) == Some(*t),
                None => cache_lookup(self@, scopes.deep_view(), lifetime, now) is None,
            },
    {
        let ghost key = scopes.deep_view();
        let mut i: usize = 0;
        while i < self.entries.len()
            invariant
                self.wf(),
                key == scopes.deep_view(),
                i <= self.entries@.len(),
                forall|j: int| 0 <= j < i ==> self.entries@[j].0.deep_view() != key,
            decreases self.entries@.len() - i,
        {
            if scopes_equal(&self.entries[i].0, scopes) {
                proof {
                    lemma_entries_map_at(self.entries@, i as int);
                }
                let token = &self.entries[i].1;
                if i64_gt_sum(token.expires_at, now, lifetime) {
                    return Some(token);
                } else {
                    return None;
                }
            }
            proof {
                assert(self.entries@[i as int].0.deep_view() != key);
            }
            i += 1;
        }
        proof {
            assert(!self@.contains_key(key));
        }
        None
    }

    /// Stores `token` for this exact scope sequence (inserting or
    /// overwriting), then sweeps the whole table, removing every entry whose
    /// token expired at or before `now` — unconditionally, independent of the
    /// entry just inserted. The sweep bounds growth from churn across many
    /// distinct scope combinations.
    pub fn put(&mut self, scopes: &Vec<String>, token: Token, now: i64)
        requires
            old(self).wf(),
        ensures
            final(self).wf(),
            final(self)@ == cache_store(old(self)@, scopes.deep_view(), token, now),
    {
        let ghost key = scopes.deep_view();
        let ghost olds = self.entries@;

        // One pass over the table: the entry previously bound to this key is
        // superseded, and every other entry survives only while its token is
        // still live at `now`.
        let mut kept: Vec<(Vec<String>, Token)> = Vec::new();
        let ghost mut src: Seq<int> = Seq::empty();
        let mut j: usize = 0;
        while j < self.entries.len()
            invariant
                wf_entries(olds),
                olds == old(self).entries@,
                self.entries@ == olds,
                key == scopes.deep_view(),
                j <= olds.len(),
                src.len() == kept@.len(),
                forall|x: int, y: int| 0 <= x < y < src.len() ==> src[x] < src[y],
                forall|x: int| 0 <= x < src.len() ==> 0 <= #[trigger] src[x] < j,
                forall|x: int|
                    0 <= x < src.len() ==> {
                        &&& kept@[x].0.deep_view() == olds[#[trigger] src[x]].0.deep_view()
                        &&& kept@[x].1 == olds[src[x]].1
                        &&& olds[src[x]].0.deep_view() != key
                        &&& olds[src[x]].1.expires_at > now
                    },
                forall|i: int|
                    0 <= i < j && olds[i].0.deep_view() != key && olds[i].1.expires_at > now
                        ==> exists|x: int| 0 <= x < src.len() && src[x] == i,
            decreases olds.len() - j,
        {
            let ghost src0 = src;
            let ghost kept0 = kept@;
            let entry_matches = scopes_equal(&self.entries[j].0, scopes);
            let alive = i64_gt_sum(self.entries[j].1.expires_at, now, 0);
            if !entry_matches && alive {
                let cloned_key = clone_scopes(&self.entries[j].0);
                let cloned_token = self.entries[j].1.clone();
                proof {
                    assert(cloned_key.deep_view() == olds[j as int].0.deep_view());
                    assert(cloned_token == olds[j as int].1);
                }
                kept.push((cloned_key, cloned_token));
                proof {
                    src = src.push(j as int);
                    assert forall|x: int|
                        0 <= x < src.len() implies {
                        &&& kept@[x].0.deep_view() == olds[#[trigger] src[x]].0.deep_view()
                        &&& kept@[x].1 == olds[src[x]].1
                        &&& olds[src[x]].0.deep_view() != key
                        &&& olds[src[x]].1.expires_at > now
                    } by {
                        if x < src.len() - 1 {
                            assert(src[x] == src0[x]);
                            assert(kept@[x] == kept0[x]);
                        } else {
                            assert(src[x] == j as int);
                        }
                    }
                    assert forall|i: int|
                        0 <= i < j + 1 && olds[i].0.deep_view() != key && olds[i].1.expires_at
                            > now implies exists|x: int| 0 <= x < src.len() && src[x] == i by {
                        if i < j {
                            let x0 = choose|x0: int| 0 <= x0 < src0.len() && src0[x0] == i;
                            assert(src[x0] == i);
                        } else {
                            assert(src[src.len() - 1] == i);
                        }
                    }
                }
            } else {
                proof {
                    assert(olds[j as int].0.deep_view() == key || olds[j as int].1.expires_at
                        <= now);
                }
            }
            j += 1;
        }
        if i64_gt_sum(token.expires_at, now, 0) {
            let pair = (clone_scopes(scopes), token.clone());
            kept.push(pair);
            proof {
                lemma_put_result(olds, src, kept@, key, token, now, true);
            }
        } else {
            proof {
                lemma_put_result(olds, src, kept@, key, token, now, false);
            }
        }
        self.entries = kept;
    }
}

/// The rebuilt association list from [`Cache::put`] is well-formed and
/// represents exactly [`cache_store`] of the old mapping.
proof fn lemma_put_result(
    olds: Seq<(Vec<String>, Token)>,
    src: Seq<int>,
    kept: Seq<(Vec<String>, Token)>,
    key: Seq<Seq<char>>,
    token: Token,
    now: i64,
    appended: bool,
)
    requires
        wf_entries(olds),
        appended ==> {
            &&& kept.len() == src.len() + 1
            &&& kept.last().0.deep_view() == key
            &&& kept.last().1 == token
            &&& token.expires_at > now
        },
        !appended ==> {
            &&& kept.len() == src.len()
            &&& token.expires_at <= now
        },
        forall|x: int, y: int| 0 <= x < y < src.len() ==> src[x] < src[y],
        forall|x: int| 0 <= x < src.len() ==> 0 <= #[trigger] src[x] < olds.len(),
        forall|x: int|
            0 <= x < src.len() ==> {
                &&& kept[x].0.deep_view() == olds[#[trigger] src[x]].0.deep_view()
                &&& kept[x].1 == olds[src[x]].1
                &&& olds[src[x]].0.deep_view() != key
                &&& olds[src[x]].1.expires_at > now
            },
        forall|i: int|
            0 <= i < olds.len() && olds[i].0.deep_view() != key && olds[i].1.expires_at > now
                ==> exists|x: int| 0 <= x < src.len() && src[x] == i,
    ensures
        wf_entries(kept),
        entries_map(kept) == cache_store(entries_map(olds), key, token, now),
{
    assert forall|a: int, b: int| 0 <= a < b < kept.len() implies kept[a].0.deep_view()
        != kept[b].0.deep_view() by {
        if b < src.len() {
            assert(src[a] < src[b]);
        }
    }
    let result = cache_store(entries_map(olds), key, token, now);
    assert forall|k: Seq<Seq<char>>| #[trigger]
        entries_map(kept).contains_key(k) implies result.contains_key(k) && entries_map(kept)[k]
        == result[k] by {
        let x = choose|x: int| 0 <= x < kept.len() && kept[x].0.deep_view() == k;
        lemma_entries_map_at(kept, x);
        if appended && x == kept.len() - 1 {
            assert(result.contains_key(k));
        } else {
            let i = src[x];
            lemma_entries_map_at(olds, i);
            assert(entries_map(olds).contains_key(k));
            assert(k != key);
            assert(result.contains_key(k));
        }
    }
    assert forall|k: Seq<Seq<char>>| #[trigger] result.contains_key(k) implies entries_map(
        kept,
    ).contains_key(k) by {
        if k == key {
            assert(appended);
            assert(kept.last().0.deep_view() == k);
        } else {
            assert(entries_map(olds).contains_key(k));
            let i = choose|i: int| 0 <= i < olds.len() && olds[i].0.deep_view() == k;
            lemma_entries_map_at(olds, i);
            assert(olds[i].1.expires_at > now);
            let x = choose|x: int| 0 <= x < src.len() && src[x] == i;
            assert(kept[x].0.deep_view() == k);
        }
    }
    assert(entries_map(kept) =~= result);
}

/// Whether `x > a + b`, computed without overflow by widening.
fn i64_gt_sum(x: i64, a: i64, b: i64) -> (r: bool)
    ensures
        r == (x > a + b),
{
    (x as i128) > (a as i128) + (b as i128)
}

/// Two scope sequences are the same cache key exactly when they hold the
/// same scope strings in the same order.
fn scopes_equal(a: &Vec<String>, b: &Vec<String>) -> (r: bool)
    ensures
        r == (a.deep_view() == b.deep_view()),
{
    if a.len() != b.len() {
        proof {
            assert(a.deep_view().len() != b.deep_view().len());
        }
        return false;
    }
    let mut i: usize = 0;
    while i < a.len()
        invariant
            a@.len() == b@.len(),
            i <= a@.len(),
            forall|j: int| 0 <= j < i ==> a.deep_view()[j] == b.deep_view()[j],
        decreases a@.len() - i,
    {
        if !(a[i] == b[i]) {
            proof {
                assert(a.deep_view()[i as int] != b.deep_view()[i as int]);
            }
            return false;
        }
        i += 1;
    }
    proof {
        assert(a.deep_view() =~= b.deep_view());
    }
    true
}

/// A deep copy of a scope sequence; it is the same cache key as the original.
pub(crate) fn clone_scopes(scopes: &Vec<String>) -> (r: Vec<String>)
    ensures
        r.deep_view() == scopes.deep_view(),
{
    let mut r: Vec<String> = Vec::new();
    let mut i: usize = 0;
    while i < scopes.len()
        invariant
            i <= scopes@.len(),
            r@.len() == i,
            forall|j: int| 0 <= j < i ==> r.deep_view()[j] == scopes.deep_view()[j],
        decreases scopes@.len() - i,
    {
        r.push(scopes[i].clone());
        i += 1;
    }
    proof {
        assert(r.deep_view() =~= scopes.deep_view());
    }
    r
}

} // verus!

verus! {

/// Storing a token and then looking its key up with a requested minimum
/// lifetime serves exactly that token — if and only if it survives the
/// store's sweep and its remaining lifetime exceeds the request.
pub proof fn lemma_cache_hit_miss(
    m: Map<Seq<Seq<char>>, Token>,
    key: Seq<Seq<char>>,
    token: Token,
    lifetime: i64,
    now: i64,
)
    ensures
        cache_lookup(cache_store(m, key, token, now), key, lifetime, now) == (if token.expires_at
            > now && token.expires_at > now + lifetime {
            Some(token)
        } else {
            None::<Token>
        }),
{
}

/// An entry whose token has expired by `now` does not survive a store of
/// any other entry at `now`: the sweep is unconditional and whole-table.
pub proof fn lemma_cache_eviction(
    m: Map<Seq<Seq<char>>, Token>,
    stale_key: Seq<Seq<char>>,
    stale: Token,
    then: i64,
    other_key: Seq<Seq<char>>,
    other: Token,
    now: i64,
)
    requires
        stale_key != other_key,
        stale.expires_at <= now,
    ensures
        !cache_store(
            cache_store(m, stale_key, stale, then),
            other_key,
            other,
            now,
        ).contains_key(stale_key),
{
}

/// The key is the scope sequence verbatim: storing under one scope sequence
/// makes nothing appear under any other, including a permutation of it.
pub proof fn lemma_cache_key_exact(
    m: Map<Seq<Seq<char>>, Token>,
    stored_key: Seq<Seq<char>>,
    asked_key: Seq<Seq<char>>,
    token: Token,
    lifetime: i64,
    now: i64,
)
    requires
        stored_key != asked_key,
        !m.contains_key(asked_key),
    ensures
        cache_lookup(cache_store(m, stored_key, token, now), asked_key, lifetime, now) is None,
{
}

} // verus!
