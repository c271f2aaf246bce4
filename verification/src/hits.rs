//! Per-bullet hit accounting: how often a bullet has struck each target,
//! and the hit-limit rule that decides whether a contact still yields a
//! damage event.

use vstd::prelude::*;

verus! {

/// How many damage events a bullet may inflict per distinct target.
#[derive(Clone, Copy, PartialEq, Eq, Structural, Debug)]
pub enum HitLimit {
    /// No cap: every contact up to the count's capacity yields an event.
    Unlimited,
    /// At most this many events per target.
    Limit(u32),
}

/// Index of the first entry for key `t`, or `-1` when absent.
pub open spec fn find_key(s: Seq<(u64, u32)>, t: u64) -> int
    decreases s.len(),
{
    if s.len() == 0 {
        -1
    } else if s[0].0 == t {
        0
    } else {
        let r = find_key(s.skip(1), t);
        if r == -1 {
            -1
        } else {
            r + 1
        }
    }
}

/// The recorded hit count for target `t` (zero when never hit).
pub open spec fn hit_count_of(s: Seq<(u64, u32)>, t: u64) -> int {
    let i = find_key(s, t);
    if i == -1 {
        0
    } else {
        s[i].1 as int
    }
}

/// The entries after one more contact with `t`: the first entry for `t` is
/// incremented (saturating), or a fresh entry with count one is appended.
pub open spec fn bump_spec(s: Seq<(u64, u32)>, t: u64) -> Seq<(u64, u32)> {
    let i = find_key(s, t);
    if i == -1 {
        s.push((t, 1))
    } else {
        let c = s[i].1;
        let c2 = if c < u32::MAX { (c + 1) as u32 } else { c };
        s.update(i, (t, c2))
    }
}

/// Whether a contact whose post-increment count is `count_after` still
/// yields a hit event under `limit`.
pub open spec fn emits_hit(count_after: int, limit: HitLimit) -> bool {
    match limit {
        HitLimit::Unlimited => true,
        HitLimit::Limit(l) => count_after <= l,
    }
}

/// `find_key` returns a well-formed index, holding the key it looked for.
pub proof fn lemma_find_key_valid(s: Seq<(u64, u32)>, t: u64)
    ensures
        find_key(s, t) == -1 || (0 <= find_key(s, t) < s.len() && s[find_key(s, t)].0 == t),
        find_key(s, t) == -1 ==> forall|j: int| 0 <= j < s.len() ==> s[j].0 != t,
        forall|j: int| 0 <= j < find_key(s, t) ==> s[j].0 != t,
    decreases s.len(),
{
    if s.len() == 0 {
    } else if s[0].0 == t {
    } else {
        lemma_find_key_valid(s.skip(1), t);
        assert forall|j: int| 0 <= j < s.len() && s[j].0 == t implies find_key(s, t) != -1 by {
            if j > 0 {
                assert(s.skip(1)[j - 1] == s[j]);
            }
        }
        assert forall|j: int| 0 <= j < find_key(s, t) implies s[j].0 != t by {
            if j > 0 {
                assert(s.skip(1)[j - 1] == s[j]);
            }
        }
    }
}

/// A scan that finds `t` first at position `i` agrees with `find_key`.
pub proof fn lemma_find_key_at(s: Seq<(u64, u32)>, t: u64, i: int)
    requires
        0 <= i < s.len(),
        s[i].0 == t,
        forall|j: int| 0 <= j < i ==> s[j].0 != t,
    ensures
        find_key(s, t) == i,
    decreases i,
{
    if i == 0 {
    } else {
        assert(s[0].0 != t);
        assert(s.skip(1)[i - 1] == s[i]);
        assert forall|j: int| 0 <= j < i - 1 implies s.skip(1)[j].0 != t by {
            assert(s.skip(1)[j] == s[j + 1]);
        }
        lemma_find_key_at(s.skip(1), t, i - 1);
    }
}

/// Bullet-side hit bookkeeping: an association list from target identifier
/// to how many times this bullet has struck that target.
#[derive(Clone, Debug)]
pub struct HitCount {
    pub entries: Vec<(u64, u32)>,
}

impl HitCount {
    /// A fresh, empty hit ledger.
    pub fn new() -> (r: HitCount)
        ensures
            r.entries@ =~= Seq::<(u64, u32)>::empty(),
    {
        HitCount { entries: Vec::new() }
    }

    /// The recorded count for `t`.
    pub fn get(&self, t: u64) -> (r: u32)
        ensures
            r == hit_count_of(self.entries@, t),
    {
        let n = self.entries.len();
        let mut i: usize = 0;
        while i < n
            invariant
                n == self.entries@.len(),
                0 <= i <= n,
                forall|j: int| 0 <= j < i ==> self.entries@[j].0 != t,
            decreases n - i,
        {
            if self.entries[i].0 == t {
                proof {
                    lemma_find_key_at(self.entries@, t, i as int);
                }
                return self.entries[i].1;
            }
            i = i + 1;
        }
        proof {
            lemma_find_key_valid(self.entries@, t);
        }
        0
    }

    /// Record one more contact with `t` and return the new count.
    /// Counts only grow; a count at capacity stays put.
    pub fn bump(&mut self, t: u64) -> (c: u32)
        ensures
            final(self).entries@ == bump_spec(old(self).entries@, t),
            c == hit_count_of(final(self).entries@, t),
            c >= 1,
            c == if hit_count_of(old(self).entries@, t) < u32::MAX {
                hit_count_of(old(self).entries@, t) + 1
            } else {
                hit_count_of(old(self).entries@, t)
            },
    {
        let ghost s0 = self.entries@;
        let n = self.entries.len();
        let mut i: usize = 0;
        while i < n
            invariant
                s0 == old(self).entries@,
                self.entries@ == s0,
                n == s0.len(),
                0 <= i <= n,
                forall|j: int| 0 <= j < i ==> s0[j].0 != t,
            decreases n - i,
        {
            if self.entries[i].0 == t {
                proof {
                    lemma_find_key_at(s0, t, i as int);
                }
                let c = self.entries[i].1;
                let c2 = if c < u32::MAX {
                    c + 1
                } else {
                    c
                };
                self.entries.set(i, (t, c2));
                proof {
                    assert forall|j: int| 0 <= j < i implies self.entries@[j].0 != t by {
                        assert(self.entries@[j] == s0[j]);
                    }
                    lemma_find_key_at(self.entries@, t, i as int);
                }
                return c2;
            }
            i = i + 1;
        }
        proof {
            lemma_find_key_valid(s0, t);
        }
        self.entries.push((t, 1));
        proof {
            assert forall|j: int| 0 <= j < self.entries@.len() - 1 implies self.entries@[j].0
                != t by {
                assert(self.entries@[j] == s0[j]);
            }
            lemma_find_key_at(self.entries@, t, self.entries@.len() - 1);
        }
        1
    }
}

/// One more contact never lowers any recorded count.
///
/// Law: a bullet's per-target hit count only increases over its life.
pub proof fn lemma_hit_count_monotone(s: Seq<(u64, u32)>, t: u64, u: u64)
    ensures
        hit_count_of(bump_spec(s, t), u) >= hit_count_of(s, u),
        u != t ==> hit_count_of(bump_spec(s, t), u) == hit_count_of(s, u),
{
    lemma_find_key_valid(s, t);
    let i = find_key(s, t);
    if i == -1 {
        let s2 = s.push((t, 1));
        if u != t {
            lemma_find_key_push_other(s, (t, 1), u);
        } else {
            lemma_find_key_valid(s, u);
            lemma_find_key_at(s2, t, s.len() as int);
        }
    } else {
        let c = s[i].1;
        let c2 = if c < u32::MAX { (c + 1) as u32 } else { c };
        let s2 = s.update(i, (t, c2));
        assert forall|j: int| 0 <= j < i implies s2[j].0 != t by {
            assert(s2[j] == s[j]);
        }
        lemma_find_key_at(s2, t, i);
        if u != t {
            lemma_find_key_update_other(s, i, (t, c2), u);
        }
    }
}

/// Appending an entry for another key leaves `u`'s count alone.
proof fn lemma_find_key_push_other(s: Seq<(u64, u32)>, e: (u64, u32), u: u64)
    requires
        e.0 != u,
    ensures
        hit_count_of(s.push(e), u) == hit_count_of(s, u),
{
    lemma_find_key_valid(s, u);
    let i = find_key(s, u);
    let s2 = s.push(e);
    if i == -1 {
        assert forall|j: int| 0 <= j < s2.len() implies s2[j].0 != u by {
            if j < s.len() {
                assert(s2[j] == s[j]);
            }
        }
        lemma_find_key_valid(s2, u);
        if find_key(s2, u) != -1 {
            assert(s2[find_key(s2, u)].0 == u);
            assert(false);
        }
    } else {
        assert forall|j: int| 0 <= j < i implies s2[j].0 != u by {
            assert(s2[j] == s[j]);
        }
        lemma_find_key_at(s2, u, i);
    }
}

/// Updating position `i` with an entry for another key leaves `u`'s count
/// alone.
proof fn lemma_find_key_update_other(s: Seq<(u64, u32)>, i: int, e: (u64, u32), u: u64)
    requires
        0 <= i < s.len(),
        e.0 != u,
        s[i].0 == e.0,
    ensures
        hit_count_of(s.update(i, e), u) == hit_count_of(s, u),
{
    lemma_find_key_valid(s, u);
    let k = find_key(s, u);
    let s2 = s.update(i, e);
    if k == -1 {
        lemma_find_key_valid(s2, u);
        if find_key(s2, u) != -1 {
            let k2 = find_key(s2, u);
            assert(s2[k2].0 == u);
            assert(k2 != i);
            assert(s[k2].0 == u);
            assert(false);
        }
    } else {
        assert(k != i);
        assert forall|j: int| 0 <= j < k implies s2[j].0 != u by {
            if j != i {
                assert(s2[j] == s[j]);
            }
        }
        assert(s2[k].0 == u);
        lemma_find_key_at(s2, u, k);
    }
}

/// One more contact raises the target's count by exactly one (until the
/// count's capacity, where it stays put).
pub proof fn lemma_bump_count(s: Seq<(u64, u32)>, t: u64)
    ensures
        hit_count_of(bump_spec(s, t), t) == if hit_count_of(s, t) < u32::MAX {
            hit_count_of(s, t) + 1
        } else {
            hit_count_of(s, t)
        },
{
    lemma_find_key_valid(s, t);
    let i = find_key(s, t);
    if i == -1 {
        lemma_find_key_at(s.push((t, 1)), t, s.len() as int);
    } else {
        let c = s[i].1;
        let c2 = if c < u32::MAX { (c + 1) as u32 } else { c };
        let s2 = s.update(i, (t, c2));
        assert forall|j: int| 0 <= j < i implies s2[j].0 != t by {
            assert(s2[j] == s[j]);
        }
        lemma_find_key_at(s2, t, i);
    }
}

/// Hit-limit-one rule: the very first contact with a target yields the one
/// and only hit event; once the count is positive, no further contact with
/// that target ever emits again, no matter how many contacts follow.
pub proof fn lemma_hit_limit_one(s: Seq<(u64, u32)>, t: u64)
    ensures
        hit_count_of(s, t) == 0 ==> emits_hit(hit_count_of(bump_spec(s, t), t), HitLimit::Limit(1)),
        hit_count_of(s, t) >= 1 ==> !emits_hit(
            hit_count_of(bump_spec(s, t), t),
            HitLimit::Limit(1),
        ),
{
    lemma_find_key_valid(s, t);
    let i = find_key(s, t);
    if i == -1 {
        lemma_find_key_at(s.push((t, 1)), t, s.len() as int);
    } else {
        let c = s[i].1;
        let c2 = if c < u32::MAX { (c + 1) as u32 } else { c };
        let s2 = s.update(i, (t, c2));
        assert forall|j: int| 0 <= j < i implies s2[j].0 != t by {
            assert(s2[j] == s[j]);
        }
        lemma_find_key_at(s2, t, i);
    }
}

} // verus!
