//! The keyspace: values under keys, each with an optional deadline.
//!
//! Times are milliseconds on a monotonic clock that the caller reads.
use vstd::prelude::*;

use crate::text::bytes_eq;

verus! {

/// A stored value and its deadline, if it has one.
pub type ValueView = (Seq<u8>, Option<u64>);

/// The deadline `ttl` milliseconds after `now`, or the end of the clock if
/// that comes first.
pub open spec fn deadline_after(now: u64, ttl: u64) -> u64 {
    if now + ttl > u64::MAX {
        u64::MAX
    } else {
        (now + ttl) as u64
    }
}

/// Whether a value may still be read at `now`: it has no deadline, or the
/// deadline has not passed.
pub open spec fn is_live(v: ValueView, now: u64) -> bool {
    match v.1 {
        None => true,
        Some(deadline) => now <= deadline,
    }
}

/// A value as the keyspace holds it.
#[derive(Debug, Clone)]
pub struct RedisValue {
    value: Vec<u8>,
    expiration: Option<u64>,
}

impl View for RedisValue {
    type V = ValueView;

    closed spec fn view(&self) -> ValueView {
        (self.value@, self.expiration)
    }
}

impl RedisValue {
    /// The value `value`, set at `now`; with a time to live it expires that
    /// many milliseconds later.
    pub fn new(value: Vec<u8>, expiration: Option<u64>, now: u64) -> (r: RedisValue)
        ensures
            r@.0 == value@,
            r@.1 == match expiration {
                Some(ttl) => Some(deadline_after(now, ttl)),
                None => None::<u64>,
            },
    {
        let deadline = match expiration {
            Some(ttl) => Some(
                if ttl > u64::MAX - now {
                    u64::MAX
                } else {
                    now + ttl
                },
            ),
            None => None,
        };
        RedisValue { value, expiration: deadline }
    }

    /// A copy of the value.
    pub fn value(&self) -> (r: Vec<u8>)
        ensures
            r@ == self@.0,
    {
        vstd::slice::slice_to_vec(self.value.as_slice())
    }

    /// The deadline, if any.
    pub fn expiration(&self) -> (r: Option<u64>)
        ensures
            r == self@.1,
    {
        self.expiration
    }

    /// Whether the value may still be read at `now`.
    pub fn is_live(&self, now: u64) -> (r: bool)
        ensures
            r == is_live(self@, now),
    {
        match self.expiration {
            None => true,
            Some(deadline) => now <= deadline,
        }
    }

    fn copied(&self) -> (r: RedisValue)
        ensures
            r@ == self@,
    {
        RedisValue { value: self.value(), expiration: self.expiration }
    }
}

pub type Entries = Seq<(Vec<u8>, RedisValue)>;

/// The value under `k`, read from the latest entry for it.
pub open spec fn lookup(s: Entries, k: Seq<u8>) -> Option<ValueView>
    decreases s.len(),
{
    if s.len() == 0 {
        None
    } else if s.last().0@ == k {
        Some(s.last().1@)
    } else {
        lookup(s.drop_last(), k)
    }
}

pub open spec fn keys_unique(s: Entries) -> bool {
    forall|i: int, j: int| 0 <= i < j < s.len() ==> (#[trigger] s[i]).0@ != (#[trigger] s[j]).0@
}

pub open spec fn entries_map(s: Entries) -> Map<Seq<u8>, ValueView> {
    Map::new(|k: Seq<u8>| lookup(s, k) is Some, |k: Seq<u8>| lookup(s, k).unwrap())
}

proof fn lemma_lookup_absent(s: Entries, k: Seq<u8>)
    requires
        forall|i: int| 0 <= i < s.len() ==> (#[trigger] s[i]).0@ != k,
    ensures
        lookup(s, k) is None,
    decreases s.len(),
{
    if s.len() > 0 {
        let t = s.drop_last();
        assert forall|i: int| 0 <= i < t.len() implies (#[trigger] t[i]).0@ != k by {
            assert(t[i] == s[i]);
        }
        lemma_lookup_absent(t, k);
    }
}

proof fn lemma_lookup_at(s: Entries, i: int)
    requires
        keys_unique(s),
        0 <= i < s.len(),
    ensures
        lookup(s, s[i].0@) == Some(s[i].1@),
    decreases s.len(),
{
    if i < s.len() - 1 {
        let t = s.drop_last();
        assert(s[i] == t[i]);
        assert(s[i].0@ != s[s.len() - 1].0@);
        assert(keys_unique(t)) by {
            assert forall|a: int, b: int| 0 <= a < b < t.len() implies (#[trigger] t[a]).0@ != (
            #[trigger] t[b]).0@ by {
                assert(t[a] == s[a] && t[b] == s[b]);
            }
        }
        lemma_lookup_at(t, i);
    }
}

/// Entries that differ only at `i`, where neither holds `k`, agree on `k`.
proof fn lemma_lookup_other(s: Entries, t: Entries, i: int, k: Seq<u8>)
    requires
        s.len() == t.len(),
        0 <= i < s.len(),
        forall|j: int| 0 <= j < s.len() && j != i ==> s[j] == t[j],
        s[i].0@ != k,
        t[i].0@ != k,
    ensures
        lookup(s, k) == lookup(t, k),
    decreases s.len(),
{
    let n = s.len() - 1;
    if i == n {
        assert(s.drop_last() =~= t.drop_last());
    } else {
        assert(s[n] == t[n]);
        let (s2, t2) = (s.drop_last(), t.drop_last());
        assert forall|j: int| 0 <= j < s2.len() && j != i implies s2[j] == t2[j] by {
            assert(s[j] == t[j]);
        }
        lemma_lookup_other(s2, t2, i, k);
    }
}

/// The keyspace.
#[derive(Debug)]
pub struct RedisStore {
    entries: Vec<(Vec<u8>, RedisValue)>,
}

impl View for RedisStore {
    type V = Map<Seq<u8>, ValueView>;

    closed spec fn view(&self) -> Map<Seq<u8>, ValueView> {
        entries_map(self.entries@)
    }
}

impl RedisStore {
    /// Each key is held at most once.
    pub closed spec fn wf(&self) -> bool {
        keys_unique(self.entries@)
    }

    /// An empty keyspace.
    pub fn new() -> (r: RedisStore)
        ensures
            r.wf(),
            r@ == Map::<Seq<u8>, ValueView>::empty(),
    {
        let r = RedisStore { entries: Vec::new() };
        assert(r@ =~= Map::<Seq<u8>, ValueView>::empty());
        r
    }

    /// Where `key` is held, if it is.
    fn position(&self, key: &[u8]) -> (r: Option<usize>)
        ensures
            match r {
                Some(i) => i < self.entries@.len() && self.entries@[i as int].0@ == key@,
                None => forall|i: int| 0 <= i < self.entries@.len() ==> (#[trigger] self.entries@[i]).0@ != key@,
            },
    {
        let mut i: usize = 0;
        while i < self.entries.len()
            invariant
                i <= self.entries@.len(),
                forall|j: int| 0 <= j < i ==> (#[trigger] self.entries@[j]).0@ != key@,
            decreases self.entries@.len() - i,
        {
            if bytes_eq(self.entries[i].0.as_slice(), key) {
                return Some(i);
            }
            i = i + 1;
        }
        None
    }

    /// A copy of the value under `key`, if any.
    pub fn get(&self, key: &[u8]) -> (r: Option<RedisValue>)
        requires
            self.wf(),
        ensures
            match r {
                Some(v) => self@.contains_key(key@) && self@[key@] == v@,
                None => !self@.contains_key(key@),
            },
    {
        match self.position(key) {
            Some(i) => {
                proof {
                    lemma_lookup_at(self.entries@, i as int);
                }
                Some(self.entries[i].1.copied())
            },
            None => {
                proof {
                    lemma_lookup_absent(self.entries@, key@);
                }
                None
            },
        }
    }

    /// Puts `value` under `key`, replacing what was there.
    pub fn set(&mut self, key: Vec<u8>, value: RedisValue)
        requires
            old(self).wf(),
        ensures
            final(self).wf(),
            final(self)@ == old(self)@.insert(key@, value@),
    {
        let ghost before = self.entries@;
        let ghost k = key@;
        let ghost v = value@;
        match self.position(key.as_slice()) {
            Some(i) => {
                self.entries.set(i, (key, value));
                proof {
                    let after = self.entries@;
                    assert(keys_unique(after)) by {
                        assert forall|a: int, b: int| 0 <= a < b < after.len() implies (
                        #[trigger] after[a]).0@ != (#[trigger] after[b]).0@ by {
                            assert(before[a].0@ != before[b].0@);
                        }
                    }
                    lemma_lookup_at(after, i as int);
                    assert forall|k2: Seq<u8>| k2 != k implies lookup(after, k2) == lookup(before, k2) by {
                        lemma_lookup_other(before, after, i as int, k2);
                    }
                    assert(entries_map(after) =~= entries_map(before).insert(k, v));
                }
            },
            None => {
                self.entries.push((key, value));
                proof {
                    let after = self.entries@;
                    assert(after.drop_last() =~= before);
                    assert(keys_unique(after)) by {
                        assert forall|a: int, b: int| 0 <= a < b < after.len() implies (
                        #[trigger] after[a]).0@ != (#[trigger] after[b]).0@ by {
                            if b == after.len() - 1 {
                                assert(before[a].0@ != k);
                            } else {
                                assert(before[a].0@ != before[b].0@);
                            }
                        }
                    }
                    assert(entries_map(after) =~= entries_map(before).insert(k, v));
                }
            },
        }
    }
}

} // verus!
