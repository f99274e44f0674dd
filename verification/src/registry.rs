//! The key registry: the process-wide source of truth for "is this download
//! still wanted". Each tracked key carries a reference count; a count that
//! reaches zero removes the entry, so a present key always has count at
//! least one.

use vstd::prelude::*;
use crate::errors::Error;

verus! {

/// The outcome of `begin_tracking`.
#[derive(Debug, Clone, Copy, PartialEq, Eq, Structural)]
pub enum BeginStatus {
    /// The key was not tracked; its count is now 1.
    Started,
    /// The key already had a live count; nothing changed.
    AlreadyInProgress,
}

/// The mapping the registry's entry list denotes, later entries winning
/// (well-formed registries have no duplicate keys, so order never matters).
pub open spec fn map_of(s: Seq<(String, u64)>) -> Map<Seq<char>, u64>
    decreases s.len(),
{
    if s.len() == 0 {
        Map::empty()
    } else {
        map_of(s.drop_last()).insert(s.last().0@, s.last().1)
    }
}

/// No two entries name the same key.
pub open spec fn keys_distinct(s: Seq<(String, u64)>) -> bool {
    forall|i: int, j: int| 0 <= i < j < s.len() ==> s[i].0@ != s[j].0@
}

proof fn lemma_map_of_contains(s: Seq<(String, u64)>, k: Seq<char>)
    ensures
        map_of(s).contains_key(k) <==> exists|i: int| 0 <= i < s.len() && s[i].0@ == k,
    decreases s.len(),
{
    if s.len() > 0 {
        lemma_map_of_contains(s.drop_last(), k);
        if s.last().0@ == k {
            assert(s[s.len() - 1].0@ == k);
        } else if map_of(s).contains_key(k) {
            let i = choose|i: int| 0 <= i < s.len() - 1 && s.drop_last()[i].0@ == k;
            assert(s[i].0@ == k);
        } else if exists|i: int| 0 <= i < s.len() && s[i].0@ == k {
            let i = choose|i: int| 0 <= i < s.len() && s[i].0@ == k;
            assert(s.drop_last()[i].0@ == k);
        }
    }
}

proof fn lemma_map_of_index(s: Seq<(String, u64)>, i: int)
    requires
        keys_distinct(s),
        0 <= i < s.len(),
    ensures
        map_of(s).contains_key(s[i].0@),
        map_of(s)[s[i].0@] == s[i].1,
    decreases s.len(),
{
    if i == s.len() - 1 {
    } else {
        lemma_map_of_index(s.drop_last(), i);
    }
}

proof fn lemma_map_of_remove(s: Seq<(String, u64)>, i: int)
    requires
        keys_distinct(s),
        0 <= i < s.len(),
    ensures
        map_of(s.remove(i)) == map_of(s).remove(s[i].0@),
        keys_distinct(s.remove(i)),
    decreases s.len(),
{
    lemma_map_of_contains(s.drop_last(), s[i].0@);
    if i == s.len() - 1 {
        assert(s.remove(i) =~= s.drop_last());
        assert(!map_of(s.drop_last()).contains_key(s[i].0@));
        assert(map_of(s.drop_last()) =~= map_of(s.drop_last()).insert(s.last().0@, s.last().1)
            .remove(s[i].0@));
    } else {
        lemma_map_of_remove(s.drop_last(), i);
        assert(s.remove(i).drop_last() =~= s.drop_last().remove(i));
        assert(s.remove(i).last() == s.last());
        assert(map_of(s.remove(i)) == map_of(s.drop_last().remove(i)).insert(
            s.last().0@,
            s.last().1,
        ));
        assert(s[i].0@ != s.last().0@);
        assert(map_of(s.drop_last()).remove(s[i].0@).insert(s.last().0@, s.last().1)
            =~= map_of(s.drop_last()).insert(s.last().0@, s.last().1).remove(s[i].0@));
    }
}

/// What `begin_tracking` does to the registry's mapping, and what it returns.
pub open spec fn spec_begin_tracking(m: Map<Seq<char>, u64>, k: Seq<char>) -> (
    Map<Seq<char>, u64>,
    BeginStatus,
) {
    if m.contains_key(k) && m[k] >= 1 {
        (m, BeginStatus::AlreadyInProgress)
    } else {
        (m.insert(k, 1u64), BeginStatus::Started)
    }
}

/// What `cancel` (and `release_after_completion`) does to the registry's
/// mapping, and what it returns.
pub open spec fn spec_cancel(m: Map<Seq<char>, u64>, k: Seq<char>) -> (
    Map<Seq<char>, u64>,
    Result<(), Error>,
) {
    if !m.contains_key(k) {
        (m, Err(Error::KeyNotTracked))
    } else if m[k] == 0 {
        (m, Err(Error::AlreadyZero))
    } else if m[k] == 1 {
        (m.remove(k), Ok(()))
    } else {
        (m.insert(k, (m[k] - 1) as u64), Ok(()))
    }
}

/// Process-wide map from download key to in-flight reference count.
pub struct KeyRegistry {
    entries: Vec<(String, u64)>,
}

impl View for KeyRegistry {
    type V = Map<Seq<char>, u64>;

    closed spec fn view(&self) -> Map<Seq<char>, u64> {
        map_of(self.entries@)
    }
}

impl KeyRegistry {
    /// No key appears twice, so the mapping is unambiguous. Zero counts are
    /// not excluded here: the operations' contracts cover such entries too
    /// (and never create one — see `lemma_counts_stay_live`).
    pub closed spec fn wf(&self) -> bool {
        keys_distinct(self.entries@)
    }

    /// An empty registry.
    pub fn new() -> (r: KeyRegistry)
        ensures
            r.wf(),
            r@ == Map::<Seq<char>, u64>::empty(),
    {
        KeyRegistry { entries: Vec::new() }
    }

    fn find_index(&self, key: &String) -> (r: Option<usize>)
        ensures
            match r {
                Some(i) => i < self.entries@.len() && self.entries@[i as int].0@ == key@,
                None => forall|i: int|
                    0 <= i < self.entries@.len() ==> self.entries@[i].0@ != key@,
            },
    {
        let mut i: usize = 0;
        while i < self.entries.len()
            invariant
                0 <= i <= self.entries@.len(),
                forall|j: int| 0 <= j < i ==> self.entries@[j].0@ != key@,
            decreases self.entries@.len() - i,
        {
            if self.entries[i].0 == *key {
                return Some(i);
            }
            i += 1;
        }
        None
    }

    /// Registers `key` as in flight. A key already tracked with a live count
    /// is left untouched and reported as already in progress; otherwise its
    /// count becomes exactly 1.
    pub fn begin_tracking(&mut self, key: &String) -> (r: BeginStatus)
        requires
            old(self).wf(),
        ensures
            final(self).wf(),
            final(self)@ == spec_begin_tracking(old(self)@, key@).0,
            r == spec_begin_tracking(old(self)@, key@).1,
    {
        match self.find_index(key) {
            Some(i) => {
                proof {
                    lemma_map_of_index(self.entries@, i as int);
                }
                let count = self.entries[i].1;
                if count >= 1 {
                    BeginStatus::AlreadyInProgress
                } else {
                    // A retained zero-count entry counts as absent: revive
                    // it to a count of one.
                    proof {
                        lemma_map_of_remove(self.entries@, i as int);
                    }
                    let pair = self.entries.remove(i);
                    self.entries.push((pair.0, 1));
                    proof {
                        let prev = old(self).entries@.remove(i as int);
                        assert(self.entries@.drop_last() =~= prev);
                        assert forall|a: int, b: int|
                            0 <= a < b < self.entries@.len() implies self.entries@[a].0@
                            != self.entries@[b].0@ by {
                            if b == self.entries@.len() - 1 {
                                lemma_map_of_contains(prev, key@);
                                assert(prev[a].0@ != key@);
                            }
                        }
                        assert(self@ =~= old(self)@.insert(key@, 1u64));
                    }
                    BeginStatus::Started
                }
            },
            None => {
                proof {
                    lemma_map_of_contains(self.entries@, key@);
                }
                self.entries.push((key.clone(), 1));
                proof {
                    assert(self.entries@.drop_last() =~= old(self).entries@);
                    assert forall|i: int, j: int|
                        0 <= i < j < self.entries@.len() implies self.entries@[i].0@
                        != self.entries@[j].0@ by {
                        if j == self.entries@.len() - 1 {
                            assert(old(self).entries@[i].0@ != key@);
                        }
                    }
                }
                BeginStatus::Started
            },
        }
    }

    /// True iff `key` is tracked with a live count.
    pub fn is_active(&self, key: &String) -> (r: bool)
        requires
            self.wf(),
        ensures
            r == (self@.contains_key(key@) && self@[key@] >= 1),
    {
        proof {
            lemma_map_of_contains(self.entries@, key@);
        }
        match self.find_index(key) {
            Some(i) => {
                proof {
                    lemma_map_of_index(self.entries@, i as int);
                }
                self.entries[i].1 >= 1
            },
            None => false,
        }
    }

    /// Serves one cancellation request: decrements `key`'s count, removing
    /// the entry when it reaches zero. Fails — mutating nothing — with
    /// `KeyNotTracked` for an absent key and `AlreadyZero` for a key whose
    /// count is already spent.
    pub fn cancel(&mut self, key: &String) -> (r: Result<(), Error>)
        requires
            old(self).wf(),
        ensures
            final(self).wf(),
            final(self)@ == spec_cancel(old(self)@, key@).0,
            r == spec_cancel(old(self)@, key@).1,
    {
        proof {
            lemma_map_of_contains(self.entries@, key@);
        }
        match self.find_index(key) {
            None => Err(Error::KeyNotTracked),
            Some(i) => {
                proof {
                    lemma_map_of_index(self.entries@, i as int);
                }
                let count = self.entries[i].1;
                if count == 0 {
                    Err(Error::AlreadyZero)
                } else {
                    proof {
                        lemma_map_of_remove(self.entries@, i as int);
                    }
                    let pair = self.entries.remove(i);
                    if count > 1 {
                        self.entries.push((pair.0, count - 1));
                        proof {
                            let prev = old(self).entries@.remove(i as int);
                            assert(self.entries@.drop_last() =~= prev);
                            assert forall|a: int, b: int|
                                0 <= a < b < self.entries@.len() implies self.entries@[a].0@
                                != self.entries@[b].0@ by {
                                if b == self.entries@.len() - 1 {
                                    lemma_map_of_contains(prev, key@);
                                    assert(prev[a].0@ != key@);
                                }
                            }
                            assert(self@ =~= old(self)@.insert(key@, (count - 1) as u64));
                        }
                    } else {
                        proof {
                            assert(self@ =~= old(self)@.remove(key@));
                        }
                    }
                    Ok(())
                }
            },
        }
    }

    /// The settlement decrement after a successful automated pipeline run:
    /// the same zero-floor and removal semantics as `cancel`, invoked
    /// internally rather than by an external cancellation request.
    pub fn release_after_completion(&mut self, key: &String) -> (r: Result<(), Error>)
        requires
            old(self).wf(),
        ensures
            final(self).wf(),
            final(self)@ == spec_cancel(old(self)@, key@).0,
            r == spec_cancel(old(self)@, key@).1,
    {
        self.cancel(key)
    }
}

/// The sole external cancellation entry point: a thin wrapper over the
/// registry's `cancel`, surfacing its two failure kinds verbatim.
pub fn cancel_install(registry: &mut KeyRegistry, key: &String) -> (r: Result<(), Error>)
    requires
        old(registry).wf(),
    ensures
        final(registry).wf(),
        final(registry)@ == spec_cancel(old(registry)@, key@).0,
        r == spec_cancel(old(registry)@, key@).1,
{
    registry.cancel(key)
}

/// Beginning tracking twice for one key, with no full-zero decrement in
/// between, is a no-op the second time: the registry is unchanged, the
/// second call reports "already in progress", and a count set by a first
/// successful call is exactly 1.
pub proof fn lemma_begin_tracking_idempotent(m: Map<Seq<char>, u64>, k: Seq<char>)
    ensures
        spec_begin_tracking(spec_begin_tracking(m, k).0, k).0 == spec_begin_tracking(m, k).0,
        spec_begin_tracking(spec_begin_tracking(m, k).0, k).1 == BeginStatus::AlreadyInProgress,
        spec_begin_tracking(m, k).1 == BeginStatus::Started ==> spec_begin_tracking(m, k).0[k]
            == 1,
{
}

/// A failed cancellation never mutates the registry, and the failure kind is
/// determined by the key's state: `KeyNotTracked` exactly for absent keys,
/// `AlreadyZero` exactly for keys whose count is already zero.
pub proof fn lemma_cancel_failure(m: Map<Seq<char>, u64>, k: Seq<char>)
    ensures
        !m.contains_key(k) ==> spec_cancel(m, k) == (m, Err::<(), Error>(Error::KeyNotTracked)),
        m.contains_key(k) && m[k] == 0 ==> spec_cancel(m, k) == (
            m,
            Err::<(), Error>(Error::AlreadyZero),
        ),
        spec_cancel(m, k).1 is Err ==> spec_cancel(m, k).0 == m,
{
}

/// The registry's zero-removal discipline: starting from a mapping whose
/// entries all have live counts, neither operation ever leaves a zero-valued
/// entry behind — a count that reaches zero removes the entry — so "present
/// with count zero" stays observationally the same as "absent".
pub proof fn lemma_counts_stay_live(m: Map<Seq<char>, u64>, k: Seq<char>)
    requires
        forall|j: Seq<char>| #[trigger] m.contains_key(j) ==> m[j] >= 1,
    ensures
        forall|j: Seq<char>| #[trigger] spec_begin_tracking(m, k).0.contains_key(j)
            ==> spec_begin_tracking(m, k).0[j] >= 1,
        forall|j: Seq<char>| #[trigger] spec_cancel(m, k).0.contains_key(j) ==> spec_cancel(
            m,
            k,
        ).0[j] >= 1,
{
}

} // verus!
