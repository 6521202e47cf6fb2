//! A bounded cache of header probes, valid while the probed file is unchanged.
//!
//! Windowed plays never enter the memory cache, so every replay of a large file
//! would otherwise re-read its header. A stored probe serves repeat plays for as
//! long as the file keeps the size and modification time it was probed at. At
//! most [`PROBE_CACHE_CAP`] paths are kept, the oldest stored going first.

use crate::cache::strategy::Probe;
use crate::keyed::KeyedVec;
use std::collections::VecDeque;
use vstd::prelude::*;

verus! {

/// The probe cache keeps at most this many entries (first in, first out).
pub const PROBE_CACHE_CAP: usize = 256;

/// What the file system says about a file: its length and its modification
/// time (nanoseconds since the Unix epoch), when that can be read.
#[derive(Clone, Copy, Debug, PartialEq, Eq, Structural)]
pub struct FileStat {
    pub len: u64,
    pub modified: Option<i128>,
}

/// A header probe plus the file identity it was taken from.
#[derive(Clone, Copy, Debug, PartialEq, Eq)]
pub struct CachedProbe {
    pub modified: Option<i128>,
    pub size: u64,
    pub probe: Probe,
}

/// Probes by path, with their insertion order for the first-in-first-out bound.
pub struct ProbeCache {
    probes: KeyedVec<CachedProbe>,
    order: VecDeque<String>,
}

/// The texts of a sequence of strings.
pub open spec fn texts(s: Seq<String>) -> Seq<Seq<char>> {
    s.map_values(|x: String| x@)
}

impl View for ProbeCache {
    type V = Map<Seq<char>, CachedProbe>;

    /// Path to stored probe.
    closed spec fn view(&self) -> Map<Seq<char>, CachedProbe> {
        self.probes@
    }
}

impl ProbeCache {
    /// Paths in the order they were first stored.
    pub closed spec fn order(&self) -> Seq<Seq<char>> {
        texts(self.order@)
    }

    /// Well-formedness: the order lists each stored path exactly once, and the
    /// bound holds.
    pub closed spec fn wf(&self) -> bool {
        &&& self.probes.wf()
        &&& texts(self.order@).no_duplicates()
        &&& texts(self.order@).to_set() == self.probes@.dom()
        &&& self.order@.len() <= PROBE_CACHE_CAP
    }

    /// The bound: never more than [`PROBE_CACHE_CAP`] probes are kept.
    pub proof fn law_bounded(&self)
        requires
            self.wf(),
        ensures
            self@.dom().finite(),
            self@.len() <= PROBE_CACHE_CAP,
            self.order().len() == self@.len(),
    {
        self.probes.lemma_view();
        texts(self.order@).unique_seq_to_set();
    }

    /// An empty probe cache.
    pub fn new() -> (c: Self)
        ensures
            c.wf(),
            c@ == Map::<Seq<char>, CachedProbe>::empty(),
            c.order() == Seq::<Seq<char>>::empty(),
    {
        let c = ProbeCache { probes: KeyedVec::new(), order: VecDeque::new() };
        proof {
            assert(texts(c.order@) =~= Seq::<Seq<char>>::empty());
            assert(texts(c.order@).to_set() =~= Set::<Seq<char>>::empty());
        }
        c
    }

    /// The stored probe for `path`, if it was taken from a file with the
    /// length and modification time `current` reports now. Any edit misses.
    pub fn cached_probe(&self, path: &str, current: Option<FileStat>) -> (r: Option<Probe>)
        requires
            self.wf(),
        ensures
            r == (if self@.contains_key(path@) && current is Some && current.unwrap().len
                == self@[path@].size && current.unwrap().modified == self@[path@].modified {
                Some(self@[path@].probe)
            } else {
                None
            }),
    {
        match self.probes.get(path) {
            Some(cached) => match current {
                Some(meta) => {
                    if meta.len == cached.size && opt_eq(meta.modified, cached.modified) {
                        Some(cached.probe)
                    } else {
                        None
                    }
                },
                None => None,
            },
            None => None,
        }
    }

    /// Store `probe` for `path` under the identity `current` reports. Nothing
    /// is stored when the file could not be read. A new path evicts the oldest
    /// stored one when the cache is full.
    pub fn store_probe(&mut self, path: &str, current: Option<FileStat>, probe: Probe)
        requires
            old(self).wf(),
        ensures
            final(self).wf(),
            match current {
                None => final(self)@ == old(self)@,
                Some(meta) => final(self)@ == (if old(self)@.contains_key(path@) || old(self)@.len()
                    < PROBE_CACHE_CAP {
                    old(self)@
                } else {
                    old(self)@.remove(old(self).order()[0])
                }).insert(path@, CachedProbe { modified: meta.modified, size: meta.len, probe }),
            },
            final(self).order() == (if current is None || old(self)@.contains_key(path@) {
                old(self).order()
            } else if old(self)@.len() < PROBE_CACHE_CAP {
                old(self).order().push(path@)
            } else {
                old(self).order().drop_first().push(path@)
            }),
    {
        let meta = match current {
            Some(m) => m,
            None => return,
        };
        proof {
            self.law_bounded();
        }
        if !self.probes.contains_key(path) {
            if self.order.len() >= PROBE_CACHE_CAP {
                let ghost before = texts(self.order@);
                let evicted = match self.order.pop_front() {
                    Some(e) => e,
                    None => return,
                };
                let _ = self.probes.remove(evicted.as_str());
                proof {
                    assert(texts(self.order@) =~= before.drop_first());
                    assert(before[0] == evicted@);
                    assert forall|k: Seq<char>| #[trigger] texts(self.order@).to_set().contains(k)
                        == self.probes@.dom().contains(k) by {
                        if texts(self.order@).to_set().contains(k) {
                            let j = choose|j: int| 0 <= j < texts(self.order@).len() && texts(
                                self.order@,
                            )[j] == k;
                            assert(before[j + 1] == k);
                            assert(before.to_set().contains(k));
                        }
                        if self.probes@.dom().contains(k) {
                            assert(before.to_set().contains(k));
                            let j = choose|j: int| 0 <= j < before.len() && before[j] == k;
                            assert(j != 0);
                            assert(texts(self.order@)[j - 1] == k);
                        }
                    }
                    assert(texts(self.order@).to_set() =~= self.probes@.dom());
                    assert(self.order@.len() < PROBE_CACHE_CAP);
                }
            }
            let ghost before = texts(self.order@);
            self.order.push_back(path.to_owned());
            proof {
                assert(texts(self.order@) =~= before.push(path@));
                assert(!before.to_set().contains(path@));
                assert forall|a: int, b: int|
                    0 <= a < texts(self.order@).len() && 0 <= b < texts(self.order@).len() && a
                        != b implies texts(self.order@)[a] != texts(self.order@)[b] by {
                    if a < before.len() && b < before.len() {
                    } else if a < before.len() {
                        assert(before.to_set().contains(before[a]));
                    } else {
                        assert(before.to_set().contains(before[b]));
                    }
                }
                assert forall|k: Seq<char>| #[trigger] texts(self.order@).to_set().contains(k)
                    == self.probes@.dom().insert(path@).contains(k) by {
                    if texts(self.order@).to_set().contains(k) {
                        let j = choose|j: int| 0 <= j < texts(self.order@).len() && texts(
                            self.order@,
                        )[j] == k;
                        if j < before.len() {
                            assert(before[j] == k);
                            assert(before.to_set().contains(k));
                        }
                    }
                    if before.to_set().contains(k) {
                        let j = choose|j: int| 0 <= j < before.len() && before[j] == k;
                        assert(texts(self.order@)[j] == k);
                    }
                    if k == path@ {
                        assert(texts(self.order@)[before.len() as int] == k);
                    }
                }
                assert(texts(self.order@).to_set() =~= self.probes@.dom().insert(path@));
            }
        } else {
            proof {
                assert(self.probes@.dom().insert(path@) =~= self.probes@.dom());
            }
        }
        assert(texts(self.order@).to_set() == self.probes@.dom().insert(path@));
        assert(self.order@.len() <= PROBE_CACHE_CAP);
        let ghost mid = self.probes@;
        self.probes.insert(
            path.to_owned(),
            CachedProbe { modified: meta.modified, size: meta.len, probe },
        );
        proof {
            assert(self.probes@.dom() =~= mid.dom().insert(path@));
        }
    }
}

/// Equality of two optional timestamps.
pub fn opt_eq(a: Option<i128>, b: Option<i128>) -> (r: bool)
    ensures
        r == (a == b),
{
    match (a, b) {
        (Some(x), Some(y)) => x == y,
        (None, None) => true,
        _ => false,
    }
}

} // verus!
