//! The endpoint manager and the sACN driver worker.
//!
//! The manager flattens the project's endpoint mapping into the
//! driver configurations to apply; the sACN worker keeps per-wire
//! frames in a cache that updates mutate and a timer tick reads —
//! emission cadence is independent of update arrival.
use vstd::prelude::*;

use crate::endpoints::{EndpointConfig, EndpointMapping, EndpointSpeed};
use crate::runtime::{UniverseUpdate, UpdateChunk};
use crate::universe::{UniverseId, UNIVERSE_SIZE};

verus! {

/// Runs the endpoint manager loop from the async shell.
pub struct EndpointsManagerService;

/// One wire frame: a start code octet followed by one full universe.
pub const SACN_FRAME_LEN: usize = UNIVERSE_SIZE + 1;

/// Which driver of the collection runs one endpoint configuration.
#[derive(Debug, Clone, Copy, PartialEq, Eq, Structural)]
pub enum DriverKind {
    Log,
    ArtNet,
    Sacn,
    Usb,
}

/// The driver a configuration is handed to.
pub fn driver_for(config: &EndpointConfig) -> (r: DriverKind)
    ensures
        r == match *config {
            EndpointConfig::Logger => DriverKind::Log,
            EndpointConfig::ArtNet => DriverKind::ArtNet,
            EndpointConfig::Sacn { universe, speed } => DriverKind::Sacn,
            EndpointConfig::Usb { port, speed } => DriverKind::Usb,
        },
{
    match config {
        EndpointConfig::Logger => DriverKind::Log,
        EndpointConfig::ArtNet => DriverKind::ArtNet,
        EndpointConfig::Sacn { .. } => DriverKind::Sacn,
        EndpointConfig::Usb { .. } => DriverKind::Usb,
    }
}

/// The `(universe, configuration)` pairs one adapt run applies, in
/// mapping order.
pub open spec fn spec_config_pairs(entries: Seq<(UniverseId, Vec<EndpointConfig>)>) -> Seq<
    (UniverseId, EndpointConfig),
>
    decreases entries.len(),
{
    if entries.len() == 0 {
        Seq::empty()
    } else {
        spec_config_pairs(entries.drop_last()) + Seq::new(
            entries.last().1@.len(),
            |i: int| (entries.last().0, entries.last().1@[i]),
        )
    }
}

/// Flatten the endpoint mapping into the subscription/configuration
/// pairs to apply, in order.
pub fn planned_configs(mapping: &EndpointMapping) -> (r: Vec<(UniverseId, EndpointConfig)>)
    ensures
        r@ == spec_config_pairs(mapping.endpoints@),
{
    let mut r: Vec<(UniverseId, EndpointConfig)> = Vec::new();
    let n = mapping.endpoints.len();
    let mut i: usize = 0;
    proof {
        assert(r@ =~= spec_config_pairs(mapping.endpoints@.take(0)));
    }
    while i < n
        invariant
            i <= n,
            n == mapping.endpoints@.len(),
            r@ == spec_config_pairs(mapping.endpoints@.take(i as int)),
        decreases n - i,
    {
        let universe = mapping.endpoints[i].0;
        let m = mapping.endpoints[i].1.len();
        let mut j: usize = 0;
        while j < m
            invariant
                i < n,
                j <= m,
                n == mapping.endpoints@.len(),
                m == mapping.endpoints@[i as int].1@.len(),
                universe == mapping.endpoints@[i as int].0,
                r@ == spec_config_pairs(mapping.endpoints@.take(i as int)) + Seq::new(
                    j as nat,
                    |x: int| (universe, mapping.endpoints@[i as int].1@[x]),
                ),
            decreases m - j,
        {
            r.push((universe, mapping.endpoints[i].1[j].clone()));
            proof {
                assert(r@ =~= spec_config_pairs(mapping.endpoints@.take(i as int)) + Seq::new(
                    (j + 1) as nat,
                    |x: int| (universe, mapping.endpoints@[i as int].1@[x]),
                ));
            }
            j += 1;
        }
        proof {
            assert(mapping.endpoints@.take(i + 1).drop_last() =~= mapping.endpoints@.take(
                i as int,
            ));
            assert(mapping.endpoints@.take(i + 1).last() == mapping.endpoints@[i as int]);
            assert(r@ =~= spec_config_pairs(mapping.endpoints@.take(i + 1)));
        }
        i += 1;
    }
    proof {
        assert(mapping.endpoints@.take(n as int) =~= mapping.endpoints@);
    }
    r
}

/// The state the sACN worker owns: which wire universe feeds from
/// which source universe, which wire universes each rate bucket
/// drives, and the cached frame per source universe.
#[derive(Debug)]
pub struct SacnWorkerState {
    mapping: Vec<(u16, UniverseId)>,
    update_intervals: Vec<(EndpointSpeed, Vec<u16>)>,
    cache: Vec<(UniverseId, Vec<u8>)>,
}

/// First-component lookup in an association list whose keys are
/// unique.
pub open spec fn spec_assoc<K, V>(s: Seq<(K, V)>, k: K) -> Option<V> {
    if exists|i: int| 0 <= i < s.len() && (#[trigger] s[i]).0 == k {
        let i = choose|i: int| 0 <= i < s.len() && (#[trigger] s[i]).0 == k;
        Some(s[i].1)
    } else {
        None
    }
}

/// No two entries share a key.
pub open spec fn spec_assoc_unique<K, V>(s: Seq<(K, V)>) -> bool {
    forall|i: int, j: int| 0 <= i < j < s.len() ==> (#[trigger] s[i]).0 != (#[trigger] s[j]).0
}

/// An entry's key looks up its own value.
proof fn lemma_assoc_at<K, V>(s: Seq<(K, V)>, i: int)
    requires
        spec_assoc_unique(s),
        0 <= i < s.len(),
    ensures
        spec_assoc(s, s[i].0) == Some(s[i].1),
{
    assert(0 <= i < s.len() && s[i].0 == s[i].0);
    let w = choose|x: int| 0 <= x < s.len() && (#[trigger] s[x]).0 == s[i].0;
    if w != i {
        assert(s[w].0 == s[i].0);
    }
}

/// Replacing the value at one entry changes that key's lookup and
/// no other.
proof fn lemma_assoc_update<K, V>(s: Seq<(K, V)>, i: int, v: V)
    requires
        spec_assoc_unique(s),
        0 <= i < s.len(),
    ensures
        spec_assoc_unique(s.update(i, (s[i].0, v))),
        spec_assoc(s.update(i, (s[i].0, v)), s[i].0) == Some(v),
        forall|k: K| k != s[i].0 ==> spec_assoc(s.update(i, (s[i].0, v)), k) == spec_assoc(s, k),
{
    let t = s.update(i, (s[i].0, v));
    assert forall|a: int, b: int| 0 <= a < b < t.len() implies (#[trigger] t[a]).0 != (
    #[trigger] t[b]).0 by {
        assert(t[a].0 == s[a].0 && t[b].0 == s[b].0);
    }
    assert(spec_assoc(t, s[i].0) == Some(v)) by {
        assert(t[i].0 == s[i].0);
        let w = choose|x: int| 0 <= x < t.len() && (#[trigger] t[x]).0 == s[i].0;
        if w != i {
            assert(t[w].0 == s[w].0);
        }
    }
    assert forall|k: K| k != s[i].0 implies spec_assoc(t, k) == spec_assoc(s, k) by {
        if exists|x: int| 0 <= x < t.len() && (#[trigger] t[x]).0 == k {
            let w = choose|x: int| 0 <= x < t.len() && (#[trigger] t[x]).0 == k;
            assert(w != i);
            assert(s[w].0 == k);
            let w2 = choose|x: int| 0 <= x < s.len() && (#[trigger] s[x]).0 == k;
            if w2 != w {
                assert(s[w2].0 == k && s[w].0 == k);
            }
            assert(t[w].1 == s[w2].1);
        } else {
            assert forall|x: int| 0 <= x < s.len() implies (#[trigger] s[x]).0 != k by {
                assert(t[x].0 == s[x].0);
            }
        }
    }
}

/// Appending an entry under a fresh key adds that key's lookup and
/// changes no other.
proof fn lemma_assoc_push<K, V>(s: Seq<(K, V)>, k: K, v: V)
    requires
        spec_assoc_unique(s),
        spec_assoc(s, k) is None,
    ensures
        spec_assoc_unique(s.push((k, v))),
        spec_assoc(s.push((k, v)), k) == Some(v),
        forall|k2: K| k2 != k ==> spec_assoc(s.push((k, v)), k2) == spec_assoc(s, k2),
{
    let t = s.push((k, v));
    assert(forall|x: int| 0 <= x < s.len() ==> (#[trigger] s[x]).0 != k);
    assert forall|a: int, b: int| 0 <= a < b < t.len() implies (#[trigger] t[a]).0 != (
    #[trigger] t[b]).0 by {
        assert(t[a] == s[a]);
        if b < s.len() {
            assert(t[b] == s[b]);
        } else {
            assert(t[b] == (k, v));
        }
    }
    assert(spec_assoc(t, k) == Some(v)) by {
        assert(t[s.len() as int].0 == k);
        let w = choose|x: int| 0 <= x < t.len() && (#[trigger] t[x]).0 == k;
        if w != s.len() {
            assert(t[w] == s[w]);
        }
    }
    assert forall|k2: K| k2 != k implies spec_assoc(t, k2) == spec_assoc(s, k2) by {
        if exists|x: int| 0 <= x < t.len() && (#[trigger] t[x]).0 == k2 {
            let w = choose|x: int| 0 <= x < t.len() && (#[trigger] t[x]).0 == k2;
            assert(w != s.len());
            assert(t[w] == s[w]);
            let w2 = choose|x: int| 0 <= x < s.len() && (#[trigger] s[x]).0 == k2;
            if w2 != w {
                assert(s[w2].0 == k2 && s[w].0 == k2);
            }
            assert(t[w].1 == s[w2].1);
        } else {
            assert forall|x: int| 0 <= x < s.len() implies (#[trigger] s[x]).0 != k2 by {
                assert(t[x] == s[x]);
            }
        }
    }
}

impl SacnWorkerState {
    pub closed spec fn mapping_entries(self) -> Seq<(u16, UniverseId)> {
        self.mapping@
    }

    pub closed spec fn interval_entries(self) -> Seq<(EndpointSpeed, Vec<u16>)> {
        self.update_intervals@
    }

    pub closed spec fn cache_entries(self) -> Seq<(UniverseId, Vec<u8>)> {
        self.cache@
    }

    /// Which source universe the wire universe `id` draws from.
    pub open spec fn spec_mapped(self, id: u16) -> Option<UniverseId> {
        spec_assoc(self.mapping_entries(), id)
    }

    /// The wire universes bound to the rate `speed`, in binding
    /// order; none when the bucket does not exist yet.
    pub open spec fn spec_bucket(self, speed: EndpointSpeed) -> Option<Seq<u16>> {
        match spec_assoc(self.interval_entries(), speed) {
            Some(v) => Some(v@),
            None => None,
        }
    }

    /// The cached frame of the source universe `u`.
    pub open spec fn spec_frame(self, u: UniverseId) -> Option<Seq<u8>> {
        match spec_assoc(self.cache_entries(), u) {
            Some(v) => Some(v@),
            None => None,
        }
    }

    /// Keys are unique, every cached frame is one wire frame long,
    /// every bound wire universe has a source, and every source has
    /// a cached frame.
    pub open spec fn wf(self) -> bool {
        &&& spec_assoc_unique(self.mapping_entries())
        &&& spec_assoc_unique(self.interval_entries())
        &&& spec_assoc_unique(self.cache_entries())
        &&& forall|i: int|
            0 <= i < self.cache_entries().len() ==> (#[trigger] self.cache_entries()[i]).1@.len()
                == SACN_FRAME_LEN
        &&& forall|i: int, j: int|
            0 <= i < self.interval_entries().len() && 0 <= j
                < self.interval_entries()[i].1@.len() ==> #[trigger] self.spec_mapped(
                self.interval_entries()[i].1@[j],
            ) is Some
        &&& forall|i: int|
            0 <= i < self.mapping_entries().len() ==> self.spec_frame(
                (#[trigger] self.mapping_entries()[i]).1,
            ) is Some
    }

    /// A worker with nothing bound yet.
    pub fn create() -> (r: Self)
        ensures
            r.wf(),
            r.mapping_entries().len() == 0,
            r.interval_entries().len() == 0,
            r.cache_entries().len() == 0,
    {
        SacnWorkerState { mapping: Vec::new(), update_intervals: Vec::new(), cache: Vec::new() }
    }

    fn find_mapping_index(&self, id: u16) -> (r: Option<usize>)
        ensures
            r matches Some(i) ==> i < self.mapping_entries().len()
                && self.mapping_entries()[i as int].0 == id,
            r is None ==> forall|i: int|
                0 <= i < self.mapping_entries().len() ==> (#[trigger] self.mapping_entries()[i]).0
                    != id,
    {
        let n = self.mapping.len();
        let mut i: usize = 0;
        while i < n
            invariant
                i <= n,
                n == self.mapping_entries().len(),
                forall|k: int|
                    0 <= k < i ==> (#[trigger] self.mapping_entries()[k]).0 != id,
            decreases n - i,
        {
            if self.mapping[i].0 == id {
                return Some(i);
            }
            i += 1;
        }
        None
    }

    fn find_interval_index(&self, speed: EndpointSpeed) -> (r: Option<usize>)
        ensures
            r matches Some(i) ==> i < self.interval_entries().len()
                && self.interval_entries()[i as int].0 == speed,
            r is None ==> forall|i: int|
                0 <= i < self.interval_entries().len() ==> (
                #[trigger] self.interval_entries()[i]).0 != speed,
    {
        let n = self.update_intervals.len();
        let mut i: usize = 0;
        while i < n
            invariant
                i <= n,
                n == self.interval_entries().len(),
                forall|k: int|
                    0 <= k < i ==> (#[trigger] self.interval_entries()[k]).0 != speed,
            decreases n - i,
        {
            if self.update_intervals[i].0 == speed {
                return Some(i);
            }
            i += 1;
        }
        None
    }

    fn find_cache_index(&self, u: UniverseId) -> (r: Option<usize>)
        ensures
            r matches Some(i) ==> i < self.cache_entries().len() && self.cache_entries()[i as int].0
                == u,
            r is None ==> forall|i: int|
                0 <= i < self.cache_entries().len() ==> (#[trigger] self.cache_entries()[i]).0 != u,
    {
        let n = self.cache.len();
        let mut i: usize = 0;
        while i < n
            invariant
                i <= n,
                n == self.cache_entries().len(),
                forall|k: int| 0 <= k < i ==> (#[trigger] self.cache_entries()[k]).0 != u,
            decreases n - i,
        {
            if self.cache[i].0 == u {
                return Some(i);
            }
            i += 1;
        }
        None
    }

    /// Bind wire universe `id`, driven at `speed`, to the source
    /// universe `sub_universe`: the id joins the rate's bucket, the
    /// wire-to-source mapping is set, and a zero frame is cached for
    /// the source when none is yet. (The async shell also registers
    /// `id` with the sACN source and retains the subscriber.)
    pub fn add_binding(&mut self, sub_universe: UniverseId, speed: EndpointSpeed, id: u16)
        requires
            old(self).wf(),
        ensures
            final(self).wf(),
            final(self).spec_bucket(speed) == Some(
                match old(self).spec_bucket(speed) {
                    Some(b) => b.push(id),
                    None => seq![id],
                },
            ),
            forall|sp: EndpointSpeed|
                sp != speed ==> final(self).spec_bucket(sp) == old(self).spec_bucket(sp),
            final(self).spec_mapped(id) == Some(sub_universe),
            forall|k: u16| k != id ==> final(self).spec_mapped(k) == old(self).spec_mapped(k),
            final(self).spec_frame(sub_universe) == Some(
                match old(self).spec_frame(sub_universe) {
                    Some(f) => f,
                    None => spec_zero_frame(),
                },
            ),
            forall|u: UniverseId|
                u != sub_universe ==> final(self).spec_frame(u) == old(self).spec_frame(u),
    {
        let ghost es0 = self.interval_entries();
        match self.find_interval_index(speed) {
            Some(i) => {
                proof {
                    lemma_assoc_at(es0, i as int);
                }
                let entry = &mut self.update_intervals[i];
                entry.1.push(id);
                proof {
                    let es1 = self.interval_entries();
                    assert(es1 == es0.update(i as int, es1[i as int]));
                    assert(es1[i as int].0 == speed);
                    assert(es1[i as int].1@ == es0[i as int].1@.push(id));
                    assert((es0[i as int].0, es1[i as int].1) == es1[i as int]);
                    lemma_assoc_update(es0, i as int, es1[i as int].1);
                }
            },
            None => {
                let mut bucket: Vec<u16> = Vec::new();
                bucket.push(id);
                proof {
                    assert(spec_assoc(es0, speed) is None);
                }
                let ghost b = bucket;
                self.update_intervals.push((speed, bucket));
                proof {
                    assert(self.interval_entries() == es0.push((speed, b)));
                    lemma_assoc_push(es0, speed, b);
                    assert(b@ =~= seq![id]);
                }
            },
        }
        let ghost ms0 = self.mapping_entries();
        match self.find_mapping_index(id) {
            Some(i) => {
                proof {
                    lemma_assoc_at(ms0, i as int);
                }
                self.mapping[i] = (id, sub_universe);
                proof {
                    let ms1 = self.mapping_entries();
                    assert(ms1 == ms0.update(i as int, (id, sub_universe)));
                    assert((ms0[i as int].0, sub_universe) == (id, sub_universe));
                    lemma_assoc_update(ms0, i as int, sub_universe);
                }
            },
            None => {
                proof {
                    assert(spec_assoc(ms0, id) is None);
                }
                self.mapping.push((id, sub_universe));
                proof {
                    assert(self.mapping_entries() == ms0.push((id, sub_universe)));
                    lemma_assoc_push(ms0, id, sub_universe);
                }
            },
        }
        let ghost cs0 = self.cache_entries();
        match self.find_cache_index(sub_universe) {
            Some(i) => {
                proof {
                    lemma_assoc_at(cs0, i as int);
                }
            },
            None => {
                proof {
                    assert(spec_assoc(cs0, sub_universe) is None);
                }
                let frame = zero_frame();
                let ghost f = frame;
                self.cache.push((sub_universe, frame));
                proof {
                    assert(self.cache_entries() == cs0.push((sub_universe, f)));
                    lemma_assoc_push(cs0, sub_universe, f);
                }
            },
        }
        proof {
            lemma_add_binding_wf(*old(self), *self, sub_universe, speed, id);
        }
    }

    /// One slot write into the cache: the frame of the chunk's
    /// universe takes the value at the 1-based slot position; a
    /// universe without a cached frame is left alone.
    fn apply_cache_chunk(&mut self, chunk: &UpdateChunk)
        requires
            old(self).wf(),
        ensures
            final(self).wf(),
            final(self).mapping_entries() == old(self).mapping_entries(),
            final(self).interval_entries() == old(self).interval_entries(),
            ({
                let u = chunk.0.spec_universe();
                &&& (old(self).spec_frame(u) matches Some(f) ==> final(self).spec_frame(u)
                    == Some(f.update(chunk.0.spec_address() as int, chunk.1)))
                &&& (old(self).spec_frame(u) is None ==> final(self).spec_frame(u) is None)
                &&& forall|v: UniverseId|
                    v != u ==> final(self).spec_frame(v) == old(self).spec_frame(v)
            }),
    {
        let u = chunk.0.universe();
        let ghost cs0 = self.cache_entries();
        match self.find_cache_index(u) {
            Some(i) => {
                proof {
                    lemma_assoc_at(cs0, i as int);
                }
                let a = chunk.0.address().take();
                proof {
                    assert(self.cache_entries()[i as int].1@.len() == SACN_FRAME_LEN);
                }
                let entry = &mut self.cache[i];
                entry.1[a] = chunk.1;
                proof {
                    let cs1 = self.cache_entries();
                    assert(cs1 == cs0.update(i as int, cs1[i as int]));
                    assert(cs1[i as int].0 == u);
                    assert(cs1[i as int].1@ == cs0[i as int].1@.update(a as int, chunk.1));
                    assert((cs0[i as int].0, cs1[i as int].1) == cs1[i as int]);
                    lemma_assoc_update(cs0, i as int, cs1[i as int].1);
                    lemma_cache_mutation_wf(*old(self), *self);
                }
            },
            None => {
                proof {
                    assert(spec_assoc(cs0, u) is None);
                }
            },
        }
    }

    /// Replace the slots of one cached frame from an `Entire`
    /// snapshot; the start code octet stays. A universe without a
    /// cached frame is left alone.
    fn apply_cache_entire(&mut self, u: UniverseId, values: &Vec<u8>)
        requires
            old(self).wf(),
            values@.len() == UNIVERSE_SIZE,
        ensures
            final(self).wf(),
            final(self).mapping_entries() == old(self).mapping_entries(),
            final(self).interval_entries() == old(self).interval_entries(),
            (old(self).spec_frame(u) matches Some(f) ==> final(self).spec_frame(u) == Some(
                f.take(1) + values@,
            )),
            old(self).spec_frame(u) is None ==> final(self).spec_frame(u) is None,
            forall|v: UniverseId| v != u ==> final(self).spec_frame(v) == old(self).spec_frame(v),
    {
        let ghost cs0 = self.cache_entries();
        match self.find_cache_index(u) {
            Some(i) => {
                proof {
                    lemma_assoc_at(cs0, i as int);
                    assert(self.cache_entries()[i as int].1@.len() == SACN_FRAME_LEN);
                }
                let ghost frame0 = self.cache_entries()[i as int].1@;
                let entry = &mut self.cache[i];
                let mut k: usize = 0;
                while k < UNIVERSE_SIZE
                    invariant
                        k <= UNIVERSE_SIZE,
                        values@.len() == UNIVERSE_SIZE,
                        frame0.len() == SACN_FRAME_LEN,
                        entry.0 == u,
                        entry.1@.len() == SACN_FRAME_LEN,
                        entry.1@[0] == frame0[0],
                        forall|x: int| 0 <= x < k ==> #[trigger] entry.1@[x + 1] == values@[x],
                        forall|x: int|
                            k <= x < UNIVERSE_SIZE ==> #[trigger] entry.1@[x + 1] == frame0[x
                                + 1],
                    decreases UNIVERSE_SIZE - k,
                {
                    entry.1[k + 1] = values[k];
                    k += 1;
                }
                proof {
                    assert forall|y: int|
                        0 <= y < entry.1@.len() implies entry.1@[y] == (frame0.take(1)
                        + values@)[y] by {
                        if y >= 1 {
                            assert(entry.1@[(y - 1) + 1] == values@[y - 1]);
                        }
                    }
                    assert(entry.1@ =~= frame0.take(1) + values@);
                }
                proof {
                    let cs1 = self.cache_entries();
                    assert(cs1 == cs0.update(i as int, cs1[i as int]));
                    assert(cs1[i as int].0 == u);
                    assert(cs1[i as int].1@ == frame0.take(1) + values@);
                    assert((cs0[i as int].0, cs1[i as int].1) == cs1[i as int]);
                    lemma_assoc_update(cs0, i as int, cs1[i as int].1);
                    lemma_cache_mutation_wf(*old(self), *self);
                }
            },
            None => {
                proof {
                    assert(spec_assoc(cs0, u) is None);
                }
            },
        }
    }

    /// The cache as a map from source universe to its frame.
    pub open spec fn spec_cache_map(self) -> Map<UniverseId, Seq<u8>> {
        Map::new(
            |u: UniverseId| self.spec_frame(u) is Some,
            |u: UniverseId| self.spec_frame(u).unwrap(),
        )
    }

    /// Apply one incoming update to the cache: `Single` and `Many`
    /// write slots (at their 1-based position, behind the start
    /// code), `Entire` replaces a frame's slots wholesale. Universes
    /// this worker does not cache are dropped; bindings and buckets
    /// do not change.
    pub fn on_update(&mut self, update: &UniverseUpdate)
        requires
            old(self).wf(),
            update.wf(),
        ensures
            final(self).wf(),
            final(self).mapping_entries() == old(self).mapping_entries(),
            final(self).interval_entries() == old(self).interval_entries(),
            final(self).spec_cache_map() == spec_cache_after_update(
                old(self).spec_cache_map(),
                *update,
            ),
    {
        match update {
            UniverseUpdate::Single { update: chunk } => {
                self.apply_cache_chunk(chunk);
                proof {
                    assert(self.spec_cache_map() =~= spec_cache_after_chunk(
                        old(self).spec_cache_map(),
                        *chunk,
                    ));
                }
            },
            UniverseUpdate::Many { updates } => {
                let n = updates.len();
                let mut i: usize = 0;
                proof {
                    assert(self.spec_cache_map() =~= spec_cache_after_chunks(
                        old(self).spec_cache_map(),
                        updates@.take(0),
                    ));
                }
                while i < n
                    invariant
                        i <= n,
                        n == updates@.len(),
                        self.wf(),
                        self.mapping_entries() == old(self).mapping_entries(),
                        self.interval_entries() == old(self).interval_entries(),
                        self.spec_cache_map() == spec_cache_after_chunks(
                            old(self).spec_cache_map(),
                            updates@.take(i as int),
                        ),
                    decreases n - i,
                {
                    let ghost pre = self.spec_cache_map();
                    self.apply_cache_chunk(&updates[i]);
                    proof {
                        assert(updates@.take(i + 1) =~= updates@.take(i as int).push(
                            updates@[i as int],
                        ));
                        lemma_cache_chunks_push(
                            old(self).spec_cache_map(),
                            updates@.take(i as int),
                            updates@[i as int],
                        );
                        assert(self.spec_cache_map() =~= spec_cache_after_chunk(
                            pre,
                            updates@[i as int],
                        ));
                    }
                    i += 1;
                }
                proof {
                    assert(updates@.take(n as int) =~= updates@);
                }
            },
            UniverseUpdate::Entire { universe, values } => {
                self.apply_cache_entire(*universe, values);
                proof {
                    let pre = old(self).spec_cache_map();
                    assert(self.spec_cache_map() =~= (if pre.contains_key(*universe) {
                        pre.insert(*universe, pre[*universe].take(1) + values@)
                    } else {
                        pre
                    }));
                }
            },
        }
    }

    /// The frames one rate tick emits: for every wire universe in
    /// the rate's bucket, in binding order, the cached frame of its
    /// source universe — read from the cache as it stands, however
    /// long ago the last update arrived.
    pub fn on_tick(&self, speed: EndpointSpeed) -> (out: Vec<(u16, Vec<u8>)>)
        requires
            self.wf(),
        ensures
            match self.spec_bucket(speed) {
                Some(ids) => out@.len() == ids.len() && forall|i: int|
                    0 <= i < out@.len() ==> ({
                        let id = ids[i];
                        &&& (#[trigger] out@[i]).0 == id
                        &&& self.spec_mapped(id) matches Some(u) && self.spec_frame(u) matches Some(
                            f,
                        ) && out@[i].1@ == f
                    }),
                None => out@.len() == 0,
            },
    {
        let mut out: Vec<(u16, Vec<u8>)> = Vec::new();
        match self.find_interval_index(speed) {
            None => {
                proof {
                    assert(spec_assoc(self.interval_entries(), speed) is None);
                }
                out
            },
            Some(bi) => {
                proof {
                    lemma_assoc_at(self.interval_entries(), bi as int);
                }
                let ghost ids = self.interval_entries()[bi as int].1@;
                let n = self.update_intervals[bi].1.len();
                let mut j: usize = 0;
                while j < n
                    invariant
                        j <= n,
                        self.wf(),
                        bi < self.interval_entries().len(),
                        self.interval_entries()[bi as int].0 == speed,
                        ids == self.interval_entries()[bi as int].1@,
                        n == ids.len(),
                        out@.len() == j,
                        forall|x: int|
                            0 <= x < j ==> ({
                                let id = ids[x];
                                &&& (#[trigger] out@[x]).0 == id
                                &&& self.spec_mapped(id) matches Some(u)
                                    && self.spec_frame(u) matches Some(f) && out@[x].1@ == f
                            }),
                    decreases n - j,
                {
                    let id = self.update_intervals[bi].1[j];
                    match self.find_mapping_index(id) {
                        Some(mi) => {
                            proof {
                                lemma_assoc_at(self.mapping_entries(), mi as int);
                            }
                            let source = self.mapping[mi].1;
                            match self.find_cache_index(source) {
                                Some(ci) => {
                                    proof {
                                        lemma_assoc_at(self.cache_entries(), ci as int);
                                    }
                                    let frame = self.cache[ci].1.clone();
                                    proof {
                                        assert(frame@ =~= self.cache_entries()[ci as int].1@);
                                    }
                                    out.push((id, frame));
                                },
                                None => {
                                    proof {
                                        assert(self.spec_frame(source) is None);
                                        assert(false);
                                    }
                                },
                            }
                        },
                        None => {
                            proof {
                                assert(self.spec_mapped(id) is None);
                                assert(false);
                            }
                        },
                    }
                    j += 1;
                }
                out
            },
        }
    }
}

/// One slot write on the cache seen as a map; an uncached universe
/// changes nothing.
pub open spec fn spec_cache_after_chunk(
    m: Map<UniverseId, Seq<u8>>,
    chunk: UpdateChunk,
) -> Map<UniverseId, Seq<u8>> {
    let u = chunk.0.spec_universe();
    if m.contains_key(u) {
        m.insert(u, m[u].update(chunk.0.spec_address() as int, chunk.1))
    } else {
        m
    }
}

/// A run of slot writes, first to last.
pub open spec fn spec_cache_after_chunks(
    m: Map<UniverseId, Seq<u8>>,
    chunks: Seq<UpdateChunk>,
) -> Map<UniverseId, Seq<u8>>
    decreases chunks.len(),
{
    if chunks.len() == 0 {
        m
    } else {
        spec_cache_after_chunks(spec_cache_after_chunk(m, chunks[0]), chunks.skip(1))
    }
}

/// Effect of one update message on the cache: slot writes for
/// `Single` and `Many`, and for `Entire` a wholesale replacement of
/// the frame's slots behind the start code.
pub open spec fn spec_cache_after_update(
    m: Map<UniverseId, Seq<u8>>,
    update: UniverseUpdate,
) -> Map<UniverseId, Seq<u8>> {
    match update {
        UniverseUpdate::Single { update } => spec_cache_after_chunk(m, update),
        UniverseUpdate::Many { updates } => spec_cache_after_chunks(m, updates@),
        UniverseUpdate::Entire { universe, values } => if m.contains_key(universe) {
            m.insert(universe, m[universe].take(1) + values@)
        } else {
            m
        },
    }
}

/// Applying writes one after the other is the same as applying the
/// whole run and then one more.
proof fn lemma_cache_chunks_push(
    m: Map<UniverseId, Seq<u8>>,
    chunks: Seq<UpdateChunk>,
    c: UpdateChunk,
)
    ensures
        spec_cache_after_chunks(m, chunks.push(c)) == spec_cache_after_chunk(
            spec_cache_after_chunks(m, chunks),
            c,
        ),
    decreases chunks.len(),
{
    if chunks.len() == 0 {
        assert(chunks.push(c)[0] == c);
        assert(chunks.push(c).skip(1) =~= Seq::<UpdateChunk>::empty());
        assert(spec_cache_after_chunks(m, chunks.push(c)) == spec_cache_after_chunks(
            spec_cache_after_chunk(m, c),
            chunks.push(c).skip(1),
        ));
    } else {
        assert(chunks.push(c)[0] == chunks[0]);
        assert(chunks.push(c).skip(1) =~= chunks.skip(1).push(c));
        assert(spec_cache_after_chunks(m, chunks.push(c)) == spec_cache_after_chunks(
            spec_cache_after_chunk(m, chunks[0]),
            chunks.skip(1).push(c),
        ));
        lemma_cache_chunks_push(spec_cache_after_chunk(m, chunks[0]), chunks.skip(1), c);
        assert(spec_cache_after_chunks(m, chunks) == spec_cache_after_chunks(
            spec_cache_after_chunk(m, chunks[0]),
            chunks.skip(1),
        ));
    }
}

/// A mutation that touches only cached frame contents — keys, frame
/// lengths and the other tables untouched — keeps the worker
/// well-formed.
proof fn lemma_cache_mutation_wf(pre: SacnWorkerState, post: SacnWorkerState)
    requires
        pre.wf(),
        post.mapping_entries() == pre.mapping_entries(),
        post.interval_entries() == pre.interval_entries(),
        spec_assoc_unique(post.cache_entries()),
        post.cache_entries().len() == pre.cache_entries().len(),
        forall|i: int|
            0 <= i < post.cache_entries().len() ==> (#[trigger] post.cache_entries()[i]).0
                == pre.cache_entries()[i].0 && post.cache_entries()[i].1@.len()
                == pre.cache_entries()[i].1@.len(),
    ensures
        post.wf(),
{
    assert forall|i: int, j: int|
        0 <= i < post.interval_entries().len() && 0 <= j
            < post.interval_entries()[i].1@.len() implies #[trigger] post.spec_mapped(
        post.interval_entries()[i].1@[j],
    ) is Some by {
        assert(pre.spec_mapped(pre.interval_entries()[i].1@[j]) is Some);
    }
    assert forall|i: int|
        0 <= i < post.mapping_entries().len() implies post.spec_frame(
        (#[trigger] post.mapping_entries()[i]).1,
    ) is Some by {
        let u = post.mapping_entries()[i].1;
        assert(pre.spec_frame(pre.mapping_entries()[i].1) is Some);
        let w = choose|x: int|
            0 <= x < pre.cache_entries().len() && (#[trigger] pre.cache_entries()[x]).0 == u;
        assert(post.cache_entries()[w].0 == u);
    }
}

/// A binding that sets the id's mapping, grows one bucket and caches
/// a full-size frame for the source keeps the worker well-formed.
proof fn lemma_add_binding_wf(
    pre: SacnWorkerState,
    post: SacnWorkerState,
    sub_universe: UniverseId,
    speed: EndpointSpeed,
    id: u16,
)
    requires
        pre.wf(),
        spec_assoc_unique(post.mapping_entries()),
        spec_assoc_unique(post.interval_entries()),
        spec_assoc_unique(post.cache_entries()),
        post.spec_mapped(id) == Some(sub_universe),
        forall|k: u16| k != id ==> post.spec_mapped(k) == pre.spec_mapped(k),
        post.spec_frame(sub_universe) is Some,
        forall|u: UniverseId| u != sub_universe ==> post.spec_frame(u) == pre.spec_frame(u),
        post.spec_frame(sub_universe) matches Some(f) ==> f.len() == SACN_FRAME_LEN,
        forall|i: int|
            0 <= i < post.cache_entries().len() ==> (#[trigger] post.cache_entries()[i]).1@.len()
                == SACN_FRAME_LEN,
        post.mapping_entries().len() <= pre.mapping_entries().len() + 1,
        forall|i: int|
            0 <= i < post.mapping_entries().len() ==> (#[trigger] post.mapping_entries()[i]).1
                == sub_universe || (i < pre.mapping_entries().len() && post.mapping_entries()[i]
                == pre.mapping_entries()[i]),
        post.interval_entries().len() <= pre.interval_entries().len() + 1,
        forall|i: int|
            0 <= i < post.interval_entries().len() ==> (exists|x: int|
                0 <= x < pre.interval_entries().len() && (#[trigger] post.interval_entries()[i]).1@
                    == pre.interval_entries()[x].1@.push(id)) || post.interval_entries()[i].1@
                =~= seq![id] || (i < pre.interval_entries().len() && post.interval_entries()[i]
                == pre.interval_entries()[i]),
    ensures
        post.wf(),
{
    assert forall|k: u16| pre.spec_mapped(k) is Some implies post.spec_mapped(k) is Some by {
        if k != id {
        }
    }
    assert forall|i: int, j: int|
        0 <= i < post.interval_entries().len() && 0 <= j < post.interval_entries()[i].1@.len()
        implies #[trigger] post.spec_mapped(post.interval_entries()[i].1@[j]) is Some by {
        let ids = post.interval_entries()[i].1@;
        if ids[j] == id {
        } else if exists|x: int|
            0 <= x < pre.interval_entries().len() && ids == pre.interval_entries()[x].1@.push(
                id,
            ) {
            let x = choose|x: int|
                0 <= x < pre.interval_entries().len() && ids == pre.interval_entries()[x].1@.push(
                    id,
                );
            assert(ids[j] == pre.interval_entries()[x].1@[j]);
            assert(pre.spec_mapped(pre.interval_entries()[x].1@[j]) is Some);
        } else if ids =~= seq![id] {
            assert(ids[j] == id);
        } else {
            let x = i;
            assert(post.interval_entries()[x] == pre.interval_entries()[x]);
            assert(pre.spec_mapped(pre.interval_entries()[x].1@[j]) is Some);
        }
    }
    assert forall|i: int|
        0 <= i < post.mapping_entries().len() implies post.spec_frame(
        (#[trigger] post.mapping_entries()[i]).1,
    ) is Some by {
        let u = post.mapping_entries()[i].1;
        if u == sub_universe {
        } else {
            assert(post.mapping_entries()[i] == pre.mapping_entries()[i]);
            assert(pre.spec_frame(pre.mapping_entries()[i].1) is Some);
        }
    }
}

/// A fresh frame: a zero start code and zeroed slots.
pub open spec fn spec_zero_frame() -> Seq<u8> {
    Seq::new(SACN_FRAME_LEN as nat, |i: int| 0u8)
}

/// A fresh all-zero frame.
fn zero_frame() -> (r: Vec<u8>)
    ensures
        r@ == spec_zero_frame(),
{
    let mut r: Vec<u8> = Vec::new();
    let mut i: usize = 0;
    while i < SACN_FRAME_LEN
        invariant
            i <= SACN_FRAME_LEN,
            r@.len() == i,
            forall|j: int| 0 <= j < i ==> r@[j] == 0u8,
        decreases SACN_FRAME_LEN - i,
    {
        r.push(0u8);
        i += 1;
    }
    proof {
        assert(r@ =~= spec_zero_frame());
    }
    r
}

} // verus!
