//! The universe runtime: the authoritative per-universe DMX arrays.
//!
//! Commands come in (resend requests and data updates), mutate the
//! owned arrays, and produce the publications that fan out to
//! subscribers. Subscribers filter the stream by universe.
use vstd::prelude::*;

use crate::universe::{FixtureAddress, UniverseId, UNIVERSE_SIZE};

verus! {

/// One slot write: which address takes which value.
pub type UpdateChunk = (FixtureAddress, u8);

/// What flows from writers to subscribers.
#[derive(Debug, PartialEq)]
pub enum UniverseUpdate {
    Single { update: UpdateChunk },
    Many { updates: Vec<UpdateChunk> },
    Entire { universe: UniverseId, values: Vec<u8> },
}

impl UniverseUpdate {
    /// An `Entire` message always carries one full universe.
    pub open spec fn wf(self) -> bool {
        match self {
            UniverseUpdate::Entire { universe, values } => values@.len() == UNIVERSE_SIZE,
            _ => true,
        }
    }
}

impl Clone for UniverseUpdate {
    /// A field-true copy: the same shape with the same contents.
    fn clone(&self) -> (r: Self)
        ensures
            match *self {
                UniverseUpdate::Single { update } => r == UniverseUpdate::Single { update },
                UniverseUpdate::Many { updates } => r matches UniverseUpdate::Many {
                    updates: copied,
                } && copied@ == updates@,
                UniverseUpdate::Entire { universe, values } => r matches UniverseUpdate::Entire {
                    universe: u2,
                    values: v2,
                } && u2 == universe && v2@ == values@,
            },
    {
        match self {
            UniverseUpdate::Single { update } => UniverseUpdate::Single { update: *update },
            UniverseUpdate::Many { updates } => {
                let n = updates.len();
                let mut copied: Vec<UpdateChunk> = Vec::new();
                let mut i: usize = 0;
                while i < n
                    invariant
                        i <= n,
                        n == updates@.len(),
                        copied@ == updates@.take(i as int),
                    decreases n - i,
                {
                    copied.push(updates[i]);
                    proof {
                        assert(copied@ =~= updates@.take(i + 1));
                    }
                    i += 1;
                }
                proof {
                    assert(copied@ =~= updates@);
                }
                UniverseUpdate::Many { updates: copied }
            },
            UniverseUpdate::Entire { universe, values } => {
                let v2 = values.clone();
                proof {
                    assert(v2@ =~= values@);
                }
                UniverseUpdate::Entire { universe: *universe, values: v2 }
            },
        }
    }
}

/// What the runtime is asked to do.
#[derive(Debug, PartialEq)]
pub enum RuntimeCommand {
    ResendUniverses,
    ResendUniverse(UniverseId),
    UpdateData(UniverseUpdate),
}

impl RuntimeCommand {
    pub open spec fn wf(self) -> bool {
        match self {
            RuntimeCommand::UpdateData(update) => update.wf(),
            _ => true,
        }
    }
}

/// A fresh universe: all slots zero.
pub open spec fn spec_zero_universe() -> Seq<u8> {
    Seq::new(UNIVERSE_SIZE as nat, |i: int| 0u8)
}

/// Effect of one slot write on the universe arrays. A write whose
/// universe is not configured changes nothing.
pub open spec fn spec_apply_chunk(unis: Seq<Seq<u8>>, chunk: UpdateChunk) -> Seq<Seq<u8>> {
    let u = chunk.0.spec_universe() as int;
    let a = chunk.0.spec_address() as int;
    if 1 <= u && u - 1 < unis.len() {
        unis.update(u - 1, unis[u - 1].update(a - 1, chunk.1))
    } else {
        unis
    }
}

/// Effect of a run of slot writes, first to last.
pub open spec fn spec_apply_chunks(unis: Seq<Seq<u8>>, chunks: Seq<UpdateChunk>) -> Seq<Seq<u8>>
    decreases chunks.len(),
{
    if chunks.len() == 0 {
        unis
    } else {
        spec_apply_chunks(spec_apply_chunk(unis, chunks[0]), chunks.skip(1))
    }
}

/// Effect of replacing one whole universe.
pub open spec fn spec_apply_entire(
    unis: Seq<Seq<u8>>,
    universe: UniverseId,
    values: Seq<u8>,
) -> Seq<Seq<u8>> {
    let u = universe as int;
    if 1 <= u && u - 1 < unis.len() {
        unis.update(u - 1, values)
    } else {
        unis
    }
}

/// Effect of a whole update message on the universe arrays.
pub open spec fn spec_apply_update(unis: Seq<Seq<u8>>, update: UniverseUpdate) -> Seq<Seq<u8>> {
    match update {
        UniverseUpdate::Single { update } => spec_apply_chunk(unis, update),
        UniverseUpdate::Many { updates } => spec_apply_chunks(unis, updates@),
        UniverseUpdate::Entire { universe, values } => spec_apply_entire(unis, universe, values@),
    }
}

/// Does `up` say: universe `universe` holds exactly `values`?
pub open spec fn is_entire_of(up: UniverseUpdate, universe: UniverseId, values: Seq<u8>) -> bool {
    up matches UniverseUpdate::Entire { universe: u, values: v } && u == universe && v@ == values
}

/// Applying writes one after the other is the same as applying the
/// whole run and then one more.
pub proof fn lemma_apply_chunks_push(unis: Seq<Seq<u8>>, chunks: Seq<UpdateChunk>, c: UpdateChunk)
    ensures
        spec_apply_chunks(unis, chunks.push(c)) == spec_apply_chunk(
            spec_apply_chunks(unis, chunks),
            c,
        ),
    decreases chunks.len(),
{
    if chunks.len() == 0 {
        assert(chunks.push(c)[0] == c);
        assert(chunks.push(c).skip(1) =~= Seq::<UpdateChunk>::empty());
        assert(spec_apply_chunks(unis, chunks.push(c)) == spec_apply_chunks(
            spec_apply_chunk(unis, c),
            chunks.push(c).skip(1),
        ));
        assert(spec_apply_chunks(unis, chunks) == unis);
    } else {
        assert(chunks.push(c)[0] == chunks[0]);
        assert(chunks.push(c).skip(1) =~= chunks.skip(1).push(c));
        assert(spec_apply_chunks(unis, chunks.push(c)) == spec_apply_chunks(
            spec_apply_chunk(unis, chunks[0]),
            chunks.skip(1).push(c),
        ));
        lemma_apply_chunks_push(spec_apply_chunk(unis, chunks[0]), chunks.skip(1), c);
        assert(spec_apply_chunks(unis, chunks) == spec_apply_chunks(
            spec_apply_chunk(unis, chunks[0]),
            chunks.skip(1),
        ));
    }
}

/// A run of slot writes never changes how many universes there are.
proof fn lemma_apply_chunks_len(unis: Seq<Seq<u8>>, chunks: Seq<UpdateChunk>)
    ensures
        spec_apply_chunks(unis, chunks).len() == unis.len(),
    decreases chunks.len(),
{
    if chunks.len() > 0 {
        lemma_apply_chunks_len(spec_apply_chunk(unis, chunks[0]), chunks.skip(1));
    }
}

/// No update changes how many universes there are: every write lands
/// inside an existing universe or is dropped.
pub proof fn lemma_apply_update_len(unis: Seq<Seq<u8>>, update: UniverseUpdate)
    ensures
        spec_apply_update(unis, update).len() == unis.len(),
{
    match update {
        UniverseUpdate::Many { updates } => {
            lemma_apply_chunks_len(unis, updates@);
        },
        _ => {},
    }
}

/// Owns one DMX array per configured universe.
#[derive(Debug)]
pub struct UniverseRuntime {
    runtime_universes: Vec<Vec<u8>>,
}

impl UniverseRuntime {
    /// The universe arrays, first universe first.
    pub closed spec fn unis(self) -> Seq<Seq<u8>> {
        Seq::new(self.runtime_universes@.len() as nat, |i: int| self.runtime_universes@[i]@)
    }

    /// Universes are identified by `u16`, and every array is one full
    /// universe long.
    pub open spec fn wf(self) -> bool {
        &&& self.unis().len() <= u16::MAX
        &&& forall|i: int|
            0 <= i < self.unis().len() ==> (#[trigger] self.unis()[i]).len() == UNIVERSE_SIZE
    }

    /// A runtime with no universes yet; the first adapt populates it.
    pub fn create() -> (r: Self)
        ensures
            r.wf(),
            r.unis() == Seq::<Seq<u8>>::empty(),
    {
        let r = UniverseRuntime { runtime_universes: Vec::new() };
        proof {
            assert(r.unis() =~= Seq::<Seq<u8>>::empty());
        }
        r
    }

    /// The snapshot publication for one universe: its `Entire`
    /// message, or nothing when the universe is not configured.
    fn send_universe(&self, universe: UniverseId) -> (out: Option<UniverseUpdate>)
        requires
            self.wf(),
        ensures
            out is Some <==> 1 <= universe && universe <= self.unis().len(),
            out matches Some(up) ==> is_entire_of(up, universe, self.unis()[universe - 1])
                && up.wf(),
    {
        if universe >= 1 && ((universe - 1) as usize) < self.runtime_universes.len() {
            let idx = (universe - 1) as usize;
            let values = self.runtime_universes[idx].clone();
            proof {
                assert(values@ =~= self.unis()[universe - 1]);
            }
            Some(UniverseUpdate::Entire { universe, values })
        } else {
            None
        }
    }

    /// One slot write. Writes to an unconfigured universe are dropped.
    fn apply_chunk(&mut self, chunk: &UpdateChunk)
        requires
            old(self).wf(),
        ensures
            final(self).wf(),
            final(self).unis() == spec_apply_chunk(old(self).unis(), *chunk),
    {
        let universe = chunk.0.universe();
        if universe >= 1 && ((universe - 1) as usize) < self.runtime_universes.len() {
            let idx = (universe - 1) as usize;
            let a = chunk.0.address().take();
            proof {
                assert(self.unis()[idx as int] == self.runtime_universes@[idx as int]@);
                assert(self.unis()[idx as int].len() == UNIVERSE_SIZE);
            }
            let data = &mut self.runtime_universes[idx];
            data[a - 1] = chunk.1;
            proof {
                assert(self.unis() =~~= spec_apply_chunk(old(self).unis(), *chunk));
            }
        } else {
            proof {
                assert(self.unis() =~~= spec_apply_chunk(old(self).unis(), *chunk));
            }
        }
    }

    /// A run of slot writes, in order.
    fn apply_chunks(&mut self, chunks: &Vec<UpdateChunk>)
        requires
            old(self).wf(),
        ensures
            final(self).wf(),
            final(self).unis() == spec_apply_chunks(old(self).unis(), chunks@),
    {
        let n = chunks.len();
        let mut i: usize = 0;
        while i < n
            invariant
                n == chunks@.len(),
                i <= n,
                self.wf(),
                self.unis() == spec_apply_chunks(old(self).unis(), chunks@.take(i as int)),
            decreases n - i,
        {
            proof {
                assert(chunks@.take(i + 1) =~= chunks@.take(i as int).push(chunks@[i as int]));
                lemma_apply_chunks_push(old(self).unis(), chunks@.take(i as int), chunks@[i as int]);
            }
            self.apply_chunk(&chunks[i]);
            i += 1;
        }
        proof {
            assert(chunks@.take(n as int) =~= chunks@);
        }
    }

    /// Replace one whole universe. Unknown universes are dropped.
    fn apply_entire(&mut self, universe: UniverseId, values: &Vec<u8>)
        requires
            old(self).wf(),
            values@.len() == UNIVERSE_SIZE,
        ensures
            final(self).wf(),
            final(self).unis() == spec_apply_entire(old(self).unis(), universe, values@),
    {
        if universe >= 1 && ((universe - 1) as usize) < self.runtime_universes.len() {
            let idx = (universe - 1) as usize;
            let row = values.clone();
            proof {
                assert(row@ =~= values@);
            }
            self.runtime_universes[idx] = row;
            proof {
                assert(self.unis() =~~= spec_apply_entire(old(self).unis(), universe, values@));
            }
        } else {
            proof {
                assert(self.unis() =~~= spec_apply_entire(old(self).unis(), universe, values@));
            }
        }
    }

    /// Handle one command: mutate the owned arrays as the command
    /// says, and return the publications to broadcast, in order.
    ///
    /// * `ResendUniverses` publishes one `Entire` snapshot per
    ///   configured universe and changes nothing.
    /// * `ResendUniverse(u)` publishes the snapshot of `u`, or nothing
    ///   when `u` is not configured.
    /// * `UpdateData(up)` applies `up` to the arrays and republishes
    ///   the very same message.
    pub fn handle_cmd(&mut self, cmd: RuntimeCommand) -> (out: Vec<UniverseUpdate>)
        requires
            old(self).wf(),
            cmd.wf(),
        ensures
            final(self).wf(),
            match cmd {
                RuntimeCommand::ResendUniverses => {
                    &&& final(self).unis() == old(self).unis()
                    &&& out@.len() == old(self).unis().len()
                    &&& forall|i: int|
                        0 <= i < out@.len() ==> is_entire_of(
                            #[trigger] out@[i],
                            (i + 1) as UniverseId,
                            old(self).unis()[i],
                        )
                },
                RuntimeCommand::ResendUniverse(u) => {
                    &&& final(self).unis() == old(self).unis()
                    &&& (1 <= u && u <= old(self).unis().len()) ==> out@.len() == 1
                        && is_entire_of(out@[0], u, old(self).unis()[u - 1])
                    &&& !(1 <= u && u <= old(self).unis().len()) ==> out@.len() == 0
                },
                RuntimeCommand::UpdateData(update) => {
                    &&& final(self).unis() == spec_apply_update(old(self).unis(), update)
                    &&& out@ == seq![update]
                },
            },
    {
        let mut out: Vec<UniverseUpdate> = Vec::new();
        match cmd {
            RuntimeCommand::ResendUniverses => {
                let n = self.runtime_universes.len();
                let mut i: usize = 0;
                while i < n
                    invariant
                        self.unis() == old(self).unis(),
                        self.wf(),
                        n == self.unis().len(),
                        i <= n,
                        out@.len() == i,
                        forall|j: int|
                            0 <= j < i ==> is_entire_of(
                                #[trigger] out@[j],
                                (j + 1) as UniverseId,
                                self.unis()[j],
                            ),
                    decreases n - i,
                {
                    let universe_id = (i + 1) as UniverseId;
                    match self.send_universe(universe_id) {
                        Some(up) => out.push(up),
                        None => {},
                    }
                    i += 1;
                }
            },
            RuntimeCommand::ResendUniverse(u) => {
                match self.send_universe(u) {
                    Some(up) => out.push(up),
                    None => {},
                }
            },
            RuntimeCommand::UpdateData(update) => {
                let ghost published = update;
                match &update {
                    UniverseUpdate::Single { update: chunk } => {
                        self.apply_chunk(chunk);
                    },
                    UniverseUpdate::Many { updates } => {
                        self.apply_chunks(updates);
                    },
                    UniverseUpdate::Entire { universe, values } => {
                        self.apply_entire(*universe, values);
                    },
                }
                out.push(update);
                proof {
                    assert(out@ =~= seq![published]);
                }
            },
        }
        out
    }

    /// Rebuild for a project with `universe_count` universes: every
    /// slot of every universe is zeroed, and one all-zero `Entire`
    /// snapshot per universe is published so caches re-sync.
    pub fn adapt(&mut self, universe_count: usize) -> (out: Vec<UniverseUpdate>)
        requires
            old(self).wf(),
            universe_count <= u16::MAX,
        ensures
            final(self).wf(),
            final(self).unis().len() == universe_count,
            forall|i: int|
                0 <= i < universe_count ==> #[trigger] final(self).unis()[i]
                    == spec_zero_universe(),
            out@.len() == universe_count,
            forall|i: int|
                0 <= i < universe_count ==> is_entire_of(
                    #[trigger] out@[i],
                    (i + 1) as UniverseId,
                    spec_zero_universe(),
                ),
    {
        let mut fresh: Vec<Vec<u8>> = Vec::new();
        let mut out: Vec<UniverseUpdate> = Vec::new();
        let mut i: usize = 0;
        while i < universe_count
            invariant
                universe_count <= u16::MAX,
                i <= universe_count,
                fresh@.len() == i,
                out@.len() == i,
                forall|j: int| 0 <= j < i ==> (#[trigger] fresh@[j])@ == spec_zero_universe(),
                forall|j: int|
                    0 <= j < i ==> is_entire_of(
                        #[trigger] out@[j],
                        (j + 1) as UniverseId,
                        spec_zero_universe(),
                    ),
            decreases universe_count - i,
        {
            let row = zero_universe();
            let snapshot = zero_universe();
            out.push(UniverseUpdate::Entire { universe: (i + 1) as UniverseId, values: snapshot });
            fresh.push(row);
            i += 1;
        }
        self.runtime_universes = fresh;
        proof {
            assert(forall|j: int|
                0 <= j < universe_count ==> #[trigger] self.unis()[j] == spec_zero_universe());
        }
        out
    }
}

/// A fresh all-zero universe array.
fn zero_universe() -> (r: Vec<u8>)
    ensures
        r@ == spec_zero_universe(),
{
    let mut r: Vec<u8> = Vec::new();
    let mut i: usize = 0;
    while i < UNIVERSE_SIZE
        invariant
            i <= UNIVERSE_SIZE,
            r@.len() == i,
            forall|j: int| 0 <= j < i ==> r@[j] == 0u8,
        decreases UNIVERSE_SIZE - i,
    {
        r.push(0u8);
        i += 1;
    }
    proof {
        assert(r@ =~= spec_zero_universe());
    }
    r
}

} // verus!
