//! Per-universe filtering of the runtime's publication stream, and
//! the bridge between that stream and per-slot client channels.
use vstd::prelude::*;

use crate::runtime::{
    is_entire_of, spec_apply_chunk, RuntimeCommand, UniverseUpdate, UpdateChunk,
};
use crate::universe::{FixtureAddress, UniverseAddress, UniverseId, UNIVERSE_SIZE};

verus! {

/// The slot writes of `chunks` that belong to `universe`, in order.
pub open spec fn spec_filter_chunks(chunks: Seq<UpdateChunk>, universe: UniverseId) -> Seq<
    UpdateChunk,
>
    decreases chunks.len(),
{
    if chunks.len() == 0 {
        Seq::empty()
    } else {
        let rest = spec_filter_chunks(chunks.skip(1), universe);
        if chunks[0].0.spec_universe() == universe {
            seq![chunks[0]] + rest
        } else {
            rest
        }
    }
}

/// Filtering one more write at the end keeps the front unchanged.
pub proof fn lemma_filter_chunks_push(chunks: Seq<UpdateChunk>, c: UpdateChunk, universe: UniverseId)
    ensures
        spec_filter_chunks(chunks.push(c), universe) == if c.0.spec_universe() == universe {
            spec_filter_chunks(chunks, universe).push(c)
        } else {
            spec_filter_chunks(chunks, universe)
        },
    decreases chunks.len(),
{
    if chunks.len() == 0 {
        assert(chunks.push(c)[0] == c);
        assert(chunks.push(c).skip(1) =~= Seq::<UpdateChunk>::empty());
        assert(chunks =~= Seq::<UpdateChunk>::empty());
        assert(spec_filter_chunks(Seq::<UpdateChunk>::empty(), universe)
            == Seq::<UpdateChunk>::empty());
        if c.0.spec_universe() == universe {
            assert(spec_filter_chunks(chunks.push(c), universe) =~= spec_filter_chunks(
                chunks,
                universe,
            ).push(c));
        }
    } else {
        assert(chunks.push(c)[0] == chunks[0]);
        assert(chunks.push(c).skip(1) =~= chunks.skip(1).push(c));
        lemma_filter_chunks_push(chunks.skip(1), c, universe);
        assert(spec_filter_chunks(chunks.push(c), universe) == if chunks[0].0.spec_universe()
            == universe {
            seq![chunks[0]] + spec_filter_chunks(chunks.skip(1).push(c), universe)
        } else {
            spec_filter_chunks(chunks.skip(1).push(c), universe)
        });
        assert(spec_filter_chunks(chunks, universe) == if chunks[0].0.spec_universe() == universe {
            seq![chunks[0]] + spec_filter_chunks(chunks.skip(1), universe)
        } else {
            spec_filter_chunks(chunks.skip(1), universe)
        });
        if c.0.spec_universe() == universe {
            assert(spec_filter_chunks(chunks.push(c), universe) =~= spec_filter_chunks(
                chunks,
                universe,
            ).push(c));
        }
    }
}

/// Does the filter of a subscriber on `universe` let `msg` through?
pub open spec fn spec_accepts(universe: UniverseId, msg: UniverseUpdate) -> bool {
    match msg {
        UniverseUpdate::Single { update } => update.0.spec_universe() == universe,
        UniverseUpdate::Many { updates } => spec_filter_chunks(updates@, universe).len() > 0,
        UniverseUpdate::Entire { universe: u, values } => u == universe,
    }
}

/// A subscription to the update stream, narrowed to one universe.
#[derive(Debug)]
pub struct UniverseUpdateSubscriber {
    universe_id: UniverseId,
}

impl UniverseUpdateSubscriber {
    pub closed spec fn spec_universe(self) -> UniverseId {
        self.universe_id
    }

    pub fn new(universe: UniverseId) -> (r: Self)
        ensures
            r.spec_universe() == universe,
    {
        UniverseUpdateSubscriber { universe_id: universe }
    }

    pub fn universe(&self) -> (r: UniverseId)
        ensures
            r == self.spec_universe(),
    {
        self.universe_id
    }

    /// The filter behind `recv`: keep a `Single` or `Entire` of this
    /// universe as it is, narrow a `Many` to this universe's writes,
    /// and drop everything else silently.
    pub fn accept(&self, msg: UniverseUpdate) -> (r: Option<UniverseUpdate>)
        ensures
            r is Some <==> spec_accepts(self.spec_universe(), msg),
            match msg {
                UniverseUpdate::Single { update } => r == if update.0.spec_universe()
                    == self.spec_universe() {
                    Some(msg)
                } else {
                    None::<UniverseUpdate>
                },
                UniverseUpdate::Many { updates } => {
                    let kept = spec_filter_chunks(updates@, self.spec_universe());
                    if kept.len() > 0 {
                        r matches Some(m) && m matches UniverseUpdate::Many { updates: kept_v }
                            && kept_v@ == kept
                    } else {
                        r is None
                    }
                },
                UniverseUpdate::Entire { universe, values } => r == if universe
                    == self.spec_universe() {
                    Some(msg)
                } else {
                    None::<UniverseUpdate>
                },
            },
    {
        match msg {
            UniverseUpdate::Single { update } => {
                if update.0.universe() == self.universe_id {
                    Some(UniverseUpdate::Single { update })
                } else {
                    None
                }
            },
            UniverseUpdate::Many { updates } => {
                let n = updates.len();
                let mut kept: Vec<UpdateChunk> = Vec::new();
                let mut i: usize = 0;
                while i < n
                    invariant
                        n == updates@.len(),
                        i <= n,
                        kept@ == spec_filter_chunks(updates@.take(i as int), self.universe_id),
                        self.universe_id == self.spec_universe(),
                    decreases n - i,
                {
                    proof {
                        assert(updates@.take(i + 1) =~= updates@.take(i as int).push(
                            updates@[i as int],
                        ));
                        lemma_filter_chunks_push(
                            updates@.take(i as int),
                            updates@[i as int],
                            self.universe_id,
                        );
                    }
                    let chunk = updates[i];
                    if chunk.0.universe() == self.universe_id {
                        kept.push(chunk);
                    }
                    i += 1;
                }
                proof {
                    assert(updates@.take(n as int) =~= updates@);
                }
                if kept.len() > 0 {
                    Some(UniverseUpdate::Many { updates: kept })
                } else {
                    None
                }
            },
            UniverseUpdate::Entire { universe, values } => {
                if universe == self.universe_id {
                    Some(UniverseUpdate::Entire { universe, values })
                } else {
                    None
                }
            },
        }
    }
}

/// The outbound half of the `universe_sub` bridge: one update message
/// becomes the per-slot pairs that go to the client, an `Entire`
/// decomposed into one pair per slot.
pub fn decompose_update(msg: &UniverseUpdate) -> (out: Vec<(UniverseAddress, u8)>)
    requires
        msg.wf(),
    ensures
        match *msg {
            UniverseUpdate::Single { update } => out@.len() == 1 && out@[0].0.spec_get()
                == update.0.spec_address() && out@[0].1 == update.1,
            UniverseUpdate::Many { updates } => out@.len() == updates@.len() && forall|i: int|
                0 <= i < out@.len() ==> (#[trigger] out@[i]).0.spec_get()
                    == updates@[i].0.spec_address() && out@[i].1 == updates@[i].1,
            UniverseUpdate::Entire { universe, values } => out@.len() == UNIVERSE_SIZE && forall|
                i: int,
            |
                0 <= i < out@.len() ==> (#[trigger] out@[i]).0.spec_get() == i + 1 && out@[i].1
                    == values@[i],
        },
{
    let mut out: Vec<(UniverseAddress, u8)> = Vec::new();
    match msg {
        UniverseUpdate::Single { update } => {
            out.push((update.0.address(), update.1));
        },
        UniverseUpdate::Many { updates } => {
            let n = updates.len();
            let mut i: usize = 0;
            while i < n
                invariant
                    n == updates@.len(),
                    i <= n,
                    out@.len() == i,
                    forall|j: int|
                        0 <= j < i ==> (#[trigger] out@[j]).0.spec_get()
                            == updates@[j].0.spec_address() && out@[j].1 == updates@[j].1,
                decreases n - i,
            {
                let chunk = updates[i];
                out.push((chunk.0.address(), chunk.1));
                i += 1;
            }
        },
        UniverseUpdate::Entire { universe, values } => {
            let mut i: usize = 0;
            while i < UNIVERSE_SIZE
                invariant
                    values@.len() == UNIVERSE_SIZE,
                    i <= UNIVERSE_SIZE,
                    out@.len() == i,
                    forall|j: int|
                        0 <= j < i ==> (#[trigger] out@[j]).0.spec_get() == j + 1 && out@[j].1
                            == values@[j],
                decreases UNIVERSE_SIZE - i,
            {
                let addr = UniverseAddress::create(i + 1);
                out.push((addr, values[i]));
                i += 1;
            }
        },
    }
    out
}

/// The inbound half of the `universe_sub` bridge: a client's slot
/// write on its subscribed universe, as a runtime command.
pub fn client_update_command(
    universe: UniverseId,
    address: UniverseAddress,
    value: u8,
) -> (r: RuntimeCommand)
    ensures
        r matches RuntimeCommand::UpdateData(up) && up matches UniverseUpdate::Single { update }
            && update.0.spec_universe() == universe && update.0.spec_address()
            == address.spec_get() && update.1 == value,
        r.wf(),
{
    RuntimeCommand::UpdateData(
        UniverseUpdate::Single { update: (FixtureAddress::new(universe, address), value) },
    )
}

/// A subscriber that joins on universe `u` and stays connected first
/// receives, out of the snapshot run that its subscription posts, the
/// `Entire` snapshot of `u` as the runtime held it when the resend
/// command was dequeued: its filter drops every earlier message of
/// the run, and the snapshot's values are the runtime's array for `u`
/// at that moment.
pub proof fn lemma_first_message_after_subscribe(
    outs: Seq<UniverseUpdate>,
    unis: Seq<Seq<u8>>,
    u: UniverseId,
)
    requires
        unis.len() <= u16::MAX,
        outs.len() == unis.len(),
        forall|i: int|
            0 <= i < outs.len() ==> is_entire_of(#[trigger] outs[i], (i + 1) as UniverseId, unis[i]),
        1 <= u <= unis.len(),
    ensures
        spec_accepts(u, outs[u - 1]),
        is_entire_of(outs[u - 1], u, unis[u - 1]),
        forall|i: int| 0 <= i < u - 1 ==> !spec_accepts(u, #[trigger] outs[i]),
{
    assert(is_entire_of(outs[u - 1], u, unis[u - 1]));
    assert forall|i: int| 0 <= i < u - 1 implies !spec_accepts(u, outs[i]) by {
        assert(is_entire_of(outs[i], (i + 1) as UniverseId, unis[i]));
    }
}

/// A slot write is visible in the next snapshot of its universe:
/// after `UpdateData(Single((u, a), v))` mutates the arrays, the
/// `Entire` that `ResendUniverse(u)` publishes holds `v` at slot
/// `a - 1`.
pub proof fn lemma_update_then_resend(unis: Seq<Seq<u8>>, chunk: UpdateChunk)
    requires
        forall|i: int| 0 <= i < unis.len() ==> (#[trigger] unis[i]).len() == UNIVERSE_SIZE,
        1 <= chunk.0.spec_universe() <= unis.len(),
        1 <= chunk.0.spec_address() <= UNIVERSE_SIZE,
    ensures
        spec_apply_chunk(unis, chunk).len() == unis.len(),
        spec_apply_chunk(unis, chunk)[chunk.0.spec_universe() - 1][chunk.0.spec_address()
            - 1] == chunk.1,
{
}

} // verus!
