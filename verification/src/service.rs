//! Servicing the load queue: one queued request at a time, resolving
//! blocks in priority order — the in-memory save buffer first, then
//! the caller-supplied database row, then fresh generation with the
//! pending-modification drain — and installing the resident chunk.

use vstd::prelude::*;
use crate::{CHUNK_SIZE, CHUNK_VOL};
use crate::block::Block;
use crate::codec::{chunk_bytes_of, decode_chunk_bytes};
use crate::coords::IVec3;
use crate::events::{ChunkStatus, LoadChunkEvent, spec_holder, UpdateChunkEvent};
use crate::grid3::Grid3;
use crate::savequeue::save_key_of;
use crate::terrain::{
    apply_pending, generate_chunk_blocks, spec_apply_pending, spec_generated_blocks,
    spec_generated_tree_events, VoxelSample,
};
use crate::world::{Chunk, chunk_wf, ChunkLoader, WorldStreamer};

verus! {

/// Where a serviced load's blocks came from.
#[derive(Clone, Copy, PartialEq, Eq, Structural, Debug)]
pub enum LoadSource {
    /// The in-memory save buffer, which outranks the database.
    SaveBuffer,
    /// The caller-supplied persisted row.
    Database,
    /// Fresh generation plus the pending-modification drain.
    Generated,
}

/// The outcome of one pull from the load queue.
#[derive(Clone, Copy, PartialEq, Eq, Structural, Debug)]
pub enum ServiceOutcome {
    /// No request was waiting.
    QueueEmpty,
    /// The request needs generation but no samples were supplied; the
    /// request was put back where it was.
    NeedsSamples,
    /// A chunk became resident at the coordinate, from the source.
    Loaded(IVec3, LoadSource),
}

/// The mesh-invalidation fan-out of a newly resident chunk: the chunk
/// itself and its six face-adjacent neighbors.
pub open spec fn spec_update_fanout(c: IVec3) -> Seq<UpdateChunkEvent> {
    seq![
        UpdateChunkEvent(c),
        UpdateChunkEvent(IVec3 { x: c.x, y: (c.y + 1) as i32, z: c.z }),
        UpdateChunkEvent(IVec3 { x: c.x, y: (c.y - 1) as i32, z: c.z }),
        UpdateChunkEvent(IVec3 { x: c.x, y: c.y, z: (c.z + 1) as i32 }),
        UpdateChunkEvent(IVec3 { x: c.x, y: c.y, z: (c.z - 1) as i32 }),
        UpdateChunkEvent(IVec3 { x: (c.x + 1) as i32, y: c.y, z: c.z }),
        UpdateChunkEvent(IVec3 { x: (c.x - 1) as i32, y: c.y, z: c.z }),
    ]
}

/// The blocks a generated load installs: the classifier's output, with
/// the coordinate's pending modifications applied over it if any were
/// stored.
pub open spec fn spec_generated_with_pending(
    s0: WorldStreamer,
    c: IVec3,
    samples: Seq<VoxelSample>,
) -> Seq<Block> {
    let gen = spec_generated_blocks(c, samples);
    if s0.pending_map.as_map().contains_key(c) {
        spec_apply_pending(gen, s0.pending_map.as_map()[c].view())
    } else {
        gen
    }
}

/// How one call of `service_next_load` changes the streamer.
pub open spec fn service_rel(
    s0: WorldStreamer,
    s1: WorldStreamer,
    db_bytes: Option<Vec<u8>>,
    samples: Option<Seq<VoxelSample>>,
    render_entity: Option<u64>,
    water_render_entity: Option<u64>,
    r: ServiceOutcome,
) -> bool {
    match r {
        ServiceOutcome::QueueEmpty => {
            &&& s0.loading_queue@.len() == 0
            &&& s1.loading_queue@ == s0.loading_queue@
            &&& unchanged_but_loading_queue(s0, s1)
        },
        ServiceOutcome::NeedsSamples => {
            &&& s0.loading_queue@.len() > 0
            &&& samples is None
            &&& s1.loading_queue@ == s0.loading_queue@
            &&& unchanged_but_loading_queue(s0, s1)
        },
        ServiceOutcome::Loaded(c, src) => {
            let ev = s0.loading_queue@.last();
            &&& s0.loading_queue@.len() > 0
            &&& c == ev.chunk
            &&& s1.loading_queue@ == s0.loading_queue@.drop_last()
            // The installed chunk.
            &&& s1.resident(c)
            &&& forall|c2: IVec3| c2 != c ==> #[trigger] s1.chunk_map.as_map().contains_key(c2)
                == s0.chunk_map.as_map().contains_key(c2)
            &&& forall|c2: IVec3| c2 != c && #[trigger] s1.chunk_map.as_map().contains_key(c2)
                ==> s1.chunk_map.as_map()[c2] == s0.chunk_map.as_map()[c2]
            &&& s1.chunk_map.as_map()[c].load_reasons@ == seq![ev.load_reason]
            &&& s1.chunk_map.as_map()[c].render_entity == render_entity
            &&& s1.chunk_map.as_map()[c].water_render_entity == water_render_entity
            &&& s1.chunk_status_map.as_map() == s0.chunk_status_map.as_map().insert(
                c,
                ChunkStatus::Active,
            )
            // Priority of sources: a decodable save-buffer entry wins
            // over everything, then a decodable database row, then
            // generation. Quantified over every block sequence the
            // bytes could encode.
            &&& forall|bl: Seq<Block>| s0.save_queue.spec_contains(c)
                && s0.save_queue.entries()[save_key_of(c)] == chunk_bytes_of(bl)
                && bl.len() == CHUNK_VOL
                ==> src == LoadSource::SaveBuffer && s1.chunk_map.as_map()[c].blocks.view() == bl
            &&& forall|bl: Seq<Block>| !s0.save_queue.spec_contains(c)
                && db_bytes is Some && db_bytes->Some_0@ == chunk_bytes_of(bl)
                && bl.len() == CHUNK_VOL
                ==> src == LoadSource::Database && s1.chunk_map.as_map()[c].blocks.view() == bl
            &&& src == LoadSource::Generated ==> {
                &&& samples is Some
                &&& s1.chunk_map.as_map()[c].blocks.view() == spec_generated_with_pending(
                    s0,
                    c,
                    samples->Some_0,
                )
                &&& s1.pending_map.as_map() == s0.pending_map.as_map().remove(c)
                &&& s1.tree_events@ == s0.tree_events@ + spec_generated_tree_events(
                    c,
                    samples->Some_0,
                )
            }
            &&& src != LoadSource::Generated ==> {
                &&& s1.pending_map == s0.pending_map
                &&& s1.tree_events == s0.tree_events
            }
            &&& src == LoadSource::Database ==> !s0.save_queue.spec_contains(c)
                && db_bytes is Some
            &&& !s0.save_queue.spec_contains(c) && db_bytes is None
                ==> src == LoadSource::Generated
            // Mesh invalidation for the chunk and its six neighbors.
            &&& s1.update_chunk_events@ == s0.update_chunk_events@ + spec_update_fanout(c)
            // The requesting observer's retained list gains the coordinate.
            &&& s1.loaders@.len() == s0.loaders@.len()
            &&& forall|j: int| 0 <= j < s0.loaders@.len()
                && (#[trigger] s0.loaders@[j]).observer != spec_holder(ev.load_reason)
                ==> s1.loaders@[j] == s0.loaders@[j]
            &&& forall|j: int| 0 <= j < s0.loaders@.len()
                && (#[trigger] s0.loaders@[j]).observer == spec_holder(ev.load_reason)
                ==> {
                    &&& s1.loaders@[j].observer == s0.loaders@[j].observer
                    &&& s1.loaders@[j].range == s0.loaders@[j].range
                    &&& s1.loaders@[j].position == s0.loaders@[j].position
                    &&& s1.loaders@[j].load_list@ == s0.loaders@[j].load_list@.push(c)
                }
            // Everything else stays.
            &&& s1.save_queue == s0.save_queue
            &&& s1.unloading_queue == s0.unloading_queue
            &&& s1.block_update_events == s0.block_update_events
            &&& s1.reason_change_events == s0.reason_change_events
            &&& s1.config == s0.config
            &&& s1.seed == s0.seed
        },
    }
}

/// Every streamer field but the load queue is untouched.
pub open spec fn unchanged_but_loading_queue(s0: WorldStreamer, s1: WorldStreamer) -> bool {
    &&& s1.chunk_map == s0.chunk_map
    &&& s1.chunk_status_map == s0.chunk_status_map
    &&& s1.pending_map == s0.pending_map
    &&& s1.unloading_queue == s0.unloading_queue
    &&& s1.save_queue == s0.save_queue
    &&& s1.loaders == s0.loaders
    &&& s1.update_chunk_events == s0.update_chunk_events
    &&& s1.tree_events == s0.tree_events
    &&& s1.block_update_events == s0.block_update_events
    &&& s1.reason_change_events == s0.reason_change_events
    &&& s1.config == s0.config
    &&& s1.seed == s0.seed
}

/// A load of a coordinate the save buffer holds never answers from the
/// database, whatever row is offered; and when the buffered bytes are a
/// chunk encoding (what an unload always buffers), the installed blocks
/// are exactly the buffered ones.
pub proof fn lemma_save_buffer_outranks_database(
    s0: WorldStreamer,
    s1: WorldStreamer,
    db_bytes: Option<Vec<u8>>,
    samples: Option<Seq<VoxelSample>>,
    re: Option<u64>,
    we: Option<u64>,
    c: IVec3,
    src: LoadSource,
)
    requires
        service_rel(s0, s1, db_bytes, samples, re, we, ServiceOutcome::Loaded(c, src)),
        s0.save_queue.spec_contains(c),
    ensures
        src != LoadSource::Database,
        forall|saved: Seq<Block>| s0.save_queue.entries()[save_key_of(c)]
            == chunk_bytes_of(saved) && saved.len() == CHUNK_VOL
            ==> src == LoadSource::SaveBuffer
                && s1.chunk_map.as_map()[c].blocks.view() == saved,
{
}

impl WorldStreamer {
    /// The coordinate the next serviced load will resolve, so the
    /// caller can fetch its database row first.
    pub fn peek_load_request(&self) -> (r: Option<LoadChunkEvent>)
        ensures
            match r {
                Some(ev) => self.loading_queue@.len() > 0 && ev == self.loading_queue@.last(),
                None => self.loading_queue@.len() == 0,
            },
    {
        let n = self.loading_queue.len();
        if n == 0 {
            None
        } else {
            Some(*std::ops::Index::index(&self.loading_queue, n - 1))
        }
    }

    /// Whether the save buffer holds bytes for a coordinate; while it
    /// does, a load of that coordinate needs no database row.
    pub fn has_saved(&self, c: IVec3) -> (r: bool)
        ensures
            r == self.save_queue.spec_contains(c),
    {
        match self.save_queue.get(c) {
            Some(_) => true,
            None => false,
        }
    }

    /// Services the next queued load request. Blocks are resolved in
    /// priority order: the save buffer's entry for the coordinate if it
    /// decodes, else the supplied database row if it decodes, else
    /// fresh generation from the supplied samples with the coordinate's
    /// pending modifications drained. The chunk is installed with the
    /// request's reason, the coordinate becomes `Active`, the
    /// requesting observer's retained list gains it, and mesh updates
    /// fan out to the chunk and its six neighbors.
    pub fn service_next_load(
        &mut self,
        db_bytes: Option<Vec<u8>>,
        samples: Option<&Vec<VoxelSample>>,
        render_entity: Option<u64>,
        water_render_entity: Option<u64>,
    ) -> (r: ServiceOutcome)
        requires
            old(self).wf(),
            match samples {
                Some(s) => s@.len() == CHUNK_VOL,
                None => true,
            },
        ensures
            final(self).wf(),
            service_rel(
                *old(self),
                *final(self),
                db_bytes,
                match samples {
                    Some(s) => Some(s@),
                    None => None,
                },
                render_entity,
                water_render_entity,
                r,
            ),
    {
        let ghost s0 = *self;
        let popped = self.loading_queue.pop_back();
        let ev = match popped {
            None => {
                return ServiceOutcome::QueueEmpty;
            },
            Some(ev) => ev,
        };
        let c = ev.chunk;
        proof {
            assert(s0.in_world_bounds(c));
            assert(!s0.resident(c));
        }

        // Resolve the blocks: save buffer, then database, then generate.
        let mut source = LoadSource::Generated;
        let mut resolved: Option<Grid3<Block>> = None;
        match self.save_queue.get(c) {
            Some(bytes) => {
                match decode_chunk_bytes(bytes) {
                    Some(decoded) => {
                        if decoded.len() == 4096 {
                            resolved = Some(Grid3::from_data(decoded, 16, 16, 16));
                            source = LoadSource::SaveBuffer;
                        }
                    },
                    None => {},
                }
            },
            None => {
                match &db_bytes {
                    Some(bytes) => {
                        match decode_chunk_bytes(bytes) {
                            Some(decoded) => {
                                if decoded.len() == 4096 {
                                    resolved = Some(Grid3::from_data(decoded, 16, 16, 16));
                                    source = LoadSource::Database;
                                }
                            },
                            None => {},
                        }
                    },
                    None => {},
                }
            },
        }

        let blocks: Grid3<Block> = match resolved {
            Some(b) => b,
            None => {
                // Neither store answered: generate, then drain the
                // pending modifications destined for this coordinate.
                let s = match samples {
                    Some(s) => s,
                    None => {
                        self.loading_queue.push_back(ev);
                        proof {
                            assert(self.loading_queue@ =~= s0.loading_queue@);
                        }
                        return ServiceOutcome::NeedsSamples;
                    },
                };
                source = LoadSource::Generated;
                let (mut generated, tevs) = generate_chunk_blocks(c, s);
                match self.pending_map.remove(c) {
                    Some(pend) => {
                        apply_pending(&mut generated, &pend);
                    },
                    None => {
                        proof {
                            assert(self.pending_map.as_map()
                                =~= s0.pending_map.as_map().remove(c));
                        }
                    },
                }
                let mut t: usize = 0;
                let ghost te0 = self.tree_events@;
                let ghost sg = *self;
                while t < tevs.len()
                    invariant
                        t <= tevs@.len(),
                        self.tree_events@ == te0 + tevs@.subrange(0, t as int),
                        self.chunk_map == sg.chunk_map,
                        self.chunk_status_map == sg.chunk_status_map,
                        self.pending_map == sg.pending_map,
                        self.loading_queue == sg.loading_queue,
                        self.unloading_queue == sg.unloading_queue,
                        self.save_queue == sg.save_queue,
                        self.loaders == sg.loaders,
                        self.update_chunk_events == sg.update_chunk_events,
                        self.block_update_events == sg.block_update_events,
                        self.reason_change_events == sg.reason_change_events,
                        self.config == sg.config,
                        self.seed == sg.seed,
                    decreases tevs@.len() - t,
                {
                    self.tree_events.push(tevs[t]);
                    proof {
                        assert(tevs@.subrange(0, t + 1 as int)
                            =~= tevs@.subrange(0, t as int).push(tevs@[t as int]));
                    }
                    t = t + 1;
                }
                proof {
                    assert(tevs@.subrange(0, tevs@.len() as int) =~= tevs@);
                }
                generated
            },
        };

        // Install the chunk.
        let mut reasons: Vec<crate::events::LoadReason> = Vec::new();
        reasons.push(ev.load_reason);
        proof {
            assert(reasons@ =~= seq![ev.load_reason]);
        }
        let chunk = Chunk {
            blocks,
            load_reasons: reasons,
            render_entity,
            water_render_entity,
        };
        proof {
            assert(self.chunk_map == s0.chunk_map);
            assert(self.chunk_map.wf());
        }
        self.chunk_map.insert(c, chunk);
        self.chunk_status_map.insert(c, ChunkStatus::Active);

        // Retain the coordinate on the requesting observer's list.
        let holder = ev.load_reason.holder();
        let ghost sl = *self;
        let mut li: usize = 0;
        while li < self.loaders.len()
            invariant
                holder == spec_holder(ev.load_reason),
                self.loaders@.len() == s0.loaders@.len(),
                li <= self.loaders@.len(),
                forall|j: int| 0 <= j < self.loaders@.len() && j >= li
                    ==> self.loaders@[j] == s0.loaders@[j],
                forall|j: int| 0 <= j < li
                    && (#[trigger] s0.loaders@[j]).observer != spec_holder(ev.load_reason)
                    ==> self.loaders@[j] == s0.loaders@[j],
                forall|j: int| 0 <= j < li
                    && (#[trigger] s0.loaders@[j]).observer == spec_holder(ev.load_reason)
                    ==> {
                        &&& self.loaders@[j].observer == s0.loaders@[j].observer
                        &&& self.loaders@[j].range == s0.loaders@[j].range
                        &&& self.loaders@[j].position == s0.loaders@[j].position
                        &&& self.loaders@[j].load_list@ == s0.loaders@[j].load_list@.push(c)
                    },
                forall|i2: int, j2: int| 0 <= i2 < j2 < self.loaders@.len()
                    ==> (#[trigger] self.loaders@[i2]).observer
                        != (#[trigger] self.loaders@[j2]).observer,
                forall|j2: int| 0 <= j2 < self.loaders@.len()
                    ==> 0 <= (#[trigger] self.loaders@[j2]).range <= 100000,
                self.chunk_map == sl.chunk_map,
                self.chunk_status_map == sl.chunk_status_map,
                self.pending_map == sl.pending_map,
                self.loading_queue == sl.loading_queue,
                self.unloading_queue == sl.unloading_queue,
                self.save_queue == sl.save_queue,
                self.update_chunk_events == sl.update_chunk_events,
                self.tree_events == sl.tree_events,
                self.block_update_events == sl.block_update_events,
                self.reason_change_events == sl.reason_change_events,
                self.config == sl.config,
                self.seed == sl.seed,
            decreases self.loaders@.len() - li,
        {
            let matches_holder = self.loaders[li].observer == holder;
            let ghost pre = self.loaders@;
            if matches_holder {
                let loader: &mut ChunkLoader = &mut self.loaders[li];
                loader.load_list.push(c);
            }
            proof {
                assert(pre[li as int] == s0.loaders@[li as int]);
                assert(holder == spec_holder(ev.load_reason));
                assert(matches_holder == (pre[li as int].observer == holder));
                if matches_holder {
                    assert(self.loaders@[li as int].observer == pre[li as int].observer);
                    assert(self.loaders@[li as int].load_list@
                        == pre[li as int].load_list@.push(c));
                } else {
                    assert(self.loaders@ == pre);
                }
                assert forall|j: int| 0 <= j < li + 1
                    && (#[trigger] s0.loaders@[j]).observer != spec_holder(ev.load_reason)
                    implies self.loaders@[j] == s0.loaders@[j] by {
                    if j < li {
                        assert(self.loaders@[j] == pre[j]);
                    } else {
                        assert(pre[li as int] == s0.loaders@[li as int]);
                        assert(!matches_holder);
                    }
                }
                assert forall|j: int| 0 <= j < li + 1
                    && (#[trigger] s0.loaders@[j]).observer == spec_holder(ev.load_reason)
                    implies {
                        &&& self.loaders@[j].observer == s0.loaders@[j].observer
                        &&& self.loaders@[j].range == s0.loaders@[j].range
                        &&& self.loaders@[j].position == s0.loaders@[j].position
                        &&& self.loaders@[j].load_list@ == s0.loaders@[j].load_list@.push(c)
                    } by {
                    if j < li {
                        assert(self.loaders@[j] == pre[j]);
                    } else {
                        assert(pre[li as int] == s0.loaders@[li as int]);
                        assert(matches_holder);
                    }
                }
            }
            li = li + 1;
        }

        // Mesh invalidation fan-out.
        self.update_chunk_events.push(UpdateChunkEvent(c));
        self.update_chunk_events.push(UpdateChunkEvent(IVec3 { x: c.x, y: c.y + 1, z: c.z }));
        self.update_chunk_events.push(UpdateChunkEvent(IVec3 { x: c.x, y: c.y - 1, z: c.z }));
        self.update_chunk_events.push(UpdateChunkEvent(IVec3 { x: c.x, y: c.y, z: c.z + 1 }));
        self.update_chunk_events.push(UpdateChunkEvent(IVec3 { x: c.x, y: c.y, z: c.z - 1 }));
        self.update_chunk_events.push(UpdateChunkEvent(IVec3 { x: c.x + 1, y: c.y, z: c.z }));
        self.update_chunk_events.push(UpdateChunkEvent(IVec3 { x: c.x - 1, y: c.y, z: c.z }));

        proof {
            assert(self.update_chunk_events@
                =~= s0.update_chunk_events@ + spec_update_fanout(c));
            assert(self.loading_queue@ =~= s0.loading_queue@.drop_last());
            assert forall|c2: IVec3| #[trigger] self.chunk_map.as_map().contains_key(c2)
                implies chunk_wf(self.chunk_map.as_map()[c2]) by {
                if c2 != c {
                    assert(s0.chunk_map.as_map().contains_key(c2));
                }
            }
            assert forall|j: int| 0 <= j < self.loading_queue@.len() implies {
                &&& self.in_world_bounds((#[trigger] self.loading_queue@[j]).chunk)
                &&& !self.resident(self.loading_queue@[j].chunk)
                &&& self.spec_status(self.loading_queue@[j].chunk) == ChunkStatus::Loading
            } by {
                assert(self.loading_queue@[j] == s0.loading_queue@[j]);
                let qc = s0.loading_queue@[j].chunk;
                assert(s0.in_world_bounds(qc));
                assert(!s0.resident(qc));
                assert(s0.spec_status(qc) == ChunkStatus::Loading);
                assert(qc != c);
            }
        }
        ServiceOutcome::Loaded(c, source)
    }
}

} // verus!
