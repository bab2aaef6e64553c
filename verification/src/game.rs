//! The game state: the tick engine, the entity table with its deferred
//! destroy queue, the named timers, death-timer and demonization rules, the
//! big escape ring, and the end conditions.

use vstd::prelude::*;
use crate::entity::{Entity, EntityKind, SlugState, SlugRing, spawn_opcode};
use crate::mapdata::{MapId, slug_spawn_points, shard_spawn_points};
use crate::output::{Output, count_of_type, lemma_count_of_type_push, is_send, is_multicast,
    is_multicast_real, is_multicast_except, sent_to, multicast_after, multicast_real_after,
    tcp_type_after, multicast_real_op_after, any_disconnect, lemma_outputs_grow,
    push_disconnect};
use crate::packet::{Packet, PacketType};
use crate::peer::{ServerCore, Peer, Player, PlayerRevival, SurvivorCharacter, ExeCharacter,
    spec_real_count};
use crate::rng::{rand_range_u8, rand_range_u16, rand_range_usize, shuffle_points};
use crate::state::{NextState, handle_identity};
use crate::timer::{Timer, GameTimer};
use vstd::slice::slice_subrange;
use vstd::bytes::{spec_u16_from_le_bytes, spec_u16_to_le_bytes};
use crate::packet::spec_packet;
use crate::lobby::Lobby;

verus! {

/// The running match.
pub struct Game {
    /// The map being played.
    pub map: MapId,
    /// The map's slug spawn points with their occupancy flags.
    pub slugs: Vec<(i32, i32, bool)>,
    /// Frames until the map tries to spawn the next slug.
    pub slug_timer: u16,
    /// Shards collected per peer on maps that track them.
    pub shards_list: Vec<(u16, u8)>,
    /// The UDP return address token recorded for each participant.
    pub recp: Vec<(u16, u64)>,
    /// Which ordinary ring slots are currently occupied.
    pub rings: Vec<bool>,
    /// The map's ordinary-ring respawn time in frames.
    pub ring_time: u16,
    /// The match-clock reading at which the big ring becomes ready.
    pub big_ring_time: u16,
    /// True once the big ring is open for escapes.
    pub big_ring_ready: bool,
    /// Whether this map has a big ring at all.
    pub big_ring_spawn: bool,
    /// The named countdowns of the match.
    pub timer: Timer,
    /// True once every participant is UDP-ready and simulation runs.
    pub started: bool,
    /// Frames left on the end-of-match pause before the next lobby.
    pub end_timer: u16,
    /// The live entities, keyed by id.
    pub entities: Vec<(u16, Entity)>,
    /// The last entity id handed out; ids start at one.
    pub entity_id: u16,
    /// Entities to remove at the next drain, by id.
    pub destroy_queue: Vec<u16>,
    /// The last position report of each participant, as raw bit patterns.
    pub players_pos: Vec<(u16, u32, u32)>,
    /// Every entity id a spawn has ever handed out this match.
    pub spawned: Ghost<Set<u16>>,
}

impl Game {
    /// Table invariants: entity ids are unique and were all handed out by a
    /// spawn, queued destroys name spawned ids only, every entity is within
    /// its arithmetic bounds, and a ring entity's slot fits the slot table.
    pub open spec fn wf(&self) -> bool {
        &&& self.timer.wf()
        &&& forall|i: int|
            0 <= i < self.entities@.len() ==> (#[trigger] self.entities@[i]).1.wf()
        &&& forall|i: int|
            0 <= i < self.entities@.len() ==> 1 <= (#[trigger] self.entities@[i]).0
                <= self.entity_id
        &&& forall|i: int, j: int|
            0 <= i < j < self.entities@.len() ==> self.entities@[i].0 != self.entities@[j].0
        &&& forall|i: int|
            0 <= i < self.entities@.len() ==> self.spawned@.contains(
                (#[trigger] self.entities@[i]).0,
            )
        &&& forall|i: int|
            0 <= i < self.destroy_queue@.len() ==> self.spawned@.contains(
                #[trigger] self.destroy_queue@[i],
            )
        &&& forall|i: int|
            0 <= i < self.entities@.len() ==> ((#[trigger] self.entities@[i]).1 matches
            Entity::Ring { slot, .. } ==> slot < self.rings@.len())
        &&& self.rings@.len() <= 255
        &&& self.slugs@.len() == 11
    }

    /// A fresh, not yet started match on the given map.
    pub fn new(map: MapId) -> (r: Game)
        ensures
            r.wf(),
            r.map == map,
            !r.started,
            r.end_timer == 0,
            r.entity_id == 0,
            r.entities@.len() == 0,
            r.destroy_queue@.len() == 0,
            r.recp@.len() == 0,
            forall|k: GameTimer| r.timer.spec_get(k) == 0u16,
    {
        Game {
            map,
            slugs: slug_spawn_points(),
            slug_timer: 0,
            shards_list: Vec::new(),
            recp: Vec::new(),
            rings: Vec::new(),
            ring_time: 0,
            big_ring_time: 0,
            big_ring_ready: false,
            big_ring_spawn: false,
            timer: Timer::new(),
            started: false,
            end_timer: 0,
            entities: Vec::new(),
            entity_id: 0,
            destroy_queue: Vec::new(),
            players_pos: Vec::new(),
            spawned: Ghost(Set::empty()),
        }
    }
}


/// How many entries of `s` hold an entity of kind `k`.
pub open spec fn spec_kind_count(s: Seq<(u16, Entity)>, k: EntityKind) -> int
    decreases s.len(),
{
    if s.len() == 0 {
        0
    } else {
        spec_kind_count(s.drop_last(), k) + if s.last().1.spec_kind() == k {
            1int
        } else {
            0int
        }
    }
}

/// Counting a prefix one element longer adds that element's contribution.
pub proof fn lemma_kind_count_snoc(s: Seq<(u16, Entity)>, k: EntityKind, i: int)
    requires
        0 <= i < s.len(),
    ensures
        spec_kind_count(s.subrange(0, i + 1), k) == spec_kind_count(s.subrange(0, i), k) + if s[i].1.spec_kind() == k {
            1int
        } else {
            0int
        },
{
    assert(s.subrange(0, i + 1).drop_last() =~= s.subrange(0, i));
    assert(s.subrange(0, i + 1).last() == s[i]);
}

impl Game {
    /// How many live entities are of this kind.
    pub fn count_kind(&self, k: EntityKind) -> (r: usize)
        ensures
            r == spec_kind_count(self.entities@, k),
    {
        let mut count: usize = 0;
        let mut i: usize = 0;
        while i < self.entities.len()
            invariant
                i <= self.entities@.len(),
                count <= i,
                count == spec_kind_count(self.entities@.subrange(0, i as int), k),
            decreases self.entities@.len() - i,
        {
            proof {
                lemma_kind_count_snoc(self.entities@, k, i as int);
            }
            if self.entities[i].1.kind() == k {
                count = count + 1;
            }
            i = i + 1;
        }
        assert(self.entities@.subrange(0, self.entities@.len() as int) =~= self.entities@);
        count
    }

    /// Give the next entity its id, let it build its spawn packet, reliably
    /// broadcast that to the active peers, and insert it into the table.
    /// Ids are monotonic from one; when the id space is exhausted nothing is
    /// spawned and the reserved id zero comes back.
    pub fn spawn(&mut self, entity: Entity, out: &mut Vec<Output>) -> (r: u16)
        requires
            old(self).wf(),
            entity.wf(),
            (entity matches Entity::Ring { slot, .. } ==> slot < old(self).rings@.len()),
        ensures
            final(self).wf(),
            r == 0 <==> old(self).entity_id == 0xFFFF,
            r != 0 ==> {
                &&& final(self).entity_id == old(self).entity_id + 1
                &&& r == final(self).entity_id
                &&& final(self).entities@.len() == old(self).entities@.len() + 1
                &&& final(self).entities@.last().0 == r
                &&& final(self).entities@.last().1.spec_kind() == entity.spec_kind()
                &&& final(self).spawned@ == old(self).spawned@.insert(r)
                &&& forall|i: int|
                    0 <= i < old(self).entities@.len() ==> final(self).entities@[i] == old(
                        self,
                    ).entities@[i]
                &&& final(out)@.len() == old(out)@.len() + 1
                &&& (forall|k: int| 0 <= k < old(out)@.len() ==> final(out)@[k] == old(out)@[k])
                &&& final(out)@.last() is MulticastReal
                &&& final(out)@.last().is_tcp_packet_of_type(spawn_opcode(entity.spec_kind()))
            },
            r == 0 ==> *final(self) == *old(self) && final(out)@ == old(out)@,
            final(self).map == old(self).map,
            final(self).timer == old(self).timer,
            final(self).started == old(self).started,
            final(self).end_timer == old(self).end_timer,
            final(self).destroy_queue == old(self).destroy_queue,
            final(self).rings == old(self).rings,
            final(self).recp == old(self).recp,
            final(self).players_pos == old(self).players_pos,
    {
        if self.entity_id == 0xFFFF {
            return 0;
        }
        self.entity_id = self.entity_id + 1;
        let id = self.entity_id;
        let mut entity = entity;
        let pk = entity.spawn_packet(id, self.map.spawn_red_rings());
        match pk {
            Some(pkt) => {
                out.push(Output::MulticastReal { packet: pkt });
            },
            None => {},
        }
        proof {
            self.spawned@ = self.spawned@.insert(id);
        }
        self.entities.push((id, entity));
        id
    }

    /// As `spawn`, but the spawn packet is dropped: the caller announces the
    /// entity with a bespoke packet of its own.
    pub fn spawn_quiet(&mut self, entity: Entity) -> (r: u16)
        requires
            old(self).wf(),
            entity.wf(),
            (entity matches Entity::Ring { slot, .. } ==> slot < old(self).rings@.len()),
        ensures
            final(self).wf(),
            r == 0 <==> old(self).entity_id == 0xFFFF,
            r != 0 ==> {
                &&& final(self).entity_id == old(self).entity_id + 1
                &&& r == final(self).entity_id
                &&& final(self).entities@.len() == old(self).entities@.len() + 1
                &&& final(self).entities@.last().0 == r
                &&& final(self).entities@.last().1.spec_kind() == entity.spec_kind()
                &&& final(self).spawned@ == old(self).spawned@.insert(r)
            },
            r == 0 ==> *final(self) == *old(self),
            final(self).map == old(self).map,
            final(self).timer == old(self).timer,
            final(self).started == old(self).started,
            final(self).end_timer == old(self).end_timer,
            final(self).destroy_queue == old(self).destroy_queue,
            final(self).rings == old(self).rings,
            final(self).recp == old(self).recp,
            final(self).players_pos == old(self).players_pos,
    {
        if self.entity_id == 0xFFFF {
            return 0;
        }
        self.entity_id = self.entity_id + 1;
        let id = self.entity_id;
        let mut entity = entity;
        let _ = entity.spawn_packet(id, self.map.spawn_red_rings());
        proof {
            self.spawned@ = self.spawned@.insert(id);
        }
        self.entities.push((id, entity));
        id
    }

    /// Ask for an entity's destruction at the next drain. Only ids a spawn
    /// handed out may be queued, so a later destroy broadcast always names a
    /// previously spawned entity.
    pub fn queue_destroy(&mut self, id: u16)
        requires
            old(self).wf(),
            old(self).spawned@.contains(id),
        ensures
            final(self).wf(),
            final(self).destroy_queue@ == old(self).destroy_queue@.push(id),
            *final(self) == (Game {
                destroy_queue: final(self).destroy_queue,
                ..*old(self)
            }),
    {
        self.destroy_queue.push(id);
    }

    /// Drain the destroy queue: remove each queued entity from the table,
    /// broadcast its destroy packet, and clear the queue. Every id removed
    /// here was in the table, so by the table invariant it was handed out by
    /// a spawn.
    pub fn entity_check_destroy(&mut self, out: &mut Vec<Output>)
        requires
            old(self).wf(),
        ensures
            final(self).wf(),
            final(self).destroy_queue@.len() == 0,
            final(out)@.len() >= old(out)@.len(),
            forall|k: int| 0 <= k < old(out)@.len() ==> final(out)@[k] == old(out)@[k],
            final(self).entities@.len() <= old(self).entities@.len(),
            final(self).spawned@ == old(self).spawned@,
            final(self).timer == old(self).timer,
            final(self).map == old(self).map,
            final(self).started == old(self).started,
            final(self).end_timer == old(self).end_timer,
            final(self).rings == old(self).rings,
            final(self).recp == old(self).recp,
            final(self).players_pos == old(self).players_pos,
            forall|i: int|
                0 <= i < final(self).entities@.len() ==> old(self).entities@.contains(
                    #[trigger] final(self).entities@[i],
                ),
            forall|j: int|
                0 <= j < old(self).destroy_queue@.len() ==> (forall|i: int|
                    0 <= i < final(self).entities@.len()
                        ==> (#[trigger] final(self).entities@[i]).0
                        != #[trigger] old(self).destroy_queue@[j]),
    {
        let mut qi: usize = 0;
        while qi < self.destroy_queue.len()
            invariant
                self.wf(),
                qi <= self.destroy_queue@.len(),
                out@.len() >= old(out)@.len(),
                forall|k: int| 0 <= k < old(out)@.len() ==> out@[k] == old(out)@[k],
                self.destroy_queue == old(self).destroy_queue,
                self.spawned@ == old(self).spawned@,
                self.timer == old(self).timer,
                self.map == old(self).map,
                self.started == old(self).started,
                self.end_timer == old(self).end_timer,
                self.rings == old(self).rings,
                self.recp == old(self).recp,
                self.players_pos == old(self).players_pos,
                self.entities@.len() <= old(self).entities@.len(),
                forall|i: int|
                    0 <= i < self.entities@.len() ==> old(self).entities@.contains(
                        #[trigger] self.entities@[i],
                    ),
                forall|j: int|
                    0 <= j < qi ==> (forall|i: int|
                        0 <= i < self.entities@.len() ==> (#[trigger] self.entities@[i]).0
                            != #[trigger] old(self).destroy_queue@[j]),
            decreases self.destroy_queue@.len() - qi,
        {
            let id = self.destroy_queue[qi];
            let mut found: Option<usize> = None;
            let mut i: usize = 0;
            while i < self.entities.len()
                invariant
                    i <= self.entities@.len(),
                    found matches Some(fi) ==> fi < self.entities@.len()
                        && self.entities@[fi as int].0 == id,
                    found is None ==> forall|m: int|
                        0 <= m < i ==> (#[trigger] self.entities@[m]).0 != id,
                decreases self.entities@.len() - i,
            {
                if self.entities[i].0 == id {
                    found = Some(i);
                }
                i = i + 1;
            }
            match found {
                Some(fi) => {
                    let ghost before = self.entities@;
                    let (eid, entity) = self.entities.remove(fi);
                    let pk = entity.destroy_packet(eid);
                    match pk {
                        Some(pkt) => {
                            out.push(Output::MulticastReal { packet: pkt });
                        },
                        None => {},
                    }
                    proof {
                        assert forall|a: int| 0 <= a < self.entities@.len() implies {
                            &&& before.contains(#[trigger] self.entities@[a])
                            &&& old(self).entities@.contains(self.entities@[a])
                        } by {
                            if a < fi {
                                assert(self.entities@[a] == before[a]);
                            } else {
                                assert(self.entities@[a] == before[a + 1]);
                            }
                        }
                        assert forall|a: int, b: int|
                            0 <= a < b < self.entities@.len() implies self.entities@[a].0
                            != self.entities@[b].0 by {
                            let a0 = if a < fi {
                                a
                            } else {
                                a + 1
                            };
                            let b0 = if b < fi {
                                b
                            } else {
                                b + 1
                            };
                            assert(self.entities@[a] == before[a0]);
                            assert(self.entities@[b] == before[b0]);
                        }
                    }
                },
                None => {},
            }
            qi = qi + 1;
        }
        self.destroy_queue.clear();
    }
}

/// Law: in a well-formed game every entity in the table, and every id
/// waiting in the destroy queue, carries an id that a spawn handed out; a
/// destroy broadcast therefore always names a previously spawned entity.
pub proof fn lemma_destroyed_was_spawned(g: Game)
    requires
        g.wf(),
    ensures
        forall|i: int| 0 <= i < g.entities@.len() ==> g.spawned@.contains((#[trigger] g.entities@[i]).0),
        forall|i: int| 0 <= i < g.destroy_queue@.len() ==> g.spawned@.contains(#[trigger] g.destroy_queue@[i]),
{
}



/// The bytes announcing that a player escaped.
pub open spec fn escaped_bytes(id: u16) -> Seq<u8> {
    spec_packet(PacketType::ServerGamePlayerEscaped) + spec_u16_to_le_bytes(id)
}

/// The bytes ending a death timer: one when the player demonizes, zero when
/// the death is final.
pub open spec fn death_end_bytes(demonized: bool) -> Seq<u8> {
    spec_packet(PacketType::ServerGameDeathtimerEnd) + seq![
        if demonized {
            1u8
        } else {
            0u8
        },
    ]
}

/// The bytes of the per-second match-clock broadcast.
pub open spec fn time_sync_bytes(frames: u16) -> Seq<u8> {
    spec_packet(PacketType::ServerGameTimeSync) + spec_u16_to_le_bytes(frames)
}

/// The bytes paying a slug's ring bonus.
pub open spec fn ringbonus_bytes(red: bool) -> Seq<u8> {
    spec_packet(PacketType::ServerRmzslimeRingbonus) + seq![
        if red {
            1u8
        } else {
            0u8
        },
    ]
}


/// The bytes of the death-state broadcast.
pub open spec fn death_state_bytes(id: u16, dead: bool, rt: u8) -> Seq<u8> {
    spec_packet(PacketType::ServerPlayerDeathState) + spec_u16_to_le_bytes(id) + seq![
        if dead {
            1u8
        } else {
            0u8
        },
        rt,
    ]
}

/// The bytes of a revival-status change.
pub open spec fn revival_status_bytes(on: bool, id: u16) -> Seq<u8> {
    spec_packet(PacketType::ServerRevivalStatus) + seq![
        if on {
            1u8
        } else {
            0u8
        },
    ] + spec_u16_to_le_bytes(id)
}

/// The bytes answering a collected ring.
pub open spec fn ring_collected_bytes(red: bool) -> Seq<u8> {
    spec_packet(PacketType::ServerRingCollected) + seq![
        if red {
            1u8
        } else {
            0u8
        },
    ]
}

/// The survivor and demonized counts ignore every field the per-packet
/// bookkeeping may touch, so a table that differs only there counts alike.
proof fn lemma_counts_ignore_bookkeeping(s1: Seq<Peer>, s2: Seq<Peer>)
    requires
        s1.len() == s2.len(),
        forall|i: int|
            0 <= i < s1.len() ==> ((#[trigger] s2[i]).player == s1[i].player && s2[i].pending
                == s1[i].pending && s2[i].in_queue == s1[i].in_queue),
    ensures
        spec_demon_count(s1) == spec_demon_count(s2),
        spec_survivor_count(s1) == spec_survivor_count(s2),
    decreases s1.len(),
{
    if s1.len() > 0 {
        assert(s2.drop_last().len() == s1.drop_last().len());
        assert(forall|i: int|
            0 <= i < s1.drop_last().len() ==> ((#[trigger] s2.drop_last()[i]).player
                == s1.drop_last()[i].player && s2.drop_last()[i].pending
                == s1.drop_last()[i].pending && s2.drop_last()[i].in_queue
                == s1.drop_last()[i].in_queue));
        lemma_counts_ignore_bookkeeping(s1.drop_last(), s2.drop_last());
        assert(s1.last() == s1[s1.len() - 1]);
        assert(s2.last() == s2[s1.len() - 1]);
    }
}

/// A peer playing as a survivor this match: active, with a non-killer
/// player record.
pub open spec fn is_survivor(p: Peer) -> bool {
    p.is_real() && (p.player matches Some(pl) && !pl.exe)
}

/// How many peers of `s` are survivors.
pub open spec fn spec_survivor_count(s: Seq<Peer>) -> int
    decreases s.len(),
{
    if s.len() == 0 {
        0
    } else {
        spec_survivor_count(s.drop_last()) + if is_survivor(s.last()) {
            1int
        } else {
            0int
        }
    }
}

/// How many peers of `s` are active and already demonized.
pub open spec fn spec_demon_count(s: Seq<Peer>) -> int
    decreases s.len(),
{
    if s.len() == 0 {
        0
    } else {
        spec_demon_count(s.drop_last()) + if s.last().is_real() && (s.last().player matches
            Some(pl) && pl.revival_times >= 2) {
            1int
        } else {
            0int
        }
    }
}

/// How many survivors of `s` are neither down nor escaped.
pub open spec fn spec_remaining_count(s: Seq<Peer>) -> int
    decreases s.len(),
{
    if s.len() == 0 {
        0
    } else {
        spec_remaining_count(s.drop_last()) + if is_survivor(s.last()) && (s.last().player matches
            Some(pl) && !pl.dead && !pl.escaped) {
            1int
        } else {
            0int
        }
    }
}

/// How many survivors of `s` have escaped.
pub open spec fn spec_escaped_count(s: Seq<Peer>) -> int
    decreases s.len(),
{
    if s.len() == 0 {
        0
    } else {
        spec_escaped_count(s.drop_last()) + if is_survivor(s.last()) && (s.last().player matches
            Some(pl) && pl.escaped) {
            1int
        } else {
            0int
        }
    }
}

/// Counting a prefix one element longer adds that element's contribution,
/// for each of the four match counts.
pub proof fn lemma_match_counts_snoc(s: Seq<Peer>, i: int)
    requires
        0 <= i < s.len(),
    ensures
        spec_survivor_count(s.subrange(0, i + 1)) == spec_survivor_count(s.subrange(0, i)) + if is_survivor(s[i]) {
            1int
        } else {
            0int
        },
        spec_demon_count(s.subrange(0, i + 1)) == spec_demon_count(s.subrange(0, i)) + if s[i].is_real() && (s[i].player matches Some(pl) && pl.revival_times >= 2) {
            1int
        } else {
            0int
        },
        spec_remaining_count(s.subrange(0, i + 1)) == spec_remaining_count(s.subrange(0, i)) + if is_survivor(s[i]) && (s[i].player matches Some(pl) && !pl.dead && !pl.escaped) {
            1int
        } else {
            0int
        },
        spec_escaped_count(s.subrange(0, i + 1)) == spec_escaped_count(s.subrange(0, i)) + if is_survivor(s[i]) && (s[i].player matches Some(pl) && pl.escaped) {
            1int
        } else {
            0int
        },
{
    assert(s.subrange(0, i + 1).drop_last() =~= s.subrange(0, i));
    assert(s.subrange(0, i + 1).last() == s[i]);
}

/// How many connected peers are survivors.
pub fn count_survivors(core: &ServerCore) -> (r: usize)
    ensures
        r == spec_survivor_count(core.peers@),
{
    let mut count: usize = 0;
    let mut i: usize = 0;
    while i < core.peers.len()
        invariant
            i <= core.peers@.len(),
            count <= i,
            count == spec_survivor_count(core.peers@.subrange(0, i as int)),
        decreases core.peers@.len() - i,
    {
        proof {
            lemma_match_counts_snoc(core.peers@, i as int);
        }
        let p = &core.peers[i];
        if !p.pending && !p.in_queue {
            match &p.player {
                Some(pl) => {
                    if !pl.exe {
                        count = count + 1;
                    }
                },
                None => {},
            }
        }
        i = i + 1;
    }
    assert(core.peers@.subrange(0, core.peers@.len() as int) =~= core.peers@);
    count
}

/// How many connected peers are active and demonized.
pub fn count_demons(core: &ServerCore) -> (r: usize)
    ensures
        r == spec_demon_count(core.peers@),
{
    let mut count: usize = 0;
    let mut i: usize = 0;
    while i < core.peers.len()
        invariant
            i <= core.peers@.len(),
            count <= i,
            count == spec_demon_count(core.peers@.subrange(0, i as int)),
        decreases core.peers@.len() - i,
    {
        proof {
            lemma_match_counts_snoc(core.peers@, i as int);
        }
        let p = &core.peers[i];
        if !p.pending && !p.in_queue {
            match &p.player {
                Some(pl) => {
                    if pl.revival_times >= 2 {
                        count = count + 1;
                    }
                },
                None => {},
            }
        }
        i = i + 1;
    }
    assert(core.peers@.subrange(0, core.peers@.len() as int) =~= core.peers@);
    count
}

/// How many survivors are neither down nor escaped, and how many escaped.
pub fn count_remaining_escaped(core: &ServerCore) -> (r: (usize, usize))
    ensures
        r.0 == spec_remaining_count(core.peers@),
        r.1 == spec_escaped_count(core.peers@),
{
    let mut remaining: usize = 0;
    let mut escaped: usize = 0;
    let mut i: usize = 0;
    while i < core.peers.len()
        invariant
            i <= core.peers@.len(),
            remaining <= i,
            escaped <= i,
            remaining == spec_remaining_count(core.peers@.subrange(0, i as int)),
            escaped == spec_escaped_count(core.peers@.subrange(0, i as int)),
        decreases core.peers@.len() - i,
    {
        proof {
            lemma_match_counts_snoc(core.peers@, i as int);
        }
        let p = &core.peers[i];
        if !p.pending && !p.in_queue {
            match &p.player {
                Some(pl) => {
                    if !pl.exe {
                        if pl.escaped {
                            escaped = escaped + 1;
                        }
                        if !pl.dead && !pl.escaped {
                            remaining = remaining + 1;
                        }
                    }
                },
                None => {},
            }
        }
        i = i + 1;
    }
    assert(core.peers@.subrange(0, core.peers@.len() as int) =~= core.peers@);
    (remaining, escaped)
}

/// How a match ends.
#[derive(Clone, Copy, PartialEq, Eq, Structural, Debug)]
pub enum Ending {
    ExeWin,
    SurvWin,
    TimeOver,
}

impl Game {
    /// Install the match: announce the start, set the match clock and the
    /// ring machinery from the chosen map, and wait for every participant
    /// to report UDP-ready before simulating.
    pub fn init(&mut self, core: &mut ServerCore, out: &mut Vec<Output>) -> (r: Option<NextState>)
        requires
            old(self).wf(),
            old(self).entities@.len() == 0,
            !old(self).started,
        ensures
            final(self).wf(),
            r is None,
            !final(self).started,
            final(self).rings@.len() == final(self).map.spec_ring_count(),
            final(self).map == old(self).map,
    {
        let p = Packet::new(PacketType::ServerLobbyGameStart);
        out.push(Output::MulticastReal { packet: p });
        let count = core.count_real();
        let count = if count > 7 {
            7
        } else {
            count
        };
        let frames = self.map.timer_frames(count);
        self.timer.set(GameTimer::Time, frames);
        self.ring_time = self.map.ring_time_frames(count);
        let n = self.map.ring_count();
        let mut rings: Vec<bool> = Vec::new();
        while rings.len() < n
            invariant
                rings@.len() <= n,
                n <= 27,
            decreases n - rings@.len(),
        {
            rings.push(false);
        }
        self.rings = rings;
        self.big_ring_spawn = self.map.bring_spawn();
        self.big_ring_time = self.map.bring_activate_time();
        None
    }

    /// The map's own install hook, run once everyone is UDP-ready: Ravine
    /// Mist arms its slug timer, notes its shard takers, and scatters seven
    /// of its twelve shard points.
    fn map_init(&mut self, core: &ServerCore, out: &mut Vec<Output>)
        requires
            old(self).wf(),
        ensures
            final(self).wf(),
            final(self).started == old(self).started,
            final(self).end_timer == old(self).end_timer,
            final(self).map == old(self).map,
            final(self).recp == old(self).recp,
            final(self).players_pos == old(self).players_pos,
            final(out)@.len() >= old(out)@.len(),
            forall|k: int| 0 <= k < old(out)@.len() ==> final(out)@[k] == old(out)@[k],
    {
        match self.map {
            MapId::HideAndSeek2 => {},
            MapId::RavineMist => {
                self.slug_timer = rand_range_u16(2, 17) * 60;
                let mut i: usize = 0;
                while i < core.peers.len()
                    invariant
                        i <= core.peers@.len(),
                        self.wf(),
                        self.started == old(self).started,
                        self.end_timer == old(self).end_timer,
                        self.map == old(self).map,
                        self.recp == old(self).recp,
                        self.players_pos == old(self).players_pos,
                    decreases core.peers@.len() - i,
                {
                    let p = &core.peers[i];
                    if !p.pending && !p.in_queue {
                        self.shards_list.push((p.id, 0));
                    }
                    i = i + 1;
                }
                let mut spawns = shard_spawn_points();
                shuffle_points(&mut spawns);
                let mut k: usize = 0;
                while k < 7
                    invariant
                        self.wf(),
                        spawns@.len() == 12,
                        k <= 7,
                        self.started == old(self).started,
                        self.end_timer == old(self).end_timer,
                        self.map == old(self).map,
                        self.recp == old(self).recp,
                        self.players_pos == old(self).players_pos,
                        out@.len() >= old(out)@.len(),
                        forall|m: int| 0 <= m < old(out)@.len() ==> out@[m] == old(out)@[m],
                    decreases 7 - k,
                {
                    let point = spawns[k];
                    let _ = self.spawn(
                        Entity::Shard { x: point.0, y: point.1, spawned: false },
                        out,
                    );
                    k = k + 1;
                }
            },
        }
    }

    /// The map's own frame hook: Ravine Mist counts its slug timer down and,
    /// when it fires and a spawn point is free, raises a slug there and
    /// rearms the timer.
    fn map_tick(&mut self, out: &mut Vec<Output>)
        requires
            old(self).wf(),
        ensures
            final(self).wf(),
            final(self).started == old(self).started,
            final(self).end_timer == old(self).end_timer,
            final(self).map == old(self).map,
    {
        match self.map {
            MapId::HideAndSeek2 => {},
            MapId::RavineMist => {
                if self.slug_timer > 0 {
                    self.slug_timer = self.slug_timer - 1;
                    return ;
                }
                let mut free: Vec<usize> = Vec::new();
                let mut i: usize = 0;
                while i < self.slugs.len()
                    invariant
                        i <= self.slugs@.len(),
                        forall|k: int|
                            0 <= k < free@.len() ==> #[trigger] free@[k] < self.slugs@.len(),
                    decreases self.slugs@.len() - i,
                {
                    if !self.slugs[i].2 {
                        free.push(i);
                    }
                    i = i + 1;
                }
                if free.len() > 0 {
                    let pick = rand_range_usize(0, free.len());
                    let slot = free[pick];
                    let sx = self.slugs[slot].0;
                    let sy = self.slugs[slot].1;
                    let sx = if sx < 150 {
                        150
                    } else if sx > 10000 {
                        10000
                    } else {
                        sx
                    };
                    let sy = if sy < 0 {
                        0
                    } else if sy > 10000 {
                        10000
                    } else {
                        sy
                    };
                    let occupied = self.slugs[slot];
                    self.slugs.set(slot, (occupied.0, occupied.1, true));
                    let _ = self.spawn(
                        Entity::Slug {
                            x: sx,
                            y: sy,
                            state: SlugState::NoneLeft,
                            ring: SlugRing::NoRing,
                            slot,
                            real_x: 0,
                        },
                        out,
                    );
                    self.slug_timer = 900 + rand_range_u16(2, 10) * 60;
                }
            },
        }
    }

    /// End the match: announce the outcome and arm the five-second pause
    /// before the next lobby.
    pub fn end(&mut self, ending: Ending, out: &mut Vec<Output>)
        requires
            old(self).wf(),
        ensures
            final(self).wf(),
            final(self).end_timer == 300,
            final(out)@.len() >= old(out)@.len(),
            forall|k: int| 0 <= k < old(out)@.len() ==> final(out)@[k] == old(out)@[k],
            final(self).entities == old(self).entities,
            final(self).destroy_queue == old(self).destroy_queue,
            final(self).spawned@ == old(self).spawned@,
            final(self).timer == old(self).timer,
            final(self).map == old(self).map,
            final(self).started == old(self).started,
            final(self).big_ring_ready == old(self).big_ring_ready,
            final(self).big_ring_spawn == old(self).big_ring_spawn,
            final(self).big_ring_time == old(self).big_ring_time,
            ending == Ending::SurvWin ==> count_of_type(
                final(out)@,
                PacketType::ServerGameSurvivorWin.spec_code(),
            ) == count_of_type(old(out)@, PacketType::ServerGameSurvivorWin.spec_code()) + 1,
            ending != Ending::SurvWin ==> count_of_type(
                final(out)@,
                PacketType::ServerGameSurvivorWin.spec_code(),
            ) == count_of_type(old(out)@, PacketType::ServerGameSurvivorWin.spec_code()),
            ending == Ending::SurvWin ==> multicast_real_after(
                final(out)@,
                old(out)@.len() as int,
                spec_packet(PacketType::ServerGameSurvivorWin),
            ),
            ending == Ending::ExeWin ==> multicast_real_after(
                final(out)@,
                old(out)@.len() as int,
                spec_packet(PacketType::ServerGameExeWins),
            ),
            ending == Ending::TimeOver ==> multicast_after(
                final(out)@,
                old(out)@.len() as int,
                time_sync_bytes(0),
            ) && multicast_real_after(
                final(out)@,
                old(out)@.len() as int,
                spec_packet(PacketType::ServerGameTimeOver),
            ),
    {
        match ending {
            Ending::ExeWin => {
                let p = Packet::new(PacketType::ServerGameExeWins);
                proof {
                    lemma_count_of_type_push(
                        out@,
                        Output::MulticastReal { packet: p },
                        PacketType::ServerGameSurvivorWin.spec_code(),
                    );
                }
                out.push(Output::MulticastReal { packet: p });
                proof {
                    assert(is_multicast_real(
                        out@[out@.len() - 1],
                        spec_packet(PacketType::ServerGameExeWins),
                    ));
                }
            },
            Ending::SurvWin => {
                let p = Packet::new(PacketType::ServerGameSurvivorWin);
                proof {
                    lemma_count_of_type_push(
                        out@,
                        Output::MulticastReal { packet: p },
                        PacketType::ServerGameSurvivorWin.spec_code(),
                    );
                }
                out.push(Output::MulticastReal { packet: p });
                proof {
                    assert(is_multicast_real(
                        out@[out@.len() - 1],
                        spec_packet(PacketType::ServerGameSurvivorWin),
                    ));
                }
            },
            Ending::TimeOver => {
                let mut p = Packet::new(PacketType::ServerGameTimeSync);
                p.wu16(0);
                proof {
                    lemma_count_of_type_push(
                        out@,
                        Output::Multicast { packet: p },
                        PacketType::ServerGameSurvivorWin.spec_code(),
                    );
                    assert(p.bytes() =~= time_sync_bytes(0));
                }
                out.push(Output::Multicast { packet: p });
                proof {
                    assert(is_multicast(out@[out@.len() - 1], time_sync_bytes(0)));
                    assert(multicast_after(out@, old(out)@.len() as int, time_sync_bytes(0)));
                }
                let ghost out_mid = out@;
                let p2 = Packet::new(PacketType::ServerGameTimeOver);
                proof {
                    lemma_count_of_type_push(
                        out@,
                        Output::MulticastReal { packet: p2 },
                        PacketType::ServerGameSurvivorWin.spec_code(),
                    );
                }
                out.push(Output::MulticastReal { packet: p2 });
                proof {
                    lemma_outputs_grow(out_mid, out@);
                    assert(is_multicast_real(
                        out@[out@.len() - 1],
                        spec_packet(PacketType::ServerGameTimeOver),
                    ));
                }
            },
        }
        self.end_timer = 300;
    }

    /// Evaluate the end conditions. Once no survivor is both unharmed and
    /// still inside: with no escapes the killer wins, with at least one the
    /// survivors win — and the winning broadcast goes out exactly once,
    /// because a match that already ended is left alone.
    pub fn check_state(&mut self, core: &ServerCore, out: &mut Vec<Output>)
        requires
            old(self).wf(),
        ensures
            final(self).wf(),
            final(out)@.len() >= old(out)@.len(),
            forall|k: int| 0 <= k < old(out)@.len() ==> final(out)@[k] == old(out)@[k],
            old(self).end_timer != 0 ==> *final(self) == *old(self) && final(out)@ == old(out)@,
            ({
                let surv_win = old(self).end_timer == 0 && spec_remaining_count(core.peers@) == 0
                    && spec_escaped_count(core.peers@) >= 1;
                &&& (surv_win ==> count_of_type(
                    final(out)@,
                    PacketType::ServerGameSurvivorWin.spec_code(),
                ) == count_of_type(old(out)@, PacketType::ServerGameSurvivorWin.spec_code()) + 1
                    && final(self).end_timer == 300)
                &&& (!surv_win ==> count_of_type(
                    final(out)@,
                    PacketType::ServerGameSurvivorWin.spec_code(),
                ) == count_of_type(old(out)@, PacketType::ServerGameSurvivorWin.spec_code()))
            }),
            (old(self).end_timer == 0 && spec_remaining_count(core.peers@) == 0
                && spec_escaped_count(core.peers@) == 0) ==> multicast_real_after(
                final(out)@,
                old(out)@.len() as int,
                spec_packet(PacketType::ServerGameExeWins),
            ) && final(self).end_timer == 300,
            (old(self).end_timer == 0 && spec_remaining_count(core.peers@) == 0
                && spec_escaped_count(core.peers@) >= 1) ==> multicast_real_after(
                final(out)@,
                old(out)@.len() as int,
                spec_packet(PacketType::ServerGameSurvivorWin),
            ) && final(self).end_timer == 300,
            (old(self).end_timer == 0 && spec_remaining_count(core.peers@) > 0) ==> *final(self)
                == *old(self) && final(out)@ == old(out)@,
    {
        if self.end_timer != 0 {
            return ;
        }
        let (remaining, escaped) = count_remaining_escaped(core);
        if remaining == 0 {
            if escaped == 0 {
                self.end(Ending::ExeWin, out);
            } else {
                self.end(Ending::SurvWin, out);
            }
        }
    }
}


/// How one frame of death-timer work may change a peer: identity and role
/// survive untouched, and `revival_times` either stays or becomes two —
/// never drops, and a demonized player stays demonized.
pub open spec fn death_tick_rel(pre: Peer, post: Peer) -> bool {
    &&& post.id == pre.id
    &&& post.pending == pre.pending
    &&& post.in_queue == pre.in_queue
    &&& (match (pre.player, post.player) {
        (Some(a), Some(b)) => {
            &&& (a.revival_times == 2 ==> b.revival_times == 2)
            &&& (b.revival_times == a.revival_times || b.revival_times == 2)
            &&& b.exe == a.exe
            &&& b.dead == a.dead
            &&& b.escaped == a.escaped
        },
        (None, None) => true,
        _ => false,
    })
}


/// What one frame of death-timer work does to a single peer: identity and
/// player role survive; a peer that is not an active dying survivor has its
/// death timer parked at minus one; a running death timer drops by one and
/// collapses to zero inside the last two minutes; and `revival_times` moves
/// only to two, and only at the moment the timer reaches zero.
pub open spec fn death_step_rel(p0: Peer, p1: Peer, game_time: u16) -> bool {
    &&& p1.id == p0.id
    &&& p1.pending == p0.pending
    &&& p1.in_queue == p0.in_queue
    &&& (!p0.is_real() ==> p1 == p0)
    &&& (p0.is_real() ==> match (p0.player, p1.player) {
        (Some(a), Some(b)) => {
            &&& b.exe == a.exe
            &&& b.dead == a.dead
            &&& b.escaped == a.escaped
            &&& b.ch1 == a.ch1
            &&& b.ch2 == a.ch2
            &&& b.revival == a.revival
            &&& if !(a.dead && !a.escaped && a.revival_times < 2) {
                b == (Player { death_timer: -1i32, ..a })
            } else if a.death_timer > 0 {
                &&& b.death_timer == (if game_time <= 7200 {
                    0int
                } else {
                    a.death_timer - 1
                })
                &&& (b.death_timer != 0 ==> b.revival_times == a.revival_times)
                &&& (b.revival_times == a.revival_times || b.revival_times == 2)
            } else {
                b == a
            }
        },
        (None, None) => p1 == p0,
        _ => false,
    })
}


/// The death timer of this peer expires on this frame: a dying survivor
/// whose countdown runs out, or collapses inside the last two minutes.
pub open spec fn death_expires(p: Peer, game_time: u16) -> bool {
    p.is_real() && (p.player matches Some(a) && a.dead && !a.escaped && a.revival_times < 2
        && a.death_timer > 0 && (game_time <= 7200 || a.death_timer == 1))
}

/// The fairness rule at the moment a death timer expires: the player
/// demonizes exactly when strictly fewer than half of the survivors are
/// demonized at that moment — counted over the table as the sweep reaches
/// the peer, the earlier peers already stepped and the later ones not yet.
pub open spec fn death_fair_at(pre: Seq<Peer>, post: Seq<Peer>, i: int, game_time: u16) -> bool {
    death_expires(pre[i], game_time) ==> (pre[i].player matches Some(a) ==> {
        let mid = post.subrange(0, i) + pre.subrange(i, pre.len() as int);
        post[i].player matches Some(b) ==> b.revival_times == (if spec_demon_count(mid)
            < spec_survivor_count(mid) / 2 {
            2u8
        } else {
            a.revival_times
        })
    })
}

/// Whether this peer demonized during the sweep.
pub open spec fn demonized_now(pre: Seq<Peer>, post: Seq<Peer>, i: int) -> bool {
    pre[i].player matches Some(a) && a.revival_times < 2 && (post[i].player matches Some(b)
        && b.revival_times == 2)
}

/// The fairness statement only reads the stepped prefix and the peer's own
/// entry, so any table that agrees there satisfies it alike.
proof fn lemma_death_fair_frame(
    pre: Seq<Peer>,
    p1: Seq<Peer>,
    p2: Seq<Peer>,
    i: int,
    game_time: u16,
)
    requires
        0 <= i < pre.len(),
        p1.len() == pre.len(),
        p2.len() == pre.len(),
        p2[i] == p1[i],
        p2.subrange(0, i) =~= p1.subrange(0, i),
        death_fair_at(pre, p1, i, game_time),
    ensures
        death_fair_at(pre, p2, i, game_time),
{
    assert(p2.subrange(0, i) + pre.subrange(i, pre.len() as int) =~= p1.subrange(0, i)
        + pre.subrange(i, pre.len() as int));
}

impl Game {
    /// One frame of timers. Every dying survivor's death timer drops by one
    /// (and collapses to zero inside the last two minutes); at zero the
    /// player is demonized while fewer than half of the survivors are
    /// demonized, and finally dies otherwise. The big ring is announced a
    /// minute early and readied on time, the clock is broadcast each whole
    /// second, the match ends when it runs out, and every named countdown
    /// ticks once.
    pub fn do_timers(&mut self, core: &mut ServerCore, out: &mut Vec<Output>)
        requires
            old(self).wf(),
        ensures
            final(self).wf(),
            final(core).peers@.len() == old(core).peers@.len(),
            forall|i: int|
                0 <= i < old(core).peers@.len() ==> death_tick_rel(
                    old(core).peers@[i],
                    #[trigger] final(core).peers@[i],
                ),
            forall|i: int|
                0 <= i < old(core).peers@.len() ==> death_step_rel(
                    old(core).peers@[i],
                    #[trigger] final(core).peers@[i],
                    old(self).timer.spec_get(GameTimer::Time),
                ),
            forall|i: int|
                0 <= i < old(core).peers@.len() ==> #[trigger] death_fair_at(
                    old(core).peers@,
                    final(core).peers@,
                    i,
                    old(self).timer.spec_get(GameTimer::Time),
                ),
            forall|i: int|
                0 <= i < old(core).peers@.len() ==> (#[trigger] death_expires(
                    old(core).peers@[i],
                    old(self).timer.spec_get(GameTimer::Time),
                ) ==> sent_to(
                    final(out)@,
                    old(out)@.len() as int,
                    old(core).peers@[i].id,
                    death_end_bytes(demonized_now(old(core).peers@, final(core).peers@, i)),
                )),
            final(self).started == old(self).started,
            final(self).entities == old(self).entities,
            final(self).spawned@ == old(self).spawned@,
            ({
                let gt = old(self).timer.spec_get(GameTimer::Time);
                &&& (gt % 60 == 0 ==> multicast_after(
                    final(out)@,
                    old(out)@.len() as int,
                    time_sync_bytes(gt),
                ))
                &&& (gt == 0 ==> final(self).end_timer == 300 && final(self).timer == old(
                    self,
                ).timer)
                &&& ((old(self).big_ring_spawn && gt as int == old(self).big_ring_time as int
                    + 3600) ==> multicast_real_op_after(
                    final(out)@,
                    old(out)@.len() as int,
                    PacketType::ServerGameSpawnRing.spec_code(),
                    0,
                ))
                &&& ((old(self).big_ring_spawn && gt == old(self).big_ring_time)
                    ==> final(self).big_ring_ready && multicast_real_op_after(
                    final(out)@,
                    old(out)@.len() as int,
                    PacketType::ServerGameSpawnRing.spec_code(),
                    1,
                ))
                &&& (old(self).big_ring_ready ==> final(self).big_ring_ready)
                &&& (gt != 0 ==> final(self).end_timer == old(self).end_timer && (forall|
                    k: GameTimer,
                |
                    final(self).timer.spec_get(k) == (if old(self).timer.spec_get(k) == 0u16 {
                        0u16
                    } else {
                        (old(self).timer.spec_get(k) - 1) as u16
                    })))
            }),
    {
        let game_time = self.timer.get(GameTimer::Time);
        let ghost pre = core.peers@;
        let mut death_packets: Vec<Packet> = Vec::new();
        let mut i: usize = 0;
        while i < core.peers.len()
            invariant
                i <= core.peers@.len(),
                core.peers@.len() == pre.len(),
                game_time == old(self).timer.spec_get(GameTimer::Time),
                self.timer == old(self).timer,
                self.end_timer == old(self).end_timer,
                out@.len() >= old(out)@.len(),
                forall|j: int| i <= j < pre.len() ==> core.peers@[j] == pre[j],
                forall|j: int|
                    0 <= j < i ==> death_tick_rel(pre[j], #[trigger] core.peers@[j]),
                forall|j: int|
                    0 <= j < i ==> death_step_rel(pre[j], #[trigger] core.peers@[j], game_time),
                forall|j: int|
                    0 <= j < i ==> #[trigger] death_fair_at(pre, core.peers@, j, game_time),
                forall|j: int|
                    0 <= j < i ==> (#[trigger] death_expires(pre[j], game_time) ==> sent_to(
                        out@,
                        old(out)@.len() as int,
                        pre[j].id,
                        death_end_bytes(demonized_now(pre, core.peers@, j)),
                    )),
            decreases core.peers@.len() - i,
        {
            let ghost cur0 = core.peers@;
            let ghost out0 = out@;
            proof {
                assert(cur0 =~= cur0.subrange(0, i as int) + pre.subrange(
                    i as int,
                    pre.len() as int,
                ));
            }
            if !core.peers[i].pending && !core.peers[i].in_queue {
                let peer_count = count_survivors(core);
                let demon_count = count_demons(core);
                let id = core.peers[i].id;
                let mut present = false;
                let mut active = false;
                let mut dt: i32 = 0;
                match &core.peers[i].player {
                    Some(pl) => {
                        present = true;
                        if pl.dead && !pl.escaped && pl.revival_times < 2 {
                            active = true;
                            dt = pl.death_timer;
                        }
                    },
                    None => {},
                }
                if present && !active {
                    match &mut core.peers[i].player {
                        Some(pl) => {
                            pl.death_timer = -1;
                        },
                        None => {},
                    }
                }
                if present && active {
                    if dt > 0 {
                        dt = dt - 1;
                        if game_time <= 7200 {
                            dt = 0;
                        }
                        if dt == 0 {
                            let mut pk = Packet::new(PacketType::ServerGameDeathtimerEnd);
                            let demonize = demon_count < peer_count / 2;
                            if demonize {
                                match &mut core.peers[i].player {
                                    Some(pl) => {
                                        pl.revival_times = 2;
                                    },
                                    None => {},
                                }
                                pk.wu8(1);
                            } else {
                                pk.wu8(0);
                            }
                            proof {
                                assert(pk.bytes() =~= death_end_bytes(demonize));
                            }
                            out.push(Output::Send { peer: id, packet: pk });
                            proof {
                                assert(is_send(
                                    out@[out@.len() - 1],
                                    id,
                                    death_end_bytes(demonize),
                                ));
                                assert(sent_to(
                                    out@,
                                    old(out)@.len() as int,
                                    id,
                                    death_end_bytes(demonize),
                                ));
                            }
                        }
                        if dt % 60 == 0 {
                            let mut pk = Packet::new(PacketType::ServerGameDeathtimerTick);
                            pk.wu16(id);
                            pk.wu8(#[verifier::truncate] ((dt / 60) as u8));
                            death_packets.push(pk);
                        }
                    }
                    match &mut core.peers[i].player {
                        Some(pl) => {
                            pl.death_timer = dt;
                        },
                        None => {},
                    }
                }
            }
            proof {
                assert forall|j: int| 0 <= j < i + 1 implies #[trigger] death_fair_at(
                    pre,
                    core.peers@,
                    j,
                    game_time,
                ) by {
                    if j < i {
                        assert(core.peers@.subrange(0, j) =~= cur0.subrange(0, j));
                        assert(core.peers@[j] == cur0[j]);
                        lemma_death_fair_frame(pre, cur0, core.peers@, j, game_time);
                    } else {
                        if death_expires(pre[j], game_time) {
                            assert(core.peers@.subrange(0, j) + pre.subrange(
                                j,
                                pre.len() as int,
                            ) =~= cur0);
                        }
                    }
                }
                lemma_outputs_grow(out0, out@);
            }
            i = i + 1;
        }
        let ghost out_after_sweep = out@;
        let mut k: usize = 0;
        while k < death_packets.len()
            invariant
                k <= death_packets@.len(),
                out@.len() >= out_after_sweep.len(),
                forall|m: int| 0 <= m < out_after_sweep.len() ==> out@[m] == out_after_sweep[m],
                out@.len() >= old(out)@.len(),
            decreases death_packets@.len() - k,
        {
            out.push(Output::MulticastReal { packet: death_packets[k].duplicate() });
            k = k + 1;
        }
        if self.big_ring_spawn {
            if game_time as u32 == self.big_ring_time as u32 + 3600 {
                let mut p = Packet::new(PacketType::ServerGameSpawnRing);
                p.wu8(0);
                p.wu8(rand_range_u8(0, 255));
                out.push(Output::MulticastReal { packet: p });
                proof {
                    assert((out@[out@.len() - 1] matches Output::MulticastReal { packet }
                        && packet.bytes().len() >= 3 && packet.bytes()[1]
                        == PacketType::ServerGameSpawnRing.spec_code() && packet.bytes()[2]
                        == 0u8));
                    assert(multicast_real_op_after(
                        out@,
                        old(out)@.len() as int,
                        PacketType::ServerGameSpawnRing.spec_code(),
                        0,
                    ));
                }
            }
            if game_time == self.big_ring_time {
                self.big_ring_ready = true;
                let mut p = Packet::new(PacketType::ServerGameSpawnRing);
                p.wu8(1);
                p.wu8(rand_range_u8(0, 255));
                out.push(Output::MulticastReal { packet: p });
                proof {
                    assert((out@[out@.len() - 1] matches Output::MulticastReal { packet }
                        && packet.bytes().len() >= 3 && packet.bytes()[1]
                        == PacketType::ServerGameSpawnRing.spec_code() && packet.bytes()[2]
                        == 1u8));
                    assert(multicast_real_op_after(
                        out@,
                        old(out)@.len() as int,
                        PacketType::ServerGameSpawnRing.spec_code(),
                        1,
                    ));
                }
            }
        }
        let ghost out_after_ring = out@;
        if game_time % 60 == 0 {
            let mut p = Packet::new(PacketType::ServerGameTimeSync);
            p.wu16(game_time);
            proof {
                assert(p.bytes() =~= time_sync_bytes(game_time));
            }
            out.push(Output::Multicast { packet: p });
            proof {
                assert(is_multicast(out@[out@.len() - 1], time_sync_bytes(game_time)));
                assert(multicast_after(out@, old(out)@.len() as int, time_sync_bytes(game_time)));
            }
        }
        if game_time == 0 {
            self.end(Ending::TimeOver, out);
            proof {
                lemma_outputs_grow(out_after_sweep, out@);
                lemma_outputs_grow(out_after_ring, out@);
            }
            return ;
        }
        self.timer.tick();
        proof {
            lemma_outputs_grow(out_after_sweep, out@);
            lemma_outputs_grow(out_after_ring, out@);
        }
    }

    /// One frame of the match. During the end pause only that countdown
    /// runs, and the lobby returns when it ends. Before everyone is
    /// UDP-ready nothing is simulated. Otherwise: drain destroys, run the
    /// map hook, tick every entity (its packet goes to the participants
    /// over UDP, and it may ask to be destroyed), run the timers, and drain
    /// destroys again.
    pub fn tick(&mut self, core: &mut ServerCore, out: &mut Vec<Output>) -> (r: Option<NextState>)
        requires
            old(self).wf(),
        ensures
            final(self).wf(),
            r is Some <==> old(self).end_timer == 1,
            r matches Some(n) ==> n is Lobby && crate::state::next_ready(n),
            old(self).end_timer > 0 ==> final(self).end_timer == old(self).end_timer - 1
                && final(self).entities == old(self).entities && final(self).timer == old(
                self,
            ).timer && final(core).peers@ == old(core).peers@ && final(out)@ == old(out)@,
            (old(self).end_timer == 0 && !old(self).started) ==> *final(self) == *old(self)
                && final(core).peers@ == old(core).peers@ && final(out)@ == old(out)@,
            forall|i: int|
                0 <= i < old(core).peers@.len() ==> death_tick_rel(
                    old(core).peers@[i],
                    #[trigger] final(core).peers@[i],
                ),
    {
        proof {
            lemma_death_tick_rel_refl(core.peers@);
        }
        if self.end_timer > 0 {
            self.end_timer = self.end_timer - 1;
            if self.end_timer == 0 {
                return Some(NextState::Lobby(Lobby::new()));
            }
            return None;
        }
        if !self.started {
            return None;
        }
        self.entity_check_destroy(out);
        self.map_tick(out);
        let ghost mid = core.peers@;
        let mut i: usize = 0;
        while i < self.entities.len()
            invariant
                self.wf(),
                i <= self.entities@.len(),
                core.peers@ == mid,
            decreases self.entities@.len() - i,
        {
            let ghost before = self.entities@;
            let id = self.entities[i].0;
            let (dead, pkt) = self.entities[i].1.tick_step(id);
            proof {
                assert(self.entities@.len() == before.len());
                assert(self.entities@[i as int].0 == id);
                assert(forall|j: int|
                    0 <= j < before.len() && j != i ==> self.entities@[j] == before[j]);
                assert(self.entities@[i as int].1.wf());
            }
            match pkt {
                Some(p) => {
                    out.push(Output::UdpMulticast { packet: p });
                },
                None => {},
            }
            if dead {
                self.queue_destroy(id);
            }
            i = i + 1;
        }
        self.do_timers(core, out);
        self.entity_check_destroy(out);
        None
    }

    /// A peer left mid-match: a queued peer changes nothing; the killer
    /// leaving hands the survivors the win; the last active peer leaving
    /// returns to the lobby; any other loss re-evaluates the end
    /// conditions.
    pub fn disconnect(&mut self, core: &ServerCore, peer: &Peer, out: &mut Vec<Output>) -> (r:
        Option<NextState>)
        requires
            old(self).wf(),
        ensures
            final(self).wf(),
            peer.in_queue ==> r is None && *final(self) == *old(self) && final(out)@ == old(out)@,
            r matches Some(n) ==> n is Lobby && crate::state::next_ready(n),
            !peer.in_queue ==> final(out)@.len() > old(out)@.len() && is_multicast_except(
                final(out)@[old(out)@.len() as int],
                peer.id,
                crate::lobby::left_bytes(peer.id),
            ),
            (r is Some <==> (!peer.in_queue && !(peer.player matches Some(pl) && pl.exe)
                && spec_real_count(core.peers@) <= 1)),
            ((!peer.in_queue && old(self).end_timer == 0 && (peer.player matches Some(pl)
                && pl.exe)) ==> multicast_real_after(
                final(out)@,
                old(out)@.len() as int,
                spec_packet(PacketType::ServerGameSurvivorWin),
            ) && final(self).end_timer == 300),
    {
        if peer.in_queue {
            return None;
        }
        let mut p = Packet::new(PacketType::ServerPlayerLeft);
        p.wu16(peer.id);
        proof {
            assert(p.bytes() =~= crate::lobby::left_bytes(peer.id));
        }
        out.push(Output::MulticastExcept { except: peer.id, packet: p });
        proof {
            assert(is_multicast_except(
                out@[out@.len() - 1],
                peer.id,
                crate::lobby::left_bytes(peer.id),
            ));
        }
        let mut is_exe = false;
        match &peer.player {
            Some(pl) => {
                is_exe = pl.exe;
            },
            None => {},
        }
        if is_exe {
            if self.end_timer == 0 {
                self.end(Ending::SurvWin, out);
            }
            return None;
        }
        if core.count_real() <= 1 {
            return Some(NextState::Lobby(Lobby::new()));
        }
        self.check_state(core, out);
        None
    }

    /// One UDP datagram. Before the match starts it only registers the
    /// sender's return address; once the count of registered participants
    /// reaches the count of active peers the map is installed and the match
    /// begins. Position reports are rebroadcast to the other participants
    /// and cached; pings are answered and echoed.
    pub fn got_udp_packet(
        &mut self,
        core: &ServerCore,
        addr: u64,
        packet: &mut Packet,
        out: &mut Vec<Output>,
    ) -> (r: Result<(), &'static str>)
        requires
            old(self).wf(),
            old(packet).pos() == 0,
        ensures
            final(self).wf(),
            old(self).started ==> final(self).started,
            final(self).started ==> (old(self).started || final(self).recp@.len()
                >= spec_real_count(core.peers@)),
            final(self).recp@.len() >= old(self).recp@.len(),
            ({
                let b = old(packet).bytes();
                (!old(self).started && b.len() >= 3 && b[2] <= 118 && b[2]
                    != PacketType::ClientPlayerData.spec_code() && b[2]
                    != PacketType::ClientPing.spec_code()) ==> {
                    let pid = spec_u16_from_le_bytes(b.subrange(0, 2));
                    let known = exists|i: int|
                        0 <= i < old(self).recp@.len() && (#[trigger] old(self).recp@[i]).0 == pid;
                    let present = exists|i: int|
                        0 <= i < core.peers@.len() && (#[trigger] core.peers@[i]).id == pid;
                    &&& r is Ok
                    &&& (known ==> final(self).recp == old(self).recp)
                    &&& ((!known && present) ==> final(self).recp@ == old(self).recp@.push(
                        (pid, addr),
                    ) && final(self).players_pos@ == old(self).players_pos@.push((pid, 0u32, 0u32)))
                    &&& ((!known && !present) ==> *final(self) == *old(self))
                    &&& ((known || present) ==> final(self).started == (final(self).recp@.len()
                        >= spec_real_count(core.peers@)))
                    &&& ((final(self).started && !old(self).started) ==> multicast_real_after(
                        final(out)@,
                        old(out)@.len() as int,
                        spec_packet(PacketType::ServerGamePlayersReady),
                    ))
                }
            }),
    {
        let pid = packet.ru16()?;
        let tp = packet.rpk()?;
        match tp {
            PacketType::ClientPlayerData => {
                if self.started {
                    assert(packet.bytes().len() >= 3);
                    let raw = packet.raw();
                    let tail = slice_subrange(raw, 3, raw.len());
                    let echo = Packet::headless(PacketType::ClientPlayerData, tail, tail.len());
                    out.push(Output::UdpMulticastExceptAddr { except: addr, packet: echo });
                    let mut found: Option<usize> = None;
                    let mut i: usize = 0;
                    while i < self.players_pos.len()
                        invariant
                            i <= self.players_pos@.len(),
                            found matches Some(fi) ==> fi < self.players_pos@.len(),
                        decreases self.players_pos@.len() - i,
                    {
                        if self.players_pos[i].0 == pid {
                            found = Some(i);
                        }
                        i = i + 1;
                    }
                    match found {
                        Some(fi) => {
                            let _ = packet.ru16()?;
                            let x = packet.ru32()?;
                            let y = packet.ru32()?;
                            self.players_pos.set(fi, (pid, x, y));
                        },
                        None => {
                            return Err("Player with specified id doesn't exist");
                        },
                    }
                }
            },
            PacketType::ClientPing => {
                let ping = packet.ru64()?;
                let calc = packet.ru16()?;
                let mut p = Packet::new(PacketType::ServerPong);
                p.wu64(ping);
                out.push(Output::UdpSendAddr { addr, packet: p });
                let mut p2 = Packet::new(PacketType::ServerGamePing);
                p2.wu16(pid);
                p2.wu16(calc);
                out.push(Output::UdpMulticastExceptAddr { except: addr, packet: p2 });
            },
            _ => {},
        }
        if !self.started {
            let mut known = false;
            let mut i: usize = 0;
            while i < self.recp.len()
                invariant
                    i <= self.recp@.len(),
                    known == exists|j: int|
                        0 <= j < i && (#[trigger] self.recp@[j]).0 == pid,
                decreases self.recp@.len() - i,
            {
                if self.recp[i].0 == pid {
                    proof {
                        assert(self.recp@[i as int].0 == pid);
                    }
                    known = true;
                }
                i = i + 1;
            }
            if !known {
                match core.find_peer(pid) {
                    Some(_) => {
                        self.recp.push((pid, addr));
                        self.players_pos.push((pid, 0, 0));
                    },
                    None => {
                        return Ok(());
                    },
                }
            }
            if self.recp.len() >= core.count_real() {
                self.started = true;
                self.map_init(core, out);
                let p = Packet::new(PacketType::ServerGamePlayersReady);
                proof {
                    assert(p.bytes() =~= spec_packet(PacketType::ServerGamePlayersReady));
                }
                out.push(Output::MulticastReal { packet: p });
                proof {
                    assert(is_multicast_real(
                        out@[out@.len() - 1],
                        spec_packet(PacketType::ServerGamePlayersReady),
                    ));
                }
            }
            return Ok(());
        }
        self.entity_check_destroy(out);
        Ok(())
    }
}

/// A peer stands in the death-tick relation to itself.
proof fn lemma_death_tick_rel_refl(s: Seq<Peer>)
    ensures
        forall|i: int| 0 <= i < s.len() ==> death_tick_rel(s[i], #[trigger] s[i]),
{
}


impl Game {
    /// The position of the entity with this id, if it is live and of this
    /// kind.
    fn find_entity(&self, kind: EntityKind, eid: u16) -> (r: Option<usize>)
        ensures
            r matches Some(i) ==> i < self.entities@.len() && self.entities@[i as int].0 == eid
                && self.entities@[i as int].1.spec_kind() == kind,
            r is None ==> forall|i: int|
                0 <= i < self.entities@.len() ==> !((#[trigger] self.entities@[i]).0 == eid
                    && self.entities@[i].1.spec_kind() == kind),
    {
        let mut i: usize = 0;
        while i < self.entities.len()
            invariant
                i <= self.entities@.len(),
                forall|j: int|
                    0 <= j < i ==> !((#[trigger] self.entities@[j]).0 == eid
                        && self.entities@[j].1.spec_kind() == kind),
            decreases self.entities@.len() - i,
        {
            if self.entities[i].0 == eid && self.entities[i].1.kind() == kind {
                return Some(i);
            }
            i = i + 1;
        }
        None
    }



    /// The death-state report. A sender without a player record or already
    /// demonized is disconnected, as is a wire revival count above two or
    /// below the current one. Otherwise the player's death flag and revival
    /// count are stored, the revival in progress is reset, and the change is
    /// broadcast together with a revival-status clear. A first death arms
    /// the thirty-second death timer; a second death, or a first one inside
    /// the last two minutes, resolves at once: demonized exactly when fewer
    /// than half of the survivors already are, with the matching timer-end
    /// flag sent to the dying peer.
    #[verifier::rlimit(60)]
    #[verifier::spinoff_prover]
    fn handle_death_state(
        &mut self,
        core: &mut ServerCore,
        peer_idx: usize,
        packet: &mut Packet,
        out: &mut Vec<Output>,
    ) -> (r: Result<(), &'static str>)
        requires
            old(self).wf(),
            peer_idx < old(core).peers@.len(),
            old(packet).pos() == 2,
        ensures
            final(packet).bytes() == old(packet).bytes(),
            final(self).wf(),
            final(core).peers@.len() == old(core).peers@.len(),
            forall|j: int|
                0 <= j < old(core).peers@.len() && j != peer_idx ==> final(core).peers@[j] == old(
                    core,
                ).peers@[j],
            final(core).peers@[peer_idx as int].id == old(core).peers@[peer_idx as int].id,
            r is Err ==> final(core).peers@[peer_idx as int].player == old(
                core,
            ).peers@[peer_idx as int].player,
            (old(core).peers@[peer_idx as int].player matches Some(a)
                ==> (final(core).peers@[peer_idx as int].player matches Some(b2)
                && b2.revival_times >= a.revival_times
                && (a.revival_times <= 2 ==> b2.revival_times <= 2))),
            (old(core).peers@[peer_idx as int].player is None
                ==> final(core).peers@[peer_idx as int].player is None),
            ({
                let me = old(core).peers@[peer_idx as int];
                me.player is None ==> any_disconnect(final(out)@, me.id)
                    && final(core).peers@[peer_idx as int].player == me.player
            }),
            ({
                let me = old(core).peers@[peer_idx as int];
                me.player matches Some(a) ==> (a.revival_times >= 2 ==> any_disconnect(
                    final(out)@,
                    me.id,
                ) && final(core).peers@[peer_idx as int].player == me.player)
            }),
            ({
                let b = old(packet).bytes();
                let me = old(core).peers@[peer_idx as int];
                me.player matches Some(a) ==> ((a.revival_times < 2 && b.len() > 3 && (b[3] > 2
                    || b[3] < a.revival_times)) ==> any_disconnect(final(out)@, me.id)
                    && final(core).peers@[peer_idx as int].player == me.player)
            }),
            ({
                let b = old(packet).bytes();
                let me = old(core).peers@[peer_idx as int];
                me.player matches Some(a) ==> ((a.revival_times < 2 && b.len() > 3 && b[3] <= 2
                    && b[3] >= a.revival_times) ==> {
                    let dead = b[2] != 0;
                    let rt = b[3];
                    let resolves = dead && (rt == 1 || (rt == 0 && old(self).timer.spec_get(
                        GameTimer::Time,
                    ) <= 7200));
                    let demonize = resolves && spec_demon_count(old(core).peers@)
                        < spec_survivor_count(old(core).peers@) / 2;
                    &&& r is Ok
                    &&& (final(core).peers@[peer_idx as int].player matches Some(b2) && {
                        &&& b2.dead == dead
                        &&& b2.revival_times == (if demonize {
                            2u8
                        } else {
                            rt
                        })
                        &&& b2.revival.progress == 0
                        &&& b2.revival.initiators@ == Seq::<u16>::empty()
                        &&& (dead && rt == 0 ==> b2.death_timer == 1800)
                        &&& (!dead ==> b2.death_timer == -1)
                    })
                    &&& multicast_real_after(
                        final(out)@,
                        old(out)@.len() as int,
                        death_state_bytes(me.id, dead, rt),
                    )
                    &&& multicast_after(
                        final(out)@,
                        old(out)@.len() as int,
                        revival_status_bytes(false, me.id),
                    )
                    &&& (resolves ==> sent_to(
                        final(out)@,
                        old(out)@.len() as int,
                        me.id,
                        death_end_bytes(demonize),
                    ))
                })
            }),
    {
        let id = core.peers[peer_idx].id;
        let peer_count = count_survivors(core);
        let demon_count = count_demons(core);
        let mut has_player = false;
        let mut rt_now: u8 = 0;
        match &core.peers[peer_idx].player {
            Some(pl) => {
                has_player = true;
                rt_now = pl.revival_times;
            },
            None => {},
        }
        if !has_player {
            push_disconnect(out, id, "Not in the match.");
            return Ok(());
        }
        if rt_now >= 2 {
            push_disconnect(out, id, "Already demonized.");
            return Ok(());
        }
        let dead = packet.ru8()? != 0;
        let revival_times = packet.ru8()?;
        if revival_times > 2 || revival_times < rt_now {
            push_disconnect(out, id, "Invalid revival count.");
            return Ok(());
        }
        match &mut core.peers[peer_idx].player {
            Some(pl) => {
                pl.dead = dead;
                pl.revival_times = revival_times;
                pl.revival = PlayerRevival { progress: 0, initiators: Vec::new() };
            },
            None => {},
        }
        let mut p = Packet::new(PacketType::ServerPlayerDeathState);
        p.wu16(id);
        p.wu8(if dead {
            1
        } else {
            0
        });
        p.wu8(revival_times);
        proof {
            assert(p.bytes() =~= death_state_bytes(id, dead, revival_times));
        }
        out.push(Output::MulticastReal { packet: p });
        proof {
            assert(is_multicast_real(
                out@[out@.len() - 1],
                death_state_bytes(id, dead, revival_times),
            ));
            assert(multicast_real_after(
                out@,
                old(out)@.len() as int,
                death_state_bytes(id, dead, revival_times),
            ));
        }
        let ghost out_s1 = out@;
        let mut p = Packet::new(PacketType::ServerRevivalStatus);
        p.wu8(0);
        p.wu16(id);
        proof {
            assert(p.bytes() =~= revival_status_bytes(false, id));
        }
        out.push(Output::Multicast { packet: p });
        proof {
            assert(is_multicast(out@[out@.len() - 1], revival_status_bytes(false, id)));
            assert(multicast_after(
                out@,
                old(out)@.len() as int,
                revival_status_bytes(false, id),
            ));
        }
        let ghost out_s2 = out@;
        if dead {
            if revival_times == 0 {
                match &mut core.peers[peer_idx].player {
                    Some(pl) => {
                        pl.death_timer = 1800;
                    },
                    None => {},
                }
            }
            let near_end = self.timer.get(GameTimer::Time) <= 7200;
            if revival_times == 1 || (revival_times == 0 && near_end) {
                let mut p = Packet::new(PacketType::ServerGameDeathtimerEnd);
                let demonize = demon_count < peer_count / 2;
                if demonize {
                    match &mut core.peers[peer_idx].player {
                        Some(pl) => {
                            pl.revival_times = 2;
                        },
                        None => {},
                    }
                    p.wu8(1);
                } else {
                    p.wu8(0);
                }
                proof {
                    assert(p.bytes() =~= death_end_bytes(demonize));
                }
                out.push(Output::Send { peer: id, packet: p });
                proof {
                    assert(is_send(out@[out@.len() - 1], id, death_end_bytes(demonize)));
                    assert(sent_to(out@, old(out)@.len() as int, id, death_end_bytes(demonize)));
                }
            }
        } else {
            match &mut core.peers[peer_idx].player {
                Some(pl) => {
                    pl.death_timer = -1;
                },
                None => {},
            }
        }
        let ghost out_snap = out@;
        self.check_state(core, out);
        proof {
            lemma_outputs_grow(out_s1, out@);
            lemma_outputs_grow(out_s2, out@);
            lemma_outputs_grow(out_snap, out@);
            let b = old(packet).bytes();
            assert(dead == (b[2] != 0));
            assert(revival_times == b[3]);
            let resolves = dead && (revival_times == 1 || (revival_times == 0 && old(
                self,
            ).timer.spec_get(GameTimer::Time) <= 7200));
            let demonize = resolves && spec_demon_count(old(core).peers@) < spec_survivor_count(
                old(core).peers@,
            ) / 2;
            assert(core.peers@[peer_idx as int].player matches Some(b2) && {
                &&& b2.dead == dead
                &&& b2.revival_times == (if demonize {
                    2u8
                } else {
                    revival_times
                })
                &&& b2.revival.progress == 0
                &&& b2.revival.initiators@ == Seq::<u16>::empty()
                &&& (dead && revival_times == 0 ==> b2.death_timer == 1800)
                &&& (!dead ==> b2.death_timer == -1)
            });
            let me = old(core).peers@[peer_idx as int];
            assert(me.id == id);
            assert(({
                let dead2 = b[2] != 0;
                let rt2 = b[3];
                let resolves2 = dead2 && (rt2 == 1 || (rt2 == 0 && old(self).timer.spec_get(
                    GameTimer::Time,
                ) <= 7200));
                let demonize2 = resolves2 && spec_demon_count(old(core).peers@)
                    < spec_survivor_count(old(core).peers@) / 2;
                &&& (core.peers@[peer_idx as int].player matches Some(b2) && {
                    &&& b2.dead == dead2
                    &&& b2.revival_times == (if demonize2 {
                        2u8
                    } else {
                        rt2
                    })
                    &&& b2.revival.progress == 0
                    &&& b2.revival.initiators@ == Seq::<u16>::empty()
                    &&& (dead2 && rt2 == 0 ==> b2.death_timer == 1800)
                    &&& (!dead2 ==> b2.death_timer == -1)
                })
                &&& multicast_real_after(
                    out@,
                    old(out)@.len() as int,
                    death_state_bytes(me.id, dead2, rt2),
                )
                &&& multicast_after(
                    out@,
                    old(out)@.len() as int,
                    revival_status_bytes(false, me.id),
                )
                &&& (resolves2 ==> sent_to(
                    out@,
                    old(out)@.len() as int,
                    me.id,
                    death_end_bytes(demonize2),
                ))
            }));
        }
        Ok(())
    }

    /// The Tails-projectile request: only a Tails survivor with a cold
    /// cooldown and no live projectile may fire; then one projectile is
    /// spawned and announced and the cooldown is set to six hundred frames;
    /// any failed check disconnects the sender instead.
    fn handle_tproj(
        &mut self,
        core: &ServerCore,
        peer_idx: usize,
        packet: &mut Packet,
        out: &mut Vec<Output>,
    ) -> (r: Result<(), &'static str>)
        requires
            old(self).wf(),
            peer_idx < core.peers@.len(),
            old(packet).pos() == 2,
        ensures
            final(packet).bytes() == old(packet).bytes(),
            final(self).wf(),
            final(out)@.len() >= old(out)@.len(),
            forall|k: int| 0 <= k < old(out)@.len() ==> final(out)@[k] == old(out)@[k],
            ({
                let b = old(packet).bytes();
                let me = core.peers@[peer_idx as int];
                let tails = me.player matches Some(pl) && pl.ch1 == Some(
                    SurvivorCharacter::Tails,
                );
                let clear = tails && old(self).timer.spec_get(GameTimer::TailsProjectile) == 0
                    && spec_kind_count(old(self).entities@, EntityKind::TailsProjectile) == 0;
                &&& (!clear ==> any_disconnect(final(out)@, me.id))
                &&& ((clear && b.len() >= 10 && old(self).entity_id < 0xFFFF) ==> {
                    &&& r is Ok
                    &&& final(self).timer.spec_get(GameTimer::TailsProjectile) == 600
                    &&& tcp_type_after(
                        final(out)@,
                        old(out)@.len() as int,
                        PacketType::ServerTprojectileState.spec_code(),
                    )
                })
            }),
    {
        let id = core.peers[peer_idx].id;
        let mut is_tails = false;
        match &core.peers[peer_idx].player {
            Some(pl) => {
                is_tails = pl.ch1 == Some(SurvivorCharacter::Tails);
            },
            None => {},
        }
        if !is_tails {
            push_disconnect(out, id, "Role mismatch.");
            return Ok(());
        }
        if self.timer.get(GameTimer::TailsProjectile) != 0 {
            push_disconnect(out, id, "Projectile cooldown is not zero.");
            return Ok(());
        }
        if self.count_kind(EntityKind::TailsProjectile) != 0 {
            push_disconnect(out, id, "Projectile abusing.");
            return Ok(());
        }
        let x = packet.ru16()?;
        let y = packet.ru16()?;
        let dir = packet.ri8()?;
        let dmg = packet.ru8()?;
        let exe = packet.ru8()? != 0;
        let charge = packet.ru8()?;
        let rid = self.spawn(
            Entity::TailsProjectile {
                owner: id,
                x: x as i32,
                y: y as i32,
                dir,
                dmg,
                exe,
                charge,
                timer: 300,
            },
            out,
        );
        proof {
            if rid != 0 {
                assert(out@[out@.len() - 1].is_tcp_packet_of_type(
                    PacketType::ServerTprojectileState.spec_code(),
                ));
                assert(tcp_type_after(
                    out@,
                    old(out)@.len() as int,
                    PacketType::ServerTprojectileState.spec_code(),
                ));
            }
        }
        self.timer.set(GameTimer::TailsProjectile, 600);
        Ok(())
    }


    /// The escape request: only while the big ring is open, and only for a
    /// live, unhandicapped, undemonized survivor; then the escape is stored
    /// and announced and the end conditions re-checked; otherwise the
    /// sender is disconnected.
    fn handle_escape(
        &mut self,
        core: &mut ServerCore,
        peer_idx: usize,
        packet: &mut Packet,
        out: &mut Vec<Output>,
    ) -> (r: Result<(), &'static str>)
        requires
            old(self).wf(),
            peer_idx < old(core).peers@.len(),
            old(packet).pos() == 2,
        ensures
            final(packet).bytes() == old(packet).bytes(),
            final(self).wf(),
            final(out)@.len() >= old(out)@.len(),
            forall|k: int| 0 <= k < old(out)@.len() ==> final(out)@[k] == old(out)@[k],
            final(core).peers@.len() == old(core).peers@.len(),
            forall|j: int|
                0 <= j < old(core).peers@.len() && j != peer_idx ==> final(core).peers@[j] == old(
                    core,
                ).peers@[j],
            ({
                let me = old(core).peers@[peer_idx as int];
                me.player matches Some(pl) ==> {
                    let allowed = old(self).timer.spec_get(GameTimer::Time) <= old(
                        self,
                    ).big_ring_time && !pl.exe && !pl.dead && !pl.red_ring && pl.revival_times
                        < 2;
                    &&& (allowed ==> ((final(core).peers@[peer_idx as int].player matches
                    Some(pl2) && pl2.escaped && pl2.revival_times == pl.revival_times)
                        && multicast_real_after(
                        final(out)@,
                        old(out)@.len() as int,
                        escaped_bytes(me.id),
                    )))
                    &&& (!allowed ==> any_disconnect(final(out)@, me.id)
                        && final(core).peers@[peer_idx as int].player == me.player)
                }
            }),
            ({
                let me = old(core).peers@[peer_idx as int];
                me.player is None ==> any_disconnect(final(out)@, me.id)
                    && final(core).peers@[peer_idx as int].player == me.player
            }),
    {
        let id = core.peers[peer_idx].id;
                let mut ok = false;
                match &core.peers[peer_idx].player {
                    Some(pl) => {
                        ok = !pl.exe && !pl.dead && !pl.red_ring && pl.revival_times < 2;
                    },
                    None => {},
                }
                if self.timer.get(GameTimer::Time) > self.big_ring_time {
                    push_disconnect(out, id, "The big ring is not open yet.");
                    return Ok(());
                }
                if !ok {
                    push_disconnect(out, id, "Cannot escape in this state.");
                    return Ok(());
                }
                match &mut core.peers[peer_idx].player {
                    Some(pl) => {
                        pl.escaped = true;
                    },
                    None => {},
                }
                let mut p = Packet::new(PacketType::ServerGamePlayerEscaped);
                p.wu16(id);
                proof {
                    assert(p.bytes() =~= escaped_bytes(id));
                }
                out.push(Output::MulticastReal { packet: p });
                proof {
                    assert(is_multicast_real(out@[out@.len() - 1], escaped_bytes(id)));
                }
                self.check_state(core, out);
                    Ok(())
    }

    /// A revival contribution: the target must exist, be active, and not be
    /// demonized; the first contribution turns the revival status on, each
    /// adds its share, and at full progress the target is revived, the
    /// contributors credited, and the status cleared. Nobody's death count
    /// or role changes here.
    fn handle_revival(
        &mut self,
        core: &mut ServerCore,
        peer_idx: usize,
        packet: &mut Packet,
        out: &mut Vec<Output>,
    ) -> (r: Result<(), &'static str>)
        requires
            old(self).wf(),
            peer_idx < old(core).peers@.len(),
            old(packet).pos() == 2,
        ensures
            final(packet).bytes() == old(packet).bytes(),
            final(self).wf(),
            final(out)@.len() >= old(out)@.len(),
            forall|k: int| 0 <= k < old(out)@.len() ==> final(out)@[k] == old(out)@[k],
            final(core).peers@.len() == old(core).peers@.len(),
            forall|j: int|
                0 <= j < old(core).peers@.len() ==> ({
                    let pre = old(core).peers@[j];
                    let post = #[trigger] final(core).peers@[j];
                    &&& post.id == pre.id
                    &&& post.pending == pre.pending
                    &&& post.in_queue == pre.in_queue
                    &&& (pre.player matches Some(a) ==> (post.player matches Some(b) && b.exe
                        == a.exe && b.dead == a.dead && b.escaped == a.escaped
                        && b.revival_times == a.revival_times && b.ch1 == a.ch1 && b.ch2
                        == a.ch2))
                    &&& (pre.player is None ==> post.player is None)
                }),
    {
        let id = core.peers[peer_idx].id;
                let pid = packet.ru16()?;
                let rings = packet.ru8()?;
                let target = core.find_peer(pid);
                match target {
                    Some(ti) => {
                        let mut eligible = false;
                        let mut progress: u32 = 0;
                        if !core.peers[ti].pending && !core.peers[ti].in_queue {
                            match &core.peers[ti].player {
                                Some(pl) => {
                                    if pl.revival_times < 2 {
                                        eligible = true;
                                        progress = pl.revival.progress;
                                    }
                                },
                                None => {},
                            }
                        }
                        if eligible {
                            if progress == 0 {
                                let mut p = Packet::new(PacketType::ServerRevivalStatus);
                                p.wu8(1);
                                p.wu16(pid);
                                out.push(Output::MulticastReal { packet: p });
                            }
                            let add: u32 = 15 + 4 * (rings as u32);
                            let progress = if progress < 1000000 {
                                progress + add
                            } else {
                                progress
                            };
                            let mut seen = false;
                            let mut contributors: Vec<u16> = Vec::new();
                            match &core.peers[ti].player {
                                Some(pl) => {
                                    let mut k: usize = 0;
                                    while k < pl.revival.initiators.len()
                                        invariant
                                            k <= pl.revival.initiators@.len(),
                                        decreases pl.revival.initiators@.len() - k,
                                    {
                                        if pl.revival.initiators[k] == id {
                                            seen = true;
                                        }
                                        k = k + 1;
                                    }
                                    if progress >= 1000 {
                                        let mut k: usize = 0;
                                        while k < pl.revival.initiators.len()
                                            invariant
                                                k <= pl.revival.initiators@.len(),
                                            decreases pl.revival.initiators@.len() - k,
                                        {
                                            contributors.push(pl.revival.initiators[k]);
                                            k = k + 1;
                                        }
                                    }
                                },
                                None => {},
                            }
                            if !seen && progress >= 1000 {
                                contributors.push(id);
                            }
                            match &mut core.peers[ti].player {
                                Some(pl) => {
                                    if !seen {
                                        pl.revival.initiators.push(id);
                                    }
                                    if progress >= 1000 {
                                        pl.revival = PlayerRevival {
                                            progress: 0,
                                            initiators: Vec::new(),
                                        };
                                    } else {
                                        pl.revival.progress = progress;
                                    }
                                },
                                None => {},
                            }
                            if progress >= 1000 {
                                let mut p = Packet::new(PacketType::ServerRevivalStatus);
                                p.wu8(0);
                                p.wu16(pid);
                                out.push(Output::MulticastReal { packet: p });
                                let p2 = Packet::new(PacketType::ServerRevivalRevived);
                                out.push(Output::Send { peer: pid, packet: p2 });
                                let mut k: usize = 0;
                                while k < contributors.len()
                                    invariant
                                        k <= contributors@.len(),
                                        out@.len() >= old(out)@.len(),
                                        forall|m: int|
                                            0 <= m < old(out)@.len() ==> out@[m] == old(out)@[m],
                                        core.peers@.len() == old(core).peers@.len(),
                                    decreases contributors@.len() - k,
                                {
                                    let p3 = Packet::new(PacketType::ServerRevivalRingsub);
                                    out.push(Output::Send { peer: contributors[k], packet: p3 });
                                    k = k + 1;
                                }
                            } else {
                                let mut p = Packet::new(PacketType::ServerRevivalProgress);
                                p.wu16(pid);
                                p.wu16(#[verifier::truncate] (progress as u16));
                                out.push(Output::UdpMulticast { packet: p });
                            }
                        }
                    },
                    None => {},
                }
                    Ok(())
    }

    /// The tracker request: only an Eggman survivor with a cold tracker
    /// cooldown may place one; then a tracker is spawned and announced and
    /// the cooldown set to six hundred frames; otherwise the sender is
    /// disconnected.
    fn handle_etracker(
        &mut self,
        core: &ServerCore,
        peer_idx: usize,
        packet: &mut Packet,
        out: &mut Vec<Output>,
    ) -> (r: Result<(), &'static str>)
        requires
            old(self).wf(),
            peer_idx < core.peers@.len(),
            old(packet).pos() == 2,
        ensures
            final(packet).bytes() == old(packet).bytes(),
            final(self).wf(),
            final(out)@.len() >= old(out)@.len(),
            forall|k: int| 0 <= k < old(out)@.len() ==> final(out)@[k] == old(out)@[k],
            ({
                let b = old(packet).bytes();
                let me = core.peers@[peer_idx as int];
                let egg = me.player matches Some(pl) && pl.ch1 == Some(SurvivorCharacter::Eggman);
                let clear = egg && old(self).timer.spec_get(GameTimer::EggmanTracker) == 0;
                &&& (!clear ==> any_disconnect(final(out)@, me.id))
                &&& ((clear && b.len() >= 6 && old(self).entity_id < 0xFFFF) ==> {
                    &&& r is Ok
                    &&& final(self).timer.spec_get(GameTimer::EggmanTracker) == 600
                    &&& tcp_type_after(
                        final(out)@,
                        old(out)@.len() as int,
                        PacketType::ServerEtrackerState.spec_code(),
                    )
                })
            }),
    {
        let id = core.peers[peer_idx].id;
                let mut is_eggman = false;
                match &core.peers[peer_idx].player {
                    Some(pl) => {
                        is_eggman = pl.ch1 == Some(SurvivorCharacter::Eggman);
                    },
                    None => {},
                }
                if !is_eggman {
                    push_disconnect(out, id, "Role mismatch.");
                    return Ok(());
                }
                if self.timer.get(GameTimer::EggmanTracker) != 0 {
                    push_disconnect(out, id, "Tracker cooldown is not zero.");
                    return Ok(());
                }
                let x = packet.ru16()?;
                let y = packet.ru16()?;
                let rid = self.spawn(Entity::EggmanTracker { x, y, activated_by: 0 }, out);
                proof {
                    if rid != 0 {
                        assert(out@[out@.len() - 1].is_tcp_packet_of_type(
                            PacketType::ServerEtrackerState.spec_code(),
                        ));
                        assert(tcp_type_after(
                            out@,
                            old(out)@.len() as int,
                            PacketType::ServerEtrackerState.spec_code(),
                        ));
                    }
                }
                self.timer.set(GameTimer::EggmanTracker, 600);
                    Ok(())
    }

    /// A tracker was tripped: mark who tripped it and queue its
    /// destruction.
    fn handle_tracker_activated(
        &mut self,
        core: &ServerCore,
        peer_idx: usize,
        packet: &mut Packet,
        out: &mut Vec<Output>,
    ) -> (r: Result<(), &'static str>)
        requires
            old(self).wf(),
            peer_idx < core.peers@.len(),
            old(packet).pos() == 2,
        ensures
            final(packet).bytes() == old(packet).bytes(),
            final(self).wf(),
            final(out)@.len() >= old(out)@.len(),
            forall|k: int| 0 <= k < old(out)@.len() ==> final(out)@[k] == old(out)@[k],
    {
        let id = core.peers[peer_idx].id;
                let eid = packet.ru16()?;
                match self.find_entity(EntityKind::EggmanTracker, eid) {
                    Some(i) => {
                        let ghost before = self.entities@;
                        match &mut self.entities[i].1 {
                            Entity::EggmanTracker { activated_by, .. } => {
                                *activated_by = id;
                            },
                            _ => {},
                        }
                        proof {
                            assert(self.entities@[i as int].1.wf());
                            assert(forall|j: int|
                                0 <= j < before.len() && j != i ==> self.entities@[j] == before[j]);
                        }
                        self.queue_destroy(eid);
                    },
                    None => {},
                }
                    Ok(())
    }

    /// The Cream ring drop: only a Cream survivor with a cold ring cooldown
    /// may drop rings; red rings require demonization, yellow ones a live,
    /// undemonized player; then the rings are spawned and announced and the
    /// cooldown set to six hundred frames; otherwise the sender is
    /// disconnected.
    fn handle_cream(
        &mut self,
        core: &ServerCore,
        peer_idx: usize,
        packet: &mut Packet,
        out: &mut Vec<Output>,
    ) -> (r: Result<(), &'static str>)
        requires
            old(self).wf(),
            peer_idx < core.peers@.len(),
            old(packet).pos() == 2,
        ensures
            final(packet).bytes() == old(packet).bytes(),
            final(self).wf(),
            final(out)@.len() >= old(out)@.len(),
            forall|k: int| 0 <= k < old(out)@.len() ==> final(out)@[k] == old(out)@[k],
            ({
                let b = old(packet).bytes();
                let me = core.peers@[peer_idx as int];
                me.player matches Some(pl) ==> {
                    let cream = pl.ch1 == Some(SurvivorCharacter::Cream);
                    let cold = old(self).timer.spec_get(GameTimer::CreamRing) == 0;
                    &&& (!(cream && cold) ==> any_disconnect(final(out)@, me.id))
                    &&& ((cream && cold && b.len() >= 7) ==> {
                        let red = b[6] != 0;
                        let permitted = if red {
                            pl.revival_times >= 2
                        } else {
                            pl.revival_times < 2 && !pl.dead
                        };
                        &&& (!permitted ==> any_disconnect(final(out)@, me.id))
                        &&& ((permitted && old(self).entity_id < 0xFFFD) ==> {
                            &&& r is Ok
                            &&& final(self).timer.spec_get(GameTimer::CreamRing) == 600
                            &&& tcp_type_after(
                                final(out)@,
                                old(out)@.len() as int,
                                PacketType::ServerRingState.spec_code(),
                            )
                        })
                    })
                }
            }),
            ({
                let me = core.peers@[peer_idx as int];
                me.player is None ==> any_disconnect(final(out)@, me.id)
            }),
    {
        let id = core.peers[peer_idx].id;
                let mut is_cream = false;
                let mut rt: u8 = 0;
                let mut dead = false;
                match &core.peers[peer_idx].player {
                    Some(pl) => {
                        is_cream = pl.ch1 == Some(SurvivorCharacter::Cream);
                        rt = pl.revival_times;
                        dead = pl.dead;
                    },
                    None => {},
                }
                if !is_cream {
                    push_disconnect(out, id, "Role mismatch.");
                    return Ok(());
                }
                if self.timer.get(GameTimer::CreamRing) != 0 {
                    push_disconnect(out, id, "Ring cooldown is not zero.");
                    return Ok(());
                }
                let x = packet.ru16()?;
                let y = packet.ru16()?;
                let red = packet.ru8()? != 0;
                if red {
                    if rt < 2 {
                        push_disconnect(out, id, "Red rings require demonization.");
                        return Ok(());
                    }
                } else {
                    if rt >= 2 || dead {
                        push_disconnect(out, id, "Cannot spawn rings in this state.");
                        return Ok(());
                    }
                }
                if red {
                    let east = clamp_i16(x as i32 + 26) - 1;
                    let west = clamp_i16(x as i32 - 26) - 1;
                    let yy = clamp_i16(y as i32);
                    let rid = self.spawn(Entity::CreamRing { red: true, x: east, y: yy }, out);
                    proof {
                        if rid != 0 {
                            assert(out@[out@.len() - 1].is_tcp_packet_of_type(
                                PacketType::ServerRingState.spec_code(),
                            ));
                            assert(tcp_type_after(
                                out@,
                                old(out)@.len() as int,
                                PacketType::ServerRingState.spec_code(),
                            ));
                        }
                    }
                    let ghost out_c1 = out@;
                    let _ = self.spawn(Entity::CreamRing { red: true, x: west, y: yy }, out);
                    proof {
                        lemma_outputs_grow(out_c1, out@);
                    }
                } else {
                    let east = clamp_i16(x as i32 + 26);
                    let west = clamp_i16(x as i32 - 26);
                    let xx = clamp_i16(x as i32);
                    let yy = clamp_i16(y as i32);
                    let south = clamp_i16(y as i32 - 26);
                    let rid = self.spawn(Entity::CreamRing { red: false, x: east, y: yy }, out);
                    proof {
                        if rid != 0 {
                            assert(out@[out@.len() - 1].is_tcp_packet_of_type(
                                PacketType::ServerRingState.spec_code(),
                            ));
                            assert(tcp_type_after(
                                out@,
                                old(out)@.len() as int,
                                PacketType::ServerRingState.spec_code(),
                            ));
                        }
                    }
                    let ghost out_c1 = out@;
                    let _ = self.spawn(Entity::CreamRing { red: false, x: xx, y: south }, out);
                    let _ = self.spawn(Entity::CreamRing { red: false, x: west, y: yy }, out);
                    proof {
                        lemma_outputs_grow(out_c1, out@);
                    }
                }
                self.timer.set(GameTimer::CreamRing, 600);
                    Ok(())
    }

    /// A collected ring: the matching ring entity (same slot and id) frees
    /// its slot, is queued for destruction, and the collector is told its
    /// colour; slot 255 collects a Cream ring by id instead.
    fn handle_ring_collected(
        &mut self,
        core: &ServerCore,
        peer_idx: usize,
        packet: &mut Packet,
        out: &mut Vec<Output>,
    ) -> (r: Result<(), &'static str>)
        requires
            old(self).wf(),
            peer_idx < core.peers@.len(),
            old(packet).pos() == 2,
        ensures
            final(packet).bytes() == old(packet).bytes(),
            final(self).wf(),
            final(out)@.len() >= old(out)@.len(),
            forall|k: int| 0 <= k < old(out)@.len() ==> final(out)@[k] == old(out)@[k],
            ({
                let b = old(packet).bytes();
                let me = core.peers@[peer_idx as int];
                b.len() >= 5 ==> {
                    let eid = spec_u16_from_le_bytes(b.subrange(3, 5));
                    forall|i: int|
                        0 <= i < old(self).entities@.len() ==> ((#[trigger] old(
                            self,
                        ).entities@[i]).1 matches Entity::Ring { red, slot } ==> (old(
                            self,
                        ).entities@[i].0 == eid && slot == b[2] as usize ==> {
                            &&& final(self).destroy_queue@ == old(self).destroy_queue@.push(eid)
                            &&& (slot < final(self).rings@.len()
                                ==> !final(self).rings@[slot as int])
                            &&& sent_to(
                                final(out)@,
                                old(out)@.len() as int,
                                me.id,
                                ring_collected_bytes(red),
                            )
                        }))
                }
            }),
    {
        let id = core.peers[peer_idx].id;
                let rid = packet.ru8()?;
                let eid = packet.ru16()?;
                let mut i: usize = 0;
                let mut found: Option<usize> = None;
                while i < self.entities.len()
                    invariant
                        i <= self.entities@.len(),
                        found matches Some(fi) ==> fi < self.entities@.len()
                            && self.entities@[fi as int].0 == eid && (self.entities@[fi as int].1
                        matches Entity::Ring { slot, .. } && slot == rid as usize),
                        found is None ==> forall|m: int|
                            0 <= m < i ==> !((#[trigger] self.entities@[m]).1 matches
                            Entity::Ring { slot, .. } && slot == rid as usize
                                && self.entities@[m].0 == eid),
                    decreases self.entities@.len() - i,
                {
                    let mut hit = false;
                    match &self.entities[i].1 {
                        Entity::Ring { slot, .. } => {
                            if *slot == rid as usize && self.entities[i].0 == eid {
                                hit = true;
                            }
                        },
                        _ => {},
                    }
                    if hit && found.is_none() {
                        found = Some(i);
                    }
                    i = i + 1;
                }
                match found {
                    Some(fi) => {
                        proof {
                            assert forall|j: int|
                                0 <= j < self.entities@.len() && self.entities@[j].0 == eid
                                    && self.entities@[j].1.spec_kind() == EntityKind::Ring
                                    implies j == fi by {
                                if j != fi {
                                    assert(self.entities@[j].0
                                        != self.entities@[fi as int].0);
                                }
                            }
                        }
                        let mut red = false;
                        let mut slot: usize = 0;
                        match &self.entities[fi].1 {
                            Entity::Ring { red: r0, slot: s0 } => {
                                red = *r0;
                                slot = *s0;
                            },
                            _ => {},
                        }
                        let mut p = Packet::new(PacketType::ServerRingCollected);
                        p.wu8(if red {
                            1
                        } else {
                            0
                        });
                        proof {
                            assert(p.bytes() =~= ring_collected_bytes(red));
                        }
                        out.push(Output::Send { peer: id, packet: p });
                        proof {
                            assert(is_send(
                                out@[out@.len() - 1],
                                id,
                                ring_collected_bytes(red),
                            ));
                            assert(sent_to(
                                out@,
                                old(out)@.len() as int,
                                id,
                                ring_collected_bytes(red),
                            ));
                        }
                        if slot < self.rings.len() {
                            self.rings.set(slot, false);
                        }
                        let deid = self.entities[fi].0;
                        self.queue_destroy(deid);
                    },
                    None => {},
                }
                if rid == 255 {
                    match self.find_entity(EntityKind::CreamRing, eid) {
                        Some(fi) => {
                            let mut red = false;
                            match &self.entities[fi].1 {
                                Entity::CreamRing { red: r0, .. } => {
                                    red = *r0;
                                },
                                _ => {},
                            }
                            let mut p = Packet::new(PacketType::ServerRingCollected);
                            p.wu8(if red {
                                1
                            } else {
                                0
                            });
                            out.push(Output::Send { peer: id, packet: p });
                            self.queue_destroy(eid);
                        },
                        None => {},
                    }
                }
                    Ok(())
    }

    /// The Exetior black-ring drop: only an Exetior killer with a cold
    /// cooldown; the ring is spawned quietly and announced with its
    /// position, and the cooldown set to six hundred frames; otherwise the
    /// sender is disconnected.
    fn handle_bring_spawn(
        &mut self,
        core: &ServerCore,
        peer_idx: usize,
        packet: &mut Packet,
        out: &mut Vec<Output>,
    ) -> (r: Result<(), &'static str>)
        requires
            old(self).wf(),
            peer_idx < core.peers@.len(),
            old(packet).pos() == 2,
        ensures
            final(packet).bytes() == old(packet).bytes(),
            final(self).wf(),
            final(out)@.len() >= old(out)@.len(),
            forall|k: int| 0 <= k < old(out)@.len() ==> final(out)@[k] == old(out)@[k],
            ({
                let b = old(packet).bytes();
                let me = core.peers@[peer_idx as int];
                let exetior = me.player matches Some(pl) && pl.ch2 == Some(ExeCharacter::Exetior);
                let clear = exetior && old(self).timer.spec_get(GameTimer::ExetiorRing) == 0;
                &&& (!clear ==> any_disconnect(final(out)@, me.id))
                &&& ((clear && b.len() >= 6) ==> {
                    &&& r is Ok
                    &&& final(self).timer.spec_get(GameTimer::ExetiorRing) == 600
                    &&& tcp_type_after(
                        final(out)@,
                        old(out)@.len() as int,
                        PacketType::ServerErectorBringSpawn.spec_code(),
                    )
                })
            }),
    {
        let id = core.peers[peer_idx].id;
                let mut is_exetior = false;
                match &core.peers[peer_idx].player {
                    Some(pl) => {
                        is_exetior = pl.ch2 == Some(ExeCharacter::Exetior);
                    },
                    None => {},
                }
                if !is_exetior {
                    push_disconnect(out, id, "Role mismatch.");
                    return Ok(());
                }
                if self.timer.get(GameTimer::ExetiorRing) != 0 {
                    push_disconnect(out, id, "Black ring cooldown is not zero.");
                    return Ok(());
                }
                let x = packet.ru16()?;
                let y = packet.ru16()?;
                let rid = self.spawn_quiet(Entity::BlackRing);
                let mut p = Packet::new(PacketType::ServerErectorBringSpawn);
                p.wu16(rid);
                p.wu16(x);
                p.wu16(y);
                out.push(Output::MulticastReal { packet: p });
                proof {
                    assert(out@[out@.len() - 1].is_tcp_packet_of_type(
                        PacketType::ServerErectorBringSpawn.spec_code(),
                    ));
                    assert(tcp_type_after(
                        out@,
                        old(out)@.len() as int,
                        PacketType::ServerErectorBringSpawn.spec_code(),
                    ));
                }
                self.timer.set(GameTimer::ExetiorRing, 600);
                    Ok(())
    }

    /// A collected black ring: the matching ring is queued for destruction
    /// and the collector is answered.
    fn handle_bring_collected(
        &mut self,
        core: &ServerCore,
        peer_idx: usize,
        packet: &mut Packet,
        out: &mut Vec<Output>,
    ) -> (r: Result<(), &'static str>)
        requires
            old(self).wf(),
            peer_idx < core.peers@.len(),
            old(packet).pos() == 2,
        ensures
            final(packet).bytes() == old(packet).bytes(),
            final(self).wf(),
            final(out)@.len() >= old(out)@.len(),
            forall|k: int| 0 <= k < old(out)@.len() ==> final(out)@[k] == old(out)@[k],
            ({
                let b = old(packet).bytes();
                let me = core.peers@[peer_idx as int];
                b.len() >= 4 ==> {
                    let eid = spec_u16_from_le_bytes(b.subrange(2, 4));
                    forall|i: int|
                        0 <= i < old(self).entities@.len() ==> (((#[trigger] old(
                            self,
                        ).entities@[i]).1.spec_kind() == EntityKind::BlackRing && old(
                            self,
                        ).entities@[i].0 == eid) ==> final(self).destroy_queue@ == old(
                            self,
                        ).destroy_queue@.push(eid) && sent_to(
                            final(out)@,
                            old(out)@.len() as int,
                            me.id,
                            spec_packet(PacketType::ServerBringCollected),
                        ))
                }
            }),
    {
        let id = core.peers[peer_idx].id;
                let eid = packet.ru16()?;
                match self.find_entity(EntityKind::BlackRing, eid) {
                    Some(fi) => {
                        proof {
                            assert forall|j: int|
                                0 <= j < self.entities@.len() && self.entities@[j].0 == eid
                                    && self.entities@[j].1.spec_kind() == EntityKind::BlackRing
                                    implies j == fi by {
                                if j != fi {
                                    assert(self.entities@[j].0
                                        != self.entities@[fi as int].0);
                                }
                            }
                        }
                        let p = Packet::new(PacketType::ServerBringCollected);
                        proof {
                            assert(p.bytes() =~= spec_packet(PacketType::ServerBringCollected));
                        }
                        out.push(Output::Send { peer: id, packet: p });
                        proof {
                            assert(is_send(
                                out@[out@.len() - 1],
                                id,
                                spec_packet(PacketType::ServerBringCollected),
                            ));
                            assert(sent_to(
                                out@,
                                old(out)@.len() as int,
                                id,
                                spec_packet(PacketType::ServerBringCollected),
                            ));
                        }
                        self.queue_destroy(eid);
                    },
                    None => {},
                }
                    Ok(())
    }

    /// The Exeller clone drop: at most two clones may live at once; within
    /// that cap one is spawned and announced; at the cap the sender is
    /// disconnected.
    fn handle_clone(
        &mut self,
        core: &ServerCore,
        peer_idx: usize,
        packet: &mut Packet,
        out: &mut Vec<Output>,
    ) -> (r: Result<(), &'static str>)
        requires
            old(self).wf(),
            peer_idx < core.peers@.len(),
            old(packet).pos() == 2,
        ensures
            final(packet).bytes() == old(packet).bytes(),
            final(self).wf(),
            final(out)@.len() >= old(out)@.len(),
            forall|k: int| 0 <= k < old(out)@.len() ==> final(out)@[k] == old(out)@[k],
            ({
                let b = old(packet).bytes();
                let me = core.peers@[peer_idx as int];
                let room = spec_kind_count(old(self).entities@, EntityKind::ExellerClone) < 2;
                &&& (!room ==> any_disconnect(final(out)@, me.id))
                &&& ((room && b.len() >= 7 && old(self).entity_id < 0xFFFF) ==> {
                    &&& r is Ok
                    &&& tcp_type_after(
                        final(out)@,
                        old(out)@.len() as int,
                        PacketType::ServerExellercloneState.spec_code(),
                    )
                })
            }),
    {
        let id = core.peers[peer_idx].id;
                if self.count_kind(EntityKind::ExellerClone) >= 2 {
                    push_disconnect(out, id, "Too many clones.");
                    return Ok(());
                }
                let x = packet.ru16()?;
                let y = packet.ru16()?;
                let dir = packet.ri8()?;
                let rid = self.spawn(Entity::ExellerClone { owner_id: id, dir, x, y }, out);
                proof {
                    if rid != 0 {
                        assert(out@[out@.len() - 1].is_tcp_packet_of_type(
                            PacketType::ServerExellercloneState.spec_code(),
                        ));
                        assert(tcp_type_after(
                            out@,
                            old(out)@.len() as int,
                            PacketType::ServerExellercloneState.spec_code(),
                        ));
                    }
                }
                    Ok(())
    }

    /// A clone recall: the named clone is queued for destruction.
    fn handle_clone_teleport(
        &mut self,
        core: &ServerCore,
        peer_idx: usize,
        packet: &mut Packet,
        out: &mut Vec<Output>,
    ) -> (r: Result<(), &'static str>)
        requires
            old(self).wf(),
            peer_idx < core.peers@.len(),
            old(packet).pos() == 2,
        ensures
            final(packet).bytes() == old(packet).bytes(),
            final(self).wf(),
            final(out)@.len() >= old(out)@.len(),
            forall|k: int| 0 <= k < old(out)@.len() ==> final(out)@[k] == old(out)@[k],
    {
        let id = core.peers[peer_idx].id;
                let cid = packet.ru16()?;
                match self.find_entity(EntityKind::ExellerClone, cid) {
                    Some(_) => {
                        self.queue_destroy(cid);
                    },
                    None => {},
                }
                    Ok(())
    }
    /// One TCP packet mid-match: the privileged gameplay actions with their
    /// role, cooldown and count checks (any failure disconnects the
    /// sender), the death / escape / revival flow, and finally the map's
    /// own packet hook. A peer that is already demonized never has its
    /// `revival_times` lowered by any of it.
    #[verifier::rlimit(100)]
    #[verifier::spinoff_prover]
    pub fn got_tcp_packet(
        &mut self,
        core: &mut ServerCore,
        peer_idx: usize,
        packet: &mut Packet,
        out: &mut Vec<Output>,
    ) -> (r: Result<(), &'static str>)
        requires
            old(self).wf(),
            peer_idx < old(core).peers@.len(),
            old(packet).pos() == 0,
        ensures
            final(self).wf(),
            final(core).peers@.len() == old(core).peers@.len(),
            forall|i: int|
                0 <= i < old(core).peers@.len() ==> (old(core).peers@[i].player matches Some(a)
                    ==> ((#[trigger] final(core).peers@[i]).player matches Some(b)
                    && b.revival_times >= a.revival_times && (a.revival_times <= 2
                    ==> b.revival_times <= 2))),
            ({
                let b = old(packet).bytes();
                let me = old(core).peers@[peer_idx as int];
                (b.len() >= 2 && b[0] == 0 && b[1] == PacketType::ClientPlayerEscaped.spec_code())
                    ==> (me.player matches Some(pl) ==> {
                    let allowed = old(self).timer.spec_get(GameTimer::Time) <= old(
                        self,
                    ).big_ring_time && !pl.exe && !pl.dead && !pl.red_ring && pl.revival_times
                        < 2;
                    &&& (allowed ==> ((final(core).peers@[peer_idx as int].player matches
                    Some(pl2) && pl2.escaped) && multicast_real_after(
                        final(out)@,
                        old(out)@.len() as int,
                        escaped_bytes(me.id),
                    )))
                    &&& (!allowed ==> any_disconnect(final(out)@, me.id)
                        && final(core).peers@[peer_idx as int].player == me.player)
                })
            }),
            ({
                let b = old(packet).bytes();
                let me = old(core).peers@[peer_idx as int];
                (b.len() > 2 && b[0] == 0 && b[1] == PacketType::ClientTprojectile.spec_code())
                    ==> {
                    let tails = me.player matches Some(pl) && pl.ch1 == Some(
                        SurvivorCharacter::Tails,
                    );
                    let clear = tails && old(self).timer.spec_get(GameTimer::TailsProjectile)
                        == 0 && spec_kind_count(old(self).entities@, EntityKind::TailsProjectile)
                        == 0;
                    &&& (!clear ==> any_disconnect(final(out)@, me.id))
                    &&& ((clear && b.len() >= 10 && old(self).entity_id < 0xFFFF) ==> {
                        &&& r is Ok
                        &&& final(self).timer.spec_get(GameTimer::TailsProjectile) == 600
                        &&& tcp_type_after(
                            final(out)@,
                            old(out)@.len() as int,
                            PacketType::ServerTprojectileState.spec_code(),
                        )
                    })
                }
            }),
            ({
                let b = old(packet).bytes();
                let me = old(core).peers@[peer_idx as int];
                (b.len() > 2 && b[0] == 0 && b[1] == PacketType::ClientEtracker.spec_code())
                    ==> {
                    let egg = me.player matches Some(pl) && pl.ch1 == Some(
                        SurvivorCharacter::Eggman,
                    );
                    let clear = egg && old(self).timer.spec_get(GameTimer::EggmanTracker) == 0;
                    &&& (!clear ==> any_disconnect(final(out)@, me.id))
                    &&& ((clear && b.len() >= 6 && old(self).entity_id < 0xFFFF) ==> {
                        &&& r is Ok
                        &&& final(self).timer.spec_get(GameTimer::EggmanTracker) == 600
                        &&& tcp_type_after(
                            final(out)@,
                            old(out)@.len() as int,
                            PacketType::ServerEtrackerState.spec_code(),
                        )
                    })
                }
            }),
            ({
                let b = old(packet).bytes();
                let me = old(core).peers@[peer_idx as int];
                (b.len() > 2 && b[0] == 0 && b[1] == PacketType::ClientCreamSpawnRings.spec_code())
                    ==> (me.player matches Some(pl) ==> {
                    let cream = pl.ch1 == Some(SurvivorCharacter::Cream);
                    let cold = old(self).timer.spec_get(GameTimer::CreamRing) == 0;
                    &&& (!(cream && cold) ==> any_disconnect(final(out)@, me.id))
                    &&& ((cream && cold && b.len() >= 7) ==> {
                        let red = b[6] != 0;
                        let permitted = if red {
                            pl.revival_times >= 2
                        } else {
                            pl.revival_times < 2 && !pl.dead
                        };
                        &&& (!permitted ==> any_disconnect(final(out)@, me.id))
                        &&& ((permitted && old(self).entity_id < 0xFFFD) ==> {
                            &&& r is Ok
                            &&& final(self).timer.spec_get(GameTimer::CreamRing) == 600
                            &&& tcp_type_after(
                                final(out)@,
                                old(out)@.len() as int,
                                PacketType::ServerRingState.spec_code(),
                            )
                        })
                    })
                })
            }),
            ({
                let b = old(packet).bytes();
                let me = old(core).peers@[peer_idx as int];
                (b.len() > 2 && b[0] == 0 && b[1]
                    == PacketType::ClientExellerSpawnClone.spec_code()) ==> {
                    let room = spec_kind_count(old(self).entities@, EntityKind::ExellerClone) < 2;
                    &&& (!room ==> any_disconnect(final(out)@, me.id))
                    &&& ((room && b.len() >= 7 && old(self).entity_id < 0xFFFF) ==> {
                        &&& r is Ok
                        &&& tcp_type_after(
                            final(out)@,
                            old(out)@.len() as int,
                            PacketType::ServerExellercloneState.spec_code(),
                        )
                    })
                }
            }),
            ({
                let b = old(packet).bytes();
                let me = old(core).peers@[peer_idx as int];
                (b.len() > 2 && b[0] == 0 && b[1]
                    == PacketType::ClientPlayerDeathState.spec_code()) ==> (me.player matches
                Some(a) ==> {
                    &&& (a.revival_times >= 2 ==> any_disconnect(final(out)@, me.id)
                        && final(core).peers@[peer_idx as int].player == me.player)
                    &&& ((a.revival_times < 2 && b.len() > 3 && b[3] <= 2 && b[3]
                        >= a.revival_times) ==> {
                        let dead = b[2] != 0;
                        let rt = b[3];
                        let resolves = dead && (rt == 1 || (rt == 0 && old(self).timer.spec_get(
                            GameTimer::Time,
                        ) <= 7200));
                        let demonize = resolves && spec_demon_count(old(core).peers@)
                            < spec_survivor_count(old(core).peers@) / 2;
                        &&& r is Ok
                        &&& (final(core).peers@[peer_idx as int].player matches Some(b2) && {
                            &&& b2.dead == dead
                            &&& b2.revival_times == (if demonize {
                                2u8
                            } else {
                                rt
                            })
                            &&& b2.revival.progress == 0
                            &&& b2.revival.initiators@ == Seq::<u16>::empty()
                            &&& (dead && rt == 0 ==> b2.death_timer == 1800)
                            &&& (!dead ==> b2.death_timer == -1)
                        })
                        &&& multicast_real_after(
                            final(out)@,
                            old(out)@.len() as int,
                            death_state_bytes(me.id, dead, rt),
                        )
                        &&& multicast_after(
                            final(out)@,
                            old(out)@.len() as int,
                            revival_status_bytes(false, me.id),
                        )
                        &&& (resolves ==> sent_to(
                            final(out)@,
                            old(out)@.len() as int,
                            me.id,
                            death_end_bytes(demonize),
                        ))
                    })
                })
            }),
    {
        let passthrough = packet.ru8()? != 0;
        let tp = packet.rpk()?;
        if !core.peers[peer_idx].pending {
            core.peers[peer_idx].timer = 0;
        }
        let id = core.peers[peer_idx].id;
        match tp {
            PacketType::Identity => {
                if passthrough {
                    push_disconnect(out, id, "Unexpected passthrough flag.");
                    return Ok(());
                }
                let _ = handle_identity(core, peer_idx, packet, false, out)?;
            },
            PacketType::ClientPlayerDeathState => {
                proof {
                    lemma_counts_ignore_bookkeeping(old(core).peers@, core.peers@);
                }
                self.handle_death_state(core, peer_idx, packet, out)?;
            },
            PacketType::ClientPlayerEscaped => {
                self.handle_escape(core, peer_idx, packet, out)?;
            },
            PacketType::ClientRevivalProgress => {
                self.handle_revival(core, peer_idx, packet, out)?;
            },
            PacketType::ClientTprojectile => {
                if passthrough {
                    push_disconnect(out, id, "Unexpected passthrough flag.");
                    return Ok(());
                }
                self.handle_tproj(core, peer_idx, packet, out)?;
            },
            PacketType::ClientTprojectileHit => {
                let mut ids: Vec<u16> = Vec::new();
                let mut i: usize = 0;
                while i < self.entities.len()
                    invariant
                        i <= self.entities@.len(),
                        self.wf(),
                        forall|k: int|
                            0 <= k < ids@.len() ==> self.spawned@.contains(#[trigger] ids@[k]),
                    decreases self.entities@.len() - i,
                {
                    if self.entities[i].1.kind() == EntityKind::TailsProjectile {
                        let eid = self.entities[i].0;
                        ids.push(eid);
                    }
                    i = i + 1;
                }
                let mut k: usize = 0;
                while k < ids.len()
                    invariant
                        k <= ids@.len(),
                        self.wf(),
                        forall|m: int|
                            0 <= m < ids@.len() ==> self.spawned@.contains(#[trigger] ids@[m]),
                    decreases ids@.len() - k,
                {
                    self.queue_destroy(ids[k]);
                    k = k + 1;
                }
            },
            PacketType::ClientEtracker => {
                if passthrough {
                    push_disconnect(out, id, "Unexpected passthrough flag.");
                    return Ok(());
                }
                self.handle_etracker(core, peer_idx, packet, out)?;
            },
            PacketType::ClientEtrackerActivated => {
                if passthrough {
                    push_disconnect(out, id, "Unexpected passthrough flag.");
                    return Ok(());
                }
                self.handle_tracker_activated(core, peer_idx, packet, out)?;
            },
            PacketType::ClientCreamSpawnRings => {
                if passthrough {
                    push_disconnect(out, id, "Unexpected passthrough flag.");
                    return Ok(());
                }
                self.handle_cream(core, peer_idx, packet, out)?;
            },
            PacketType::ClientRingCollected => {
                if passthrough {
                    push_disconnect(out, id, "Unexpected passthrough flag.");
                    return Ok(());
                }
                self.handle_ring_collected(core, peer_idx, packet, out)?;
            },
            PacketType::ClientErectorBringSpawn => {
                if passthrough {
                    push_disconnect(out, id, "Unexpected passthrough flag.");
                    return Ok(());
                }
                self.handle_bring_spawn(core, peer_idx, packet, out)?;
            },
            PacketType::ClientBringCollected => {
                if passthrough {
                    push_disconnect(out, id, "Unexpected passthrough flag.");
                    return Ok(());
                }
                self.handle_bring_collected(core, peer_idx, packet, out)?;
            },
            PacketType::ClientErectorBalls => {
                if passthrough {
                    push_disconnect(out, id, "Unexpected passthrough flag.");
                    return Ok(());
                }
                let x = packet.ru32()?;
                let y = packet.ru32()?;
                let mut p = Packet::new(PacketType::ClientErectorBalls);
                p.wu32(x);
                p.wu32(y);
                out.push(Output::MulticastReal { packet: p });
            },
            PacketType::ClientExellerSpawnClone => {
                if passthrough {
                    push_disconnect(out, id, "Unexpected passthrough flag.");
                    return Ok(());
                }
                self.handle_clone(core, peer_idx, packet, out)?;
            },
            PacketType::ClientExellerTeleportClone => {
                if passthrough {
                    push_disconnect(out, id, "Unexpected passthrough flag.");
                    return Ok(());
                }
                self.handle_clone_teleport(core, peer_idx, packet, out)?;
            },
            _ => {
                if passthrough {
                    out.push(Output::MulticastRealExcept { except: id, packet: packet.duplicate() });
                }
            },
        }
        packet.rewind(0);
        let ghost out_tail = out@;
        let hook = self.map_got_tcp_packet(peer_idx, core, packet, out);
        match hook {
            Ok(()) => {
                self.entity_check_destroy(out);
                proof {
                    lemma_outputs_grow(out_tail, out@);
                }
                Ok(())
            },
            Err(e) => {
                proof {
                    lemma_outputs_grow(out_tail, out@);
                }
                Err(e)
            },
        }
    }

    /// The map's own packet hook: on Ravine Mist a slug hit frees its spawn
    /// point, destroys it, and pays out its ring bonus unless a projectile
    /// made the kill.
    fn map_got_tcp_packet(
        &mut self,
        peer_idx: usize,
        core: &ServerCore,
        packet: &mut Packet,
        out: &mut Vec<Output>,
    ) -> (r: Result<(), &'static str>)
        requires
            old(self).wf(),
            peer_idx < core.peers@.len(),
            old(packet).pos() == 0,
        ensures
            final(self).wf(),
            final(self).timer == old(self).timer,
            final(out)@.len() >= old(out)@.len(),
            forall|k: int| 0 <= k < old(out)@.len() ==> final(out)@[k] == old(out)@[k],
            ({
                let b = old(packet).bytes();
                (b.len() >= 2 && b[1] <= 118 && (b[1] == PacketType::ClientRmzslimeHit.spec_code()
                    ==> b.len() > 4)) ==> r is Ok
            }),
            ({
                let b = old(packet).bytes();
                (old(self).map == MapId::RavineMist && b.len() > 4 && b[1]
                    == PacketType::ClientRmzslimeHit.spec_code()) ==> {
                    let eid = spec_u16_from_le_bytes(b.subrange(2, 4));
                    forall|i: int|
                        0 <= i < old(self).entities@.len() ==> ((#[trigger] old(
                            self,
                        ).entities@[i]).1 matches Entity::Slug { slot, ring, .. } ==> old(
                            self,
                        ).entities@[i].0 == eid ==> {
                            &&& final(self).destroy_queue@ == old(self).destroy_queue@.push(eid)
                            &&& (slot < old(self).slugs@.len()
                                ==> !final(self).slugs@[slot as int].2)
                            &&& (b[4] == 0 && ring == SlugRing::Ring ==> sent_to(
                                final(out)@,
                                old(out)@.len() as int,
                                core.peers@[peer_idx as int].id,
                                ringbonus_bytes(false),
                            ))
                            &&& (b[4] == 0 && ring == SlugRing::RedRing ==> sent_to(
                                final(out)@,
                                old(out)@.len() as int,
                                core.peers@[peer_idx as int].id,
                                ringbonus_bytes(true),
                            ))
                        })
                }
            }),
    {
        match self.map {
            MapId::HideAndSeek2 => Ok(()),
            MapId::RavineMist => {
                let _passthrough = packet.ru8()?;
                let tp = packet.rpk()?;
                match tp {
                    PacketType::ClientRmzslimeHit => {
                        let eid = packet.ru16()?;
                        let proj = packet.ru8()? != 0;
                        match self.find_entity(EntityKind::Slug, eid) {
                            Some(i) => {
                                proof {
                                    assert forall|j: int|
                                        0 <= j < self.entities@.len() && self.entities@[j].0
                                            == eid && self.entities@[j].1.spec_kind()
                                            == EntityKind::Slug implies j == i by {
                                        if j != i {
                                            assert(self.entities@[j].0 != self.entities@[i as int].0);
                                        }
                                    }
                                }
                                let mut slot: usize = 0;
                                let mut ring = SlugRing::NoRing;
                                match &self.entities[i].1 {
                                    Entity::Slug { slot: s0, ring: r0, .. } => {
                                        slot = *s0;
                                        ring = *r0;
                                    },
                                    _ => {},
                                }
                                if slot < self.slugs.len() {
                                    let sp = self.slugs[slot];
                                    self.slugs.set(slot, (sp.0, sp.1, false));
                                }
                                self.queue_destroy(eid);
                                if !proj {
                                    match ring {
                                        SlugRing::Ring => {
                                            let mut p = Packet::new(
                                                PacketType::ServerRmzslimeRingbonus,
                                            );
                                            p.wu8(0);
                                            proof {
                                                assert(p.bytes() =~= ringbonus_bytes(false));
                                            }
                                            out.push(Output::Send {
                                                peer: core.peers[peer_idx].id,
                                                packet: p,
                                            });
                                            proof {
                                                assert(is_send(
                                                    out@[out@.len() - 1],
                                                    core.peers@[peer_idx as int].id,
                                                    ringbonus_bytes(false),
                                                ));
                                            }
                                        },
                                        SlugRing::RedRing => {
                                            let mut p = Packet::new(
                                                PacketType::ServerRmzslimeRingbonus,
                                            );
                                            p.wu8(1);
                                            proof {
                                                assert(p.bytes() =~= ringbonus_bytes(true));
                                            }
                                            out.push(Output::Send {
                                                peer: core.peers[peer_idx].id,
                                                packet: p,
                                            });
                                            proof {
                                                assert(is_send(
                                                    out@[out@.len() - 1],
                                                    core.peers@[peer_idx as int].id,
                                                    ringbonus_bytes(true),
                                                ));
                                            }
                                        },
                                        SlugRing::NoRing => {},
                                    }
                                }
                            },
                            None => {},
                        }
                        Ok(())
                    },
                    _ => Ok(()),
                }
            },
        }
    }
}

/// An i32 clamped into the i16 range, as a saturating cast would give it.
pub fn clamp_i16(v: i32) -> (r: i16)
    ensures
        r == if v < -0x8000 {
            -0x8000i16
        } else if v > 0x7FFF {
            0x7FFFi16
        } else {
            v as i16
        },
{
    if v < -0x8000 {
        -0x8000i16
    } else if v > 0x7FFF {
        0x7FFFi16
    } else {
        v as i16
    }
}

} // verus!
