//! Tick-driven game objects. Each entity answers three moments of its
//! lifecycle — spawn, tick, destroy — with at most one packet to broadcast,
//! and the tick may ask the game to destroy it through the deferred queue.

use vstd::prelude::*;
use crate::packet::{Packet, PacketType};
use crate::rng::{rand_range_u8, rand_ratio};

verus! {

/// The slug's animation state: which ring it carries and which way it walks.
#[derive(Clone, Copy, PartialEq, Eq, Structural, Debug)]
pub enum SlugState {
    NoneRight,
    NoneLeft,
    RingRight,
    RingLeft,
    RedRingRight,
    RedRingLeft,
}

impl SlugState {
    pub open spec fn spec_code(self) -> u8 {
        match self {
            SlugState::NoneRight => 0,
            SlugState::NoneLeft => 1,
            SlugState::RingRight => 2,
            SlugState::RingLeft => 3,
            SlugState::RedRingRight => 4,
            SlugState::RedRingLeft => 5,
        }
    }

    /// The wire code of this state.
    pub fn code(self) -> (r: u8)
        ensures
            r == self.spec_code(),
    {
        match self {
            SlugState::NoneRight => 0,
            SlugState::NoneLeft => 1,
            SlugState::RingRight => 2,
            SlugState::RingLeft => 3,
            SlugState::RedRingRight => 4,
            SlugState::RedRingLeft => 5,
        }
    }

    /// True while the slug walks left.
    pub open spec fn is_left(self) -> bool {
        match self {
            SlugState::NoneLeft | SlugState::RingLeft | SlugState::RedRingLeft => true,
            _ => false,
        }
    }
}

/// What a slug drops when hit.
#[derive(Clone, Copy, PartialEq, Eq, Structural, Debug)]
pub enum SlugRing {
    NoRing,
    Ring,
    RedRing,
}

/// The kinds of entity the game can host, used to filter the entity table.
#[derive(Clone, Copy, PartialEq, Eq, Structural, Debug)]
pub enum EntityKind {
    TailsProjectile,
    EggmanTracker,
    CreamRing,
    BlackRing,
    ExellerClone,
    Ring,
    Slug,
    Shard,
}


/// The state opcode whose packet announces each entity kind.
pub open spec fn spawn_opcode(k: EntityKind) -> u8 {
    match k {
        EntityKind::TailsProjectile => PacketType::ServerTprojectileState.spec_code(),
        EntityKind::EggmanTracker => PacketType::ServerEtrackerState.spec_code(),
        EntityKind::CreamRing => PacketType::ServerRingState.spec_code(),
        EntityKind::BlackRing => PacketType::ServerBringState.spec_code(),
        EntityKind::ExellerClone => PacketType::ServerExellercloneState.spec_code(),
        EntityKind::Ring => PacketType::ServerRingState.spec_code(),
        EntityKind::Slug => PacketType::ServerRmzslimeState.spec_code(),
        EntityKind::Shard => PacketType::ServerRingState.spec_code(),
    }
}


/// The ring kind a slug state carries.
pub open spec fn slug_carried(s: SlugState) -> SlugRing {
    match s {
        SlugState::NoneLeft | SlugState::NoneRight => SlugRing::NoRing,
        SlugState::RingLeft | SlugState::RingRight => SlugRing::Ring,
        SlugState::RedRingLeft | SlugState::RedRingRight => SlugRing::RedRing,
    }
}

/// A game object, stored in the per-match entity table under its id.
pub enum Entity {
    TailsProjectile {
        owner: u16,
        x: i32,
        y: i32,
        dir: i8,
        dmg: u8,
        exe: bool,
        charge: u8,
        timer: u16,
    },
    EggmanTracker { x: u16, y: u16, activated_by: u16 },
    CreamRing { red: bool, x: i16, y: i16 },
    BlackRing,
    ExellerClone { owner_id: u16, dir: i8, x: u16, y: u16 },
    Ring { red: bool, slot: usize },
    Slug { x: i32, y: i32, state: SlugState, ring: SlugRing, slot: usize, real_x: i32 },
    Shard { x: u16, y: u16, spawned: bool },
}

impl Entity {
    pub open spec fn spec_kind(self) -> EntityKind {
        match self {
            Entity::TailsProjectile { .. } => EntityKind::TailsProjectile,
            Entity::EggmanTracker { .. } => EntityKind::EggmanTracker,
            Entity::CreamRing { .. } => EntityKind::CreamRing,
            Entity::BlackRing => EntityKind::BlackRing,
            Entity::ExellerClone { .. } => EntityKind::ExellerClone,
            Entity::Ring { .. } => EntityKind::Ring,
            Entity::Slug { .. } => EntityKind::Slug,
            Entity::Shard { .. } => EntityKind::Shard,
        }
    }

    /// The kind tag of this entity.
    pub fn kind(&self) -> (r: EntityKind)
        ensures
            r == self.spec_kind(),
    {
        match self {
            Entity::TailsProjectile { .. } => EntityKind::TailsProjectile,
            Entity::EggmanTracker { .. } => EntityKind::EggmanTracker,
            Entity::CreamRing { .. } => EntityKind::CreamRing,
            Entity::BlackRing => EntityKind::BlackRing,
            Entity::ExellerClone { .. } => EntityKind::ExellerClone,
            Entity::Ring { .. } => EntityKind::Ring,
            Entity::Slug { .. } => EntityKind::Slug,
            Entity::Shard { .. } => EntityKind::Shard,
        }
    }

    /// Bounds that keep every entity's arithmetic in range: a projectile's
    /// position stays within the reach its remaining lifetime allows, and a
    /// slug walks a bounded patrol around its spawn point.
    pub open spec fn wf(self) -> bool {
        match self {
            Entity::TailsProjectile { x, timer, .. } => {
                &&& timer <= 300
                &&& -1536 * (301 - timer) <= x <= 65535 + 1536 * (300 - timer)
            },
            Entity::Ring { slot, .. } => slot <= 254,
            Entity::Slug { x, y, state, slot, real_x, .. } => {
                &&& 150 <= x <= 10000
                &&& 0 <= y <= 10000
                &&& slot < 11
                &&& -101 <= real_x <= 101
                &&& (state.is_left() ==> real_x >= -100)
                &&& (!state.is_left() ==> real_x <= 100)
            },
            _ => true,
        }
    }

    /// The packet announcing this entity's spawn. An ordinary ring rolls its
    /// red chance here when the map allows red rings, and a slug rolls what
    /// it carries and its walking direction.
    pub fn spawn_packet(&mut self, id: u16, spawn_red_rings: bool) -> (r: Option<Packet>)
        requires
            old(self).wf(),
        ensures
            final(self).wf(),
            final(self).spec_kind() == old(self).spec_kind(),
            r is Some,
            r matches Some(p) ==> p.bytes().len() >= 2 && p.bytes()[0] == 0u8 && p.bytes()[1]
                == spawn_opcode(old(self).spec_kind()),
            (*old(self) matches Entity::Ring { slot: s0, .. } ==> (*final(self) matches
            Entity::Ring { slot: s1, .. } && s1 == s0)),
    {
        match self {
            Entity::TailsProjectile { owner, x, y, dir, dmg, exe, charge, .. } => {
                let mut p = Packet::new(PacketType::ServerTprojectileState);
                p.wu8(0);
                p.wu16(#[verifier::truncate] (*x as u16));
                p.wu16(#[verifier::truncate] (*y as u16));
                p.wu16(*owner);
                p.wi8(*dir);
                p.wu8(*dmg);
                p.wu8(if *exe {
                    1
                } else {
                    0
                });
                p.wu8(*charge);
                Some(p)
            },
            Entity::EggmanTracker { x, y, .. } => {
                let mut p = Packet::new(PacketType::ServerEtrackerState);
                p.wu8(0);
                p.wu16(id);
                p.wu16(*x);
                p.wu16(*y);
                Some(p)
            },
            Entity::CreamRing { red, x, y } => {
                let mut p = Packet::new(PacketType::ServerRingState);
                p.wu8(2);
                p.wi16(*x);
                p.wi16(*y);
                p.wu8(255);
                p.wu16(id);
                p.wu8(if *red {
                    1
                } else {
                    0
                });
                Some(p)
            },
            Entity::BlackRing => {
                let mut p = Packet::new(PacketType::ServerBringState);
                p.wu8(0);
                p.wu16(id);
                Some(p)
            },
            Entity::ExellerClone { owner_id, dir, x, y } => {
                let mut p = Packet::new(PacketType::ServerExellercloneState);
                p.wu8(0);
                p.wu16(id);
                p.wu16(*owner_id);
                p.wu16(*x);
                p.wu16(*y);
                p.wi8(*dir);
                Some(p)
            },
            Entity::Ring { red, slot } => {
                if spawn_red_rings {
                    *red = rand_ratio(1, 10);
                }
                let mut p = Packet::new(PacketType::ServerRingState);
                p.wu8(0);
                p.wu8(*slot as u8);
                p.wu16(id);
                p.wu8(if *red {
                    1
                } else {
                    0
                });
                Some(p)
            },
            Entity::Slug { x, y, state, ring, real_x, .. } => {
                *real_x = 0;
                let roll = rand_range_u8(0, 100);
                if roll < 50 {
                    *ring = SlugRing::NoRing;
                    *state = SlugState::NoneRight;
                } else if roll < 90 {
                    *ring = SlugRing::Ring;
                    *state = SlugState::RingRight;
                } else {
                    *ring = SlugRing::RedRing;
                    *state = SlugState::RedRingRight;
                }
                let swaps = rand_range_u8(2, 4);
                if swaps % 2 == 1 {
                    *state = Entity::swap_state(*state);
                }
                let mut p = Packet::new(PacketType::ServerRmzslimeState);
                p.wu8(0);
                p.wu16(id);
                p.wu16((*x + *real_x) as u16);
                p.wu16(*y as u16);
                p.wu8(state.code());
                Some(p)
            },
            Entity::Shard { x, y, spawned } => {
                let mut p = Packet::new(PacketType::ServerRingState);
                p.wu8(if *spawned {
                    1
                } else {
                    0
                });
                p.wu16(id);
                p.wu16(*x);
                p.wu16(*y);
                Some(p)
            },
        }
    }

    /// The walking direction flipped, everything else kept.
    pub fn swap_state(s: SlugState) -> (r: SlugState)
        ensures
            r.is_left() == !s.is_left(),
            slug_carried(r) == slug_carried(s),
    {
        match s {
            SlugState::NoneLeft => SlugState::NoneRight,
            SlugState::NoneRight => SlugState::NoneLeft,
            SlugState::RingLeft => SlugState::RingRight,
            SlugState::RingRight => SlugState::RingLeft,
            SlugState::RedRingLeft => SlugState::RedRingRight,
            SlugState::RedRingRight => SlugState::RedRingLeft,
        }
    }

    /// One frame of this entity's own behaviour. The first component asks
    /// the game to destroy the entity through the deferred queue; the second
    /// is a packet to send to the game's participants.
    pub fn tick_step(&mut self, id: u16) -> (r: (bool, Option<Packet>))
        requires
            old(self).wf(),
        ensures
            final(self).wf(),
            final(self).spec_kind() == old(self).spec_kind(),
            (*old(self) matches Entity::Ring { slot: s0, .. } ==> (*final(self) matches
            Entity::Ring { slot: s1, .. } && s1 == s0)),
            (*old(self) matches Entity::Slug { x, y, state, ring, slot, real_x } ==> (*final(self)
                matches Entity::Slug { x: x2, y: y2, state: s2, ring: r2, slot: sl2, real_x: rx2 }
                && x2 == x && y2 == y && r2 == ring && sl2 == slot && rx2 == (if state.is_left() {
                real_x - 1
            } else {
                real_x + 1
            }) && s2.is_left() == (if (if state.is_left() {
                rx2 < -100
            } else {
                rx2 > 100
            }) {
                !state.is_left()
            } else {
                state.is_left()
            }) && slug_carried(s2) == slug_carried(state) && !r.0)),
            (*old(self) matches Entity::TailsProjectile { x, timer, dir, .. } ==> (*final(self)
                matches Entity::TailsProjectile { x: x2, timer: t2, .. } && (timer > 0 ==> x2 == x
                + dir * 12 && t2 == timer - 1) && (timer == 0 ==> x2 == x && t2 == 0) && r.0 == (
            t2 == 0 || x2 <= 0))),
    {
        match self {
            Entity::TailsProjectile { x, y, dir, timer, .. } => {
                if *timer > 0 {
                    *x = *x + (*dir as i32) * 12;
                    *timer = *timer - 1;
                }
                if *timer == 0 || *x <= 0 {
                    (true, None)
                } else {
                    let mut p = Packet::new(PacketType::ServerTprojectileState);
                    p.wu8(1);
                    p.wu16(#[verifier::truncate] (*x as u16));
                    p.wu16(#[verifier::truncate] (*y as u16));
                    (false, Some(p))
                }
            },
            Entity::Slug { x, y, state, real_x, .. } => {
                if state.code() % 2 == 1 {
                    *real_x = *real_x - 1;
                    if *real_x < -100 {
                        *state = Entity::swap_state(*state);
                    }
                } else {
                    *real_x = *real_x + 1;
                    if *real_x > 100 {
                        *state = Entity::swap_state(*state);
                    }
                }
                let mut p = Packet::new(PacketType::ServerRmzslimeState);
                p.wu8(1);
                p.wu16(id);
                p.wu16((*x + *real_x) as u16);
                p.wu16(*y as u16);
                p.wu8(state.code());
                (false, Some(p))
            },
            _ => (false, None),
        }
    }

    /// The packet announcing this entity's destruction; a shard vanishes
    /// silently.
    pub fn destroy_packet(&self, id: u16) -> (r: Option<Packet>)
        requires
            self.wf(),
        ensures
            r is None <==> self.spec_kind() == EntityKind::Shard,
    {
        match self {
            Entity::TailsProjectile { .. } => {
                let mut p = Packet::new(PacketType::ServerTprojectileState);
                p.wu8(2);
                Some(p)
            },
            Entity::EggmanTracker { activated_by, .. } => {
                let mut p = Packet::new(PacketType::ServerEtrackerState);
                p.wu8(1);
                p.wu16(id);
                p.wu16(*activated_by);
                Some(p)
            },
            Entity::CreamRing { .. } => {
                let mut p = Packet::new(PacketType::ServerRingState);
                p.wu8(1);
                p.wu8(255);
                p.wu16(id);
                Some(p)
            },
            Entity::BlackRing => {
                let mut p = Packet::new(PacketType::ServerBringState);
                p.wu8(1);
                p.wu16(id);
                Some(p)
            },
            Entity::ExellerClone { .. } => {
                let mut p = Packet::new(PacketType::ServerExellercloneState);
                p.wu8(1);
                p.wu16(id);
                Some(p)
            },
            Entity::Ring { slot, .. } => {
                let mut p = Packet::new(PacketType::ServerRingState);
                p.wu8(1);
                p.wu8(*slot as u8);
                p.wu16(id);
                Some(p)
            },
            Entity::Slug { .. } => {
                let mut p = Packet::new(PacketType::ServerRmzslimeState);
                p.wu8(2);
                p.wu16(id);
                Some(p)
            },
            Entity::Shard { .. } => None,
        }
    }
}

} // verus!
