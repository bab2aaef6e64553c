//! The maps a match can be played on, and the per-map constants the game
//! engine reads: match duration, ring slots, and big-ring timing. Frame
//! counts are at sixty frames per second.

use vstd::prelude::*;

verus! {

/// The configured maps, in ballot order.
#[derive(Clone, Copy, PartialEq, Eq, Structural, Debug)]
pub enum MapId {
    HideAndSeek2,
    RavineMist,
}

impl MapId {
    pub open spec fn spec_index(self) -> u8 {
        match self {
            MapId::HideAndSeek2 => 0,
            MapId::RavineMist => 1,
        }
    }

    /// The stable index of this map in the configured list.
    pub fn index(self) -> (r: u8)
        ensures
            r == self.spec_index(),
    {
        match self {
            MapId::HideAndSeek2 => 0,
            MapId::RavineMist => 1,
        }
    }

    pub open spec fn spec_ring_count(self) -> usize {
        match self {
            MapId::HideAndSeek2 => 25,
            MapId::RavineMist => 27,
        }
    }

    /// How many ordinary ring slots this map reserves.
    pub fn ring_count(self) -> (r: usize)
        ensures
            r == self.spec_ring_count(),
    {
        match self {
            MapId::HideAndSeek2 => 25,
            MapId::RavineMist => 27,
        }
    }

    /// The match duration in frames: three minutes plus up to a hundred
    /// seconds, scaled by how full the lobby is.
    pub fn timer_frames(self, real_count: usize) -> (r: u16)
        requires
            real_count <= 7,
        ensures
            r == 10800 + 6000 * (real_count as int) / 7,
    {
        (10800 + (6000 * real_count as u32) / 7) as u16
    }

    /// The ordinary-ring respawn time in frames, shortened as the lobby
    /// fills.
    pub fn ring_time_frames(self, real_count: usize) -> (r: u16)
        requires
            real_count <= 7,
        ensures
            r == 300 - (15 * (real_count as int) + 6) / 7,
    {
        (300 - (15 * real_count as u32 + 6) / 7) as u16
    }

    /// Whether ordinary rings may spawn red on this map.
    pub fn spawn_red_rings(self) -> bool {
        true
    }

    /// Whether the big escape ring appears on this map.
    pub fn bring_spawn(self) -> bool {
        true
    }

    /// The match-clock reading (frames remaining) at which the big ring
    /// becomes ready.
    pub fn bring_activate_time(self) -> (r: u16)
        ensures
            r == 3000,
    {
        3000
    }
}

/// The eleven slug spawn points of Ravine Mist, each with a flag telling
/// whether a slug from that point is currently alive.
pub fn slug_spawn_points() -> (r: Vec<(i32, i32, bool)>)
    ensures
        r@.len() == 11,
        forall|i: int| 0 <= i < r@.len() ==> !(#[trigger] r@[i]).2,
        forall|i: int|
            0 <= i < r@.len() ==> 0 <= (#[trigger] r@[i]).0 <= 10000 && 0 <= r@[i].1 <= 10000,
{
    let mut v: Vec<(i32, i32, bool)> = Vec::new();
    v.push((1901, 392, false));
    v.push((2193, 392, false));
    v.push((2468, 392, false));
    v.push((1188, 860, false));
    v.push((2577, 1952, false));
    v.push((2564, 2264, false));
    v.push((2782, 2264, false));
    v.push((1441, 2264, false));
    v.push((884, 2264, false));
    v.push((988, 2004, false));
    v.push((915, 2004, false));
    v
}

/// The twelve shard spawn points of Ravine Mist.
pub fn shard_spawn_points() -> (r: Vec<(u16, u16)>)
    ensures
        r@.len() == 12,
{
    let mut v: Vec<(u16, u16)> = Vec::new();
    v.push((862, 248));
    v.push((3078, 248));
    v.push((292, 558));
    v.push((2918, 558));
    v.push((1100, 820));
    v.push((980, 1188));
    v.push((1870, 1252));
    v.push((2180, 1508));
    v.push((2920, 2216));
    v.push((282, 2228));
    v.push((1318, 1916));
    v.push((3010, 1766));
    v
}

} // verus!
