//! The map vote: three options from the configured list, twenty seconds of
//! voting, one vote per active peer, ties broken at random.

use vstd::prelude::*;
use crate::mapdata::MapId;
use crate::output::Output;
use crate::output::{is_multicast_real, multicast_real_after, any_disconnect, lemma_outputs_grow,
    push_disconnect};
use crate::packet::{Packet, PacketType, spec_packet};
use crate::peer::{ServerCore, spec_real_count};
use crate::rng::rand_range_usize;
use crate::state::{NextState, handle_identity};
use crate::charselect::CharacterSelect;
use crate::lobby::Lobby;

verus! {

/// The map-vote state: the ballot, the tallies, and who voted already.
pub struct MapVote {
    /// Frames left before the vote closes.
    pub timer: u16,
    /// Every configured map.
    pub map_list: Vec<MapId>,
    /// The three maps on the ballot, filled on install.
    pub vote_maps: Vec<MapId>,
    /// The peers that voted already.
    pub voted_peers: Vec<u16>,
    /// One tally per ballot slot.
    pub votes: Vec<u8>,
}

impl MapVote {
    /// The ballot holds three tallies, and three options once installed.
    pub open spec fn wf(&self) -> bool {
        &&& self.votes@.len() == 3
        &&& self.map_list@.len() >= 1
        &&& (self.vote_maps@.len() == 0 || self.vote_maps@.len() == 3)
    }

    /// A fresh vote over the configured map list, twenty seconds on the
    /// clock, no ballot drawn yet.
    pub fn new() -> (r: MapVote)
        ensures
            r.wf(),
            r.timer == 1200,
            r.vote_maps@.len() == 0,
            r.voted_peers@.len() == 0,
            forall|i: int| 0 <= i < 3 ==> r.votes@[i] == 0u8,
    {
        let mut map_list: Vec<MapId> = Vec::new();
        map_list.push(MapId::HideAndSeek2);
        map_list.push(MapId::RavineMist);
        let mut votes: Vec<u8> = Vec::new();
        votes.push(0);
        votes.push(0);
        votes.push(0);
        MapVote {
            timer: 1200,
            map_list,
            vote_maps: Vec::new(),
            voted_peers: Vec::new(),
            votes,
        }
    }
}



/// The bytes announcing the three-map ballot.
pub open spec fn vote_maps_bytes(m0: MapId, m1: MapId, m2: MapId) -> Seq<u8> {
    spec_packet(PacketType::ServerVoteMaps) + seq![
        m0.spec_index(),
        m1.spec_index(),
        m2.spec_index(),
    ]
}

/// The bytes announcing the three tallies.
pub open spec fn vote_set_bytes(v0: u8, v1: u8, v2: u8) -> Seq<u8> {
    spec_packet(PacketType::ServerVoteSet) + seq![v0, v1, v2]
}

/// The largest of three tallies.
pub open spec fn max3(a: u8, b: u8, c: u8) -> u8 {
    if a >= b && a >= c {
        a
    } else if b >= c {
        b
    } else {
        c
    }
}

impl MapVote {
    /// Install the vote: draw the three-map ballot from the configured list
    /// (with replacement when at least three maps exist, padding with the
    /// last map otherwise) and announce it. With no maps at all the lobby
    /// returns instead.
    pub fn init(&mut self, core: &mut ServerCore, out: &mut Vec<Output>) -> (r: Option<NextState>)
        requires
            old(self).wf(),
            old(self).vote_maps@.len() == 0,
        ensures
            final(self).wf(),
            r is None,
            final(self).vote_maps@.len() == 3,
            forall|i: int|
                0 <= i < 3 ==> old(self).map_list@.contains(#[trigger] final(self).vote_maps@[i]),
            final(self).votes == old(self).votes,
            final(self).voted_peers == old(self).voted_peers,
            final(self).timer == old(self).timer,
            final(self).map_list == old(self).map_list,
            final(out)@.len() == old(out)@.len() + 1,
            is_multicast_real(
                final(out)@.last(),
                vote_maps_bytes(
                    final(self).vote_maps@[0],
                    final(self).vote_maps@[1],
                    final(self).vote_maps@[2],
                ),
            ),
    {
        if self.map_list.len() == 0 {
            return Some(NextState::Lobby(Lobby::new()));
        }
        if self.map_list.len() >= 3 {
            let mut i: usize = 0;
            while i < 3
                invariant
                    self.vote_maps@.len() == i,
                    i <= 3,
                    self.map_list@.len() >= 3,
                    self.votes@.len() == 3,
                    self.map_list == old(self).map_list,
                    self.votes == old(self).votes,
                    self.voted_peers == old(self).voted_peers,
                    self.timer == old(self).timer,
                    forall|k: int|
                        0 <= k < i ==> self.map_list@.contains(#[trigger] self.vote_maps@[k]),
                decreases 3 - i,
            {
                let pick = rand_range_usize(0, self.map_list.len());
                let map = self.map_list[pick];
                proof {
                    assert(self.map_list@[pick as int] == map);
                }
                self.vote_maps.push(map);
                i = i + 1;
            }
        } else {
            let mut i: usize = 0;
            while i < self.map_list.len()
                invariant
                    self.vote_maps@.len() == i,
                    i <= self.map_list@.len(),
                    1 <= self.map_list@.len() < 3,
                    self.votes@.len() == 3,
                    self.map_list == old(self).map_list,
                    self.votes == old(self).votes,
                    self.voted_peers == old(self).voted_peers,
                    self.timer == old(self).timer,
                    forall|k: int|
                        0 <= k < i ==> self.map_list@.contains(#[trigger] self.vote_maps@[k]),
                decreases self.map_list@.len() - i,
            {
                let map = self.map_list[i];
                proof {
                    assert(self.map_list@[i as int] == map);
                }
                self.vote_maps.push(map);
                i = i + 1;
            }
            let last = self.vote_maps[self.vote_maps.len() - 1];
            while self.vote_maps.len() < 3
                invariant
                    1 <= self.vote_maps@.len() <= 3,
                    self.map_list@.len() >= 1,
                    self.votes@.len() == 3,
                    self.map_list == old(self).map_list,
                    self.votes == old(self).votes,
                    self.voted_peers == old(self).voted_peers,
                    self.timer == old(self).timer,
                    self.map_list@.contains(last),
                    forall|k: int|
                        0 <= k < self.vote_maps@.len() ==> self.map_list@.contains(
                            #[trigger] self.vote_maps@[k],
                        ),
                decreases 3 - self.vote_maps@.len(),
            {
                self.vote_maps.push(last);
            }
        }
        let mut p = Packet::new(PacketType::ServerVoteMaps);
        p.wu8(self.vote_maps[0].index());
        p.wu8(self.vote_maps[1].index());
        p.wu8(self.vote_maps[2].index());
        proof {
            assert(p.bytes() =~= vote_maps_bytes(
                self.vote_maps@[0],
                self.vote_maps@[1],
                self.vote_maps@[2],
            ));
        }
        out.push(Output::MulticastReal { packet: p });
        None
    }

    /// One frame: announce each whole second, and at zero pick the winner
    /// and move to character select.
    pub fn tick(&mut self, core: &mut ServerCore, out: &mut Vec<Output>) -> (r: Option<NextState>)
        requires
            old(self).wf(),
            old(self).vote_maps@.len() == 3,
        ensures
            final(self).wf(),
            final(self).vote_maps == old(self).vote_maps,
            r is Some <==> old(self).timer == 0,
            r matches Some(n) ==> n is CharacterSelect && crate::state::next_ready(n),
    {
        if self.timer == 0 {
            let winner = self.vote_winner();
            return Some(NextState::CharacterSelect(CharacterSelect::new(winner)));
        }
        if self.timer % 60 == 0 {
            let mut p = Packet::new(PacketType::ServerVoteTimeSync);
            p.wu8((self.timer / 60) as u8);
            out.push(Output::Multicast { packet: p });
        }
        self.timer = self.timer - 1;
        None
    }

    /// A peer left: announce it, and fall back to the lobby when too few
    /// active peers remain to play.
    pub fn disconnect(&self, core: &ServerCore, peer_id: u16, out: &mut Vec<Output>) -> (r:
        Option<NextState>)
        ensures
            r is Some <==> spec_real_count(core.peers@) <= 2,
            r matches Some(n) ==> n is Lobby && crate::state::next_ready(n),
    {
        let mut p = Packet::new(PacketType::ServerPlayerLeft);
        p.wu16(peer_id);
        out.push(Output::MulticastExcept { except: peer_id, packet: p });
        if core.count_real() <= 2 {
            return Some(NextState::Lobby(Lobby::new()));
        }
        None
    }

    /// One TCP packet: a late identity parks the peer in the queue; a vote
    /// is counted once per peer, for one of the three options, and is
    /// rejected otherwise; once every active peer has voted the clock is
    /// clamped down to three seconds.
    pub fn got_tcp_packet(
        &mut self,
        core: &mut ServerCore,
        peer_idx: usize,
        packet: &mut Packet,
        out: &mut Vec<Output>,
    ) -> (r: Result<(), &'static str>)
        requires
            old(self).wf(),
            peer_idx < old(core).peers@.len(),
            old(packet).pos() == 0,
        ensures
            final(self).wf(),
            final(self).vote_maps == old(self).vote_maps,
            final(core).peers@.len() == old(core).peers@.len(),
            ({
                let b = old(packet).bytes();
                (b.len() > 2 && b[1] == PacketType::ClientVoteRequest.spec_code() && b[2] < 3
                    && !old(self).voted_peers@.contains(
                    old(core).peers@[peer_idx as int].id,
                )) ==> {
                    &&& r is Ok
                    &&& final(self).voted_peers@ == old(self).voted_peers@.push(
                        old(core).peers@[peer_idx as int].id,
                    )
                    &&& (old(self).votes@[b[2] as int] < 255 ==> final(self).votes@[b[2] as int]
                        == old(self).votes@[b[2] as int] + 1)
                    &&& multicast_real_after(
                        final(out)@,
                        old(out)@.len() as int,
                        vote_set_bytes(
                            final(self).votes@[0],
                            final(self).votes@[1],
                            final(self).votes@[2],
                        ),
                    )
                }
            }),
            ({
                let b = old(packet).bytes();
                (b.len() > 2 && b[1] == PacketType::ClientVoteRequest.spec_code() && (b[2] >= 3
                    || old(self).voted_peers@.contains(old(core).peers@[peer_idx as int].id)))
                    ==> {
                    &&& any_disconnect(final(out)@, old(core).peers@[peer_idx as int].id)
                    &&& final(self).votes == old(self).votes
                    &&& final(self).voted_peers == old(self).voted_peers
                }
            }),
    {
        let _passthrough = packet.ru8()?;
        let tp = packet.rpk()?;
        if !core.peers[peer_idx].pending {
            core.peers[peer_idx].timer = 0;
        }
        let id = core.peers[peer_idx].id;
        match tp {
            PacketType::Identity => {
                let _ = handle_identity(core, peer_idx, packet, false, out)?;
            },
            PacketType::ClientVoteRequest => {
                let map = packet.ru8()?;
                if map >= 3 {
                    push_disconnect(out, id, "Invalid vote option.");
                    return Ok(());
                }
                if self.has_voted(id) {
                    push_disconnect(out, id, "Already voted.");
                    return Ok(());
                }
                let tally = self.votes[map as usize];
                if tally < 255 {
                    self.votes.set(map as usize, tally + 1);
                }
                self.voted_peers.push(id);
                let mut p = Packet::new(PacketType::ServerVoteSet);
                p.wu8(self.votes[0]);
                p.wu8(self.votes[1]);
                p.wu8(self.votes[2]);
                proof {
                    assert(p.bytes() =~= vote_set_bytes(
                        self.votes@[0],
                        self.votes@[1],
                        self.votes@[2],
                    ));
                }
                out.push(Output::MulticastReal { packet: p });
                proof {
                    assert(is_multicast_real(
                        out@[out@.len() - 1],
                        vote_set_bytes(self.votes@[0], self.votes@[1], self.votes@[2]),
                    ));
                }
                self.check_votes(core);
            },
            _ => {},
        }
        Ok(())
    }

    /// Whether this peer has already voted.
    fn has_voted(&self, id: u16) -> (r: bool)
        ensures
            r == self.voted_peers@.contains(id),
    {
        let mut i: usize = 0;
        while i < self.voted_peers.len()
            invariant
                i <= self.voted_peers@.len(),
                forall|j: int| 0 <= j < i ==> self.voted_peers@[j] != id,
            decreases self.voted_peers@.len() - i,
        {
            if self.voted_peers[i] == id {
                assert(self.voted_peers@[i as int] == id);
                return true;
            }
            i = i + 1;
        }
        false
    }

    /// Once every active peer has voted, clamp the clock down to three
    /// seconds.
    pub fn check_votes(&mut self, core: &ServerCore)
        requires
            old(self).wf(),
        ensures
            final(self).wf(),
            final(self).timer == if old(self).voted_peers@.len() >= spec_real_count(core.peers@)
                && old(self).timer > 180 {
                180u16
            } else {
                old(self).timer
            },
            final(self).votes == old(self).votes,
            final(self).vote_maps == old(self).vote_maps,
            final(self).voted_peers == old(self).voted_peers,
    {
        if self.voted_peers.len() < core.count_real() {
            return ;
        }
        if self.timer > 180 {
            self.timer = 180;
        }
    }

    /// The winning map: one whose tally is the maximum, ties broken
    /// uniformly at random among the tied options.
    pub fn vote_winner(&self) -> (r: MapId)
        requires
            self.wf(),
            self.vote_maps@.len() == 3,
        ensures
            exists|i: int|
                0 <= i < 3 && r == self.vote_maps@[i] && #[trigger] self.votes@[i] == max3(
                    self.votes@[0],
                    self.votes@[1],
                    self.votes@[2],
                ),
    {
        let m0 = self.votes[0];
        let m1 = self.votes[1];
        let m2 = self.votes[2];
        let top = if m0 >= m1 && m0 >= m2 {
            m0
        } else if m1 >= m2 {
            m1
        } else {
            m2
        };
        let mut indexes: Vec<usize> = Vec::new();
        if m0 == top {
            indexes.push(0);
        }
        if m1 == top {
            indexes.push(1);
        }
        if m2 == top {
            indexes.push(2);
        }
        assert(indexes@.len() >= 1);
        assert(forall|k: int|
            0 <= k < indexes@.len() ==> #[trigger] indexes@[k] < 3 && self.votes@[indexes@[k] as int]
                == top);
        let pick = rand_range_usize(0, indexes.len());
        let slot = indexes[pick];
        self.vote_maps[slot]
    }
}

} // verus!
