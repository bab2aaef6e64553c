//! The entry state: peers identify, ready up, and a five-second countdown
//! leads into the map vote once everyone active is ready.

use vstd::prelude::*;
use crate::output::Output;
use crate::packet::{Packet, PacketType, spec_packet};
use vstd::bytes::spec_u16_to_le_bytes;
use crate::output::{is_multicast_except, is_multicast_real, is_multicast_real_except, is_send,
    sent_to, multicast_real_after, multicast_real_except_after, any_disconnect,
    lemma_outputs_grow, push_disconnect};
use crate::peer::{ServerCore, Peer, core_same_except, spec_real_count, spec_ready_count,
    lemma_ready_count_snoc};
use crate::rng::rand_range_u8;
use crate::state::{NextState, handle_identity, identity_response_bytes};
use crate::mapvote::MapVote;

verus! {

/// The lobby: a heartbeat counter and the ready countdown.
pub struct Lobby {
    /// Frames since the last heartbeat second.
    pub heartbeat_timer: u8,
    /// True while the ready countdown runs.
    pub countdown: bool,
    /// Frames left on the ready countdown.
    pub countdown_timer: u16,
}

impl Lobby {
    /// A running countdown always has frames left on it.
    pub open spec fn wf(&self) -> bool {
        &&& self.heartbeat_timer <= 59
        &&& (self.countdown ==> 1 <= self.countdown_timer <= 300)
    }

    /// A fresh lobby: no countdown, heartbeat at the start of its second.
    pub fn new() -> (r: Lobby)
        ensures
            r.wf(),
            !r.countdown,
            r.heartbeat_timer == 0,
            r.countdown_timer == 0,
    {
        Lobby { heartbeat_timer: 0, countdown: false, countdown_timer: 0 }
    }
}



/// The bytes of a countdown announcement: running flag, then whole seconds.
pub open spec fn countdown_bytes(on: bool, secs: u8) -> Seq<u8> {
    spec_packet(PacketType::ServerLobbyCountdown) + seq![
        if on {
            1u8
        } else {
            0u8
        },
        secs,
    ]
}

/// The bytes announcing that a peer joined.
pub open spec fn joined_bytes(id: u16) -> Seq<u8> {
    spec_packet(PacketType::ServerPlayerJoined) + spec_u16_to_le_bytes(id)
}

/// The bytes announcing that a peer left.
pub open spec fn left_bytes(id: u16) -> Seq<u8> {
    spec_packet(PacketType::ServerPlayerLeft) + spec_u16_to_le_bytes(id)
}

/// The bytes announcing a peer's readiness change.
pub open spec fn ready_state_bytes(id: u16, ready: bool) -> Seq<u8> {
    spec_packet(PacketType::ServerLobbyReadyState) + spec_u16_to_le_bytes(id) + seq![
        if ready {
            1u8
        } else {
            0u8
        },
    ]
}

/// The bytes announcing a peer's killer chance.
pub open spec fn exe_chance_bytes(chance: u8) -> Seq<u8> {
    spec_packet(PacketType::ServerLobbyExeChance) + seq![chance]
}

/// The chance after the lobby's raise: up by some amount in 2..=9, capped at
/// ninety-nine.
pub open spec fn chance_raised(pre: int, post: int) -> bool {
    let lo = if pre + 2 > 99 {
        99int
    } else {
        pre + 2
    };
    let hi = if pre + 9 > 99 {
        99int
    } else {
        pre + 9
    };
    lo <= post <= hi
}

impl Lobby {
    /// Install the lobby: un-queue every identified peer with a fresh
    /// identity response, send everyone else back to the lobby, clear
    /// readiness, and raise each peer's killer chance by a small random
    /// amount, capped at ninety-nine.
    pub fn init(&mut self, core: &mut ServerCore, out: &mut Vec<Output>) -> (r: Option<NextState>)
        requires
            old(self).wf(),
        ensures
            final(self).wf(),
            r is None,
            final(core).udp_port == old(core).udp_port,
            final(core).id_count == old(core).id_count,
            final(core).peers@.len() == old(core).peers@.len(),
            forall|i: int|
                0 <= i < old(core).peers@.len() ==> {
                    let pre = old(core).peers@[i];
                    let post = #[trigger] final(core).peers@[i];
                    &&& post.id == pre.id
                    &&& post.pending == pre.pending
                    &&& (pre.pending ==> post == pre)
                    &&& (!pre.pending ==> {
                        &&& !post.ready
                        &&& !post.in_queue
                        &&& chance_raised(pre.exe_chance as int, post.exe_chance as int)
                        &&& (pre.in_queue ==> sent_to(
                            final(out)@,
                            old(out)@.len() as int,
                            pre.id,
                            identity_response_bytes(true, old(core).udp_port, pre.id),
                        ))
                        &&& (!pre.in_queue ==> sent_to(
                            final(out)@,
                            old(out)@.len() as int,
                            pre.id,
                            spec_packet(PacketType::ServerGameBackToLobby),
                        ))
                        &&& sent_to(
                            final(out)@,
                            old(out)@.len() as int,
                            pre.id,
                            exe_chance_bytes(post.exe_chance),
                        )
                    })
                },
    {
        let ghost base = out@.len();
        let ghost pre = core.peers@;
        let mut i: usize = 0;
        while i < core.peers.len()
            invariant
                i <= core.peers@.len(),
                core.peers@.len() == pre.len(),
                core.udp_port == old(core).udp_port,
                core.id_count == old(core).id_count,
                forall|j: int| i <= j < pre.len() ==> core.peers@[j] == pre[j],
                base <= out@.len(),
                forall|k: int| 0 <= k < base ==> out@[k] == old(out)@[k],
                forall|j: int|
                    0 <= j < i ==> {
                        let p0 = pre[j];
                        let p1 = #[trigger] core.peers@[j];
                        &&& p1.id == p0.id
                        &&& p1.pending == p0.pending
                        &&& (p0.pending ==> p1 == p0)
                        &&& (!p0.pending ==> {
                            &&& !p1.ready
                            &&& !p1.in_queue
                            &&& chance_raised(p0.exe_chance as int, p1.exe_chance as int)
                            &&& (p0.in_queue ==> sent_to(
                                out@,
                                base as int,
                                p0.id,
                                identity_response_bytes(true, old(core).udp_port, p0.id),
                            ))
                            &&& (!p0.in_queue ==> sent_to(
                                out@,
                                base as int,
                                p0.id,
                                spec_packet(PacketType::ServerGameBackToLobby),
                            ))
                            &&& sent_to(out@, base as int, p0.id, exe_chance_bytes(p1.exe_chance))
                        })
                    },
            decreases core.peers@.len() - i,
        {
            let ghost out_snap = out@;
            if !core.peers[i].pending {
                core.peers[i].ready = false;
                let id = core.peers[i].id;
                if core.peers[i].in_queue {
                    let mut p = Packet::new(PacketType::ServerIdentityResponse);
                    p.wu8(1);
                    p.wu16(core.udp_port);
                    p.wu16(id);
                    proof {
                        assert(p.bytes() =~= identity_response_bytes(
                            true,
                            old(core).udp_port,
                            id,
                        ));
                    }
                    out.push(Output::Send { peer: id, packet: p });
                    proof {
                        assert(is_send(
                            out@.last(),
                            id,
                            identity_response_bytes(true, old(core).udp_port, id),
                        ));
                        assert(sent_to(
                            out@,
                            base as int,
                            id,
                            identity_response_bytes(true, old(core).udp_port, id),
                        ));
                    }
                    core.peers[i].in_queue = false;
                } else {
                    let p = Packet::new(PacketType::ServerGameBackToLobby);
                    proof {
                        assert(p.bytes() =~= spec_packet(PacketType::ServerGameBackToLobby));
                    }
                    out.push(Output::Send { peer: id, packet: p });
                    proof {
                        assert(is_send(
                            out@.last(),
                            id,
                            spec_packet(PacketType::ServerGameBackToLobby),
                        ));
                        assert(sent_to(
                            out@,
                            base as int,
                            id,
                            spec_packet(PacketType::ServerGameBackToLobby),
                        ));
                    }
                }
                let ghost out_mid = out@;
                let inc = rand_range_u8(2, 10);
                let sum = core.peers[i].exe_chance as u16 + inc as u16;
                core.peers[i].exe_chance = if sum > 99 {
                    99
                } else {
                    sum as u8
                };
                let mut p = Packet::new(PacketType::ServerLobbyExeChance);
                p.wu8(core.peers[i].exe_chance);
                proof {
                    assert(p.bytes() =~= exe_chance_bytes(core.peers@[i as int].exe_chance));
                }
                out.push(Output::Send { peer: id, packet: p });
                proof {
                    lemma_outputs_grow(out_mid, out@);
                    assert(is_send(
                        out@.last(),
                        id,
                        exe_chance_bytes(core.peers@[i as int].exe_chance),
                    ));
                    assert(sent_to(
                        out@,
                        base as int,
                        id,
                        exe_chance_bytes(core.peers@[i as int].exe_chance),
                    ));
                }
            }
            proof {
                lemma_outputs_grow(out_snap, out@);
            }
            i = i + 1;
        }
        None
    }

    /// One frame. Every sixtieth frame the lobby heartbeats: idle peers
    /// accrue AFK time and are disconnected at thirty seconds, or at two
    /// seconds while still unidentified. A running countdown drops by one
    /// frame, announces each whole second, and enters the map vote at zero.
    pub fn tick(&mut self, core: &mut ServerCore, out: &mut Vec<Output>) -> (r: Option<NextState>)
        requires
            old(self).wf(),
        ensures
            final(self).wf(),
            final(self).heartbeat_timer == if old(self).heartbeat_timer >= 59 {
                0u8
            } else {
                (old(self).heartbeat_timer + 1) as u8
            },
            r is Some <==> (old(self).countdown && old(self).countdown_timer == 1),
            r matches Some(n) ==> n is MapVote && crate::state::next_ready(n),
            old(self).countdown ==> final(self).countdown_timer == old(self).countdown_timer - 1,
            !old(self).countdown ==> final(self).countdown_timer == old(self).countdown_timer,
            (old(self).countdown && old(self).countdown_timer > 1 && (old(self).countdown_timer
                - 1) % 60 == 0) ==> multicast_real_after(
                final(out)@,
                old(out)@.len() as int,
                countdown_bytes(true, ((old(self).countdown_timer - 1) / 60) as u8),
            ),
    {
        let ghost base = out@.len();
        self.heartbeat_timer = self.heartbeat_timer + 1;
        if self.heartbeat_timer >= 60 {
            let ghost pre = core.peers@;
            let mut i: usize = 0;
            while i < core.peers.len()
                invariant
                    i <= core.peers@.len(),
                    core.peers@.len() == pre.len(),
                    out@.len() >= old(out)@.len(),
                decreases core.peers@.len() - i,
            {
                if core.peers[i].ready {
                    core.peers[i].timer = 0;
                } else {
                    if core.peers[i].timer < 0xFFFF {
                        core.peers[i].timer = core.peers[i].timer + 1;
                    }
                    if core.peers[i].timer >= 30 || (core.peers[i].pending && core.peers[i].timer
                        >= 2) {
                        out.push(Output::Disconnect { peer: core.peers[i].id, reason: "AFK or timeout" });
                    }
                }
                i = i + 1;
            }
            let p = Packet::new(PacketType::ServerHeartbeat);
            out.push(Output::MulticastReal { packet: p });
            self.heartbeat_timer = 0;
        }
        if self.countdown {
            self.countdown_timer = self.countdown_timer - 1;
            if self.countdown_timer == 0 {
                self.countdown = false;
                return Some(NextState::MapVote(MapVote::new()));
            }
            if self.countdown_timer % 60 == 0 {
                let mut p = Packet::new(PacketType::ServerLobbyCountdown);
                p.wu8(1);
                p.wu8((self.countdown_timer / 60) as u8);
                proof {
                    assert(p.bytes() =~= countdown_bytes(
                        true,
                        ((old(self).countdown_timer - 1) / 60) as u8,
                    ));
                }
                out.push(Output::MulticastReal { packet: p });
                proof {
                    assert(is_multicast_real(
                        out@.last(),
                        countdown_bytes(true, ((old(self).countdown_timer - 1) / 60) as u8),
                    ));
                    assert(out@.len() > old(out)@.len());
                    assert(is_multicast_real(
                        out@[out@.len() - 1],
                        countdown_bytes(true, ((old(self).countdown_timer - 1) / 60) as u8),
                    ));
                    assert(multicast_real_after(
                        out@,
                        old(out)@.len() as int,
                        countdown_bytes(true, ((old(self).countdown_timer - 1) / 60) as u8),
                    ));
                }
            }
        }
        None
    }

    /// A new connection: announce the join to everyone else. The capacity
    /// gate runs before this hook, so the table already holds the peer.
    pub fn connect(&self, core: &ServerCore, peer_id: u16, out: &mut Vec<Output>)
        ensures
            final(out)@.len() == old(out)@.len() + 1,
            is_multicast_except(final(out)@.last(), peer_id, joined_bytes(peer_id)),
    {
        let mut p = Packet::new(PacketType::ServerPlayerJoined);
        p.wu16(peer_id);
        proof {
            assert(p.bytes() =~= joined_bytes(peer_id));
        }
        out.push(Output::MulticastExcept { except: peer_id, packet: p });
    }

    /// A peer left: announce it, and cancel the countdown when fewer than
    /// two active peers remain.
    pub fn disconnect(&mut self, core: &ServerCore, peer_id: u16, out: &mut Vec<Output>) -> (r:
        Option<NextState>)
        requires
            old(self).wf(),
        ensures
            final(self).wf(),
            r is None,
            final(self).countdown == (old(self).countdown && spec_real_count(core.peers@) > 1),
            final(out)@.len() > old(out)@.len(),
            is_multicast_except(
                final(out)@[old(out)@.len() as int],
                peer_id,
                left_bytes(peer_id),
            ),
    {
        let mut p = Packet::new(PacketType::ServerPlayerLeft);
        p.wu16(peer_id);
        proof {
            assert(p.bytes() =~= left_bytes(peer_id));
        }
        out.push(Output::MulticastExcept { except: peer_id, packet: p });
        if core.count_real() <= 1 {
            if self.countdown {
                self.countdown = false;
                let mut p = Packet::new(PacketType::ServerLobbyCountdown);
                p.wu8(0);
                p.wu8(0);
                out.push(Output::Multicast { packet: p });
            }
        }
        None
    }

    /// One TCP packet from an identified or identifying peer.
    #[verifier::rlimit(60)]
    pub fn got_tcp_packet(
        &mut self,
        core: &mut ServerCore,
        peer_idx: usize,
        packet: &mut Packet,
        out: &mut Vec<Output>,
    ) -> (r: Result<(), &'static str>)
        requires
            old(self).wf(),
            peer_idx < old(core).peers@.len(),
            old(packet).pos() == 0,
        ensures
            final(self).wf(),
            final(core).peers@.len() == old(core).peers@.len(),
            ({
                let b = old(packet).bytes();
                (b.len() > 2 && b[0] == 0 && b[1] == PacketType::ClientLobbyReadyState.spec_code()
                    && !old(core).peers@[peer_idx as int].pending) ==> {
                    &&& r is Ok
                    &&& final(core).peers@[peer_idx as int].ready == (b[2] != 0)
                    &&& final(self).countdown == (spec_real_count(final(core).peers@) >= 2
                        && spec_ready_count(final(core).peers@) == spec_real_count(
                        final(core).peers@,
                    ))
                    &&& multicast_real_except_after(
                        final(out)@,
                        old(out)@.len() as int,
                        old(core).peers@[peer_idx as int].id,
                        ready_state_bytes(old(core).peers@[peer_idx as int].id, b[2] != 0),
                    )
                }
            }),
            ({
                let b = old(packet).bytes();
                (b.len() >= 2 && b[1] <= 118 && b[1] != PacketType::Identity.spec_code()
                    && old(core).peers@[peer_idx as int].pending) ==> any_disconnect(
                    final(out)@,
                    old(core).peers@[peer_idx as int].id,
                )
            }),
    {
        let passthrough = packet.ru8()? != 0;
        let tp = packet.rpk()?;
        if !core.peers[peer_idx].pending {
            core.peers[peer_idx].timer = 0;
        }
        let id = core.peers[peer_idx].id;
        match tp {
            PacketType::Identity => {
                if handle_identity(core, peer_idx, packet, true, out)? {
                    self.accept_player(core, peer_idx, out);
                    self.share_player(core, peer_idx, out);
                    self.check_ready(core, out);
                }
            },
            PacketType::ClientLobbyPlayersRequest => {
                if core.peers[peer_idx].pending {
                    push_disconnect(out, id, "Not identified.");
                    return Ok(());
                }
                if passthrough {
                    out.push(Output::Disconnect { peer: id, reason: "Unexpected passthrough flag." });
                    return Ok(());
                }
                let mut j: usize = 0;
                while j < core.peers.len()
                    invariant
                        j <= core.peers@.len(),
                    decreases core.peers@.len() - j,
                {
                    let plr = &core.peers[j];
                    if !plr.pending && plr.id != id {
                        let mut p = Packet::new(PacketType::ServerLobbyPlayer);
                        p.wu16(plr.id);
                        p.wu8(if plr.ready {
                            1
                        } else {
                            0
                        });
                        p.wstr(plr.nickname.as_str());
                        p.wu8(plr.lobby_icon);
                        p.wi8(plr.pet);
                        out.push(Output::Send { peer: id, packet: p });
                    }
                    j = j + 1;
                }
                let p = Packet::new(PacketType::ServerLobbyCorrect);
                out.push(Output::Send { peer: id, packet: p });
                self.send_message(id, "type .help for more info", out);
            },
            PacketType::ClientLobbyReadyState => {
                if core.peers[peer_idx].pending {
                    push_disconnect(out, id, "Not identified.");
                    return Ok(());
                }
                if passthrough {
                    out.push(Output::Disconnect { peer: id, reason: "Unexpected passthrough flag." });
                    return Ok(());
                }
                let ready = packet.ru8()? != 0;
                let mut p = Packet::new(PacketType::ServerLobbyReadyState);
                p.wu16(id);
                p.wu8(if ready {
                    1
                } else {
                    0
                });
                proof {
                    assert(p.bytes() =~= ready_state_bytes(id, ready));
                }
                out.push(Output::MulticastRealExcept { except: id, packet: p });
                proof {
                    assert(is_multicast_real_except(out@.last(), id, ready_state_bytes(id, ready)));
                }
                let ghost out_snap = out@;
                core.peers[peer_idx].ready = ready;
                self.check_ready(core, out);
                proof {
                    lemma_outputs_grow(out_snap, out@);
                }
            },
            PacketType::ClientChatMessage => {
                if core.peers[peer_idx].pending {
                    push_disconnect(out, id, "Not identified.");
                    return Ok(());
                }
                if passthrough {
                    out.push(Output::Disconnect { peer: id, reason: "Unexpected passthrough flag." });
                    return Ok(());
                }
                out.push(Output::MulticastRealExcept { except: id, packet: packet.duplicate() });
            },
            _ => {
                if core.peers[peer_idx].pending {
                    push_disconnect(out, id, "Not identified.");
                    return Ok(());
                }
            },
        }
        Ok(())
    }

    /// Send the peer its killer chance and finish accepting it.
    fn accept_player(&self, core: &mut ServerCore, peer_idx: usize, out: &mut Vec<Output>)
        requires
            peer_idx < old(core).peers@.len(),
        ensures
            core_same_except(*old(core), *final(core), peer_idx as int),
            final(core).peers@[peer_idx as int] == (Peer {
                pending: false,
                ..old(core).peers@[peer_idx as int]
            }),
    {
        let mut p = Packet::new(PacketType::ServerLobbyExeChance);
        p.wu8(core.peers[peer_idx].exe_chance);
        out.push(Output::Send { peer: core.peers[peer_idx].id, packet: p });
        core.peers[peer_idx].pending = false;
    }

    /// Introduce a newly accepted peer to everyone else.
    fn share_player(&self, core: &ServerCore, peer_idx: usize, out: &mut Vec<Output>)
        requires
            peer_idx < core.peers@.len(),
    {
        let plr = &core.peers[peer_idx];
        let mut p = Packet::new(PacketType::ServerLobbyPlayer);
        p.wu16(plr.id);
        p.wu8(if plr.ready {
            1
        } else {
            0
        });
        p.wstr(plr.nickname.as_str());
        p.wu8(plr.lobby_icon);
        p.wi8(plr.pet);
        out.push(Output::MulticastExcept { except: plr.id, packet: p });
    }

    /// A server-side chat line to one peer.
    fn send_message(&self, peer_id: u16, message: &str, out: &mut Vec<Output>) {
        let mut p = Packet::new(PacketType::ClientChatMessage);
        p.wu16(0);
        p.wstr(message);
        out.push(Output::Send { peer: peer_id, packet: p });
    }

    /// Re-evaluate the countdown. It runs exactly when at least two active
    /// peers are connected and every one of them is ready; starting (or
    /// restarting) it sets five seconds and announces them with one
    /// countdown broadcast; cancelling a running countdown announces the
    /// cancel with one zeroed broadcast; otherwise nothing is sent.
    pub fn check_ready(&mut self, core: &ServerCore, out: &mut Vec<Output>)
        requires
            old(self).wf(),
        ensures
            final(self).wf(),
            final(self).countdown == (spec_real_count(core.peers@) >= 2 && spec_ready_count(
                core.peers@,
            ) == spec_real_count(core.peers@)),
            final(self).countdown ==> final(self).countdown_timer == 300,
            forall|k: int| 0 <= k < old(out)@.len() ==> final(out)@[k] == old(out)@[k],
            final(out)@.len() >= old(out)@.len(),
            ({
                let starts = spec_real_count(core.peers@) >= 2 && spec_ready_count(core.peers@)
                    == spec_real_count(core.peers@);
                if starts {
                    final(out)@.len() == old(out)@.len() + 1 && is_multicast_real(
                        final(out)@.last(),
                        countdown_bytes(true, 5),
                    )
                } else if old(self).countdown {
                    final(out)@.len() == old(out)@.len() + 1 && is_multicast_real(
                        final(out)@.last(),
                        countdown_bytes(false, 0),
                    )
                } else {
                    final(out)@ == old(out)@
                }
            }),
    {
        let count = core.count_real();
        if count <= 1 {
            if self.countdown {
                self.countdown = false;
                let mut p = Packet::new(PacketType::ServerLobbyCountdown);
                p.wu8(0);
                p.wu8(0);
                proof {
                    assert(p.bytes() =~= countdown_bytes(false, 0));
                }
                out.push(Output::MulticastReal { packet: p });
            }
            return ;
        }
        let ready_count = count_ready(core);
        if ready_count == count {
            self.countdown = true;
            self.countdown_timer = 300;
            let mut p = Packet::new(PacketType::ServerLobbyCountdown);
            p.wu8(1);
            p.wu8(5);
            proof {
                assert(p.bytes() =~= countdown_bytes(true, 5));
            }
            out.push(Output::MulticastReal { packet: p });
        } else {
            if self.countdown {
                self.countdown = false;
                let mut p = Packet::new(PacketType::ServerLobbyCountdown);
                p.wu8(0);
                p.wu8(0);
                proof {
                    assert(p.bytes() =~= countdown_bytes(false, 0));
                }
                out.push(Output::MulticastReal { packet: p });
            }
        }
    }
}

/// How many connected peers are active participants that have readied up.
fn count_ready(core: &ServerCore) -> (r: usize)
    ensures
        r == spec_ready_count(core.peers@),
{
    let mut count: usize = 0;
    let mut i: usize = 0;
    while i < core.peers.len()
        invariant
            i <= core.peers@.len(),
            count <= i,
            count == spec_ready_count(core.peers@.subrange(0, i as int)),
        decreases core.peers@.len() - i,
    {
        proof {
            lemma_ready_count_snoc(core.peers@, i as int);
        }
        let p = &core.peers[i];
        if !p.pending && !p.in_queue && p.ready {
            count = count + 1;
        }
        i = i + 1;
    }
    assert(core.peers@.subrange(0, core.peers@.len() as int) =~= core.peers@);
    count
}

} // verus!
