//! Character select: the killer is drawn by weighted chance, every active
//! peer gets a fresh player record, and each has thirty seconds to choose.

use vstd::prelude::*;
use crate::mapdata::MapId;
use crate::output::Output;
use crate::packet::{Packet, PacketType};
use crate::output::{sent_to, lemma_outputs_grow, push_disconnect, is_send, is_multicast_real,
    multicast_real_after, any_disconnect};
use vstd::bytes::spec_u16_to_le_bytes;
use crate::packet::spec_packet;
use crate::peer::{ServerCore, Peer, Player, SurvivorCharacter, ExeCharacter, core_same_except,
    spec_real_count};
use crate::rng::rand_ratio;
use crate::state::{NextState, handle_identity};
use crate::game::Game;
use crate::lobby::Lobby;

verus! {

/// The character-select state.
pub struct CharacterSelect {
    /// Frames since the last heartbeat second.
    pub heartbeat_timer: u8,
    /// The map the match will be played on.
    pub map: MapId,
    /// The id of the elected killer.
    pub exe: u16,
    /// Set once everyone has chosen; the next tick starts the game.
    pub goto_game: bool,
}

impl CharacterSelect {
    /// A fresh selection state for the winning map.
    pub fn new(map: MapId) -> (r: CharacterSelect)
        ensures
            r.map == map,
            r.exe == 0,
            !r.goto_game,
            r.heartbeat_timer == 0,
    {
        CharacterSelect { heartbeat_timer: 0, map, exe: 0, goto_game: false }
    }
}



/// The survivor character a wire code below seven names.
pub open spec fn spec_survivor_from_code(v: u8) -> SurvivorCharacter {
    if v == 0 {
        SurvivorCharacter::Exe
    } else if v == 1 {
        SurvivorCharacter::Tails
    } else if v == 2 {
        SurvivorCharacter::Knuckles
    } else if v == 3 {
        SurvivorCharacter::Eggman
    } else if v == 4 {
        SurvivorCharacter::Amy
    } else if v == 5 {
        SurvivorCharacter::Cream
    } else {
        SurvivorCharacter::Sally
    }
}

/// Whether any active player already holds this survivor character.
pub open spec fn spec_survivor_taken(s: Seq<Peer>, c: SurvivorCharacter) -> bool {
    exists|i: int|
        0 <= i < s.len() && (#[trigger] s[i]).is_real() && (s[i].player matches Some(pl)
            && pl.ch1 == Some(c))
}

/// The bytes of the survivor-character response: the character and whether
/// it was granted.
pub open spec fn char_response_bytes(c: SurvivorCharacter, granted: bool) -> Seq<u8> {
    spec_packet(PacketType::ServerLobbyCharacterResponse) + seq![
        c.spec_code(),
        if granted {
            1u8
        } else {
            0u8
        },
    ]
}


/// The bytes announcing the elected killer and the chosen map.
pub open spec fn exe_announce_bytes(exe: u16, map: MapId) -> Seq<u8> {
    crate::packet::spec_packet(PacketType::ServerLobbyExe) + spec_u16_to_le_bytes(exe)
        + spec_u16_to_le_bytes(map.spec_index() as u16)
}

/// True when this peer still has to choose a character: the killer its
/// killer character, a survivor its survivor character.
pub open spec fn needs_choice(p: Peer) -> bool {
    p.is_real() && match p.player {
        Some(pl) => if pl.exe {
            pl.ch2 is None
        } else {
            pl.ch1 is None
        },
        None => false,
    }
}

impl CharacterSelect {
    /// Install the state: elect the killer by weighted chance, announce the
    /// election and the map, and give every active peer a fresh player
    /// record and thirty seconds to choose. With nobody active the lobby
    /// returns instead.
    pub fn init(&mut self, core: &mut ServerCore, out: &mut Vec<Output>) -> (r: Option<NextState>)
        ensures
            final(core).peers@.len() == old(core).peers@.len(),
            r is Some <==> spec_real_count(old(core).peers@) == 0,
            r matches Some(n) ==> n is Lobby && crate::state::next_ready(n),
            r is None ==> (exists|i: int|
                0 <= i < final(core).peers@.len() && (#[trigger] final(core).peers@[i]).is_real()
                    && final(core).peers@[i].id == final(self).exe),
            r is None ==> forall|i: int|
                0 <= i < final(core).peers@.len() ==> ((#[trigger] final(core).peers@[i]).is_real()
                    ==> (final(core).peers@[i].player matches Some(pl)
                    && pl.exe == (final(core).peers@[i].id == final(self).exe)
                    && pl.ch1 is None && pl.ch2 is None && pl.revival_times == 0
                    && final(core).peers@[i].timer == 30)),
            r is None ==> multicast_real_after(
                final(out)@,
                old(out)@.len() as int,
                exe_announce_bytes(final(self).exe, old(self).map),
            ),
    {
        if core.count_real() == 0 {
            return Some(NextState::Lobby(Lobby::new()));
        }
        self.exe = choose_exe(core);
        let mut p = Packet::new(PacketType::ServerLobbyExe);
        p.wu16(self.exe);
        p.wu16(self.map.index() as u16);
        proof {
            assert(p.bytes() =~= exe_announce_bytes(self.exe, self.map));
        }
        out.push(Output::MulticastReal { packet: p });
        proof {
            assert(is_multicast_real(
                out@[out@.len() - 1],
                exe_announce_bytes(self.exe, self.map),
            ));
            assert(multicast_real_after(
                out@,
                old(out)@.len() as int,
                exe_announce_bytes(self.exe, self.map),
            ));
        }

        let ghost pre = core.peers@;
        let mut i: usize = 0;
        while i < core.peers.len()
            invariant
                i <= core.peers@.len(),
                core.peers@.len() == pre.len(),
                forall|j: int|
                    i <= j < pre.len() ==> core.peers@[j] == pre[j],
                forall|j: int|
                    0 <= j < i ==> {
                        let p0 = pre[j];
                        let p1 = #[trigger] core.peers@[j];
                        &&& p1.id == p0.id
                        &&& p1.pending == p0.pending
                        &&& p1.in_queue == p0.in_queue
                        &&& (!p0.is_real() ==> p1 == p0)
                        &&& (p0.is_real() ==> ((p1.player matches Some(pl) && pl.exe == (p1.id
                            == self.exe) && pl.ch1 is None && pl.ch2 is None && pl.revival_times
                            == 0) && p1.timer == 30))
                    },
            decreases core.peers@.len() - i,
        {
            if !core.peers[i].pending && !core.peers[i].in_queue {
                let mut player = Player::new();
                player.exe = core.peers[i].id == self.exe;
                core.peers[i].player = Some(player);
                core.peers[i].timer = 30;
            }
            i = i + 1;
        }
        proof {
            let j = choose|j: int|
                0 <= j < pre.len() && (#[trigger] pre[j]).is_real() && pre[j].id == self.exe;
            assert(core.peers@[j].is_real() && core.peers@[j].id == self.exe);
        }
        None
    }

    /// One frame. Each second: heartbeat, and every active peer that still
    /// has to choose loses one second, is told its remaining time, and is
    /// disconnected at zero. Once everyone has chosen, the game starts on
    /// the next tick.
    pub fn tick(&mut self, core: &mut ServerCore, out: &mut Vec<Output>) -> (r: Option<NextState>)
        ensures
            r is Some <==> old(self).goto_game,
            r matches Some(n) ==> n is Game && crate::state::next_ready(n),
            r matches Some(n) ==> (n matches NextState::Game(g) && g.map == old(self).map),
    {
        if self.goto_game {
            return Some(NextState::Game(Game::new(self.map)));
        }
        if self.heartbeat_timer >= 60 {
            let p = Packet::new(PacketType::ServerHeartbeat);
            out.push(Output::Multicast { packet: p });
            let mut i: usize = 0;
            while i < core.peers.len()
                invariant
                    i <= core.peers@.len(),
                decreases core.peers@.len() - i,
            {
                let mut skip = true;
                if !core.peers[i].pending && !core.peers[i].in_queue {
                    match &core.peers[i].player {
                        Some(pl) => {
                            if pl.exe {
                                skip = pl.ch2.is_some();
                            } else {
                                skip = pl.ch1.is_some();
                            }
                        },
                        None => {},
                    }
                }
                if !skip {
                    if core.peers[i].timer > 0 {
                        core.peers[i].timer = core.peers[i].timer - 1;
                    }
                    if core.peers[i].timer == 0 {
                        out.push(Output::Disconnect { peer: core.peers[i].id, reason: "AFK or timeout." });
                    } else {
                        let mut p = Packet::new(PacketType::ServerCharTimeSync);
                        p.wu8(core.peers[i].timer as u8);
                        out.push(Output::Send { peer: core.peers[i].id, packet: p });
                    }
                }
                i = i + 1;
            }
            self.heartbeat_timer = 0;
        }
        if self.heartbeat_timer < 60 {
            self.heartbeat_timer = self.heartbeat_timer + 1;
        }
        None
    }

    /// A peer left: a queued peer changes nothing; otherwise announce it,
    /// and return to the lobby when one active peer remains or the killer
    /// itself left.
    pub fn disconnect(&mut self, core: &ServerCore, peer: &Peer, out: &mut Vec<Output>) -> (r:
        Option<NextState>)
        ensures
            peer.in_queue ==> r is None,
            r matches Some(n) ==> n is Lobby && crate::state::next_ready(n),
            !peer.in_queue && spec_real_count(core.peers@) <= 1 ==> r is Some,
            !peer.in_queue && peer.id == old(self).exe ==> r is Some,
    {
        if peer.in_queue {
            return None;
        }
        let mut p = Packet::new(PacketType::ServerPlayerLeft);
        p.wu16(peer.id);
        out.push(Output::MulticastExcept { except: peer.id, packet: p });
        if core.count_real() <= 1 {
            return Some(NextState::Lobby(Lobby::new()));
        }
        if peer.id == self.exe {
            return Some(NextState::Lobby(Lobby::new()));
        }
        self.check_remaining(core);
        None
    }

    /// One TCP packet: survivors request a survivor character, each at most
    /// once and no two the same; the killer requests a killer character; a
    /// late identity parks the peer in the queue. Anything else, or a
    /// malformed request, disconnects the sender.
    #[verifier::rlimit(60)]
    pub fn got_tcp_packet(
        &mut self,
        core: &mut ServerCore,
        peer_idx: usize,
        packet: &mut Packet,
        out: &mut Vec<Output>,
    ) -> (r: Result<(), &'static str>)
        requires
            peer_idx < old(core).peers@.len(),
            old(packet).pos() == 0,
        ensures
            final(core).peers@.len() == old(core).peers@.len(),
            forall|i: int|
                0 <= i < old(core).peers@.len() ==> ({
                    let pre = old(core).peers@[i];
                    let post = #[trigger] final(core).peers@[i];
                    pre.player matches Some(a) ==> (post.player matches Some(b) && b.exe == a.exe
                        && (a.ch1 matches Some(c1) ==> b.ch1 == Some(c1)) && (a.ch2 matches
                    Some(c2) ==> b.ch2 == Some(c2)))
                }),
            ({
                let b = old(packet).bytes();
                let me = old(core).peers@[peer_idx as int];
                (b.len() >= 2 && b[0] == 0 && b[1]
                    == PacketType::ClientRequestCharacter.spec_code() && !me.pending && me.id
                    == old(self).exe) ==> any_disconnect(final(out)@, me.id)
            }),
            ({
                let b = old(packet).bytes();
                let me = old(core).peers@[peer_idx as int];
                (b.len() > 2 && b[0] == 0 && b[1] == PacketType::ClientRequestCharacter.spec_code()
                    && b[2] < 7 && !me.pending && me.id != old(self).exe && (me.player matches
                Some(pl) && pl.ch1 is None)) ==> {
                    let c = spec_survivor_from_code(b[2]);
                    let taken = spec_survivor_taken(old(core).peers@, c);
                    &&& r is Ok
                    &&& (!taken ==> (final(core).peers@[peer_idx as int].player matches Some(pl2)
                        && pl2.ch1 == Some(c)))
                    &&& (taken ==> final(core).peers@[peer_idx as int] == me)
                    &&& sent_to(
                        final(out)@,
                        old(out)@.len() as int,
                        me.id,
                        char_response_bytes(c, !taken),
                    )
                }
            }),
    {
        let passthrough = packet.ru8()? != 0;
        let tp = packet.rpk()?;
        let id = core.peers[peer_idx].id;
        match tp {
            PacketType::Identity => {
                if passthrough {
                    push_disconnect(out, id, "Unexpected passthrough flag.");
                    return Ok(());
                }
                let _ = handle_identity(core, peer_idx, packet, false, out)?;
            },
            PacketType::ClientRequestCharacter => {
                if core.peers[peer_idx].pending {
                    push_disconnect(out, id, "Not identified.");
                    return Ok(());
                }
                if passthrough {
                    push_disconnect(out, id, "Unexpected passthrough flag.");
                    return Ok(());
                }
                if self.exe == id {
                    push_disconnect(out, id, "The killer cannot take a survivor character.");
                    return Ok(());
                }
                let code = packet.ru8()?;
                let chosen = match SurvivorCharacter::from_code(code) {
                    Some(c) => c,
                    None => {
                        push_disconnect(out, id, "Invalid survivor character requested!");
                        return Ok(());
                    },
                };
                proof {
                    assert(chosen == spec_survivor_from_code(code));
                }
                let mut already = false;
                match &core.peers[peer_idx].player {
                    Some(pl) => {
                        already = pl.ch1.is_some();
                    },
                    None => {
                        return Ok(());
                    },
                }
                if already {
                    return Ok(());
                }
                let can_have = !survivor_character_taken(core, chosen);
                proof {
                    assert(can_have == !spec_survivor_taken(core.peers@, chosen));
                }
                if can_have {
                    set_survivor_character(core, peer_idx, chosen);
                    let mut p = Packet::new(PacketType::ServerLobbyCharacterChange);
                    p.wu16(id);
                    p.wu8(chosen.code());
                    out.push(Output::MulticastRealExcept { except: id, packet: p });
                }
                let mut p = Packet::new(PacketType::ServerLobbyCharacterResponse);
                p.wu8(chosen.code());
                p.wu8(if can_have {
                    1
                } else {
                    0
                });
                proof {
                    assert(p.bytes() =~= char_response_bytes(chosen, can_have));
                }
                out.push(Output::Send { peer: id, packet: p });
                proof {
                    assert(is_send(
                        out@[out@.len() - 1],
                        id,
                        char_response_bytes(chosen, can_have),
                    ));
                }
                self.check_remaining(core);
            },
            PacketType::ClientRequestExecharacter => {
                if core.peers[peer_idx].pending {
                    push_disconnect(out, id, "Not identified.");
                    return Ok(());
                }
                if passthrough {
                    push_disconnect(out, id, "Unexpected passthrough flag.");
                    return Ok(());
                }
                if self.exe != id {
                    push_disconnect(out, id, "Only the killer chooses a killer character.");
                    return Ok(());
                }
                let code = packet.ru8()?;
                let chosen = if code == 0 {
                    None
                } else {
                    ExeCharacter::from_code(code - 1)
                };
                let chosen = match chosen {
                    Some(c) => c,
                    None => {
                        push_disconnect(out, id, "Invalid exe character requested!");
                        return Ok(());
                    },
                };
                let mut already = false;
                match &core.peers[peer_idx].player {
                    Some(pl) => {
                        already = pl.ch2.is_some();
                    },
                    None => {
                        return Ok(());
                    },
                }
                if already {
                    return Ok(());
                }
                set_exe_character(core, peer_idx, chosen);
                let mut p = Packet::new(PacketType::ServerLobbyCharacterChange);
                p.wu16(id);
                p.wu8(chosen.code());
                out.push(Output::MulticastRealExcept { except: id, packet: p });
                let mut p = Packet::new(PacketType::ServerLobbyExecharacterResponse);
                p.wu8(chosen.code());
                out.push(Output::Send { peer: id, packet: p });
                self.check_remaining(core);
            },
            _ => {
                push_disconnect(out, id, "Invalid packet");
            },
        }
        Ok(())
    }

    /// Once nobody active still has to choose, arm the transition into the
    /// game.
    pub fn check_remaining(&mut self, core: &ServerCore)
        ensures
            final(self).goto_game == (old(self).goto_game || forall|i: int|
                0 <= i < core.peers@.len() ==> !needs_choice(#[trigger] core.peers@[i])),
            final(self).exe == old(self).exe,
            final(self).map == old(self).map,
            final(self).heartbeat_timer == old(self).heartbeat_timer,
    {
        let mut i: usize = 0;
        let mut remaining = false;
        while i < core.peers.len()
            invariant
                i <= core.peers@.len(),
                remaining == exists|j: int| 0 <= j < i && needs_choice(#[trigger] core.peers@[j]),
            decreases core.peers@.len() - i,
        {
            let p = &core.peers[i];
            if !p.pending && !p.in_queue {
                match &p.player {
                    Some(pl) => {
                        if pl.exe {
                            if pl.ch2.is_none() {
                                remaining = true;
                            }
                        } else {
                            if pl.ch1.is_none() {
                                remaining = true;
                            }
                        }
                    },
                    None => {},
                }
            }
            proof {
                if needs_choice(core.peers@[i as int]) {
                    assert(remaining);
                }
            }
            i = i + 1;
        }
        if !remaining {
            self.goto_game = true;
        }
    }
}

/// Elect the killer: walk the active peers drawing each with probability
/// `exe_chance` in a hundred, around and around, until a draw succeeds; a
/// bounded number of rounds guards termination, after which the first
/// active peer stands elected.
pub fn choose_exe(core: &ServerCore) -> (r: u16)
    requires
        spec_real_count(core.peers@) >= 1,
    ensures
        exists|i: int|
            0 <= i < core.peers@.len() && (#[trigger] core.peers@[i]).is_real()
                && core.peers@[i].id == r,
        (exists|i: int|
            0 <= i < core.peers@.len() && (#[trigger] core.peers@[i]).is_real()
                && core.peers@[i].exe_chance >= 1) ==> exists|i: int|
            0 <= i < core.peers@.len() && (#[trigger] core.peers@[i]).is_real()
                && core.peers@[i].id == r && core.peers@[i].exe_chance >= 1,
{
    proof {
        lemma_real_exists(core.peers@);
    }
    let mut round: u32 = 0;
    while round < 10000
        invariant
            spec_real_count(core.peers@) >= 1,
            exists|i: int| 0 <= i < core.peers@.len() && (#[trigger] core.peers@[i]).is_real(),
        decreases 10000 - round,
    {
        let mut i: usize = 0;
        while i < core.peers.len()
            invariant
                i <= core.peers@.len(),
            decreases core.peers@.len() - i,
        {
            let p = &core.peers[i];
            if !p.pending && !p.in_queue && p.exe_chance > 0 {
                let chance = if p.exe_chance > 100 {
                    100
                } else {
                    p.exe_chance
                };
                if rand_ratio(chance as u32, 100) {
                    return p.id;
                }
            }
            i = i + 1;
        }
        round = round + 1;
    }
    let mut i: usize = 0;
    while i < core.peers.len()
        invariant
            i <= core.peers@.len(),
            forall|j: int|
                0 <= j < i ==> !((#[trigger] core.peers@[j]).is_real()
                    && core.peers@[j].exe_chance >= 1),
        decreases core.peers@.len() - i,
    {
        let p = &core.peers[i];
        if !p.pending && !p.in_queue && p.exe_chance > 0 {
            return p.id;
        }
        i = i + 1;
    }
    let mut i: usize = 0;
    while i < core.peers.len()
        invariant
            i <= core.peers@.len(),
            exists|j: int| i <= j < core.peers@.len() && (#[trigger] core.peers@[j]).is_real(),
            forall|j: int|
                0 <= j < core.peers@.len() ==> !((#[trigger] core.peers@[j]).is_real()
                    && core.peers@[j].exe_chance >= 1),
        decreases core.peers@.len() - i,
    {
        let p = &core.peers[i];
        if !p.pending && !p.in_queue {
            return p.id;
        }
        i = i + 1;
    }
    proof {
        assert(false);
    }
    0
}

/// A positive count of active peers means one exists.
proof fn lemma_real_exists(s: Seq<Peer>)
    requires
        spec_real_count(s) >= 1,
    ensures
        exists|i: int| 0 <= i < s.len() && (#[trigger] s[i]).is_real(),
    decreases s.len(),
{
    if s.len() > 0 {
        if s.last().is_real() {
            assert(s[s.len() - 1].is_real());
        } else {
            lemma_real_exists(s.drop_last());
            let i = choose|i: int| 0 <= i < s.drop_last().len() && (#[trigger] s.drop_last()[i]).is_real();
            assert(s[i].is_real());
        }
    }
}

/// Whether any active peer already holds this survivor character.
fn survivor_character_taken(core: &ServerCore, c: SurvivorCharacter) -> (r: bool)
    ensures
        r == exists|i: int|
            0 <= i < core.peers@.len() && (#[trigger] core.peers@[i]).is_real()
                && (core.peers@[i].player matches Some(pl) && pl.ch1 == Some(c)),
{
    let mut i: usize = 0;
    while i < core.peers.len()
        invariant
            i <= core.peers@.len(),
            !exists|j: int|
                0 <= j < i && (#[trigger] core.peers@[j]).is_real() && (core.peers@[j].player
                    matches Some(pl) && pl.ch1 == Some(c)),
        decreases core.peers@.len() - i,
    {
        let p = &core.peers[i];
        if !p.pending && !p.in_queue {
            match &p.player {
                Some(pl) => {
                    match pl.ch1 {
                        Some(held) => {
                            if held.code() == c.code() {
                                assert((core.peers@[i as int]).is_real() && (core.peers@[i as int].player
                                    matches Some(pl2) && pl2.ch1 == Some(c)));
                                return true;
                            }
                        },
                        None => {},
                    }
                },
                None => {},
            }
        }
        i = i + 1;
    }
    false
}

/// Record the survivor character the peer chose.
fn set_survivor_character(core: &mut ServerCore, peer_idx: usize, c: SurvivorCharacter)
    requires
        peer_idx < old(core).peers@.len(),
        old(core).peers@[peer_idx as int].player is Some,
    ensures
        core_same_except(*old(core), *final(core), peer_idx as int),
        final(core).peers@[peer_idx as int] == (Peer {
            player: Some(Player {
                ch1: Some(c),
                ..old(core).peers@[peer_idx as int].player->0
            }),
            ..old(core).peers@[peer_idx as int]
        }),
{
    match &mut core.peers[peer_idx].player {
        Some(pl) => {
            pl.ch1 = Some(c);
        },
        None => {},
    }
}

/// Record the killer character the peer chose.
fn set_exe_character(core: &mut ServerCore, peer_idx: usize, c: ExeCharacter)
    requires
        peer_idx < old(core).peers@.len(),
        old(core).peers@[peer_idx as int].player is Some,
    ensures
        core_same_except(*old(core), *final(core), peer_idx as int),
        final(core).peers@[peer_idx as int] == (Peer {
            player: Some(Player {
                ch2: Some(c),
                ..old(core).peers@[peer_idx as int].player->0
            }),
            ..old(core).peers@[peer_idx as int]
        }),
{
    match &mut core.peers[peer_idx].player {
        Some(pl) => {
            pl.ch2 = Some(c);
        },
        None => {},
    }
}

} // verus!
