//! The session state machine's shared pieces: the transition type, the
//! build-version constant, and the IDENTITY handler every state uses.

use vstd::prelude::*;
use crate::output::{Output, any_disconnect, is_send};
use crate::packet::{Packet, PacketType, spec_packet, nul_pos};
use vstd::bytes::{spec_u16_from_le_bytes, spec_u16_to_le_bytes};
use vstd::utf8::{valid_utf8, decode_utf8};
use crate::peer::{ServerCore, Peer, core_same_except};
use crate::lobby::Lobby;
use crate::mapvote::MapVote;
use crate::charselect::CharacterSelect;
use crate::game::Game;
use vstd::string::StrSliceExecFns;

verus! {

/// The protocol build version both sides must agree on at IDENTITY.
pub const BUILD_VER: u16 = 101;

/// A state a handler asks the sub-server to install next.
pub enum NextState {
    Lobby(Lobby),
    MapVote(MapVote),
    CharacterSelect(CharacterSelect),
    Game(Game),
}


/// The identity payload laid out from `pos` in `b`: the build number, the
/// NUL-terminated UTF-8 nickname, the icon, pet and OS bytes, and the
/// NUL-terminated UTF-8 device string. `None` when the bytes do not parse.
pub open spec fn identity_fields(b: Seq<u8>, pos: int) -> Option<
    (u16, Seq<char>, u8, i8, u8, Seq<char>),
> {
    if pos + 2 <= b.len() {
        let build = spec_u16_from_le_bytes(b.subrange(pos, pos + 2));
        let n0 = pos + 2;
        let n1 = nul_pos(b, n0);
        if n1 < b.len() && valid_utf8(b.subrange(n0, n1)) {
            let nick = decode_utf8(b.subrange(n0, n1));
            let f0 = n1 + 1;
            if f0 + 3 <= b.len() {
                let u0 = f0 + 3;
                let u1 = nul_pos(b, u0);
                if u1 < b.len() && valid_utf8(b.subrange(u0, u1)) {
                    Some(
                        (
                            build,
                            nick,
                            b[f0],
                            b[f0 + 1] as i8,
                            b[f0 + 2],
                            decode_utf8(b.subrange(u0, u1)),
                        ),
                    )
                } else {
                    None
                }
            } else {
                None
            }
        } else {
            None
        }
    } else {
        None
    }
}

/// The first fifteen characters of a nickname, or all of it when shorter.
pub open spec fn truncated_nickname(nick: Seq<char>) -> Seq<char> {
    if nick.len() > 15 {
        nick.subrange(0, 15)
    } else {
        nick
    }
}

/// The bytes of the identity response: the acceptance flag, the sub-server's
/// UDP port, and the peer's id.
pub open spec fn identity_response_bytes(accept: bool, udp_port: u16, id: u16) -> Seq<u8> {
    spec_packet(PacketType::ServerIdentityResponse) + seq![
        if accept {
            1u8
        } else {
            0u8
        },
    ] + spec_u16_to_le_bytes(udp_port) + spec_u16_to_le_bytes(id)
}

/// The shared IDENTITY handler. It parses the identity fields, truncates the
/// nickname to fifteen characters, answers with the identity response, and
/// marks the peer identified; with `accept` false the peer is parked in the
/// queue until the next lobby. A peer identifying twice or reporting the
/// wrong build is disconnected and nothing is stored.
///
/// On acceptance the peer stops being pending, and a peer accepted straight
/// into the lobby is not queued: `pending` implies `in_queue == false` never
/// fails at that moment.
pub fn handle_identity(
    core: &mut ServerCore,
    peer_idx: usize,
    packet: &mut Packet,
    accept: bool,
    out: &mut Vec<Output>,
) -> (r: Result<bool, &'static str>)
    requires
        peer_idx < old(core).peers@.len(),
    ensures
        core_same_except(*old(core), *final(core), peer_idx as int),
        final(core).peers@[peer_idx as int].id == old(core).peers@[peer_idx as int].id,
        final(core).peers@[peer_idx as int].player == old(core).peers@[peer_idx as int].player,
        r matches Ok(true) ==> {
            &&& old(core).peers@[peer_idx as int].pending
            &&& !final(core).peers@[peer_idx as int].pending
            &&& final(core).peers@[peer_idx as int].in_queue == !accept
            &&& final(core).peers@[peer_idx as int].nickname@.len() <= 15
        },
        r matches Ok(false) ==> final(core).peers@[peer_idx as int] == old(
            core,
        ).peers@[peer_idx as int],
        r is Err ==> final(core).peers@[peer_idx as int] == old(core).peers@[peer_idx as int],
        !old(core).peers@[peer_idx as int].pending ==> {
            &&& r == Ok::<bool, &'static str>(false)
            &&& final(out)@.len() == old(out)@.len() + 1
            &&& final(out)@.last().disconnects(old(core).peers@[peer_idx as int].id)
        },
        ({
            let b = old(packet).bytes();
            let pos = old(packet).pos();
            let id = old(core).peers@[peer_idx as int].id;
            old(core).peers@[peer_idx as int].pending ==> match identity_fields(b, pos) {
                Some(f) => if f.0 == BUILD_VER {
                    &&& r == Ok::<bool, &'static str>(true)
                    &&& final(core).peers@[peer_idx as int].nickname@ == truncated_nickname(f.1)
                    &&& final(core).peers@[peer_idx as int].lobby_icon == f.2
                    &&& final(core).peers@[peer_idx as int].pet == f.3
                    &&& final(core).peers@[peer_idx as int].udid@ == f.5
                    &&& final(out)@.len() == old(out)@.len() + 1
                    &&& is_send(
                        final(out)@.last(),
                        id,
                        identity_response_bytes(accept, old(core).udp_port, id),
                    )
                } else {
                    &&& r == Ok::<bool, &'static str>(false)
                    &&& final(out)@.len() == old(out)@.len() + 1
                    &&& final(out)@.last().disconnects(id)
                },
                None => true,
            }
        }),
{
    if !core.peers[peer_idx].pending {
        out.push(Output::Disconnect { peer: core.peers[peer_idx].id, reason: "Second identity attempt." });
        return Ok(false);
    }
    let build_ver = packet.ru16()?;
    if build_ver != BUILD_VER {
        out.push(Output::Disconnect { peer: core.peers[peer_idx].id, reason: "Version mismatch." });
        return Ok(false);
    }
    let nickname = packet.rstr()?;
    let nickname = if nickname.as_str().unicode_len() > 15 {
        nickname.as_str().substring_char(0, 15).to_owned()
    } else {
        nickname
    };
    let lobby_icon = packet.ru8()?;
    let pet = packet.ri8()?;
    let _os_type = packet.ru8()?;
    let udid = packet.rstr()?;

    core.peers[peer_idx].nickname = nickname;
    core.peers[peer_idx].lobby_icon = lobby_icon;
    core.peers[peer_idx].pet = pet;
    core.peers[peer_idx].udid = udid;
    core.peers[peer_idx].in_queue = !accept;
    core.peers[peer_idx].pending = false;

    let mut reply = Packet::new(PacketType::ServerIdentityResponse);
    reply.wu8(if accept {
        1
    } else {
        0
    });
    reply.wu16(core.udp_port);
    reply.wu16(core.peers[peer_idx].id);
    proof {
        assert(reply.bytes() =~= identity_response_bytes(
            accept,
            old(core).udp_port,
            old(core).peers@[peer_idx as int].id,
        ));
    }
    out.push(Output::Send { peer: core.peers[peer_idx].id, packet: reply });
    Ok(true)
}


/// A state value fit to be installed: its own invariant holds and the parts
/// its install hook fills are still empty.
pub open spec fn next_ready(n: NextState) -> bool {
    match n {
        NextState::Lobby(l) => l.wf(),
        NextState::MapVote(v) => v.wf() && v.vote_maps@.len() == 0,
        NextState::CharacterSelect(_) => true,
        NextState::Game(g) => g.wf() && g.entities@.len() == 0 && !g.started,
    }
}

/// The current state of a sub-server's session.
pub enum State {
    Lobby(Lobby),
    MapVote(MapVote),
    CharacterSelect(CharacterSelect),
    Game(Game),
}

impl State {
    /// The invariant of an installed state.
    pub open spec fn wf(&self) -> bool {
        match self {
            State::Lobby(l) => l.wf(),
            State::MapVote(v) => v.wf() && v.vote_maps@.len() == 3,
            State::CharacterSelect(_) => true,
            State::Game(g) => g.wf(),
        }
    }

    /// The state a fresh sub-server starts in.
    pub fn start() -> (r: State)
        ensures
            r.wf(),
            r is Lobby,
    {
        State::Lobby(Lobby::new())
    }

    /// The name of the current state, for operators' eyes.
    pub fn name(&self) -> &'static str {
        match self {
            State::Lobby(_) => "Lobby",
            State::MapVote(_) => "MapVote",
            State::CharacterSelect(_) => "Character Select",
            State::Game(_) => "Game",
        }
    }

    /// Run the install hook of this state once.
    fn init_step(&mut self, core: &mut ServerCore, out: &mut Vec<Output>) -> (r: Option<NextState>)
        requires
            next_ready(state_as_next(*old(self))),
        ensures
            r is None ==> final(self).wf(),
            r matches Some(n) ==> next_ready(n) && n is Lobby,
            *old(self) is Lobby ==> r is None,
            *old(self) is Lobby <==> *final(self) is Lobby,
            *old(self) is MapVote <==> *final(self) is MapVote,
            *old(self) is CharacterSelect <==> *final(self) is CharacterSelect,
            *old(self) is Game <==> *final(self) is Game,
    {
        match self {
            State::Lobby(l) => l.init(core, out),
            State::MapVote(v) => v.init(core, out),
            State::CharacterSelect(c) => c.init(core, out),
            State::Game(g) => g.init(core, out),
        }
    }

    /// Install a state a handler returned: run its install hook, and when
    /// that hook itself declines in favour of a further state, install that
    /// one instead. The chain is short: only a lobby can be asked for in
    /// the second step, and a lobby always installs.
    pub fn install(next: NextState, core: &mut ServerCore, out: &mut Vec<Output>) -> (r: State)
        requires
            next_ready(next),
        ensures
            r.wf(),
            next is Lobby ==> r is Lobby,
            next is MapVote ==> r is MapVote || r is Lobby,
            next is CharacterSelect ==> r is CharacterSelect || r is Lobby,
            next is Game ==> r is Game || r is Lobby,
    {
        let mut s = next_to_state(next);
        let n2 = s.init_step(core, out);
        match n2 {
            Some(n) => {
                let mut s2 = next_to_state(n);
                let n3 = s2.init_step(core, out);
                match n3 {
                    Some(_) => {
                        proof {
                            assert(false);
                        }
                        s2
                    },
                    None => s2,
                }
            },
            None => s,
        }
    }

    /// One frame of the current state; a transition it asks for is applied
    /// before this returns.
    pub fn tick(&mut self, core: &mut ServerCore, out: &mut Vec<Output>)
        requires
            old(self).wf(),
        ensures
            final(self).wf(),
            *old(self) is Lobby ==> (*final(self) is Lobby || *final(self) is MapVote),
            *old(self) is MapVote ==> (*final(self) is MapVote || *final(self) is CharacterSelect
                || *final(self) is Lobby),
            *old(self) is CharacterSelect ==> (*final(self) is CharacterSelect || *final(self)
                is Game || *final(self) is Lobby),
            *old(self) is Game ==> (*final(self) is Game || *final(self) is Lobby),
    {
        let next = match self {
            State::Lobby(l) => l.tick(core, out),
            State::MapVote(v) => v.tick(core, out),
            State::CharacterSelect(c) => c.tick(core, out),
            State::Game(g) => g.tick(core, out),
        };
        match next {
            Some(n) => {
                *self = State::install(n, core, out);
            },
            None => {},
        }
    }

    /// A new connection. At most seven peers sit on one sub-server when
    /// this returns: the eighth is turned away with a full-server
    /// disconnect and is never entered into the table.
    pub fn connect(&mut self, core: &mut ServerCore, peer: Peer, out: &mut Vec<Output>)
        requires
            old(self).wf(),
            old(core).peers@.len() <= 7,
        ensures
            final(self).wf(),
            final(core).peers@.len() <= 7,
            old(core).peers@.len() >= 7 ==> final(core).peers@ == old(core).peers@
                && any_disconnect(final(out)@, peer.id),
            old(core).peers@.len() < 7 ==> final(core).peers@ == old(core).peers@.push(peer),
    {
        if core.peers.len() >= 7 {
            let ghost n = out@.len();
            out.push(Output::Disconnect { peer: peer.id, reason: "Server is full: 7/7." });
            proof {
                assert(final(out)@[n as int].disconnects(peer.id));
            }
            return ;
        }
        let peer_id = peer.id;
        core.peers.push(peer);
        match self {
            State::Lobby(l) => l.connect(core, peer_id, out),
            _ => {},
        }
    }

    /// A peer's connection closed: take it out of the table and let the
    /// current state react; a transition it asks for is applied before this
    /// returns.
    pub fn peer_disconnected(&mut self, core: &mut ServerCore, peer_id: u16, out: &mut Vec<Output>)
        requires
            old(self).wf(),
        ensures
            final(self).wf(),
    {
        let found = core.find_peer(peer_id);
        match found {
            Some(i) => {
                let peer = core.peers.remove(i);
                let next = match self {
                    State::Lobby(l) => l.disconnect(core, peer.id, out),
                    State::MapVote(v) => v.disconnect(core, peer.id, out),
                    State::CharacterSelect(c) => c.disconnect(core, &peer, out),
                    State::Game(g) => g.disconnect(core, &peer, out),
                };
                match next {
                    Some(n) => {
                        *self = State::install(n, core, out);
                    },
                    None => {},
                }
            },
            None => {},
        }
    }

    /// One TCP packet from the peer with this id; an unknown id is ignored.
    /// An error asks the runtime to disconnect the sender with it as the
    /// reason.
    pub fn got_tcp_packet(
        &mut self,
        core: &mut ServerCore,
        peer_id: u16,
        packet: &mut Packet,
        out: &mut Vec<Output>,
    ) -> (r: Result<(), &'static str>)
        requires
            old(self).wf(),
            old(packet).pos() == 0,
        ensures
            final(self).wf(),
            *old(self) is Lobby <==> *final(self) is Lobby,
            *old(self) is MapVote <==> *final(self) is MapVote,
            *old(self) is CharacterSelect <==> *final(self) is CharacterSelect,
            *old(self) is Game <==> *final(self) is Game,
            final(core).peers@.len() == old(core).peers@.len(),
    {
        let found = core.find_peer(peer_id);
        match found {
            Some(idx) => {
                match self {
                    State::Lobby(l) => l.got_tcp_packet(core, idx, packet, out),
                    State::MapVote(v) => v.got_tcp_packet(core, idx, packet, out),
                    State::CharacterSelect(c) => c.got_tcp_packet(core, idx, packet, out),
                    State::Game(g) => g.got_tcp_packet(core, idx, packet, out),
                }
            },
            None => Ok(()),
        }
    }

    /// One UDP datagram, addressed by the runtime's token for the sender's
    /// return address. Only the game listens; an error is for the log.
    pub fn got_udp_packet(
        &mut self,
        core: &mut ServerCore,
        addr: u64,
        packet: &mut Packet,
        out: &mut Vec<Output>,
    ) -> (r: Result<(), &'static str>)
        requires
            old(self).wf(),
            old(packet).pos() == 0,
        ensures
            final(self).wf(),
            *final(core) == *old(core),
            !(*old(self) is Game) ==> *final(self) == *old(self) && final(out)@ == old(out)@,
    {
        match self {
            State::Game(g) => g.got_udp_packet(&*core, addr, packet, out),
            _ => Ok(()),
        }
    }
}

/// The state a transition value names, viewed for specification.
pub open spec fn state_as_next(s: State) -> NextState {
    match s {
        State::Lobby(l) => NextState::Lobby(l),
        State::MapVote(v) => NextState::MapVote(v),
        State::CharacterSelect(c) => NextState::CharacterSelect(c),
        State::Game(g) => NextState::Game(g),
    }
}

/// Unwrap a transition into the state it names.
fn next_to_state(n: NextState) -> (r: State)
    ensures
        state_as_next(r) == n,
        n is Lobby <==> r is Lobby,
        n is MapVote <==> r is MapVote,
        n is CharacterSelect <==> r is CharacterSelect,
        n is Game <==> r is Game,
{
    match n {
        NextState::Lobby(l) => State::Lobby(l),
        NextState::MapVote(v) => State::MapVote(v),
        NextState::CharacterSelect(c) => State::CharacterSelect(c),
        NextState::Game(g) => State::Game(g),
    }
}

} // verus!
