//! Peers and players: the per-connection record a sub-server keeps, the
//! per-match player sub-record, and the character tags, together with the
//! sub-server core that owns the peer table and the id counter.

use vstd::prelude::*;
use crate::rng::rand_range_u8;

verus! {

/// The survivor-side character tags.
#[derive(Clone, Copy, PartialEq, Eq, Structural, Debug)]
pub enum SurvivorCharacter {
    Exe,
    Tails,
    Knuckles,
    Eggman,
    Amy,
    Cream,
    Sally,
}

impl SurvivorCharacter {
    pub open spec fn spec_code(self) -> u8 {
        match self {
            SurvivorCharacter::Exe => 0,
            SurvivorCharacter::Tails => 1,
            SurvivorCharacter::Knuckles => 2,
            SurvivorCharacter::Eggman => 3,
            SurvivorCharacter::Amy => 4,
            SurvivorCharacter::Cream => 5,
            SurvivorCharacter::Sally => 6,
        }
    }

    /// The wire code of this character.
    pub fn code(self) -> (r: u8)
        ensures
            r == self.spec_code(),
    {
        match self {
            SurvivorCharacter::Exe => 0,
            SurvivorCharacter::Tails => 1,
            SurvivorCharacter::Knuckles => 2,
            SurvivorCharacter::Eggman => 3,
            SurvivorCharacter::Amy => 4,
            SurvivorCharacter::Cream => 5,
            SurvivorCharacter::Sally => 6,
        }
    }

    /// The character a wire code names, if any.
    pub fn from_code(v: u8) -> (r: Option<SurvivorCharacter>)
        ensures
            match r {
                Some(c) => c.spec_code() == v,
                None => v >= 7,
            },
    {
        match v {
            0 => Some(SurvivorCharacter::Exe),
            1 => Some(SurvivorCharacter::Tails),
            2 => Some(SurvivorCharacter::Knuckles),
            3 => Some(SurvivorCharacter::Eggman),
            4 => Some(SurvivorCharacter::Amy),
            5 => Some(SurvivorCharacter::Cream),
            6 => Some(SurvivorCharacter::Sally),
            _ => None,
        }
    }
}

/// The killer-side character tags.
#[derive(Clone, Copy, PartialEq, Eq, Structural, Debug)]
pub enum ExeCharacter {
    Original,
    Chaos,
    Exetior,
    Exeller,
}

impl ExeCharacter {
    pub open spec fn spec_code(self) -> u8 {
        match self {
            ExeCharacter::Original => 0,
            ExeCharacter::Chaos => 1,
            ExeCharacter::Exetior => 2,
            ExeCharacter::Exeller => 3,
        }
    }

    /// The wire code of this character.
    pub fn code(self) -> (r: u8)
        ensures
            r == self.spec_code(),
    {
        match self {
            ExeCharacter::Original => 0,
            ExeCharacter::Chaos => 1,
            ExeCharacter::Exetior => 2,
            ExeCharacter::Exeller => 3,
        }
    }

    /// The character a wire code names, if any.
    pub fn from_code(v: u8) -> (r: Option<ExeCharacter>)
        ensures
            match r {
                Some(c) => c.spec_code() == v,
                None => v >= 4,
            },
    {
        match v {
            0 => Some(ExeCharacter::Original),
            1 => Some(ExeCharacter::Chaos),
            2 => Some(ExeCharacter::Exetior),
            3 => Some(ExeCharacter::Exeller),
            _ => None,
        }
    }
}

/// A revival in progress on a downed survivor. Progress is kept in
/// thousandths, so one contribution adds `15 + 4 * carried_rings` and the
/// revival completes at 1000.
pub struct PlayerRevival {
    /// Progress towards revival, in thousandths of the whole.
    pub progress: u32,
    /// The peers contributing to this revival.
    pub initiators: Vec<u16>,
}

/// The per-match record a peer acquires when a match begins.
pub struct Player {
    /// The chosen survivor character, once requested.
    pub ch1: Option<SurvivorCharacter>,
    /// The chosen killer character, once requested.
    pub ch2: Option<ExeCharacter>,
    /// True for the single killer of the match.
    pub exe: bool,
    /// How often this player has died; 2 means demonized.
    pub revival_times: u8,
    /// Remaining death-timer frames; -1 when inactive.
    pub death_timer: i32,
    /// True once the player left through the big ring.
    pub escaped: bool,
    /// True while the player is down.
    pub dead: bool,
    /// True while the player carries the red-ring handicap.
    pub red_ring: bool,
    /// The revival being worked on this player.
    pub revival: PlayerRevival,
}

impl Player {
    /// A fresh player record: no characters chosen, alive, nothing pending.
    pub fn new() -> (r: Player)
        ensures
            r.ch1 is None,
            r.ch2 is None,
            !r.exe,
            r.revival_times == 0,
            r.death_timer == 0,
            !r.escaped,
            !r.dead,
            !r.red_ring,
            r.revival.progress == 0,
            r.revival.initiators@ =~= Seq::<u16>::empty(),
    {
        Player {
            ch1: None,
            ch2: None,
            exe: false,
            revival_times: 0,
            death_timer: 0,
            escaped: false,
            dead: false,
            red_ring: false,
            revival: PlayerRevival { progress: 0, initiators: Vec::new() },
        }
    }
}

/// One connected client as the session logic sees it. The socket itself
/// lives with the runtime; the logic addresses the peer by its id.
pub struct Peer {
    /// The server-assigned id; zero is reserved.
    pub id: u16,
    /// Seconds of inactivity, for the AFK countdowns.
    pub timer: u16,
    /// Display nickname, truncated to fifteen characters.
    pub nickname: String,
    /// Device identifier string reported at identity.
    pub udid: String,
    /// Lobby icon index.
    pub lobby_icon: u8,
    /// Pet id.
    pub pet: i8,
    /// True until IDENTITY has been received and accepted.
    pub pending: bool,
    /// Lobby readiness.
    pub ready: bool,
    /// True when placed mid-match and awaiting the next lobby.
    pub in_queue: bool,
    /// Weighted probability (percent) of being picked as the killer.
    pub exe_chance: u8,
    /// The per-match record, present once a match begins.
    pub player: Option<Player>,
}

impl Peer {
    /// An active participant: identified and not waiting in the queue.
    pub open spec fn is_real(&self) -> bool {
        !self.pending && !self.in_queue
    }

    /// The server-assigned id of this peer.
    pub fn peer_id(&self) -> (r: u16)
        ensures
            r == self.id,
    {
        self.id
    }
}

/// How many peers of `s` are active participants.
pub open spec fn spec_real_count(s: Seq<Peer>) -> int
    decreases s.len(),
{
    if s.len() == 0 {
        0
    } else {
        spec_real_count(s.drop_last()) + if s.last().is_real() {
            1int
        } else {
            0int
        }
    }
}

/// Counting a prefix one element longer adds that element's contribution.
pub proof fn lemma_real_count_snoc(s: Seq<Peer>, i: int)
    requires
        0 <= i < s.len(),
    ensures
        spec_real_count(s.subrange(0, i + 1)) == spec_real_count(s.subrange(0, i)) + if s[i].is_real() {
            1int
        } else {
            0int
        },
{
    assert(s.subrange(0, i + 1).drop_last() =~= s.subrange(0, i));
    assert(s.subrange(0, i + 1).last() == s[i]);
}

/// The count of active participants never exceeds the table's length.
pub proof fn lemma_real_count_le_len(s: Seq<Peer>)
    ensures
        0 <= spec_real_count(s) <= s.len(),
    decreases s.len(),
{
    if s.len() > 0 {
        lemma_real_count_le_len(s.drop_last());
    }
}

/// No two peers of `s` share an id.
pub open spec fn ids_unique(s: Seq<Peer>) -> bool {
    forall|i: int, j: int| 0 <= i < j < s.len() ==> s[i].id != s[j].id
}

/// The sub-server core: the table of connected peers, the id counter, and
/// the UDP port the sub-server answers on.
pub struct ServerCore {
    /// The UDP port of this sub-server, echoed in identity responses.
    pub udp_port: u16,
    /// All connected peers, the pending ones included.
    pub peers: Vec<Peer>,
    /// The last id handed out; wraps and skips zero.
    pub id_count: u16,
}

impl ServerCore {
    /// A fresh core with an empty peer table.
    pub fn new(udp_port: u16) -> (r: ServerCore)
        ensures
            r.udp_port == udp_port,
            r.peers@.len() == 0,
            r.id_count == 0,
    {
        ServerCore { udp_port, peers: Vec::new(), id_count: 0 }
    }

    /// The next peer id: the counter advances by one, wraps, and skips the
    /// reserved id zero.
    pub fn next_peer_id(&mut self) -> (r: u16)
        ensures
            final(self).udp_port == old(self).udp_port,
            final(self).peers == old(self).peers,
            r == final(self).id_count,
            r != 0,
            final(self).id_count == if old(self).id_count == 0xFFFFu16 {
                1u16
            } else {
                (old(self).id_count + 1) as u16
            },
    {
        if self.id_count == 0xFFFF {
            self.id_count = 1;
        } else {
            self.id_count = self.id_count + 1;
        }
        self.id_count
    }

    /// The position of the peer with this id, if it is connected.
    pub fn find_peer(&self, id: u16) -> (r: Option<usize>)
        ensures
            match r {
                Some(i) => i < self.peers@.len() && self.peers@[i as int].id == id,
                None => forall|i: int| 0 <= i < self.peers@.len() ==> self.peers@[i].id != id,
            },
    {
        let mut i: usize = 0;
        while i < self.peers.len()
            invariant
                i <= self.peers@.len(),
                forall|j: int| 0 <= j < i ==> self.peers@[j].id != id,
            decreases self.peers@.len() - i,
        {
            if self.peers[i].id == id {
                return Some(i);
            }
            i = i + 1;
        }
        None
    }

    /// How many connected peers are active participants.
    pub fn count_real(&self) -> (r: usize)
        ensures
            r == spec_real_count(self.peers@),
    {
        proof {
            lemma_real_count_le_len(self.peers@);
        }
        let mut count: usize = 0;
        let mut i: usize = 0;
        while i < self.peers.len()
            invariant
                i <= self.peers@.len(),
                count == spec_real_count(self.peers@.subrange(0, i as int)),
                count <= i,
            decreases self.peers@.len() - i,
        {
            proof {
                lemma_real_count_snoc(self.peers@, i as int);
            }
            let p = &self.peers[i];
            if !p.pending && !p.in_queue {
                count = count + 1;
            }
            i = i + 1;
        }
        assert(self.peers@.subrange(0, self.peers@.len() as int) =~= self.peers@);
        count
    }
}

/// A freshly connected peer: pending, queued, with a small random starting
/// killer chance.
pub fn new_peer(id: u16) -> (r: Peer)
    ensures
        r.id == id,
        r.pending,
        r.in_queue,
        !r.ready,
        r.timer == 0,
        2 <= r.exe_chance < 5,
        r.player is None,
{
    let chance = rand_range_u8(2, 5);
    Peer {
        id,
        timer: 0,
        nickname: new_string(),
        udid: new_string(),
        lobby_icon: 0,
        pet: 0,
        pending: true,
        ready: false,
        in_queue: true,
        exe_chance: chance,
        player: None,
    }
}

/// An empty string.
pub fn new_string() -> (r: String)
    ensures
        r@ =~= Seq::<char>::empty(),
{
    proof {
        reveal_strlit("");
    }
    "".to_owned()
}



/// How many peers of `s` are active participants that have readied up.
pub open spec fn spec_ready_count(s: Seq<Peer>) -> int
    decreases s.len(),
{
    if s.len() == 0 {
        0
    } else {
        spec_ready_count(s.drop_last()) + if s.last().is_real() && s.last().ready {
            1int
        } else {
            0int
        }
    }
}

/// Counting a prefix one element longer adds that element's contribution.
pub proof fn lemma_ready_count_snoc(s: Seq<Peer>, i: int)
    requires
        0 <= i < s.len(),
    ensures
        spec_ready_count(s.subrange(0, i + 1)) == spec_ready_count(s.subrange(0, i)) + if s[i].is_real() && s[i].ready {
            1int
        } else {
            0int
        },
{
    assert(s.subrange(0, i + 1).drop_last() =~= s.subrange(0, i));
    assert(s.subrange(0, i + 1).last() == s[i]);
}

/// The cores agree everywhere except possibly at peer position `i`: same
/// port, same id counter, same table length, and every other slot equal.
pub open spec fn core_same_except(pre: ServerCore, post: ServerCore, i: int) -> bool {
    &&& post.udp_port == pre.udp_port
    &&& post.id_count == pre.id_count
    &&& post.peers@.len() == pre.peers@.len()
    &&& forall|j: int| 0 <= j < pre.peers@.len() && j != i ==> post.peers@[j] == pre.peers@[j]
}

} // verus!
