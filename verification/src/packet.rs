//! Little-endian packet codec. A packet is a byte buffer with a read cursor:
//! a freshly built packet starts with one reserved passthrough byte (zero)
//! and one packet-type byte, and writers append primitives after them. Every
//! reader returns a recoverable error instead of passing the buffer end, so
//! a malformed packet can never take the process down. On TCP the packet
//! travels length-prefixed (one length byte, at most 255 bytes of payload);
//! on UDP it travels as the bare buffer.

use vstd::prelude::*;
use vstd::bytes::{
    spec_u16_to_le_bytes, spec_u16_from_le_bytes, lemma_auto_spec_u16_to_from_le_bytes,
    u16_to_le_bytes, u16_from_le_bytes, spec_u32_to_le_bytes, spec_u32_from_le_bytes,
    lemma_auto_spec_u32_to_from_le_bytes, u32_to_le_bytes, u32_from_le_bytes,
    spec_u64_to_le_bytes, spec_u64_from_le_bytes, lemma_auto_spec_u64_to_from_le_bytes,
    u64_to_le_bytes, u64_from_le_bytes,
};
use vstd::slice::{slice_subrange, slice_to_vec};
use vstd::string::StringSliceAdditionalSpecFns;
use vstd::string::StrSliceExecFns;
use vstd::utf8::{valid_utf8, decode_utf8, encode_utf8, encode_scalar, has_width_1_encoding,
    has_width_2_encoding, has_width_3_encoding};

verus! {

/// The wire opcode registry shared with clients; the order of the variants is
/// the wire encoding and must stay stable.
#[derive(Clone, Copy, PartialEq, Eq, Structural, Debug)]
pub enum PacketType {
    Identity,
    ServerIdentityResponse,
    ServerPlayerJoined,
    ServerPlayerLeft,
    ServerPlayerForceDisconnect,
    ServerLobbyReadyState,
    ServerLobbyExe,
    ServerLobbyCountdown,
    ServerLobbyExeChange,
    ServerLobbyCharacterChange,
    ServerLobbyCharacterResponse,
    ServerLobbyExecharacterResponse,
    ServerLobbyGameStart,
    ServerLobbyPlayer,
    ServerLobbyExeChance,
    ServerLobbyCorrect,
    ServerLobbyVotekick,
    ServerCharTimeSync,
    ServerVoteMaps,
    ServerVoteSet,
    ServerVoteTimeSync,
    ServerGamePlayersReady,
    ServerGameExeWins,
    ServerGameSurvivorWin,
    ServerGameSpawnRing,
    ServerGamePlayerEscaped,
    ServerGameBackToLobby,
    ServerGameTimeSync,
    ServerGameTimeOver,
    ServerGamePing,
    ServerPlayerDeathState,
    ServerGameDeathtimerTick,
    ServerGameDeathtimerEnd,
    ServerRequestInfo,
    ServerHeartbeat,
    ServerPong,
    ServerForceDamage,
    ServerGameRingReady,
    ServerPlayerBacktrack,
    ServerTprojectileState,
    ServerEtrackerState,
    ServerErectorBringSpawn,
    ServerRmzslimeState,
    ServerRmzslimeRingbonus,
    ServerRmzshardState,
    ServerLceyeState,
    ServerLcchainState,
    ServerNpcontrollerState,
    ServerKafmonitorState,
    ServerYcrsmokeState,
    ServerYcrsmokeReady,
    ServerMovingspikeState,
    ServerRingState,
    ServerRingCollected,
    ServerAct9wallState,
    ServerNapballState,
    ServerNapiceState,
    ServerPfliftState,
    ServerBringState,
    ServerBringCollected,
    ServerVvlcolumnState,
    ServerVvvaseState,
    ServerGhzthunderState,
    ServerTcgomState,
    ServerExellercloneState,
    ServerDttailsdollState,
    ServerDtballState,
    ServerDtassState,
    ServerHddoorState,
    ServerFartState,
    ClientEtracker,
    ClientEtrackerActivated,
    ClientTprojectile,
    ClientTprojectileHit,
    ClientErectorBalls,
    ClientErectorBringSpawn,
    ClientExellerSpawnClone,
    ClientExellerTeleportClone,
    ClientMercoinBonus,
    ClientRmzslimeHit,
    ClientLceyeRequestActivate,
    ClientKafmonitorActivate,
    ClientRingCollected,
    ClientBringCollected,
    ClientNapiceActivate,
    ClientSpringUse,
    ClientPflitActivate,
    ClientVvvaseBreak,
    ClientRmzshardCollect,
    ClientRmzshardLand,
    ClientDtassActivate,
    ClientHddoorToggle,
    ClientFartPush,
    ClientLobbyReadyState,
    ClientRequestedInfo,
    ClientPlayerData,
    ClientPlayerHurt,
    ClientSoundEmit,
    ClientPing,
    ClientRevivalProgress,
    ClientPlayerHeal,
    ClientPlayerHealPart,
    ServerRevivalProgress,
    ServerRevivalStatus,
    ServerRevivalRingsub,
    ServerRevivalRevived,
    ClientRequestCharacter,
    ClientRequestExecharacter,
    ClientVoteRequest,
    ClientPlayerDeathState,
    ClientPlayerEscaped,
    ClientLobbyPlayersRequest,
    ClientCreamSpawnRings,
    ClientSpawnEffect,
    ClientChatMessage,
    ClientLobbyVotekick,
    ClientPlayerPallete,
    ClientPetPallete,
    ClientPlayerPotater,
}

impl PacketType {
    pub open spec fn spec_code(self) -> u8 {
        match self {
            PacketType::Identity => 0,
            PacketType::ServerIdentityResponse => 1,
            PacketType::ServerPlayerJoined => 2,
            PacketType::ServerPlayerLeft => 3,
            PacketType::ServerPlayerForceDisconnect => 4,
            PacketType::ServerLobbyReadyState => 5,
            PacketType::ServerLobbyExe => 6,
            PacketType::ServerLobbyCountdown => 7,
            PacketType::ServerLobbyExeChange => 8,
            PacketType::ServerLobbyCharacterChange => 9,
            PacketType::ServerLobbyCharacterResponse => 10,
            PacketType::ServerLobbyExecharacterResponse => 11,
            PacketType::ServerLobbyGameStart => 12,
            PacketType::ServerLobbyPlayer => 13,
            PacketType::ServerLobbyExeChance => 14,
            PacketType::ServerLobbyCorrect => 15,
            PacketType::ServerLobbyVotekick => 16,
            PacketType::ServerCharTimeSync => 17,
            PacketType::ServerVoteMaps => 18,
            PacketType::ServerVoteSet => 19,
            PacketType::ServerVoteTimeSync => 20,
            PacketType::ServerGamePlayersReady => 21,
            PacketType::ServerGameExeWins => 22,
            PacketType::ServerGameSurvivorWin => 23,
            PacketType::ServerGameSpawnRing => 24,
            PacketType::ServerGamePlayerEscaped => 25,
            PacketType::ServerGameBackToLobby => 26,
            PacketType::ServerGameTimeSync => 27,
            PacketType::ServerGameTimeOver => 28,
            PacketType::ServerGamePing => 29,
            PacketType::ServerPlayerDeathState => 30,
            PacketType::ServerGameDeathtimerTick => 31,
            PacketType::ServerGameDeathtimerEnd => 32,
            PacketType::ServerRequestInfo => 33,
            PacketType::ServerHeartbeat => 34,
            PacketType::ServerPong => 35,
            PacketType::ServerForceDamage => 36,
            PacketType::ServerGameRingReady => 37,
            PacketType::ServerPlayerBacktrack => 38,
            PacketType::ServerTprojectileState => 39,
            PacketType::ServerEtrackerState => 40,
            PacketType::ServerErectorBringSpawn => 41,
            PacketType::ServerRmzslimeState => 42,
            PacketType::ServerRmzslimeRingbonus => 43,
            PacketType::ServerRmzshardState => 44,
            PacketType::ServerLceyeState => 45,
            PacketType::ServerLcchainState => 46,
            PacketType::ServerNpcontrollerState => 47,
            PacketType::ServerKafmonitorState => 48,
            PacketType::ServerYcrsmokeState => 49,
            PacketType::ServerYcrsmokeReady => 50,
            PacketType::ServerMovingspikeState => 51,
            PacketType::ServerRingState => 52,
            PacketType::ServerRingCollected => 53,
            PacketType::ServerAct9wallState => 54,
            PacketType::ServerNapballState => 55,
            PacketType::ServerNapiceState => 56,
            PacketType::ServerPfliftState => 57,
            PacketType::ServerBringState => 58,
            PacketType::ServerBringCollected => 59,
            PacketType::ServerVvlcolumnState => 60,
            PacketType::ServerVvvaseState => 61,
            PacketType::ServerGhzthunderState => 62,
            PacketType::ServerTcgomState => 63,
            PacketType::ServerExellercloneState => 64,
            PacketType::ServerDttailsdollState => 65,
            PacketType::ServerDtballState => 66,
            PacketType::ServerDtassState => 67,
            PacketType::ServerHddoorState => 68,
            PacketType::ServerFartState => 69,
            PacketType::ClientEtracker => 70,
            PacketType::ClientEtrackerActivated => 71,
            PacketType::ClientTprojectile => 72,
            PacketType::ClientTprojectileHit => 73,
            PacketType::ClientErectorBalls => 74,
            PacketType::ClientErectorBringSpawn => 75,
            PacketType::ClientExellerSpawnClone => 76,
            PacketType::ClientExellerTeleportClone => 77,
            PacketType::ClientMercoinBonus => 78,
            PacketType::ClientRmzslimeHit => 79,
            PacketType::ClientLceyeRequestActivate => 80,
            PacketType::ClientKafmonitorActivate => 81,
            PacketType::ClientRingCollected => 82,
            PacketType::ClientBringCollected => 83,
            PacketType::ClientNapiceActivate => 84,
            PacketType::ClientSpringUse => 85,
            PacketType::ClientPflitActivate => 86,
            PacketType::ClientVvvaseBreak => 87,
            PacketType::ClientRmzshardCollect => 88,
            PacketType::ClientRmzshardLand => 89,
            PacketType::ClientDtassActivate => 90,
            PacketType::ClientHddoorToggle => 91,
            PacketType::ClientFartPush => 92,
            PacketType::ClientLobbyReadyState => 93,
            PacketType::ClientRequestedInfo => 94,
            PacketType::ClientPlayerData => 95,
            PacketType::ClientPlayerHurt => 96,
            PacketType::ClientSoundEmit => 97,
            PacketType::ClientPing => 98,
            PacketType::ClientRevivalProgress => 99,
            PacketType::ClientPlayerHeal => 100,
            PacketType::ClientPlayerHealPart => 101,
            PacketType::ServerRevivalProgress => 102,
            PacketType::ServerRevivalStatus => 103,
            PacketType::ServerRevivalRingsub => 104,
            PacketType::ServerRevivalRevived => 105,
            PacketType::ClientRequestCharacter => 106,
            PacketType::ClientRequestExecharacter => 107,
            PacketType::ClientVoteRequest => 108,
            PacketType::ClientPlayerDeathState => 109,
            PacketType::ClientPlayerEscaped => 110,
            PacketType::ClientLobbyPlayersRequest => 111,
            PacketType::ClientCreamSpawnRings => 112,
            PacketType::ClientSpawnEffect => 113,
            PacketType::ClientChatMessage => 114,
            PacketType::ClientLobbyVotekick => 115,
            PacketType::ClientPlayerPallete => 116,
            PacketType::ClientPetPallete => 117,
            PacketType::ClientPlayerPotater => 118,
        }
    }

    pub fn code(self) -> (r: u8)
        ensures
            r == self.spec_code(),
    {
        match self {
            PacketType::Identity => 0,
            PacketType::ServerIdentityResponse => 1,
            PacketType::ServerPlayerJoined => 2,
            PacketType::ServerPlayerLeft => 3,
            PacketType::ServerPlayerForceDisconnect => 4,
            PacketType::ServerLobbyReadyState => 5,
            PacketType::ServerLobbyExe => 6,
            PacketType::ServerLobbyCountdown => 7,
            PacketType::ServerLobbyExeChange => 8,
            PacketType::ServerLobbyCharacterChange => 9,
            PacketType::ServerLobbyCharacterResponse => 10,
            PacketType::ServerLobbyExecharacterResponse => 11,
            PacketType::ServerLobbyGameStart => 12,
            PacketType::ServerLobbyPlayer => 13,
            PacketType::ServerLobbyExeChance => 14,
            PacketType::ServerLobbyCorrect => 15,
            PacketType::ServerLobbyVotekick => 16,
            PacketType::ServerCharTimeSync => 17,
            PacketType::ServerVoteMaps => 18,
            PacketType::ServerVoteSet => 19,
            PacketType::ServerVoteTimeSync => 20,
            PacketType::ServerGamePlayersReady => 21,
            PacketType::ServerGameExeWins => 22,
            PacketType::ServerGameSurvivorWin => 23,
            PacketType::ServerGameSpawnRing => 24,
            PacketType::ServerGamePlayerEscaped => 25,
            PacketType::ServerGameBackToLobby => 26,
            PacketType::ServerGameTimeSync => 27,
            PacketType::ServerGameTimeOver => 28,
            PacketType::ServerGamePing => 29,
            PacketType::ServerPlayerDeathState => 30,
            PacketType::ServerGameDeathtimerTick => 31,
            PacketType::ServerGameDeathtimerEnd => 32,
            PacketType::ServerRequestInfo => 33,
            PacketType::ServerHeartbeat => 34,
            PacketType::ServerPong => 35,
            PacketType::ServerForceDamage => 36,
            PacketType::ServerGameRingReady => 37,
            PacketType::ServerPlayerBacktrack => 38,
            PacketType::ServerTprojectileState => 39,
            PacketType::ServerEtrackerState => 40,
            PacketType::ServerErectorBringSpawn => 41,
            PacketType::ServerRmzslimeState => 42,
            PacketType::ServerRmzslimeRingbonus => 43,
            PacketType::ServerRmzshardState => 44,
            PacketType::ServerLceyeState => 45,
            PacketType::ServerLcchainState => 46,
            PacketType::ServerNpcontrollerState => 47,
            PacketType::ServerKafmonitorState => 48,
            PacketType::ServerYcrsmokeState => 49,
            PacketType::ServerYcrsmokeReady => 50,
            PacketType::ServerMovingspikeState => 51,
            PacketType::ServerRingState => 52,
            PacketType::ServerRingCollected => 53,
            PacketType::ServerAct9wallState => 54,
            PacketType::ServerNapballState => 55,
            PacketType::ServerNapiceState => 56,
            PacketType::ServerPfliftState => 57,
            PacketType::ServerBringState => 58,
            PacketType::ServerBringCollected => 59,
            PacketType::ServerVvlcolumnState => 60,
            PacketType::ServerVvvaseState => 61,
            PacketType::ServerGhzthunderState => 62,
            PacketType::ServerTcgomState => 63,
            PacketType::ServerExellercloneState => 64,
            PacketType::ServerDttailsdollState => 65,
            PacketType::ServerDtballState => 66,
            PacketType::ServerDtassState => 67,
            PacketType::ServerHddoorState => 68,
            PacketType::ServerFartState => 69,
            PacketType::ClientEtracker => 70,
            PacketType::ClientEtrackerActivated => 71,
            PacketType::ClientTprojectile => 72,
            PacketType::ClientTprojectileHit => 73,
            PacketType::ClientErectorBalls => 74,
            PacketType::ClientErectorBringSpawn => 75,
            PacketType::ClientExellerSpawnClone => 76,
            PacketType::ClientExellerTeleportClone => 77,
            PacketType::ClientMercoinBonus => 78,
            PacketType::ClientRmzslimeHit => 79,
            PacketType::ClientLceyeRequestActivate => 80,
            PacketType::ClientKafmonitorActivate => 81,
            PacketType::ClientRingCollected => 82,
            PacketType::ClientBringCollected => 83,
            PacketType::ClientNapiceActivate => 84,
            PacketType::ClientSpringUse => 85,
            PacketType::ClientPflitActivate => 86,
            PacketType::ClientVvvaseBreak => 87,
            PacketType::ClientRmzshardCollect => 88,
            PacketType::ClientRmzshardLand => 89,
            PacketType::ClientDtassActivate => 90,
            PacketType::ClientHddoorToggle => 91,
            PacketType::ClientFartPush => 92,
            PacketType::ClientLobbyReadyState => 93,
            PacketType::ClientRequestedInfo => 94,
            PacketType::ClientPlayerData => 95,
            PacketType::ClientPlayerHurt => 96,
            PacketType::ClientSoundEmit => 97,
            PacketType::ClientPing => 98,
            PacketType::ClientRevivalProgress => 99,
            PacketType::ClientPlayerHeal => 100,
            PacketType::ClientPlayerHealPart => 101,
            PacketType::ServerRevivalProgress => 102,
            PacketType::ServerRevivalStatus => 103,
            PacketType::ServerRevivalRingsub => 104,
            PacketType::ServerRevivalRevived => 105,
            PacketType::ClientRequestCharacter => 106,
            PacketType::ClientRequestExecharacter => 107,
            PacketType::ClientVoteRequest => 108,
            PacketType::ClientPlayerDeathState => 109,
            PacketType::ClientPlayerEscaped => 110,
            PacketType::ClientLobbyPlayersRequest => 111,
            PacketType::ClientCreamSpawnRings => 112,
            PacketType::ClientSpawnEffect => 113,
            PacketType::ClientChatMessage => 114,
            PacketType::ClientLobbyVotekick => 115,
            PacketType::ClientPlayerPallete => 116,
            PacketType::ClientPetPallete => 117,
            PacketType::ClientPlayerPotater => 118,
        }
    }

    pub fn from_code(v: u8) -> (r: Option<PacketType>)
        ensures
            match r {
                Some(t) => t.spec_code() == v,
                None => v >= 119,
            },
    {
        match v {
            0 => Some(PacketType::Identity),
            1 => Some(PacketType::ServerIdentityResponse),
            2 => Some(PacketType::ServerPlayerJoined),
            3 => Some(PacketType::ServerPlayerLeft),
            4 => Some(PacketType::ServerPlayerForceDisconnect),
            5 => Some(PacketType::ServerLobbyReadyState),
            6 => Some(PacketType::ServerLobbyExe),
            7 => Some(PacketType::ServerLobbyCountdown),
            8 => Some(PacketType::ServerLobbyExeChange),
            9 => Some(PacketType::ServerLobbyCharacterChange),
            10 => Some(PacketType::ServerLobbyCharacterResponse),
            11 => Some(PacketType::ServerLobbyExecharacterResponse),
            12 => Some(PacketType::ServerLobbyGameStart),
            13 => Some(PacketType::ServerLobbyPlayer),
            14 => Some(PacketType::ServerLobbyExeChance),
            15 => Some(PacketType::ServerLobbyCorrect),
            16 => Some(PacketType::ServerLobbyVotekick),
            17 => Some(PacketType::ServerCharTimeSync),
            18 => Some(PacketType::ServerVoteMaps),
            19 => Some(PacketType::ServerVoteSet),
            20 => Some(PacketType::ServerVoteTimeSync),
            21 => Some(PacketType::ServerGamePlayersReady),
            22 => Some(PacketType::ServerGameExeWins),
            23 => Some(PacketType::ServerGameSurvivorWin),
            24 => Some(PacketType::ServerGameSpawnRing),
            25 => Some(PacketType::ServerGamePlayerEscaped),
            26 => Some(PacketType::ServerGameBackToLobby),
            27 => Some(PacketType::ServerGameTimeSync),
            28 => Some(PacketType::ServerGameTimeOver),
            29 => Some(PacketType::ServerGamePing),
            30 => Some(PacketType::ServerPlayerDeathState),
            31 => Some(PacketType::ServerGameDeathtimerTick),
            32 => Some(PacketType::ServerGameDeathtimerEnd),
            33 => Some(PacketType::ServerRequestInfo),
            34 => Some(PacketType::ServerHeartbeat),
            35 => Some(PacketType::ServerPong),
            36 => Some(PacketType::ServerForceDamage),
            37 => Some(PacketType::ServerGameRingReady),
            38 => Some(PacketType::ServerPlayerBacktrack),
            39 => Some(PacketType::ServerTprojectileState),
            40 => Some(PacketType::ServerEtrackerState),
            41 => Some(PacketType::ServerErectorBringSpawn),
            42 => Some(PacketType::ServerRmzslimeState),
            43 => Some(PacketType::ServerRmzslimeRingbonus),
            44 => Some(PacketType::ServerRmzshardState),
            45 => Some(PacketType::ServerLceyeState),
            46 => Some(PacketType::ServerLcchainState),
            47 => Some(PacketType::ServerNpcontrollerState),
            48 => Some(PacketType::ServerKafmonitorState),
            49 => Some(PacketType::ServerYcrsmokeState),
            50 => Some(PacketType::ServerYcrsmokeReady),
            51 => Some(PacketType::ServerMovingspikeState),
            52 => Some(PacketType::ServerRingState),
            53 => Some(PacketType::ServerRingCollected),
            54 => Some(PacketType::ServerAct9wallState),
            55 => Some(PacketType::ServerNapballState),
            56 => Some(PacketType::ServerNapiceState),
            57 => Some(PacketType::ServerPfliftState),
            58 => Some(PacketType::ServerBringState),
            59 => Some(PacketType::ServerBringCollected),
            60 => Some(PacketType::ServerVvlcolumnState),
            61 => Some(PacketType::ServerVvvaseState),
            62 => Some(PacketType::ServerGhzthunderState),
            63 => Some(PacketType::ServerTcgomState),
            64 => Some(PacketType::ServerExellercloneState),
            65 => Some(PacketType::ServerDttailsdollState),
            66 => Some(PacketType::ServerDtballState),
            67 => Some(PacketType::ServerDtassState),
            68 => Some(PacketType::ServerHddoorState),
            69 => Some(PacketType::ServerFartState),
            70 => Some(PacketType::ClientEtracker),
            71 => Some(PacketType::ClientEtrackerActivated),
            72 => Some(PacketType::ClientTprojectile),
            73 => Some(PacketType::ClientTprojectileHit),
            74 => Some(PacketType::ClientErectorBalls),
            75 => Some(PacketType::ClientErectorBringSpawn),
            76 => Some(PacketType::ClientExellerSpawnClone),
            77 => Some(PacketType::ClientExellerTeleportClone),
            78 => Some(PacketType::ClientMercoinBonus),
            79 => Some(PacketType::ClientRmzslimeHit),
            80 => Some(PacketType::ClientLceyeRequestActivate),
            81 => Some(PacketType::ClientKafmonitorActivate),
            82 => Some(PacketType::ClientRingCollected),
            83 => Some(PacketType::ClientBringCollected),
            84 => Some(PacketType::ClientNapiceActivate),
            85 => Some(PacketType::ClientSpringUse),
            86 => Some(PacketType::ClientPflitActivate),
            87 => Some(PacketType::ClientVvvaseBreak),
            88 => Some(PacketType::ClientRmzshardCollect),
            89 => Some(PacketType::ClientRmzshardLand),
            90 => Some(PacketType::ClientDtassActivate),
            91 => Some(PacketType::ClientHddoorToggle),
            92 => Some(PacketType::ClientFartPush),
            93 => Some(PacketType::ClientLobbyReadyState),
            94 => Some(PacketType::ClientRequestedInfo),
            95 => Some(PacketType::ClientPlayerData),
            96 => Some(PacketType::ClientPlayerHurt),
            97 => Some(PacketType::ClientSoundEmit),
            98 => Some(PacketType::ClientPing),
            99 => Some(PacketType::ClientRevivalProgress),
            100 => Some(PacketType::ClientPlayerHeal),
            101 => Some(PacketType::ClientPlayerHealPart),
            102 => Some(PacketType::ServerRevivalProgress),
            103 => Some(PacketType::ServerRevivalStatus),
            104 => Some(PacketType::ServerRevivalRingsub),
            105 => Some(PacketType::ServerRevivalRevived),
            106 => Some(PacketType::ClientRequestCharacter),
            107 => Some(PacketType::ClientRequestExecharacter),
            108 => Some(PacketType::ClientVoteRequest),
            109 => Some(PacketType::ClientPlayerDeathState),
            110 => Some(PacketType::ClientPlayerEscaped),
            111 => Some(PacketType::ClientLobbyPlayersRequest),
            112 => Some(PacketType::ClientCreamSpawnRings),
            113 => Some(PacketType::ClientSpawnEffect),
            114 => Some(PacketType::ClientChatMessage),
            115 => Some(PacketType::ClientLobbyVotekick),
            116 => Some(PacketType::ClientPlayerPallete),
            117 => Some(PacketType::ClientPetPallete),
            118 => Some(PacketType::ClientPlayerPotater),
            _ => None,
        }
    }
}


/// The bytes of a freshly built packet: the reserved passthrough byte, then
/// the type code.
pub open spec fn spec_packet(t: PacketType) -> Seq<u8> {
    seq![0u8, t.spec_code()]
}

/// A byte buffer with a read cursor.
pub struct Packet {
    buffer: Vec<u8>,
    position: usize,
}

impl Packet {
    /// The bytes of the packet, prefix bytes included.
    pub closed spec fn bytes(&self) -> Seq<u8> {
        self.buffer@
    }

    /// The read cursor.
    pub closed spec fn pos(&self) -> int {
        self.position as int
    }

    /// A fresh packet: the reserved passthrough byte, then the type code.
    pub fn new(t: PacketType) -> (r: Packet)
        ensures
            r.bytes() =~= seq![0u8, t.spec_code()],
            r.pos() == 0,
    {
        let mut pack = Packet { buffer: Vec::new(), position: 0 };
        pack.wu8(0);
        pack.wpk(t);
        pack
    }

    /// A packet holding the first `size` bytes of `arr`, cursor at the start.
    pub fn from(arr: &[u8], size: usize) -> (r: Packet)
        requires
            size <= arr@.len(),
        ensures
            r.bytes() == arr@.subrange(0, size as int),
            r.pos() == 0,
    {
        let sub = slice_subrange(arr, 0, size);
        let buffer = slice_to_vec(sub);
        Packet { buffer, position: 0 }
    }

    /// A packet rebuilt from a body that arrived without the passthrough and
    /// type prefix: the two prefix bytes are synthesized in front of it.
    pub fn headless(t: PacketType, arr: &[u8], size: usize) -> (r: Packet)
        requires
            size <= arr@.len(),
        ensures
            r.bytes() =~= seq![0u8, t.spec_code()] + arr@.subrange(0, size as int),
            r.pos() == 0,
    {
        let mut pack = Packet::new(t);
        let sub = slice_subrange(arr, 0, size);
        let mut tail = slice_to_vec(sub);
        pack.buffer.append(&mut tail);
        pack
    }

    /// Move the read cursor.
    pub fn rewind(&mut self, pos: usize)
        ensures
            final(self).bytes() == old(self).bytes(),
            final(self).pos() == pos,
    {
        self.position = pos;
    }

    /// The byte length of the packet.
    pub fn len(&self) -> (r: usize)
        ensures
            r == self.bytes().len(),
    {
        self.buffer.len()
    }

    /// Append a packet-type code.
    pub fn wpk(&mut self, val: PacketType)
        ensures
            final(self).bytes() == old(self).bytes().push(val.spec_code()),
            final(self).pos() == old(self).pos(),
    {
        let code = val.code();
        self.buffer.push(code);
    }

    /// Append one byte.
    pub fn wu8(&mut self, val: u8)
        ensures
            final(self).bytes() == old(self).bytes().push(val),
            final(self).pos() == old(self).pos(),
    {
        self.buffer.push(val);
    }

    /// Append one signed byte, as its bit pattern.
    pub fn wi8(&mut self, val: i8)
        ensures
            final(self).bytes() == old(self).bytes().push(val as u8),
            final(self).pos() == old(self).pos(),
    {
        self.buffer.push(val as u8);
    }

    /// Append a u16, little-endian.
    pub fn wu16(&mut self, val: u16)
        ensures
            final(self).bytes() =~= old(self).bytes() + spec_u16_to_le_bytes(val),
            final(self).bytes().len() == old(self).bytes().len() + 2,
            final(self).pos() == old(self).pos(),
    {
        proof {
            lemma_auto_spec_u16_to_from_le_bytes();
        }
        let mut bytes = u16_to_le_bytes(val);
        self.buffer.append(&mut bytes);
    }

    /// Append an i16 as the little-endian form of its bit pattern.
    pub fn wi16(&mut self, val: i16)
        ensures
            final(self).bytes() =~= old(self).bytes() + spec_u16_to_le_bytes(val as u16),
            final(self).bytes().len() == old(self).bytes().len() + 2,
            final(self).pos() == old(self).pos(),
    {
        self.wu16(val as u16);
    }

    /// Append a u32, little-endian.
    pub fn wu32(&mut self, val: u32)
        ensures
            final(self).bytes() =~= old(self).bytes() + spec_u32_to_le_bytes(val),
            final(self).bytes().len() == old(self).bytes().len() + 4,
            final(self).pos() == old(self).pos(),
    {
        proof {
            lemma_auto_spec_u32_to_from_le_bytes();
        }
        let mut bytes = u32_to_le_bytes(val);
        self.buffer.append(&mut bytes);
    }

    /// Append an i32 as the little-endian form of its bit pattern.
    pub fn wi32(&mut self, val: i32)
        ensures
            final(self).bytes() =~= old(self).bytes() + spec_u32_to_le_bytes(val as u32),
            final(self).bytes().len() == old(self).bytes().len() + 4,
            final(self).pos() == old(self).pos(),
    {
        self.wu32(val as u32);
    }

    /// Append a u64, little-endian.
    pub fn wu64(&mut self, val: u64)
        ensures
            final(self).bytes() =~= old(self).bytes() + spec_u64_to_le_bytes(val),
            final(self).bytes().len() == old(self).bytes().len() + 8,
            final(self).pos() == old(self).pos(),
    {
        proof {
            lemma_auto_spec_u64_to_from_le_bytes();
        }
        let mut bytes = u64_to_le_bytes(val);
        self.buffer.append(&mut bytes);
    }

    /// Append an i64 as the little-endian form of its bit pattern.
    pub fn wi64(&mut self, val: i64)
        ensures
            final(self).bytes() =~= old(self).bytes() + spec_u64_to_le_bytes(val as u64),
            final(self).bytes().len() == old(self).bytes().len() + 8,
            final(self).pos() == old(self).pos(),
    {
        self.wu64(val as u64);
    }

    /// Append the UTF-8 bytes of a string followed by a NUL terminator.
    pub fn wstr(&mut self, val: &str)
        ensures
            final(self).bytes() =~= old(self).bytes() + val.spec_bytes() + seq![0u8],
            final(self).pos() == old(self).pos(),
    {
        let mut bytes = val.as_bytes_vec();
        self.buffer.append(&mut bytes);
        self.buffer.push(0);
    }

    /// Read the packet-type byte at the cursor; errs past the end and on a
    /// byte that is no known opcode.
    pub fn rpk(&mut self) -> (r: Result<PacketType, &'static str>)
        ensures
            final(self).bytes() == old(self).bytes(),
            if old(self).pos() < old(self).bytes().len() {
                final(self).pos() == old(self).pos() + 1 && match r {
                    Ok(t) => t.spec_code() == old(self).bytes()[old(self).pos()],
                    Err(_) => old(self).bytes()[old(self).pos()] >= 119,
                }
            } else {
                r is Err && *final(self) == *old(self)
            },
    {
        match self.ru8() {
            Ok(v) => match PacketType::from_code(v) {
                Some(t) => Ok(t),
                None => Err("Reading outside the bounds! (type: PacketType)"),
            },
            Err(e) => Err(e),
        }
    }

    /// Read one byte at the cursor; errs past the end.
    pub fn ru8(&mut self) -> (r: Result<u8, &'static str>)
        ensures
            final(self).bytes() == old(self).bytes(),
            if old(self).pos() < old(self).bytes().len() {
                r matches Ok(v) && v == old(self).bytes()[old(self).pos()]
                    && final(self).pos() == old(self).pos() + 1
            } else {
                r is Err && *final(self) == *old(self)
            },
    {
        if self.position < self.buffer.len() {
            let v = self.buffer[self.position];
            self.position = self.position + 1;
            Ok(v)
        } else {
            Err("Reading outside the bounds! (type: u8)")
        }
    }

    /// Read one signed byte at the cursor; errs past the end.
    pub fn ri8(&mut self) -> (r: Result<i8, &'static str>)
        ensures
            final(self).bytes() == old(self).bytes(),
            if old(self).pos() < old(self).bytes().len() {
                r matches Ok(v) && v == old(self).bytes()[old(self).pos()] as i8
                    && final(self).pos() == old(self).pos() + 1
            } else {
                r is Err && *final(self) == *old(self)
            },
    {
        if self.position < self.buffer.len() {
            let v = self.buffer[self.position];
            self.position = self.position + 1;
            Ok(v as i8)
        } else {
            Err("Reading outside the bounds! (type: i8)")
        }
    }

    /// Read a little-endian u16 at the cursor; errs when fewer than two bytes
    /// remain.
    pub fn ru16(&mut self) -> (r: Result<u16, &'static str>)
        ensures
            final(self).bytes() == old(self).bytes(),
            if old(self).pos() + 2 <= old(self).bytes().len() {
                r matches Ok(v) && v == spec_u16_from_le_bytes(
                    old(self).bytes().subrange(old(self).pos(), old(self).pos() + 2),
                ) && final(self).pos() == old(self).pos() + 2
            } else {
                r is Err && *final(self) == *old(self)
            },
    {
        if self.buffer.len() >= 2 && self.position <= self.buffer.len() - 2 {
            let sub = slice_subrange(self.buffer.as_slice(), self.position, self.position + 2);
            let v = u16_from_le_bytes(sub);
            self.position = self.position + 2;
            Ok(v)
        } else {
            Err("Reading outside the bounds! (type: u16)")
        }
    }

    /// Read a little-endian i16 (the bit pattern of the u16 there); errs when
    /// fewer than two bytes remain.
    pub fn ri16(&mut self) -> (r: Result<i16, &'static str>)
        ensures
            final(self).bytes() == old(self).bytes(),
            if old(self).pos() + 2 <= old(self).bytes().len() {
                r matches Ok(v) && v == spec_u16_from_le_bytes(
                    old(self).bytes().subrange(old(self).pos(), old(self).pos() + 2),
                ) as i16 && final(self).pos() == old(self).pos() + 2
            } else {
                r is Err && *final(self) == *old(self)
            },
    {
        match self.ru16() {
            Ok(v) => Ok(v as i16),
            Err(_) => Err("Reading outside the bounds! (type: i16)"),
        }
    }

    /// Read a little-endian u32 at the cursor; errs when fewer than four
    /// bytes remain.
    pub fn ru32(&mut self) -> (r: Result<u32, &'static str>)
        ensures
            final(self).bytes() == old(self).bytes(),
            if old(self).pos() + 4 <= old(self).bytes().len() {
                r matches Ok(v) && v == spec_u32_from_le_bytes(
                    old(self).bytes().subrange(old(self).pos(), old(self).pos() + 4),
                ) && final(self).pos() == old(self).pos() + 4
            } else {
                r is Err && *final(self) == *old(self)
            },
    {
        if self.buffer.len() >= 4 && self.position <= self.buffer.len() - 4 {
            let sub = slice_subrange(self.buffer.as_slice(), self.position, self.position + 4);
            let v = u32_from_le_bytes(sub);
            self.position = self.position + 4;
            Ok(v)
        } else {
            Err("Reading outside the bounds! (type: u32)")
        }
    }

    /// Read a little-endian i32 (the bit pattern of the u32 there); errs when
    /// fewer than four bytes remain.
    pub fn ri32(&mut self) -> (r: Result<i32, &'static str>)
        ensures
            final(self).bytes() == old(self).bytes(),
            if old(self).pos() + 4 <= old(self).bytes().len() {
                r matches Ok(v) && v == spec_u32_from_le_bytes(
                    old(self).bytes().subrange(old(self).pos(), old(self).pos() + 4),
                ) as i32 && final(self).pos() == old(self).pos() + 4
            } else {
                r is Err && *final(self) == *old(self)
            },
    {
        match self.ru32() {
            Ok(v) => Ok(v as i32),
            Err(_) => Err("Reading outside the bounds! (type: i32)"),
        }
    }

    /// Read a little-endian u64 at the cursor; errs when fewer than eight
    /// bytes remain.
    pub fn ru64(&mut self) -> (r: Result<u64, &'static str>)
        ensures
            final(self).bytes() == old(self).bytes(),
            if old(self).pos() + 8 <= old(self).bytes().len() {
                r matches Ok(v) && v == spec_u64_from_le_bytes(
                    old(self).bytes().subrange(old(self).pos(), old(self).pos() + 8),
                ) && final(self).pos() == old(self).pos() + 8
            } else {
                r is Err && *final(self) == *old(self)
            },
    {
        if self.buffer.len() >= 8 && self.position <= self.buffer.len() - 8 {
            let sub = slice_subrange(self.buffer.as_slice(), self.position, self.position + 8);
            let v = u64_from_le_bytes(sub);
            self.position = self.position + 8;
            Ok(v)
        } else {
            Err("Reading outside the bounds! (type: u64)")
        }
    }

    /// Read a little-endian i64 (the bit pattern of the u64 there); errs when
    /// fewer than eight bytes remain.
    pub fn ri64(&mut self) -> (r: Result<i64, &'static str>)
        ensures
            final(self).bytes() == old(self).bytes(),
            if old(self).pos() + 8 <= old(self).bytes().len() {
                r matches Ok(v) && v == spec_u64_from_le_bytes(
                    old(self).bytes().subrange(old(self).pos(), old(self).pos() + 8),
                ) as i64 && final(self).pos() == old(self).pos() + 8
            } else {
                r is Err && *final(self) == *old(self)
            },
    {
        match self.ru64() {
            Ok(v) => Ok(v as i64),
            Err(_) => Err("Reading outside the bounds! (type: i64)"),
        }
    }

    /// A copy of this packet with the same bytes and cursor.
    pub fn duplicate(&self) -> (r: Packet)
        ensures
            r.bytes() == self.bytes(),
            r.pos() == self.pos(),
    {
        let buffer = slice_to_vec(self.buffer.as_slice());
        Packet { buffer, position: self.position }
    }

    /// The whole buffer, for an unframed UDP send.
    pub fn raw(&self) -> (r: &[u8])
        ensures
            r@ == self.bytes(),
    {
        self.buffer.as_slice()
    }

    /// The length-prefixed TCP form: one length byte, then the buffer. The
    /// wire carries the length in one byte, so a packet must stay within 255
    /// bytes.
    pub fn sized(&self) -> (r: Vec<u8>)
        requires
            self.bytes().len() <= 255,
        ensures
            r@ =~= seq![self.bytes().len() as u8] + self.bytes(),
    {
        let mut out: Vec<u8> = Vec::new();
        out.push(self.buffer.len() as u8);
        let mut i: usize = 0;
        while i < self.buffer.len()
            invariant
                i <= self.buffer@.len(),
                self.buffer@.len() <= 255,
                out@ =~= seq![self.buffer@.len() as u8] + self.buffer@.subrange(0, i as int),
            decreases self.buffer@.len() - i,
        {
            out.push(self.buffer[i]);
            i = i + 1;
        }
        assert(self.buffer@.subrange(0, self.buffer@.len() as int) =~= self.buffer@);
        out
    }
}

/// The index of the first NUL byte at or after `from`, or the length of the
/// sequence when none follows.
pub open spec fn nul_pos(b: Seq<u8>, from: int) -> int
    decreases b.len() - from,
{
    if from < 0 {
        0
    } else if from >= b.len() {
        b.len() as int
    } else if b[from] == 0u8 {
        from
    } else {
        nul_pos(b, from + 1)
    }
}

/// What `nul_pos` finds: nothing before it is NUL, and it points at a NUL
/// unless it is the end of the sequence.
pub proof fn lemma_nul_pos(b: Seq<u8>, from: int)
    requires
        0 <= from <= b.len(),
    ensures
        from <= nul_pos(b, from) <= b.len(),
        forall|i: int| from <= i < nul_pos(b, from) ==> b[i] != 0u8,
        nul_pos(b, from) < b.len() ==> b[nul_pos(b, from)] == 0u8,
    decreases b.len() - from,
{
    if from < b.len() && b[from] != 0u8 {
        lemma_nul_pos(b, from + 1);
    }
}

/// `nul_pos` is pinned by any witness: a NUL at `p` with none before it.
pub proof fn lemma_nul_pos_witness(b: Seq<u8>, from: int, p: int)
    requires
        0 <= from <= p <= b.len(),
        forall|i: int| from <= i < p ==> b[i] != 0u8,
        p < b.len() ==> b[p] == 0u8,
        p == b.len() ==> forall|i: int| from <= i < b.len() ==> b[i] != 0u8,
    ensures
        nul_pos(b, from) == p,
    decreases b.len() - from,
{
    if from < b.len() && b[from] != 0u8 {
        lemma_nul_pos_witness(b, from + 1, p);
    }
}

impl Packet {
    /// Read a NUL-terminated UTF-8 string at the cursor; errs when no NUL
    /// terminator follows, and on bytes that are not valid UTF-8.
    pub fn rstr(&mut self) -> (r: Result<String, &'static str>)
        ensures
            final(self).bytes() == old(self).bytes(),
            ({
                let b = old(self).bytes();
                let start = old(self).pos();
                let p = nul_pos(b, start);
                if start <= b.len() {
                    if p < b.len() {
                        final(self).pos() == p + 1 && if valid_utf8(b.subrange(start, p)) {
                            r matches Ok(s) && s@ == decode_utf8(b.subrange(start, p))
                        } else {
                            r is Err
                        }
                    } else {
                        r is Err && final(self).pos() == b.len()
                    }
                } else {
                    r is Err && *final(self) == *old(self)
                }
            }),
    {
        if self.position > self.buffer.len() {
            return Err("Reading outside the bounds! (type: String)");
        }
        let ghost start = self.position as int;
        let mut collected: Vec<u8> = Vec::new();
        while self.position < self.buffer.len() && self.buffer[self.position] != 0
            invariant
                self.buffer@ == old(self).bytes(),
                start == old(self).pos(),
                0 <= start <= self.position as int <= self.buffer@.len(),
                collected@ =~= self.buffer@.subrange(start, self.position as int),
                forall|i: int| start <= i < self.position as int ==> self.buffer@[i] != 0u8,
            decreases self.buffer@.len() - self.position,
        {
            collected.push(self.buffer[self.position]);
            self.position = self.position + 1;
        }
        if self.position >= self.buffer.len() {
            proof {
                lemma_nul_pos_witness(self.buffer@, start, self.buffer@.len() as int);
            }
            return Err("Reading outside the bounds! (type: String)");
        }
        proof {
            lemma_nul_pos_witness(self.buffer@, start, self.position as int);
        }
        self.position = self.position + 1;
        match string_from_utf8(collected) {
            Some(s) => Ok(s),
            None => Err("Invalid UTF-8 in string!"),
        }
    }
}

/// Relies on String::from_utf8: it returns a string exactly when the bytes
/// are valid UTF-8, and then the string's characters are their decoding.
#[verifier::external_body]
fn string_from_utf8(bytes: Vec<u8>) -> (r: Option<String>)
    ensures
        match r {
            Some(s) => valid_utf8(bytes@) && s@ == decode_utf8(bytes@),
            None => !valid_utf8(bytes@),
        },
{
    String::from_utf8(bytes).ok()
}

/// Law: a u16 written little-endian after any prefix reads back
/// bit-identical from the position it was written at.
pub proof fn lemma_u16_round_trip(prefix: Seq<u8>, v: u16)
    ensures
        spec_u16_from_le_bytes(
            (prefix + spec_u16_to_le_bytes(v)).subrange(
                prefix.len() as int,
                prefix.len() as int + 2,
            ),
        ) == v,
{
    lemma_auto_spec_u16_to_from_le_bytes();
    assert((prefix + spec_u16_to_le_bytes(v)).subrange(prefix.len() as int, prefix.len() as int + 2)
        =~= spec_u16_to_le_bytes(v));
}

/// Law: an i16 written as its bit pattern reads back identical.
pub proof fn lemma_i16_round_trip(prefix: Seq<u8>, v: i16)
    ensures
        spec_u16_from_le_bytes(
            (prefix + spec_u16_to_le_bytes(v as u16)).subrange(
                prefix.len() as int,
                prefix.len() as int + 2,
            ),
        ) as i16 == v,
{
    lemma_u16_round_trip(prefix, v as u16);
    assert((v as u16) as i16 == v) by (bit_vector);
}

/// Law: a u32 written little-endian after any prefix reads back
/// bit-identical from the position it was written at.
pub proof fn lemma_u32_round_trip(prefix: Seq<u8>, v: u32)
    ensures
        spec_u32_from_le_bytes(
            (prefix + spec_u32_to_le_bytes(v)).subrange(
                prefix.len() as int,
                prefix.len() as int + 4,
            ),
        ) == v,
{
    lemma_auto_spec_u32_to_from_le_bytes();
    assert((prefix + spec_u32_to_le_bytes(v)).subrange(prefix.len() as int, prefix.len() as int + 4)
        =~= spec_u32_to_le_bytes(v));
}

/// Law: an i32 written as its bit pattern reads back identical.
pub proof fn lemma_i32_round_trip(prefix: Seq<u8>, v: i32)
    ensures
        spec_u32_from_le_bytes(
            (prefix + spec_u32_to_le_bytes(v as u32)).subrange(
                prefix.len() as int,
                prefix.len() as int + 4,
            ),
        ) as i32 == v,
{
    lemma_u32_round_trip(prefix, v as u32);
    assert((v as u32) as i32 == v) by (bit_vector);
}

/// Law: a u64 written little-endian after any prefix reads back
/// bit-identical from the position it was written at.
pub proof fn lemma_u64_round_trip(prefix: Seq<u8>, v: u64)
    ensures
        spec_u64_from_le_bytes(
            (prefix + spec_u64_to_le_bytes(v)).subrange(
                prefix.len() as int,
                prefix.len() as int + 8,
            ),
        ) == v,
{
    lemma_auto_spec_u64_to_from_le_bytes();
    assert((prefix + spec_u64_to_le_bytes(v)).subrange(prefix.len() as int, prefix.len() as int + 8)
        =~= spec_u64_to_le_bytes(v));
}

/// Law: an i64 written as its bit pattern reads back identical.
pub proof fn lemma_i64_round_trip(prefix: Seq<u8>, v: i64)
    ensures
        spec_u64_from_le_bytes(
            (prefix + spec_u64_to_le_bytes(v as u64)).subrange(
                prefix.len() as int,
                prefix.len() as int + 8,
            ),
        ) as i64 == v,
{
    lemma_u64_round_trip(prefix, v as u64);
    assert((v as u64) as i64 == v) by (bit_vector);
}

/// Law: the length-prefixed TCP form of a packet, with the length byte
/// removed, is exactly the packet's body again.
pub proof fn lemma_sized_tail_round_trip(b: Seq<u8>)
    requires
        b.len() <= 255,
    ensures
        (seq![b.len() as u8] + b).subrange(1, b.len() as int + 1) =~= b,
{
}

/// No byte of the UTF-8 encoding of a scalar other than NUL itself is zero.
proof fn lemma_encode_scalar_no_nul(scalar: u32)
    requires
        scalar != 0,
    ensures
        forall|i: int|
            0 <= i < encode_scalar(scalar).len() ==> #[trigger] encode_scalar(scalar)[i] != 0u8,
{
    let e = encode_scalar(scalar);
    assert((0x80u8 | ((scalar & 0x3F) as u8)) != 0u8) by (bit_vector);
    assert((0x80u8 | (((scalar >> 6) & 0x3F) as u8)) != 0u8) by (bit_vector);
    assert((0x80u8 | (((scalar >> 12) & 0x3F) as u8)) != 0u8) by (bit_vector);
    assert((0xC0u8 | (((scalar >> 6) & 0x1F) as u8)) != 0u8) by (bit_vector);
    assert((0xE0u8 | (((scalar >> 12) & 0x0F) as u8)) != 0u8) by (bit_vector);
    assert((0xF0u8 | (((scalar >> 18) & 0x7) as u8)) != 0u8) by (bit_vector);
    if has_width_1_encoding(scalar) {
        assert(((scalar & 0x7F) as u8) != 0u8) by (bit_vector)
            requires
                scalar != 0,
                scalar <= 0x7F,
        ;
        assert(forall|i: int| 0 <= i < e.len() ==> #[trigger] e[i] == e[0]);
    } else if has_width_2_encoding(scalar) {
        assert(forall|i: int| 0 <= i < e.len() ==> #[trigger] e[i] == e[0] || e[i] == e[1]);
    } else if has_width_3_encoding(scalar) {
        assert(forall|i: int|
            0 <= i < e.len() ==> #[trigger] e[i] == e[0] || e[i] == e[1] || e[i] == e[2]);
    } else {
        assert(forall|i: int|
            0 <= i < e.len() ==> #[trigger] e[i] == e[0] || e[i] == e[1] || e[i] == e[2] || e[i]
                == e[3]);
    }
}

/// The UTF-8 encoding of a NUL-free character sequence holds no zero byte.
proof fn lemma_encode_utf8_no_nul(chars: Seq<char>)
    requires
        forall|i: int| 0 <= i < chars.len() ==> chars[i] != '\0',
    ensures
        forall|i: int|
            0 <= i < encode_utf8(chars).len() ==> #[trigger] encode_utf8(chars)[i] != 0u8,
    decreases chars.len(),
{
    if chars.len() > 0 {
        assert(chars[0] != '\0');
        assert(chars[0] as u32 != 0) by {
            if chars[0] as u32 == 0 {
                assert(('\0' as u32) == 0);
                vstd::utf8::char_u32_cast(chars[0], 0u32);
                vstd::utf8::char_u32_cast('\0', 0u32);
            }
        }
        lemma_encode_scalar_no_nul(chars[0] as u32);
        assert(forall|i: int|
            0 <= i < chars.drop_first().len() ==> chars.drop_first()[i] != '\0');
        lemma_encode_utf8_no_nul(chars.drop_first());
        assert forall|i: int| 0 <= i < encode_utf8(chars).len() implies #[trigger] encode_utf8(
            chars,
        )[i] != 0u8 by {
            let head = encode_scalar(chars[0] as u32);
            let tail = encode_utf8(chars.drop_first());
            assert(encode_utf8(chars) == head + tail);
            if i < head.len() {
                assert(encode_utf8(chars)[i] == head[i]);
            } else {
                assert(encode_utf8(chars)[i] == tail[i - head.len()]);
            }
        }
    }
}

/// Law: a NUL-free string written with its terminator and read back from the
/// write position is returned exactly; together with the contracts of `wstr`
/// and `rstr` this pins the executable round trip.
pub proof fn lemma_wstr_rstr_round_trip(prefix: Seq<u8>, s: Seq<char>)
    requires
        forall|i: int| 0 <= i < s.len() ==> s[i] != '\0',
    ensures
        ({
            let b = prefix + encode_utf8(s) + seq![0u8];
            let start = prefix.len() as int;
            let p = start + encode_utf8(s).len();
            nul_pos(b, start) == p && p < b.len() && valid_utf8(b.subrange(start, p))
                && decode_utf8(b.subrange(start, p)) == s
        }),
{
    let b = prefix + encode_utf8(s) + seq![0u8];
    let start = prefix.len() as int;
    let enc = encode_utf8(s);
    let p = start + enc.len();
    assert(b.subrange(start, p) =~= enc);
    lemma_encode_utf8_no_nul(s);
    assert(b[p] == 0u8);
    assert forall|i: int| start <= i < p implies b[i] != 0u8 by {
        assert(b[i] == enc[i - start]);
    }
    lemma_nul_pos_witness(b, start, p);
    broadcast use vstd::utf8::encode_utf8_valid_utf8, vstd::utf8::encode_utf8_decode_utf8;

    assert(valid_utf8(enc));
    assert(decode_utf8(enc) == s);
}

/// Encoding distributes over concatenation of character sequences.
proof fn lemma_encode_utf8_concat(a: Seq<char>, b: Seq<char>)
    ensures
        encode_utf8(a + b) =~= encode_utf8(a) + encode_utf8(b),
    decreases a.len(),
{
    if a.len() == 0 {
        assert(a + b =~= b);
        assert(encode_utf8(a) =~= Seq::<u8>::empty());
    } else {
        assert((a + b)[0] == a[0]);
        assert((a + b).drop_first() =~= a.drop_first() + b);
        lemma_encode_utf8_concat(a.drop_first(), b);
    }
}

/// Law: with an embedded NUL the readback stops there, so the string that
/// comes back is the prefix before the first NUL — never the whole string.
/// Together with the NUL-free round trip this settles both directions: the
/// readback equals the written string exactly when it holds no NUL.
pub proof fn lemma_wstr_rstr_embedded_nul(prefix: Seq<u8>, s: Seq<char>, j: int)
    requires
        0 <= j < s.len(),
        s[j] == '\0',
        forall|i: int| 0 <= i < j ==> s[i] != '\0',
    ensures
        ({
            let b = prefix + encode_utf8(s) + seq![0u8];
            let start = prefix.len() as int;
            let head = s.subrange(0, j);
            let p = nul_pos(b, start);
            &&& p < b.len()
            &&& valid_utf8(b.subrange(start, p))
            &&& decode_utf8(b.subrange(start, p)) == head
            &&& head != s
        }),
{
    broadcast use vstd::utf8::encode_utf8_valid_utf8, vstd::utf8::encode_utf8_decode_utf8;

    let b = prefix + encode_utf8(s) + seq![0u8];
    let start = prefix.len() as int;
    let head = s.subrange(0, j);
    let tail = s.subrange(j, s.len() as int);
    assert(s =~= head + tail);
    lemma_encode_utf8_concat(head, tail);
    let eh = encode_utf8(head);
    let et = encode_utf8(tail);
    assert(encode_utf8(s) =~= eh + et);
    assert(tail.len() > 0);
    assert(tail[0] == '\0');
    assert(('\0' as u32) == 0);
    assert(encode_scalar(0u32) =~= seq![0u8]) by {
        assert(((0u32 & 0x7F) as u8) == 0u8) by (bit_vector);
    }
    assert(et[0] == 0u8) by {
        assert(et =~= encode_scalar(tail[0] as u32) + encode_utf8(tail.drop_first()));
    }
    let p = start + eh.len();
    assert(b[p] == 0u8) by {
        assert(b[p] == encode_utf8(s)[eh.len() as int]);
        assert(encode_utf8(s)[eh.len() as int] == et[0]);
    }
    lemma_encode_utf8_no_nul(head);
    assert forall|i: int| start <= i < p implies b[i] != 0u8 by {
        assert(b[i] == eh[i - start]);
    }
    lemma_nul_pos_witness(b, start, p);
    assert(b.subrange(start, p) =~= eh);
    assert(decode_utf8(eh) == head);
    assert(head.len() < s.len());
}

} // verus!
