use betterserver::charselect::choose_exe;
use betterserver::dispatch::{find_free_server, ServerPick};
use betterserver::entity::EntityKind;
use betterserver::game::Game;
use betterserver::mapdata::MapId;
use betterserver::mapvote::MapVote;
use betterserver::output::Output;
use betterserver::packet::{Packet, PacketType};
use betterserver::peer::{new_peer, Player, ServerCore, SurvivorCharacter};
use betterserver::state::State;
use betterserver::timer::GameTimer;

fn output_packet(o: &Output) -> Option<&Packet> {
    match o {
        Output::Send { packet, .. } => Some(packet),
        Output::Multicast { packet } => Some(packet),
        Output::MulticastReal { packet } => Some(packet),
        Output::MulticastExcept { packet, .. } => Some(packet),
        Output::MulticastRealExcept { packet, .. } => Some(packet),
        _ => None,
    }
}

fn count_tcp_type(out: &[Output], t: PacketType) -> usize {
    out.iter()
        .filter(|o| match output_packet(o) {
            Some(p) => p.raw().len() >= 2 && p.raw()[1] == t.code(),
            None => false,
        })
        .count()
}

fn identity_packet(nick: &str, build: u16) -> Packet {
    let mut p = Packet::new(PacketType::Identity);
    p.wu16(build);
    p.wstr(nick);
    p.wu8(0);
    p.wi8(0);
    p.wu8(0);
    p.wstr("device");
    p.rewind(0);
    p
}

fn ready_packet(ready: bool) -> Packet {
    let mut p = Packet::new(PacketType::ClientLobbyReadyState);
    p.wu8(if ready { 1 } else { 0 });
    p.rewind(0);
    p
}

fn join(state: &mut State, core: &mut ServerCore, nick: &str) -> u16 {
    let id = core.next_peer_id();
    let peer = new_peer(id);
    let mut out = Vec::new();
    state.connect(core, peer, &mut out);
    let mut ident = identity_packet(nick, 101);
    let mut out = Vec::new();
    state.got_tcp_packet(core, id, &mut ident, &mut out).unwrap();
    id
}

fn real_peer(id: u16) -> betterserver::peer::Peer {
    let mut p = new_peer(id);
    p.pending = false;
    p.in_queue = false;
    p
}

#[test]
fn identity_accepted_clears_pending_and_queue() {
    let mut state = State::start();
    let mut core = ServerCore::new(8606);
    let id = core.next_peer_id();
    let peer = new_peer(id);
    assert!(peer.pending && peer.in_queue);
    let mut out = Vec::new();
    state.connect(&mut core, peer, &mut out);
    let mut ident = identity_packet("alice", 101);
    let mut out = Vec::new();
    state.got_tcp_packet(&mut core, id, &mut ident, &mut out).unwrap();
    assert!(!core.peers[0].pending);
    assert!(!core.peers[0].in_queue);
    assert_eq!(core.peers[0].nickname, "alice");
    assert_eq!(count_tcp_type(&out, PacketType::ServerIdentityResponse), 1);
}

#[test]
fn identity_version_mismatch_disconnects() {
    let mut state = State::start();
    let mut core = ServerCore::new(8606);
    let id = core.next_peer_id();
    let mut out = Vec::new();
    state.connect(&mut core, new_peer(id), &mut out);
    let mut ident = identity_packet("bob", 100);
    let mut out = Vec::new();
    state.got_tcp_packet(&mut core, id, &mut ident, &mut out).unwrap();
    assert!(core.peers[0].pending);
    assert!(out.iter().any(|o| matches!(
        o,
        Output::Disconnect { reason, .. } if *reason == "Version mismatch."
    )));
}

#[test]
fn nickname_truncated_to_fifteen_chars() {
    let mut state = State::start();
    let mut core = ServerCore::new(8606);
    let id = core.next_peer_id();
    let mut out = Vec::new();
    state.connect(&mut core, new_peer(id), &mut out);
    let mut ident = identity_packet("abcdefghijklmnopqrst", 101);
    let mut out = Vec::new();
    state.got_tcp_packet(&mut core, id, &mut ident, &mut out).unwrap();
    assert_eq!(core.peers[0].nickname, "abcdefghijklmno");
}

#[test]
fn eighth_connection_is_turned_away() {
    let mut state = State::start();
    let mut core = ServerCore::new(8606);
    for _ in 0..7 {
        let id = core.next_peer_id();
        let mut out = Vec::new();
        state.connect(&mut core, new_peer(id), &mut out);
    }
    assert_eq!(core.peers.len(), 7);
    let id = core.next_peer_id();
    let mut out = Vec::new();
    state.connect(&mut core, new_peer(id), &mut out);
    assert_eq!(core.peers.len(), 7);
    assert!(out.iter().any(|o| matches!(
        o,
        Output::Disconnect { peer, reason } if *peer == id && *reason == "Server is full: 7/7."
    )));
}

#[test]
fn lobby_countdown_starts_and_cancels() {
    let mut state = State::start();
    let mut core = ServerCore::new(8606);
    let a = join(&mut state, &mut core, "alice");
    let b = join(&mut state, &mut core, "bob");

    let mut out = Vec::new();
    state
        .got_tcp_packet(&mut core, a, &mut ready_packet(true), &mut out)
        .unwrap();
    assert_eq!(count_tcp_type(&out, PacketType::ServerLobbyCountdown), 0);

    let mut out = Vec::new();
    state
        .got_tcp_packet(&mut core, b, &mut ready_packet(true), &mut out)
        .unwrap();
    let starts: Vec<&Output> = out
        .iter()
        .filter(|o| match output_packet(o) {
            Some(p) => p.raw().len() >= 4 && p.raw()[1] == PacketType::ServerLobbyCountdown.code(),
            None => false,
        })
        .collect();
    assert_eq!(starts.len(), 1);
    let p = output_packet(starts[0]).unwrap();
    assert_eq!(p.raw()[2], 1);
    assert_eq!(p.raw()[3], 5);

    // two seconds of frames pass
    for _ in 0..120 {
        let mut out = Vec::new();
        state.tick(&mut core, &mut out);
    }
    assert!(matches!(state, State::Lobby(_)));

    // peer A backs out: exactly one cancel broadcast, state stays Lobby
    let mut out = Vec::new();
    state
        .got_tcp_packet(&mut core, a, &mut ready_packet(false), &mut out)
        .unwrap();
    let cancels: Vec<&Output> = out
        .iter()
        .filter(|o| match output_packet(o) {
            Some(p) => p.raw().len() >= 4 && p.raw()[1] == PacketType::ServerLobbyCountdown.code(),
            None => false,
        })
        .collect();
    assert_eq!(cancels.len(), 1);
    let p = output_packet(cancels[0]).unwrap();
    assert_eq!(p.raw()[2], 0);
    assert_eq!(p.raw()[3], 0);
    assert!(matches!(state, State::Lobby(_)));

    // the countdown no longer fires
    for _ in 0..400 {
        let mut out = Vec::new();
        state.tick(&mut core, &mut out);
    }
    assert!(matches!(state, State::Lobby(_)));
}

#[test]
fn countdown_reaches_map_vote() {
    let mut state = State::start();
    let mut core = ServerCore::new(8606);
    let _a = join(&mut state, &mut core, "alice");
    let b = join(&mut state, &mut core, "bob");
    let mut out = Vec::new();
    state
        .got_tcp_packet(&mut core, _a, &mut ready_packet(true), &mut out)
        .unwrap();
    let mut out = Vec::new();
    state
        .got_tcp_packet(&mut core, b, &mut ready_packet(true), &mut out)
        .unwrap();
    for _ in 0..301 {
        let mut out = Vec::new();
        state.tick(&mut core, &mut out);
    }
    assert!(matches!(state, State::MapVote(_)));
}

#[test]
fn vote_winner_takes_highest_tally() {
    let mut mv = MapVote::new();
    mv.vote_maps = vec![MapId::HideAndSeek2, MapId::RavineMist, MapId::HideAndSeek2];
    mv.votes = vec![0, 5, 2];
    for _ in 0..50 {
        assert_eq!(mv.vote_winner(), MapId::RavineMist);
    }
}

#[test]
fn vote_tiebreak_is_random_among_tied() {
    let mut mv = MapVote::new();
    mv.vote_maps = vec![MapId::HideAndSeek2, MapId::RavineMist, MapId::HideAndSeek2];
    mv.votes = vec![1, 1, 1];
    let runs = 3000;
    let mut ravine = 0usize;
    for _ in 0..runs {
        if mv.vote_winner() == MapId::RavineMist {
            ravine += 1;
        }
    }
    let frac = ravine as f64 / runs as f64;
    assert!(frac > 0.23 && frac < 0.44, "ravine mist fraction {}", frac);
}

#[test]
fn duplicate_vote_disconnects() {
    let mut mv = MapVote::new();
    let mut core = ServerCore::new(8606);
    core.peers.push(real_peer(1));
    core.peers.push(real_peer(2));
    core.peers.push(real_peer(3));
    let mut out = Vec::new();
    let _ = mv.init(&mut core, &mut out);
    let mut vote = Packet::new(PacketType::ClientVoteRequest);
    vote.wu8(1);
    vote.rewind(0);
    let mut out = Vec::new();
    mv.got_tcp_packet(&mut core, 0, &mut vote, &mut out).unwrap();
    assert_eq!(mv.votes[1], 1);
    let mut vote2 = Packet::new(PacketType::ClientVoteRequest);
    vote2.wu8(2);
    vote2.rewind(0);
    let mut out = Vec::new();
    mv.got_tcp_packet(&mut core, 0, &mut vote2, &mut out).unwrap();
    assert_eq!(mv.votes[2], 0);
    assert!(out.iter().any(|o| matches!(
        o,
        Output::Disconnect { peer: 1, reason } if *reason == "Already voted."
    )));
}

#[test]
fn weighted_killer_selection_favours_high_chance() {
    let mut core = ServerCore::new(8606);
    let mut x = real_peer(1);
    x.exe_chance = 99;
    let mut y = real_peer(2);
    y.exe_chance = 1;
    core.peers.push(x);
    core.peers.push(y);
    let runs = 2000;
    let mut x_wins = 0usize;
    for _ in 0..runs {
        if choose_exe(&core) == 1 {
            x_wins += 1;
        }
    }
    let frac = x_wins as f64 / runs as f64;
    assert!(frac > 0.95, "high-chance peer elected only {}", frac);
}

#[test]
fn projectile_cooldown_enforced() {
    let mut game = Game::new(MapId::HideAndSeek2);
    let mut core = ServerCore::new(8606);
    let mut tails = real_peer(1);
    let mut player = Player::new();
    player.ch1 = Some(SurvivorCharacter::Tails);
    tails.player = Some(player);
    core.peers.push(tails);

    let mut shot = Packet::new(PacketType::ClientTprojectile);
    shot.wu16(100);
    shot.wu16(200);
    shot.wi8(1);
    shot.wu8(10);
    shot.wu8(0);
    shot.wu8(3);
    shot.rewind(0);
    let mut out = Vec::new();
    game.got_tcp_packet(&mut core, 0, &mut shot, &mut out).unwrap();
    assert_eq!(game.timer.get(GameTimer::TailsProjectile), 600);
    assert_eq!(game.count_kind(EntityKind::TailsProjectile), 1);
    assert_eq!(count_tcp_type(&out, PacketType::ServerTprojectileState), 1);

    let mut shot2 = Packet::new(PacketType::ClientTprojectile);
    shot2.wu16(100);
    shot2.wu16(200);
    shot2.wi8(1);
    shot2.wu8(10);
    shot2.wu8(0);
    shot2.wu8(3);
    shot2.rewind(0);
    let mut out2 = Vec::new();
    game.got_tcp_packet(&mut core, 0, &mut shot2, &mut out2).unwrap();
    assert!(out2.iter().any(|o| matches!(
        o,
        Output::Disconnect { peer: 1, reason } if reason.contains("cooldown")
    )));
    assert_eq!(game.count_kind(EntityKind::TailsProjectile), 1);
}

#[test]
fn death_timer_demonization_fairness() {
    let mut game = Game::new(MapId::HideAndSeek2);
    game.timer.set(GameTimer::Time, 20000);
    let mut core = ServerCore::new(8606);

    let mut exe = real_peer(1);
    let mut exe_player = Player::new();
    exe_player.exe = true;
    exe.player = Some(exe_player);
    core.peers.push(exe);

    // s1 is already demonized
    let mut s1 = real_peer(2);
    let mut p1 = Player::new();
    p1.revival_times = 2;
    s1.player = Some(p1);
    core.peers.push(s1);

    // s2 and s3 are dying, timers about to expire
    for id in [3u16, 4] {
        let mut s = real_peer(id);
        let mut p = Player::new();
        p.dead = true;
        p.death_timer = 1;
        s.player = Some(p);
        core.peers.push(s);
    }

    // s4 is alive
    let mut s4 = real_peer(5);
    s4.player = Some(Player::new());
    core.peers.push(s4);

    let mut out = Vec::new();
    game.do_timers(&mut core, &mut out);

    // s2: one demonized of four survivors is below half, so s2 demonizes
    assert_eq!(core.peers[2].player.as_ref().unwrap().revival_times, 2);
    // s3: now two of four are demonized, not below half, so s3 dies for good
    assert_eq!(core.peers[3].player.as_ref().unwrap().revival_times, 0);
    let ends: Vec<&Output> = out
        .iter()
        .filter(|o| match output_packet(o) {
            Some(p) => {
                p.raw().len() >= 3 && p.raw()[1] == PacketType::ServerGameDeathtimerEnd.code()
            }
            None => false,
        })
        .collect();
    assert_eq!(ends.len(), 2);
    assert_eq!(output_packet(ends[0]).unwrap().raw()[2], 1);
    assert_eq!(output_packet(ends[1]).unwrap().raw()[2], 0);
}

#[test]
fn survivor_win_broadcast_exactly_once() {
    let mut game = Game::new(MapId::HideAndSeek2);
    let mut core = ServerCore::new(8606);
    let mut exe = real_peer(1);
    let mut exe_player = Player::new();
    exe_player.exe = true;
    exe.player = Some(exe_player);
    core.peers.push(exe);
    let mut escaped = real_peer(2);
    let mut p = Player::new();
    p.escaped = true;
    escaped.player = Some(p);
    core.peers.push(escaped);
    let mut dead = real_peer(3);
    let mut p = Player::new();
    p.dead = true;
    dead.player = Some(p);
    core.peers.push(dead);

    let mut out = Vec::new();
    game.check_state(&core, &mut out);
    assert_eq!(count_tcp_type(&out, PacketType::ServerGameSurvivorWin), 1);

    let mut out2 = Vec::new();
    game.check_state(&core, &mut out2);
    assert_eq!(count_tcp_type(&out2, PacketType::ServerGameSurvivorWin), 0);
}

#[test]
fn demonized_peer_cannot_report_death_again() {
    let mut game = Game::new(MapId::HideAndSeek2);
    let mut core = ServerCore::new(8606);
    let mut s = real_peer(1);
    let mut p = Player::new();
    p.revival_times = 2;
    s.player = Some(p);
    core.peers.push(s);
    let mut pkt = Packet::new(PacketType::ClientPlayerDeathState);
    pkt.wu8(1);
    pkt.wu8(0);
    pkt.rewind(0);
    let mut out = Vec::new();
    game.got_tcp_packet(&mut core, 0, &mut pkt, &mut out).unwrap();
    assert_eq!(core.peers[0].player.as_ref().unwrap().revival_times, 2);
    assert!(!core.peers[0].player.as_ref().unwrap().dead);
    assert!(out.iter().any(|o| matches!(o, Output::Disconnect { peer: 1, .. })));
}

#[test]
fn dispatcher_placement_rules() {
    assert_eq!(
        find_free_server(&vec![7, 3], false, 32),
        ServerPick::Existing(0)
    );
    assert_eq!(
        find_free_server(&vec![7, 3], true, 32),
        ServerPick::Existing(1)
    );
    assert_eq!(find_free_server(&vec![7, 7], true, 32), ServerPick::StartNew);
    assert_eq!(find_free_server(&vec![7, 7], true, 2), ServerPick::Overflow);
}

#[test]
fn default_configuration_values() {
    let c = betterserver::config::Configuration::default_values();
    assert_eq!(c.server.tcp_port, 7606);
    assert_eq!(c.server.udp_port, 8606);
    assert!(!c.server.grow);
    assert_eq!(c.server.grow_limit, 32);
    assert!(c.gui);
    assert!(c.debug);
}

#[test]
fn peer_id_counter_wraps_and_skips_zero() {
    let mut core = ServerCore::new(8606);
    assert_eq!(core.next_peer_id(), 1);
    assert_eq!(core.next_peer_id(), 2);
    core.id_count = 0xFFFF;
    assert_eq!(core.next_peer_id(), 1);
}

#[test]
fn mid_match_identity_waits_in_queue_until_next_lobby() {
    let mut state = State::Game(betterserver::game::Game::new(MapId::HideAndSeek2));
    let mut core = ServerCore::new(8606);
    let id = core.next_peer_id();
    let mut out = Vec::new();
    state.connect(&mut core, new_peer(id), &mut out);
    let mut ident = identity_packet("late", 101);
    let mut out = Vec::new();
    state.got_tcp_packet(&mut core, id, &mut ident, &mut out).unwrap();
    assert!(!core.peers[0].pending);
    assert!(core.peers[0].in_queue);
    assert_eq!(count_tcp_type(&out, PacketType::ServerIdentityResponse), 1);

    // the match ends; the fresh lobby releases the queued peer
    let mut out = Vec::new();
    let _ = State::install(
        betterserver::state::NextState::Lobby(betterserver::lobby::Lobby::new()),
        &mut core,
        &mut out,
    );
    assert!(!core.peers[0].in_queue);
    assert_eq!(count_tcp_type(&out, PacketType::ServerIdentityResponse), 1);
    assert_eq!(count_tcp_type(&out, PacketType::ServerLobbyExeChance), 1);
}
