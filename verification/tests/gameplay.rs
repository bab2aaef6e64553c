use betterserver::entity::{Entity, EntityKind, SlugRing, SlugState};
use betterserver::game::Game;
use betterserver::lobby::Lobby;
use betterserver::mapdata::MapId;
use betterserver::output::Output;
use betterserver::packet::{Packet, PacketType};
use betterserver::peer::{new_peer, Peer, Player, ServerCore, SurvivorCharacter, ExeCharacter};
use betterserver::timer::GameTimer;

fn output_packet(o: &Output) -> Option<&Packet> {
    match o {
        Output::Send { packet, .. } => Some(packet),
        Output::Multicast { packet } => Some(packet),
        Output::MulticastReal { packet } => Some(packet),
        Output::MulticastExcept { packet, .. } => Some(packet),
        Output::MulticastRealExcept { packet, .. } => Some(packet),
        Output::UdpSendAddr { packet, .. } => Some(packet),
        Output::UdpMulticast { packet } => Some(packet),
        Output::UdpMulticastExceptAddr { packet, .. } => Some(packet),
        _ => None,
    }
}

fn count_type(out: &[Output], t: PacketType) -> usize {
    out.iter()
        .filter(|o| match output_packet(o) {
            Some(p) => p.raw().len() >= 2 && p.raw()[1] == t.code(),
            None => false,
        })
        .count()
}

fn real_peer(id: u16) -> Peer {
    let mut p = new_peer(id);
    p.pending = false;
    p.in_queue = false;
    p
}

fn survivor(id: u16) -> Peer {
    let mut p = real_peer(id);
    p.player = Some(Player::new());
    p
}

#[test]
fn escape_rejected_while_big_ring_closed() {
    let mut game = Game::new(MapId::HideAndSeek2);
    game.big_ring_time = 3000;
    game.timer.set(GameTimer::Time, 5000);
    let mut core = ServerCore::new(8606);
    core.peers.push(survivor(1));
    let mut pkt = Packet::new(PacketType::ClientPlayerEscaped);
    pkt.rewind(0);
    let mut out = Vec::new();
    game.got_tcp_packet(&mut core, 0, &mut pkt, &mut out).unwrap();
    assert!(!core.peers[0].player.as_ref().unwrap().escaped);
    assert!(out.iter().any(|o| matches!(o, Output::Disconnect { peer: 1, .. })));
}

#[test]
fn escape_accepted_once_big_ring_open() {
    let mut game = Game::new(MapId::HideAndSeek2);
    game.big_ring_time = 3000;
    game.timer.set(GameTimer::Time, 2500);
    let mut core = ServerCore::new(8606);
    core.peers.push(survivor(1));
    let mut pkt = Packet::new(PacketType::ClientPlayerEscaped);
    pkt.rewind(0);
    let mut out = Vec::new();
    game.got_tcp_packet(&mut core, 0, &mut pkt, &mut out).unwrap();
    assert!(core.peers[0].player.as_ref().unwrap().escaped);
    assert_eq!(count_type(&out, PacketType::ServerGamePlayerEscaped), 1);
    // the last survivor escaped, so the survivors win exactly once
    assert_eq!(count_type(&out, PacketType::ServerGameSurvivorWin), 1);
}

#[test]
fn demonized_survivor_cannot_escape() {
    let mut game = Game::new(MapId::HideAndSeek2);
    game.big_ring_time = 3000;
    game.timer.set(GameTimer::Time, 2500);
    let mut core = ServerCore::new(8606);
    let mut s = survivor(1);
    s.player.as_mut().unwrap().revival_times = 2;
    core.peers.push(s);
    let mut pkt = Packet::new(PacketType::ClientPlayerEscaped);
    pkt.rewind(0);
    let mut out = Vec::new();
    game.got_tcp_packet(&mut core, 0, &mut pkt, &mut out).unwrap();
    assert!(!core.peers[0].player.as_ref().unwrap().escaped);
    assert!(out.iter().any(|o| matches!(o, Output::Disconnect { peer: 1, .. })));
}

#[test]
fn exeller_clone_count_is_capped() {
    let mut game = Game::new(MapId::HideAndSeek2);
    let mut core = ServerCore::new(8606);
    let mut exe = real_peer(1);
    let mut p = Player::new();
    p.exe = true;
    p.ch2 = Some(ExeCharacter::Exeller);
    exe.player = Some(p);
    core.peers.push(exe);
    for expected in [1usize, 2] {
        let mut pkt = Packet::new(PacketType::ClientExellerSpawnClone);
        pkt.wu16(10);
        pkt.wu16(20);
        pkt.wi8(1);
        pkt.rewind(0);
        let mut out = Vec::new();
        game.got_tcp_packet(&mut core, 0, &mut pkt, &mut out).unwrap();
        assert_eq!(game.count_kind(EntityKind::ExellerClone), expected);
    }
    let mut pkt = Packet::new(PacketType::ClientExellerSpawnClone);
    pkt.wu16(10);
    pkt.wu16(20);
    pkt.wi8(1);
    pkt.rewind(0);
    let mut out = Vec::new();
    game.got_tcp_packet(&mut core, 0, &mut pkt, &mut out).unwrap();
    assert_eq!(game.count_kind(EntityKind::ExellerClone), 2);
    assert!(out.iter().any(|o| matches!(
        o,
        Output::Disconnect { peer: 1, reason } if reason.contains("clones")
    )));
}

#[test]
fn tracker_spawn_and_activation() {
    let mut game = Game::new(MapId::HideAndSeek2);
    let mut core = ServerCore::new(8606);
    let mut eggman = real_peer(1);
    let mut p = Player::new();
    p.ch1 = Some(SurvivorCharacter::Eggman);
    eggman.player = Some(p);
    core.peers.push(eggman);

    let mut pkt = Packet::new(PacketType::ClientEtracker);
    pkt.wu16(44);
    pkt.wu16(55);
    pkt.rewind(0);
    let mut out = Vec::new();
    game.got_tcp_packet(&mut core, 0, &mut pkt, &mut out).unwrap();
    assert_eq!(game.count_kind(EntityKind::EggmanTracker), 1);
    assert_eq!(game.timer.get(GameTimer::EggmanTracker), 600);
    assert_eq!(count_type(&out, PacketType::ServerEtrackerState), 1);
    let eid = game.entity_id;

    let mut pkt = Packet::new(PacketType::ClientEtrackerActivated);
    pkt.wu16(eid);
    pkt.rewind(0);
    let mut out = Vec::new();
    game.got_tcp_packet(&mut core, 0, &mut pkt, &mut out).unwrap();
    assert_eq!(game.count_kind(EntityKind::EggmanTracker), 0);
    // the destroy broadcast names the activating peer
    let destroy = out
        .iter()
        .filter_map(output_packet)
        .find(|p| p.raw().len() >= 7 && p.raw()[1] == PacketType::ServerEtrackerState.code())
        .unwrap();
    assert_eq!(destroy.raw()[2], 1);
    assert_eq!(u16::from_le_bytes([destroy.raw()[3], destroy.raw()[4]]), eid);
    assert_eq!(u16::from_le_bytes([destroy.raw()[5], destroy.raw()[6]]), 1);
}

#[test]
fn udp_readiness_starts_the_match() {
    let mut game = Game::new(MapId::HideAndSeek2);
    let mut core = ServerCore::new(8606);
    core.peers.push(real_peer(1));
    core.peers.push(real_peer(2));
    let mut out = Vec::new();
    let _ = game.init(&mut core, &mut out);
    assert!(!game.started);

    let bytes1 = [1u8, 0, PacketType::ClientSoundEmit.code()];
    let mut pkt = Packet::from(&bytes1, 3);
    let mut out = Vec::new();
    game.got_udp_packet(&mut core, 101, &mut pkt, &mut out).unwrap();
    assert!(!game.started);

    let bytes2 = [2u8, 0, PacketType::ClientSoundEmit.code()];
    let mut pkt = Packet::from(&bytes2, 3);
    let mut out = Vec::new();
    game.got_udp_packet(&mut core, 102, &mut pkt, &mut out).unwrap();
    assert!(game.started);
    assert_eq!(count_type(&out, PacketType::ServerGamePlayersReady), 1);
}

#[test]
fn revival_completes_at_full_progress() {
    let mut game = Game::new(MapId::HideAndSeek2);
    let mut core = ServerCore::new(8606);
    let mut down = survivor(1);
    down.player.as_mut().unwrap().dead = true;
    core.peers.push(down);
    core.peers.push(survivor(2));

    let mut started = 0usize;
    let mut revived = 0usize;
    for _ in 0..67 {
        let mut pkt = Packet::new(PacketType::ClientRevivalProgress);
        pkt.wu16(1);
        pkt.wu8(0);
        pkt.rewind(0);
        let mut out = Vec::new();
        game.got_tcp_packet(&mut core, 1, &mut pkt, &mut out).unwrap();
        started += out
            .iter()
            .filter_map(output_packet)
            .filter(|p| {
                p.raw().len() >= 3
                    && p.raw()[1] == PacketType::ServerRevivalStatus.code()
                    && p.raw()[2] == 1
            })
            .count();
        revived += count_type(&out, PacketType::ServerRevivalRevived);
    }
    // 67 contributions at fifteen thousandths each pass the threshold once
    assert_eq!(started, 1);
    assert_eq!(revived, 1);
    let player = core.peers[0].player.as_ref().unwrap();
    assert_eq!(player.revival.progress, 0);
    assert!(player.revival.initiators.is_empty());
}

#[test]
fn slug_hit_destroys_the_slug() {
    let mut game = Game::new(MapId::RavineMist);
    let mut core = ServerCore::new(8606);
    core.peers.push(survivor(1));
    let mut out = Vec::new();
    let eid = game.spawn(
        Entity::Slug {
            x: 1901,
            y: 392,
            state: SlugState::NoneLeft,
            ring: SlugRing::NoRing,
            slot: 0,
            real_x: 0,
        },
        &mut out,
    );
    assert_eq!(game.count_kind(EntityKind::Slug), 1);

    let mut pkt = Packet::new(PacketType::ClientRmzslimeHit);
    pkt.wu16(eid);
    pkt.wu8(1);
    pkt.rewind(0);
    let mut out = Vec::new();
    game.got_tcp_packet(&mut core, 0, &mut pkt, &mut out).unwrap();
    assert_eq!(game.count_kind(EntityKind::Slug), 0);
    assert_eq!(count_type(&out, PacketType::ServerRmzslimeState), 1);
    assert!(!game.slugs[0].2);
}

#[test]
fn collected_ring_frees_its_slot() {
    let mut game = Game::new(MapId::HideAndSeek2);
    let mut core = ServerCore::new(8606);
    core.peers.push(survivor(1));
    let mut out = Vec::new();
    let _ = game.init(&mut core, &mut out);
    let mut out = Vec::new();
    let eid = game.spawn(Entity::Ring { red: false, slot: 3 }, &mut out);
    game.rings[3] = true;

    let mut pkt = Packet::new(PacketType::ClientRingCollected);
    pkt.wu8(3);
    pkt.wu16(eid);
    pkt.rewind(0);
    let mut out = Vec::new();
    game.got_tcp_packet(&mut core, 0, &mut pkt, &mut out).unwrap();
    assert_eq!(game.count_kind(EntityKind::Ring), 0);
    assert!(!game.rings[3]);
    assert_eq!(count_type(&out, PacketType::ServerRingCollected), 1);
}

#[test]
fn time_over_ends_match_and_returns_to_lobby() {
    let mut game = Game::new(MapId::HideAndSeek2);
    game.started = true;
    let mut core = ServerCore::new(8606);
    core.peers.push(survivor(1));
    let mut out = Vec::new();
    game.do_timers(&mut core, &mut out);
    assert_eq!(count_type(&out, PacketType::ServerGameTimeOver), 1);
    assert_eq!(game.end_timer, 300);

    let mut transitions = 0usize;
    for _ in 0..300 {
        let mut out = Vec::new();
        if game.tick(&mut core, &mut out).is_some() {
            transitions += 1;
        }
    }
    assert_eq!(transitions, 1);
    assert_eq!(game.end_timer, 0);
}

#[test]
fn lobby_install_unqueues_and_raises_killer_chance() {
    let mut lobby = Lobby::new();
    let mut core = ServerCore::new(8606);
    let mut queued = real_peer(1);
    queued.in_queue = true;
    queued.ready = true;
    queued.exe_chance = 40;
    core.peers.push(queued);
    let mut active = real_peer(2);
    active.exe_chance = 98;
    core.peers.push(active);

    let mut out = Vec::new();
    let r = lobby.init(&mut core, &mut out);
    assert!(r.is_none());
    assert!(!core.peers[0].in_queue);
    assert!(!core.peers[0].ready);
    let c = core.peers[0].exe_chance;
    assert!((42..=49).contains(&c));
    assert_eq!(core.peers[1].exe_chance, 99);
}

#[test]
fn out_of_range_revival_byte_is_rejected() {
    let mut game = Game::new(MapId::HideAndSeek2);
    let mut core = ServerCore::new(8606);
    core.peers.push(survivor(1));
    let mut pkt = Packet::new(PacketType::ClientPlayerDeathState);
    pkt.wu8(1);
    pkt.wu8(5);
    pkt.rewind(0);
    let mut out = Vec::new();
    game.got_tcp_packet(&mut core, 0, &mut pkt, &mut out).unwrap();
    let player = core.peers[0].player.as_ref().unwrap();
    assert_eq!(player.revival_times, 0);
    assert!(!player.dead);
    assert!(out.iter().any(|o| matches!(o, Output::Disconnect { peer: 1, .. })));
}

#[test]
fn zero_chance_peer_is_never_elected() {
    let mut core = ServerCore::new(8606);
    let mut x = real_peer(1);
    x.exe_chance = 0;
    let mut y = real_peer(2);
    y.exe_chance = 50;
    core.peers.push(x);
    core.peers.push(y);
    for _ in 0..200 {
        assert_eq!(betterserver::charselect::choose_exe(&core), 2);
    }
}

#[test]
fn big_ring_announced_a_minute_before_activation() {
    let mut game = Game::new(MapId::HideAndSeek2);
    game.big_ring_spawn = true;
    game.big_ring_time = 3000;
    game.started = true;
    let mut core = ServerCore::new(8606);
    game.timer.set(GameTimer::Time, 6600);
    let mut out = Vec::new();
    game.do_timers(&mut core, &mut out);
    assert_eq!(count_type(&out, PacketType::ServerGameSpawnRing), 1);
    assert!(!game.big_ring_ready);
    game.timer.set(GameTimer::Time, 3000);
    let mut out = Vec::new();
    game.do_timers(&mut core, &mut out);
    assert_eq!(count_type(&out, PacketType::ServerGameSpawnRing), 1);
    assert!(game.big_ring_ready);
}
