use pong::relay::{
    create_lobby_command, funnel_step, join_lobby_command, parse_command, peer_joined_notice,
    ClientCommand, FunnelStep, LobbyRegistry, ReadOutcome, WorkerEffect, WorkerEvent, WorkerState,
};

#[test]
fn handshake_success() {
    let mut reg = LobbyRegistry::new();

    // Client A connects and sends [01 00 00 00 00].
    let create = WorkerEvent::Command { data: create_lobby_command() };
    let (state_a, out_a) = pong::relay::worker_step(WorkerState::AwaitingCommand, &create, &mut reg);
    assert_eq!(out_a.effect, WorkerEffect::NoEffect);
    assert_eq!(out_a.reply.len(), 4);
    let code = match state_a {
        WorkerState::Hosting { code } => code,
        other => panic!("expected a hosting worker, got {:?}", other),
    };
    // the 4-byte reply is the assigned code, little-endian
    assert_eq!(out_a.reply, code.to_le_bytes().to_vec());
    assert!(reg.contains(code));

    // Client B connects and sends [02, le(code)].
    let join = WorkerEvent::Command { data: join_lobby_command(code) };
    let (state_b, out_b) = pong::relay::worker_step(WorkerState::AwaitingCommand, &join, &mut reg);
    assert_eq!(out_b.reply, vec![0xc8, 0x00, 0x00, 0x00]);
    assert_eq!(out_b.effect, WorkerEffect::SendPeerToHost { code });
    assert_eq!(state_b, WorkerState::Finished);

    // A's worker receives the peer socket: it notifies A with [01], removes
    // the lobby, and starts funnelling.
    let (state_a2, out_a2) = pong::relay::worker_step(state_a, &WorkerEvent::PeerArrived, &mut reg);
    assert_eq!(out_a2.reply, vec![0x01]);
    assert_eq!(out_a2.effect, WorkerEffect::BeginFunnel);
    assert_eq!(state_a2, WorkerState::Funneling);
    assert!(!reg.contains(code));

    // the funnel forwards 8-byte records verbatim in both directions
    assert_eq!(funnel_step(&ReadOutcome::Packet), FunnelStep::Forward);
    assert_eq!(funnel_step(&ReadOutcome::WouldBlock), FunnelStep::DoneForNow);
}

#[test]
fn handshake_unknown_code() {
    let mut reg = LobbyRegistry::new();
    // [02 DE AD BE EF] when no such lobby exists
    let join = WorkerEvent::Command { data: vec![0x02, 0xDE, 0xAD, 0xBE, 0xEF] };
    let (state, out) = pong::relay::worker_step(WorkerState::AwaitingCommand, &join, &mut reg);
    assert_eq!(out.reply, vec![0x90, 0x01, 0x00, 0x00]);
    assert_eq!(out.effect, WorkerEffect::NoEffect);
    // the worker keeps listening for further commands
    assert_eq!(state, WorkerState::AwaitingCommand);
}

#[test]
fn malformed_commands_close_the_connection() {
    let mut reg = LobbyRegistry::new();
    // unknown opcode
    let bad = WorkerEvent::Command { data: vec![0x07, 0, 0, 0, 0] };
    let (state, out) = pong::relay::worker_step(WorkerState::AwaitingCommand, &bad, &mut reg);
    assert_eq!(state, WorkerState::Finished);
    assert_eq!(out.effect, WorkerEffect::CloseConnection);
    assert!(out.reply.is_empty());
    // short read
    let short = WorkerEvent::Command { data: vec![0x01, 0x00] };
    let (state, out) = pong::relay::worker_step(WorkerState::AwaitingCommand, &short, &mut reg);
    assert_eq!(state, WorkerState::Finished);
    assert_eq!(out.effect, WorkerEffect::CloseConnection);
    assert!(out.reply.is_empty());
    // failed read
    let (state, out) =
        pong::relay::worker_step(WorkerState::AwaitingCommand, &WorkerEvent::ReadFailed, &mut reg);
    assert_eq!(state, WorkerState::Finished);
    assert_eq!(out.effect, WorkerEffect::CloseConnection);
    assert!(out.reply.is_empty());
}

#[test]
fn parse_command_cases() {
    assert_eq!(parse_command(&create_lobby_command()), ClientCommand::CreateLobby);
    for code in [0i32, 200, -1, i32::MIN, i32::MAX, 0x1234_5678] {
        assert_eq!(
            parse_command(&join_lobby_command(code)),
            ClientCommand::JoinLobby { code },
        );
    }
    assert_eq!(parse_command(&[0x02, 0xDE, 0xAD, 0xBE, 0xEF]), ClientCommand::JoinLobby {
        code: i32::from_le_bytes([0xDE, 0xAD, 0xBE, 0xEF])
    });
    assert_eq!(parse_command(&[]), ClientCommand::Malformed);
    assert_eq!(parse_command(&[0x01, 0x00]), ClientCommand::Malformed);
    assert_eq!(parse_command(&[0x03, 0, 0, 0, 0]), ClientCommand::Malformed);
    assert_eq!(parse_command(&[0x01, 0, 0, 0, 0, 0]), ClientCommand::Malformed);
}

#[test]
fn registry_codes_are_unique_and_removable() {
    let mut reg = LobbyRegistry::new();
    assert_eq!(reg.len(), 0);
    let a = reg.register_new_lobby().expect("a fresh registry has room");
    let b = reg.register_new_lobby().expect("a fresh registry has room");
    assert_ne!(a, b);
    assert!(reg.contains(a));
    assert!(reg.contains(b));
    assert_eq!(reg.len(), 2);
    assert!(reg.remove_code(a));
    assert!(!reg.contains(a));
    assert!(reg.contains(b));
    assert!(!reg.remove_code(a));
    assert_eq!(reg.len(), 1);
}

#[test]
fn insert_refuses_duplicates() {
    let mut reg = LobbyRegistry::new();
    assert!(reg.insert_code(42));
    assert!(!reg.insert_code(42));
    assert!(reg.insert_code(-42));
    assert_eq!(reg.len(), 2);
}

#[test]
fn peer_notice_is_one_byte() {
    assert_eq!(peer_joined_notice(), vec![0x01]);
    assert_eq!(funnel_step(&ReadOutcome::Failed), FunnelStep::ShutdownBoth);
}
