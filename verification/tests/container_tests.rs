use exec_runtime::container::{ServerContainer, ServerMover};
use exec_runtime::error::ExecError;
use exec_runtime::server::{AudioServer, DrawServer, SendGameServer, ServerKind, UpdateServer};

fn full_container() -> ServerContainer {
    ServerContainer {
        audio: Some(AudioServer::new()),
        draw: Some(DrawServer::new()),
        update: Some(UpdateServer::new()),
    }
}

#[test]
fn take_server_on_missing_kind_returns_server_absent() {
    let mut c = ServerContainer::default();
    assert!(matches!(c.take_server(ServerKind::Audio), Ok(None)));
    assert!(matches!(c.take_server(ServerKind::Draw), Ok(None)));
    assert!(matches!(c.take_server(ServerKind::Update), Ok(None)));
    assert_eq!(
        c.take_server_check(ServerKind::Audio),
        Err(ExecError::ServerAbsent(ServerKind::Audio))
    );
    assert_eq!(
        c.take_server_check(ServerKind::Draw),
        Err(ExecError::ServerAbsent(ServerKind::Draw))
    );
    assert_eq!(
        c.take_server_check(ServerKind::Update),
        Err(ExecError::ServerAbsent(ServerKind::Update))
    );
}

#[test]
fn emplace_check_on_occupied_slot_is_invariant_violation() {
    let mut c = ServerContainer::default();
    c.emplace_server(SendGameServer::Audio(AudioServer::new())).unwrap();
    let before = c;
    let r = c.emplace_server_check(SendGameServer::Audio(AudioServer::new()));
    assert_eq!(r, Err(ExecError::InvariantViolation));
    assert_eq!(c, before);
}

#[test]
fn emplace_check_on_free_slot_succeeds() {
    let mut c = ServerContainer::default();
    assert_eq!(c.emplace_server_check(SendGameServer::Update(UpdateServer::new())), Ok(()));
    assert!(c.update.is_some());
}

#[test]
fn run_single_with_two_servers_never_blocks() {
    let mut c = ServerContainer {
        audio: Some(AudioServer::new()),
        draw: None,
        update: Some(UpdateServer::new()),
    };
    for _ in 0..3 {
        c.run_single(60).unwrap();
    }
    let audio = c.audio.unwrap();
    let update = c.update.unwrap();
    assert_eq!(audio.state.cycles, 3);
    assert_eq!(update.state.cycles, 3);
    assert_eq!(audio.state.blocking_cycles, 0);
    assert_eq!(update.state.blocking_cycles, 0);
}

#[test]
fn run_single_with_three_servers_never_blocks() {
    let mut c = full_container();
    c.run_single(60).unwrap();
    assert_eq!(c.audio.unwrap().state.blocking_cycles, 0);
    assert_eq!(c.draw.unwrap().state.blocking_cycles, 0);
    assert_eq!(c.update.unwrap().state.blocking_cycles, 0);
}

#[test]
fn run_single_with_sole_server_may_block() {
    let mut c = ServerContainer {
        audio: None,
        draw: Some(DrawServer::new()),
        update: None,
    };
    c.run_single(60).unwrap();
    let draw = c.draw.unwrap();
    assert_eq!(draw.state.cycles, 1);
    assert_eq!(draw.state.blocking_cycles, 1);
    assert!(draw.context_bound);
}

#[test]
fn does_run_reflects_presence() {
    let mut c = ServerContainer::default();
    assert!(!c.does_run());
    c.emplace_server(SendGameServer::Audio(AudioServer::new())).unwrap();
    assert!(c.does_run());
    c.take_server(ServerKind::Audio).unwrap();
    assert!(!c.does_run());
}

#[test]
fn take_then_emplace_round_trip_preserves_behavior() {
    let mut a = ServerContainer {
        audio: None,
        draw: Some(DrawServer::new()),
        update: None,
    };
    let mut reference = a;
    let taken = a.take_server(ServerKind::Draw).unwrap().unwrap();
    assert!(matches!(taken, SendGameServer::Draw(d) if !d.context_bound));
    let mut b = ServerContainer::default();
    b.emplace_server(taken).unwrap();
    assert_eq!(b, reference);
    assert_eq!(b.does_run(), reference.does_run());
    let rb = b.run_single(30);
    let rr = reference.run_single(30);
    assert!(rb.is_ok() && rr.is_ok());
    assert_eq!(b, reference);
}

#[test]
fn take_unbinds_and_emplace_rebinds_draw_context() {
    let mut a = ServerContainer::default();
    a.emplace_server(SendGameServer::Draw(DrawServer {
        state: exec_runtime::server::ServerState { cycles: 0, blocking_cycles: 0 },
        context_bound: false,
    }))
    .unwrap();
    assert!(a.draw.unwrap().context_bound);
    let taken = a.take_server(ServerKind::Draw).unwrap().unwrap();
    match taken {
        SendGameServer::Draw(d) => assert!(!d.context_bound),
        _ => panic!("took the wrong server kind"),
    }
}

#[test]
fn detached_draw_server_cannot_convert_again() {
    let detached = DrawServer {
        state: exec_runtime::server::ServerState { cycles: 0, blocking_cycles: 0 },
        context_bound: false,
    };
    assert_eq!(detached.to_send(), Err(ExecError::ContextBindError));
    let mut c = ServerContainer::default();
    let still_bound = DrawServer::new();
    assert_eq!(
        c.emplace_server(SendGameServer::Draw(still_bound)),
        Err(ExecError::ContextBindError)
    );
    assert!(c.draw.is_none());
}

#[test]
fn error_descriptions_are_fixed() {
    assert_eq!(ExecError::ChannelClosed.describe(), "channel was unexpectedly closed");
    assert_eq!(
        ExecError::ServerAbsent(ServerKind::Audio).describe(),
        "server not found in container"
    );
    assert_eq!(
        ExecError::InvariantViolation.describe(),
        "invalid state: server ownership invariant violated"
    );
    assert_eq!(ExecError::TypeMismatch.describe(), "sync call result had an unexpected type");
    assert_eq!(
        ExecError::ContextBindError.describe(),
        "unable to (un)bind rendering context"
    );
}
