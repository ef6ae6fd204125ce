use exec_runtime::container::{ServerContainer, ServerMover};
use exec_runtime::error::ExecError;
use exec_runtime::executor::move_server;
use exec_runtime::runner::{MainRunner, Runner};
use exec_runtime::server::{AudioServer, DrawServer, SendGameServer, ServerKind};

#[test]
fn move_server_relocates_between_containers() {
    let mut from = ServerContainer {
        audio: Some(AudioServer::new()),
        draw: Some(DrawServer::new()),
        update: None,
    };
    let mut to = ServerContainer::default();
    assert_eq!(move_server(&mut from, &mut to, ServerKind::Draw), Ok(()));
    assert!(from.draw.is_none());
    assert!(from.audio.is_some());
    assert!(to.draw.is_some());
    assert!(to.draw.unwrap().context_bound);
    assert!(to.audio.is_none());
}

#[test]
fn move_server_from_empty_source_reports_absent() {
    let mut from = ServerContainer::default();
    let mut to = ServerContainer::default();
    let r = move_server(&mut from, &mut to, ServerKind::Update);
    assert_eq!(r, Err(ExecError::ServerAbsent(ServerKind::Update)));
    assert_eq!(to, ServerContainer::default());
}

#[test]
fn move_server_between_main_runners() {
    let mut from = MainRunner {
        base: Runner {
            container: ServerContainer {
                audio: Some(AudioServer::new()),
                draw: None,
                update: None,
            },
            ..Runner::default()
        },
    };
    let mut to = MainRunner { base: Runner::default() };
    assert_eq!(move_server(&mut from, &mut to, ServerKind::Audio), Ok(()));
    assert!(from.base.container.audio.is_none());
    assert!(to.base.container.audio.is_some());
}

#[test]
fn moved_server_keeps_its_state() {
    let mut from = ServerContainer {
        audio: None,
        draw: None,
        update: Some(exec_runtime::server::UpdateServer {
            state: exec_runtime::server::ServerState { cycles: 7, blocking_cycles: 2 },
        }),
    };
    let mut to = ServerContainer::default();
    move_server(&mut from, &mut to, ServerKind::Update).unwrap();
    let moved = to.update.unwrap();
    assert_eq!(moved.state.cycles, 7);
    assert_eq!(moved.state.blocking_cycles, 2);
}
