use exec_runtime::dispatch::{CancellationToken, DispatchList, DispatchMsg};
use exec_runtime::events::{handle_event, next_wait_ms, EventAction, GameEvent, GameUserEvent};
use exec_runtime::scene::RootScene;

#[test]
fn test_sync() {
    fn assert_sync<T: Sync>() {}
    assert_sync::<RootScene>();
}

#[test]
fn close_request_on_own_window_raises_exit() {
    let scene = RootScene::new(7);
    let raised = scene.handle_event(&GameEvent::WindowCloseRequested { window_id: 7 });
    assert_eq!(raised, vec![GameUserEvent::Exit(0)]);
}

#[test]
fn close_request_on_other_window_raises_nothing() {
    let scene = RootScene::new(7);
    let raised = scene.handle_event(&GameEvent::WindowCloseRequested { window_id: 8 });
    assert!(raised.is_empty());
    assert!(scene.handle_event(&GameEvent::Other).is_empty());
}

#[test]
fn events_cleared_runs_the_main_runner() {
    let mut list: DispatchList<u32> = DispatchList::new();
    let action = handle_event(&mut list, GameEvent::MainEventsCleared);
    assert!(matches!(action, EventAction::RunMainSingle));
}

#[test]
fn exit_event_exits_with_its_code() {
    let mut list: DispatchList<u32> = DispatchList::new();
    let action = handle_event(&mut list, GameEvent::User(GameUserEvent::Exit(3)));
    assert!(matches!(action, EventAction::Exit(3)));
}

#[test]
fn dispatch_event_pops_pending_callbacks() {
    let mut list: DispatchList<&'static str> = DispatchList::new();
    let a = list.push("tick", CancellationToken::new());
    let b = list.push("tock", CancellationToken::new());
    list.cancel(a);
    let action = handle_event(
        &mut list,
        GameEvent::User(GameUserEvent::Dispatch(DispatchMsg::ExecuteDispatch(vec![a, b]))),
    );
    match action {
        EventAction::RunDispatches(cbs) => assert_eq!(cbs, vec!["tock"]),
        _ => panic!("dispatch event must yield callbacks to run"),
    }
    assert_eq!(list.pop(b), None);
}

#[test]
fn other_events_propagate_to_the_scene() {
    let mut list: DispatchList<u32> = DispatchList::new();
    let action = handle_event(&mut list, GameEvent::WindowCloseRequested { window_id: 4 });
    assert!(matches!(
        action,
        EventAction::Propagate(GameEvent::WindowCloseRequested { window_id: 4 })
    ));
}

#[test]
fn controller_polls_only_while_servers_run() {
    assert_eq!(next_wait_ms(true), None);
    assert_eq!(next_wait_ms(false), Some(100));
}
