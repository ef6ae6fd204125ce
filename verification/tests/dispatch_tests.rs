use exec_runtime::dispatch::{CancellationToken, DispatchList};

#[test]
fn push_then_pop_fires_exactly_once() {
    let mut list: DispatchList<&'static str> = DispatchList::new();
    let id = list.push("greet", CancellationToken::new());
    assert_eq!(list.pop(id), Some("greet"));
    assert_eq!(list.pop(id), None);
}

#[test]
fn distinct_pushes_get_distinct_ids() {
    let mut list: DispatchList<u32> = DispatchList::new();
    let a = list.push(1, CancellationToken::new());
    let b = list.push(2, CancellationToken::new());
    assert_ne!(a, b);
    assert_eq!(list.pop(b), Some(2));
    assert_eq!(list.pop(a), Some(1));
}

#[test]
fn cancel_before_pop_suppresses_the_callback() {
    let mut list: DispatchList<u32> = DispatchList::new();
    let id = list.push(41, CancellationToken::new());
    assert!(list.cancel(id));
    assert_eq!(list.pop(id), None);
    assert_eq!(list.pop(id), None);
}

#[test]
fn cancel_of_unknown_id_reports_not_found() {
    let mut list: DispatchList<u32> = DispatchList::new();
    assert!(!list.cancel(12));
    let id = list.push(5, CancellationToken::new());
    assert_eq!(list.pop(id), Some(5));
    assert!(!list.cancel(id));
}

#[test]
fn pushing_an_already_cancelled_token_never_fires() {
    let mut list: DispatchList<u32> = DispatchList::new();
    let mut token = CancellationToken::new();
    token.cancel();
    assert!(token.cancelled);
    let id = list.push(9, token);
    assert_eq!(list.pop(id), None);
}

#[test]
fn fire_many_pops_in_order_and_skips_missing() {
    let mut list: DispatchList<&'static str> = DispatchList::new();
    let a = list.push("first", CancellationToken::new());
    let b = list.push("second", CancellationToken::new());
    let c = list.push("third", CancellationToken::new());
    assert!(list.cancel(b));
    let fired = list.fire_many(&vec![a, b, c, 999, a]);
    assert_eq!(fired, vec!["first", "third"]);
}
