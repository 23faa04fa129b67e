use scoped_tpool::QueueState;

#[test]
fn new_state_is_empty_and_open() {
    let state: QueueState<u8> = QueueState::new();
    assert!(state.is_empty());
    assert_eq!(state.len(), 0);
    assert!(!state.is_closed());
    assert!(state.must_wait());
}

#[test]
fn state_pops_in_stack_order() {
    let mut state: QueueState<u8> = QueueState::new();
    state.push(1);
    state.push(2);
    state.push(3);
    assert_eq!(state.get(0), Some(&1));
    assert_eq!(state.get(2), Some(&3));
    assert_eq!(state.get(3), None);
    assert_eq!(state.pop(), Some(3));
    assert_eq!(state.pop(), Some(2));
    assert_eq!(state.pop(), Some(1));
    assert_eq!(state.pop(), None);
}

#[test]
fn state_waits_only_while_empty_and_open() {
    let mut state: QueueState<u8> = QueueState::new();
    assert!(state.must_wait());
    state.push(1);
    assert!(!state.must_wait());
    assert_eq!(state.pop(), Some(1));
    assert!(state.must_wait());
    state.close();
    assert!(!state.must_wait());
    assert!(state.is_closed());
    assert_eq!(state.pop(), None);
}

#[test]
fn closing_keeps_pending_items() {
    let mut state: QueueState<u8> = QueueState::new();
    state.push(4);
    state.close();
    assert_eq!(state.len(), 1);
    assert_eq!(state.pop(), Some(4));
    assert!(state.is_closed());
}
