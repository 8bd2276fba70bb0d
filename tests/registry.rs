use pbreactor::registry::{first_set, CancelManager};

#[test]
fn ids_are_handed_out_in_order() {
    let mut m = CancelManager::new();
    let (a, _ra) = m.new_cancel_id();
    let (b, _rb) = m.new_cancel_id();
    let (c, _rc) = m.new_cancel_id();
    assert_eq!((a, b, c), (0, 1, 2));
    assert_eq!(m.len(), 3);
    assert!(m.contains(0) && m.contains(1) && m.contains(2));
}

#[test]
fn closed_slot_is_reused() {
    let mut m = CancelManager::new();
    let (a, ra) = m.new_cancel_id();
    let (b, _rb) = m.new_cancel_id();
    drop(ra);
    let (c, _rc) = m.new_cancel_id();
    assert_eq!(c, 2);
    assert_eq!(m.len(), 2);
    assert!(!m.contains(a));
    assert!(m.contains(b) && m.contains(c));
}

#[test]
fn open_slots_are_not_reused() {
    let mut m = CancelManager::new();
    let (_a, _ra) = m.new_cancel_id();
    let (_b, _rb) = m.new_cancel_id();
    let (_c, _rc) = m.new_cancel_id();
    assert_eq!(m.len(), 3);
}

#[test]
fn cancel_fires_the_signal() {
    let mut m = CancelManager::new();
    let (a, mut ra) = m.new_cancel_id();
    let (_b, mut rb) = m.new_cancel_id();
    m.cancel(a);
    assert!(ra.try_recv().is_ok());
    assert!(rb.try_recv().is_err());
    assert!(!m.contains(a));
    assert_eq!(m.len(), 1);
}

#[test]
fn cancel_of_absent_id_is_noop() {
    let mut m = CancelManager::new();
    let (a, _ra) = m.new_cancel_id();
    m.cancel(7);
    assert_eq!(m.len(), 1);
    assert!(m.contains(a));
}

#[test]
fn remove_succeeds_once() {
    let mut m = CancelManager::new();
    let (a, mut ra) = m.new_cancel_id();
    assert!(m.remove(a));
    assert!(!m.remove(a));
    assert_eq!(m.len(), 0);
    // removal drops the sender without signalling
    assert!(matches!(
        ra.try_recv(),
        Err(tokio::sync::oneshot::error::TryRecvError::Closed)
    ));
}

#[test]
fn remove_after_cancel_fails() {
    let mut m = CancelManager::new();
    let (a, _ra) = m.new_cancel_id();
    m.cancel(a);
    assert!(!m.remove(a));
}

#[test]
fn cancel_after_remove_sends_nothing() {
    let mut m = CancelManager::new();
    let (a, _ra) = m.new_cancel_id();
    let (b, _rb) = m.new_cancel_id();
    assert!(m.remove(a));
    m.cancel(a);
    assert_eq!(m.len(), 1);
    assert!(m.contains(b));
}

#[test]
fn cancel_all_fires_every_signal() {
    let mut m = CancelManager::new();
    let mut rxs = Vec::new();
    for _ in 0..5 {
        let (_id, rx) = m.new_cancel_id();
        rxs.push(rx);
    }
    m.cancel_all();
    assert_eq!(m.len(), 0);
    for mut rx in rxs {
        assert!(rx.try_recv().is_ok());
    }
}

#[test]
fn sequential_tasks_keep_table_small() {
    let mut m = CancelManager::new();
    for i in 0..10_000u64 {
        let (id, rx) = m.new_cancel_id();
        assert_eq!(id, i);
        drop(rx);
        assert!(m.len() <= 1);
    }
    assert_eq!(m.len(), 1);
}

#[test]
fn place_slot_takes_first_closed() {
    let mut m = CancelManager::new();
    let (a, _ra) = m.new_cancel_id();
    let (b, _rb) = m.new_cancel_id();
    let (c, _rc) = m.new_cancel_id();
    let (tx, _rx) = tokio::sync::oneshot::channel();
    let d = m.place_slot(&vec![false, true, true], tx);
    assert_eq!(d, 3);
    assert_eq!(m.len(), 3);
    assert!(m.contains(a) && !m.contains(b) && m.contains(c) && m.contains(d));
}

#[test]
fn place_slot_appends_when_none_closed() {
    let mut m = CancelManager::new();
    let (_a, _ra) = m.new_cancel_id();
    let (tx, _rx) = tokio::sync::oneshot::channel();
    let d = m.place_slot(&vec![false], tx);
    assert_eq!(d, 1);
    assert_eq!(m.len(), 2);
}

#[test]
fn first_set_finds_first() {
    assert_eq!(first_set(&vec![false, true, true]), Some(1));
    assert_eq!(first_set(&vec![true]), Some(0));
    assert_eq!(first_set(&vec![false, false]), None);
    assert_eq!(first_set(&vec![]), None);
}

#[test]
fn next_id_counts_handed_out_ids() {
    let mut m = CancelManager::new();
    assert_eq!(m.next_id(), 0);
    let (_a, _ra) = m.new_cancel_id();
    m.cancel(0);
    let (_b, _rb) = m.new_cancel_id();
    assert_eq!(m.next_id(), 2);
}
