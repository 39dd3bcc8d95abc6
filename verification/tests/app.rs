use linkclihost::app::{History, HISTORY_CAP, HISTORY_DISPLAY};

#[test]
fn history_buffer_evicts_oldest_past_cap() {
    let mut h: History<u64> = History::new();
    for i in 1..=(HISTORY_CAP as u64 + 3) {
        h.push(i);
    }
    assert_eq!(h.len(), HISTORY_CAP);
    assert_eq!(h.front(), Some(4));
    assert_eq!(h.back(), Some(HISTORY_CAP as u64 + 3));
    let all = h.to_vec();
    assert_eq!(all, (4..=(HISTORY_CAP as u64 + 3)).collect::<Vec<_>>());
}

#[test]
fn recent_changes_returns_newest_first_capped() {
    let mut h: History<u64> = History::new();
    for i in 1..=10 {
        h.push(i);
    }
    let r = h.recent();
    assert_eq!(r.len(), HISTORY_DISPLAY);
    assert_eq!(r, vec![10, 9, 8, 7, 6]);
}

#[test]
fn short_history_shows_everything_newest_first() {
    let mut h: History<u64> = History::new();
    assert!(h.is_empty());
    assert_eq!(h.recent(), Vec::<u64>::new());
    assert_eq!(h.front(), None);
    assert_eq!(h.back(), None);
    h.push(7);
    h.push(8);
    assert!(!h.is_empty());
    assert_eq!(h.recent(), vec![8, 7]);
    assert_eq!(h.len(), 2);
}
