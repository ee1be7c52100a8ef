use plane_core::log_history::{LogHistory, LOG_HISTORY_CAPACITY};

fn contents(h: &LogHistory<u32>) -> Vec<u32> {
    (0..h.len()).map(|i| *h.get(i)).collect()
}

#[test]
fn keeps_lines_in_order_below_capacity() {
    let mut h = LogHistory::new();
    h.add_log(1u32);
    h.add_log(2);
    assert_eq!(contents(&h), vec![1, 2]);
}

#[test]
fn drops_oldest_lines_beyond_capacity() {
    assert_eq!(LOG_HISTORY_CAPACITY, 200);
    let mut h = LogHistory::new();
    for i in 0..250u32 {
        h.add_log(i);
    }
    assert_eq!(h.len(), 200);
    assert_eq!(*h.get(0), 50);
    assert_eq!(*h.get(199), 249);
}

#[test]
fn batch_and_single_additions_agree() {
    let mut a = LogHistory::new();
    let mut b = LogHistory::new();
    for i in 0..150u32 {
        a.add_log(i);
        b.add_log(i);
    }
    let more: Vec<u32> = (150..330).collect();
    for x in more.iter() {
        a.add_log(*x);
    }
    b.add_logs(more);
    assert_eq!(contents(&a), contents(&b));
    assert_eq!(b.len(), 200);
    assert_eq!(*b.get(0), 130);
}

#[test]
fn empty_batch_changes_nothing() {
    let mut h = LogHistory::new();
    h.add_log(9u32);
    h.add_logs(Vec::new());
    assert_eq!(contents(&h), vec![9]);
}
