use std::collections::HashSet;
use std::sync::{Arc, Mutex};
use task_tracker::tracker::TaskTracker;

#[test]
fn interleaved_callers_never_share_an_id() {
    let shared = Arc::new(Mutex::new(TaskTracker::new()));
    let callers: Vec<Arc<Mutex<TaskTracker>>> = (0..8).map(|_| Arc::clone(&shared)).collect();
    let mut received: Vec<Vec<u64>> = vec![Vec::new(); callers.len()];
    for round in 0..50 {
        for (w, handle) in callers.iter().enumerate() {
            let mut tracker = handle.lock().unwrap();
            let task = tracker.add_task(format!("caller {w} task {round}"), "d".to_string(), None).unwrap();
            received[w].push(task.id);
            if (round + w) % 7 == 0 {
                assert!(tracker.delete_task(task.id).is_some());
            }
        }
    }
    let mut seen = HashSet::new();
    for ids in &received {
        for pair in ids.windows(2) {
            assert!(pair[0] < pair[1]);
        }
        for id in ids {
            assert!(seen.insert(*id));
        }
    }
    assert_eq!(seen.len(), 400);
    assert_eq!(shared.lock().unwrap().next_id(), 401);
}
