//! The background monitor: high-CPU detection and the notification
//! cooldown.

use procsnipe::monitor::{MonitorState, NOTIFICATION_COOLDOWN_MS};
use procsnipe::record::RawProcess;

fn raw(pid: u32, name: &str, cpu_centi: u32) -> RawProcess {
    RawProcess {
        pid,
        name: name.as_bytes().to_vec(),
        cpu_centi,
        memory: 0,
    }
}

#[test]
fn alerts_on_the_first_hot_process() {
    let mut m = MonitorState::new(0);
    let procs = vec![
        raw(1, "idle.exe", 100),
        raw(2, "miner.exe", 9500),
        raw(3, "hog.exe", 8100),
    ];
    let alert = m.monitor_step(NOTIFICATION_COOLDOWN_MS + 1, &procs).unwrap();
    assert_eq!(alert.name, b"miner.exe".to_vec());
    assert_eq!(alert.cpu_centi, 9500);
    assert_eq!(m.last_notification_ms, NOTIFICATION_COOLDOWN_MS + 1);
}

#[test]
fn stays_quiet_without_hot_processes() {
    let mut m = MonitorState::new(0);
    let procs = vec![raw(1, "idle.exe", 100), raw(2, "calm.exe", 8000)];
    // 80.00% exactly is not above the threshold
    assert!(m.monitor_step(NOTIFICATION_COOLDOWN_MS + 1, &procs).is_none());
    assert_eq!(m.last_notification_ms, 0);
}

#[test]
fn cooldown_gates_repeat_alerts() {
    let mut m = MonitorState::new(0);
    let procs = vec![raw(2, "miner.exe", 9500)];
    let t1 = NOTIFICATION_COOLDOWN_MS + 1;
    assert!(m.monitor_step(t1, &procs).is_some());
    // shortly after: still cooling down
    assert!(m.monitor_step(t1 + 500, &procs).is_none());
    assert_eq!(m.last_notification_ms, t1);
    // once the cooldown has passed again it fires again
    let t2 = t1 + NOTIFICATION_COOLDOWN_MS + 1;
    assert!(m.monitor_step(t2, &procs).is_some());
    assert_eq!(m.last_notification_ms, t2);
}

#[test]
fn within_initial_cooldown_nothing_fires() {
    let mut m = MonitorState::new(0);
    let procs = vec![raw(2, "miner.exe", 9500)];
    assert!(m.monitor_step(NOTIFICATION_COOLDOWN_MS, &procs).is_none());
}
