use diagnostic_updater_rs::{
    builtin_time_to_nanos, first_deadline, stamp_from_nanos, timer_step, CompositeDiagnosticTask,
    DiagnosticStatusWrapper, DiagnosticTask, Time, UpdaterCore,
};

struct Noop;

impl DiagnosticTask for Noop {
    fn get_name(&self) -> String {
        String::new()
    }

    fn run(&mut self, _stat: &mut DiagnosticStatusWrapper) {}
}

struct SetsOk;

impl DiagnosticTask for SetsOk {
    fn get_name(&self) -> String {
        "test".to_string()
    }

    fn run(&mut self, stat: &mut DiagnosticStatusWrapper) {
        stat.summary(0, "ok");
    }
}

struct SetsLevel(u8);

impl DiagnosticTask for SetsLevel {
    fn get_name(&self) -> String {
        "level".to_string()
    }

    fn run(&mut self, stat: &mut DiagnosticStatusWrapper) {
        stat.summary(self.0, "set");
    }
}

#[test]
fn can_add_a_task() {
    let mut updater = UpdaterCore::new("diagnosed_node");
    updater.add("test", Noop);
    assert_eq!(updater.task_count(), 1);
}

#[test]
fn can_remove_a_task_by_name() {
    let mut updater = UpdaterCore::new("diagnosed_node");
    assert!(!updater.remove_by_name("test"));
    updater.add("test", Noop);
    assert!(updater.remove_by_name("test"));
}

#[test]
fn remove_by_name_takes_the_first_match() {
    let mut updater = UpdaterCore::new("n");
    updater.add("a", SetsLevel(1));
    updater.add("b", SetsLevel(2));
    updater.add("a", SetsLevel(3));
    assert!(updater.remove_by_name("a"));
    let (statuses, _) = updater.update();
    assert_eq!(statuses.len(), 2);
    assert_eq!((statuses[0].status.name.as_str(), statuses[0].status.level), ("b", 2));
    assert_eq!((statuses[1].status.name.as_str(), statuses[1].status.level), ("a", 3));
    assert!(updater.remove_by_name("a"));
    assert!(!updater.remove_by_name("a"));
    assert_eq!(updater.task_count(), 1);
}

#[test]
fn status_name_uses_short_node_name_by_default() {
    let mut updater = UpdaterCore::new("diagnosed_node");
    updater.add("test", SetsOk);
    let (statuses, _) = updater.update();
    let msg = updater.publication(&statuses, 0);
    assert!(msg
        .status
        .iter()
        .any(|s| s.name == "diagnosed_node: test" && s.message == "ok"));
}

#[test]
fn status_name_uses_fqn_when_parameter_is_set() {
    let mut updater = UpdaterCore::new("/diagnosed_node");
    updater.add("test", SetsOk);
    let (statuses, _) = updater.update();
    let msg = updater.publication(&statuses, 0);
    assert!(msg
        .status
        .iter()
        .any(|s| s.name == "/diagnosed_node: test" && s.message == "ok"));
}

#[test]
fn can_publish_diag_msgs() {
    let mut updater = UpdaterCore::new("diagnosed_node");
    let startup = updater.add("test", Noop);
    let first = updater.publication(&vec![startup], 0);
    assert_eq!(first.status.len(), 1);
    assert_eq!(first.status[0].level, 0);
    assert_eq!(first.status[0].message, "Node starting up");
    for _ in 0..3 {
        let (statuses, _) = updater.update();
        let msg = updater.publication(&statuses, 0);
        assert_eq!(msg.status[0].level, 2);
        assert_eq!(msg.status[0].message, "No message was set");
    }
}

#[test]
fn initial_status_carries_the_hardware_id() {
    let mut updater = UpdaterCore::new("n");
    updater.add("t", Noop);
    assert_eq!(updater.initial_status(0).status.hardware_id, "");
    updater.set_hardware_id("none");
    let w = updater.initial_status(0);
    assert_eq!(w.status.hardware_id, "none");
    assert_eq!(w.status.name, "t");
    let (statuses, _) = updater.update();
    assert_eq!(statuses[0].status.hardware_id, "none");
}

#[test]
fn missing_hardware_id_warns_once_when_all_ok() {
    let mut updater = UpdaterCore::new("n");
    updater.add("t", SetsLevel(1));
    assert!(!updater.update().1);
    let mut ok = UpdaterCore::new("n");
    ok.add("t", SetsOk);
    assert!(ok.update().1);
    assert!(!ok.update().1);

    let mut with_id = UpdaterCore::new("n");
    with_id.add("t", SetsOk);
    with_id.set_hardware_id("hw");
    assert!(!with_id.update().1);

    let mut empty: UpdaterCore<Noop> = UpdaterCore::new("n");
    assert!(empty.update().1);
}

#[test]
fn broadcast_reaches_every_task() {
    let mut updater = UpdaterCore::new("n");
    updater.add("a", Noop);
    updater.add("b", Noop);
    let out = updater.broadcast(3, "shutting down");
    assert_eq!(out.len(), 2);
    assert_eq!(out[0].status.name, "a");
    assert_eq!(out[1].status.name, "b");
    assert!(out.iter().all(|w| w.status.level == 3 && w.status.message == "shutting down"));
}

#[test]
fn publication_stamps_the_header() {
    let updater: UpdaterCore<Noop> = UpdaterCore::new("n");
    let msg = updater.publication(&Vec::new(), 3_500_000_001);
    assert_eq!(msg.header.stamp.sec, 3);
    assert_eq!(msg.header.stamp.nanosec, 500_000_001);
    assert_eq!(msg.header.frame_id, "");
    assert!(msg.status.is_empty());
}

#[test]
fn stamps_split_and_join_nanoseconds() {
    let t = stamp_from_nanos(1_700_000_000_123_456_789);
    assert_eq!((t.sec, t.nanosec), (1_700_000_000, 123_456_789));
    assert_eq!(builtin_time_to_nanos(&t), 1_700_000_000_123_456_789);
    let neg = stamp_from_nanos(-1_500_000_000);
    assert_eq!(neg.sec, -1);
    assert_eq!(neg.nanosec, (-500_000_000i64) as u32);
    assert_eq!(builtin_time_to_nanos(&Time { sec: -2, nanosec: 5 }), -1_999_999_995);
    let big = stamp_from_nanos(i64::MAX);
    assert_eq!(big.sec, (i64::MAX / 1_000_000_000) as i32);
    assert_eq!(big.nanosec, 854_775_807);
}

struct Fixed {
    name: &'static str,
    level: u8,
    message: &'static str,
}

impl DiagnosticTask for Fixed {
    fn get_name(&self) -> String {
        self.name.to_string()
    }

    fn run(&mut self, stat: &mut DiagnosticStatusWrapper) {
        stat.summary(self.level, self.message);
        stat.add(self.name, "ran");
    }
}

#[test]
fn composite_task_merges_the_summaries() {
    let mut composite = CompositeDiagnosticTask::new("composite");
    composite.add_task(Fixed { name: "a", level: 1, message: "low" });
    composite.add_task(Fixed { name: "b", level: 2, message: "bad" });
    composite.add_task(Fixed { name: "c", level: 0, message: "fine" });
    assert_eq!(composite.get_name(), "composite");
    let mut stat = DiagnosticStatusWrapper::default();
    stat.summary(0, "before");
    composite.run(&mut stat);
    assert_eq!(stat.status.level, 2);
    assert_eq!(stat.status.message, "low; bad");
    assert_eq!(stat.status.values.len(), 3);
}

#[test]
fn composite_task_without_subtasks_clears_the_summary() {
    let mut composite: CompositeDiagnosticTask<Fixed> = CompositeDiagnosticTask::new("empty");
    let mut stat = DiagnosticStatusWrapper::default();
    stat.summary(2, "before");
    composite.run(&mut stat);
    assert_eq!(stat.status.level, 0);
    assert_eq!(stat.status.message, "");
}

#[test]
fn can_publish_diag_msg_on_start() {
    let mut updater = UpdaterCore::new("diagnosed_node");
    let startup = updater.add("test", Noop);
    let msg = updater.publication(&vec![startup], 1);
    assert_eq!(msg.status.len(), 1);
    assert_eq!(msg.status[0].name, "diagnosed_node: test");
    assert_eq!(msg.status[0].level, 0);
    assert_eq!(msg.status[0].message, "Node starting up");
}

#[test]
fn timer_sleeps_until_each_deadline() {
    let period = 10;
    let mut next = first_deadline(100, period);
    assert_eq!(next, 110);
    // Early: sleep until the deadline.
    let (sleep, n) = timer_step(next, 103, period);
    assert_eq!((sleep, n), (7, 120));
    next = n;
    // Late: no sleep, and the schedule keeps its pace.
    let (sleep, n) = timer_step(next, 125, period);
    assert_eq!((sleep, n), (0, 130));
    next = n;
    let (sleep, n) = timer_step(next, 130, period);
    assert_eq!((sleep, n), (0, 140));
}

#[test]
fn hardware_id_is_kept_across_changes() {
    let mut updater = UpdaterCore::new("n");
    updater.set_hardware_id("hw");
    updater.add("a", SetsOk);
    updater.add("b", SetsOk);
    assert!(updater.remove_by_name("a"));
    for _ in 0..2 {
        let (statuses, warn) = updater.update();
        assert!(!warn);
        assert!(statuses.iter().all(|w| w.status.hardware_id == "hw"));
    }
}
