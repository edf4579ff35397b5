use diagnostic_updater_rs::{DiagnosticStatus, DiagnosticStatusWrapper};

#[test]
fn test_default_status_wrapper_is_empty() {
    let w = DiagnosticStatusWrapper::default();
    assert_eq!(w.status.level, 0);
    assert_eq!(w.status.message, "");
    assert_eq!(w.status.values.len(), 0);
}

#[test]
fn summary_sets_level_and_message() {
    let mut w = DiagnosticStatusWrapper::default();
    w.summary(DiagnosticStatus::WARN, "test");
    assert_eq!(w.status.level, DiagnosticStatus::WARN);
    assert_eq!(w.status.message, "test");
    assert_eq!(w.status.values.len(), 0);
}

#[test]
fn summary_from_status_copies_level_and_message() {
    let mut w1 = DiagnosticStatusWrapper::default();
    w1.summary(DiagnosticStatus::WARN, "test");
    let mut w2 = DiagnosticStatusWrapper::default();
    w2.summary_from_status(&w1);
    assert_eq!(w2.status.level, DiagnosticStatus::WARN);
    assert_eq!(w2.status.message, "test");
}

#[test]
fn merge_summary_follows_the_levels() {
    let mut w = DiagnosticStatusWrapper::default();
    w.summary(DiagnosticStatus::OK, "Was ok");
    assert_eq!(w.status.level, DiagnosticStatus::OK);
    assert_eq!(w.status.message, "Was ok");

    w.merge_summary(DiagnosticStatus::OK, "Still ok");
    assert_eq!(w.status.level, DiagnosticStatus::OK);
    assert_eq!(w.status.message, "Was ok; Still ok");

    w.merge_summary(DiagnosticStatus::WARN, "Warning");
    assert_eq!(w.status.level, DiagnosticStatus::WARN);
    assert_eq!(w.status.message, "Warning");

    w.merge_summary(DiagnosticStatus::ERROR, "Error");
    assert_eq!(w.status.level, DiagnosticStatus::ERROR);
    assert_eq!(w.status.message, "Warning; Error");
}

#[test]
fn merge_summary_keeps_the_message_of_the_greater_level() {
    let mut w = DiagnosticStatusWrapper::default();
    w.summary(DiagnosticStatus::ERROR, "Error");
    w.merge_summary(DiagnosticStatus::OK, "fine");
    assert_eq!(w.status.level, DiagnosticStatus::ERROR);
    assert_eq!(w.status.message, "Error");
}

#[test]
fn merge_summary_into_an_empty_message_keeps_it_empty() {
    let mut w = DiagnosticStatusWrapper::default();
    w.merge_summary(DiagnosticStatus::OK, "ok");
    assert_eq!(w.status.level, DiagnosticStatus::OK);
    assert_eq!(w.status.message, "");
}

#[test]
fn merge_summary_from_status_merges_the_other_summary() {
    let mut w1 = DiagnosticStatusWrapper::default();
    w1.summary(DiagnosticStatus::OK, "Was ok");
    let mut w2 = DiagnosticStatusWrapper::default();
    w2.summary(DiagnosticStatus::ERROR, "Error");
    w1.merge_summary_from_status(&w2);
    assert_eq!(w2.status.level, DiagnosticStatus::ERROR);
    assert_eq!(w2.status.message, "Error");
    assert_eq!(w1.status.level, DiagnosticStatus::ERROR);
    assert_eq!(w1.status.message, "Error");
}

#[test]
fn merge_summary_from_wrapper_merges_the_other_summary() {
    let mut w1 = DiagnosticStatusWrapper::default();
    w1.summary(DiagnosticStatus::OK, "Was ok");
    let mut w2 = DiagnosticStatusWrapper::default();
    w2.summary(DiagnosticStatus::ERROR, "Error");
    w1.merge_summary_from_wrapper(&w2);
    assert_eq!(w1.status.level, DiagnosticStatus::ERROR);
    assert_eq!(w1.status.message, "Error");
}

#[test]
fn clear_summary_resets_level_and_message() {
    let mut w = DiagnosticStatusWrapper::default();
    w.summary(DiagnosticStatus::WARN, "test");
    w.clear_summary();
    assert_eq!(w.status.level, DiagnosticStatus::OK);
    assert_eq!(w.status.message, "");
    assert_eq!(w.status.values.len(), 0);
}

#[test]
fn clear_removes_the_values() {
    let mut w = DiagnosticStatusWrapper::default();
    w.add("key1", "value1");
    assert_eq!(w.status.values.len(), 1);
    w.clear();
    assert_eq!(w.status.values.len(), 0);
}

#[test]
fn add_appends_key_value_pairs() {
    let mut w = DiagnosticStatusWrapper::default();
    w.add("key1", "value1");
    assert_eq!(w.status.values.len(), 1);
    assert_eq!(w.status.values[0].key, "key1");
    assert_eq!(w.status.values[0].value, "value1");

    w.add_bool("key2", true);
    assert_eq!(w.status.values.len(), 2);
    assert_eq!(w.status.values[1].key, "key2");
    assert_eq!(w.status.values[1].value, "true");

    w.add_bool("key3", false);
    assert_eq!(w.status.values[2].value, "false");
}

#[test]
fn add_renders_integers_in_decimal() {
    let mut w = DiagnosticStatusWrapper::default();
    w.add_u64("zero", 0);
    w.add_u64("big", u64::MAX);
    w.add_i64("neg", -1_234_567);
    w.add_i64("min", i64::MIN);
    w.add_i64("pos", 907);
    let values: Vec<&str> = w.status.values.iter().map(|kv| kv.value.as_str()).collect();
    assert_eq!(
        values,
        vec!["0", "18446744073709551615", "-1234567", "-9223372036854775808", "907"]
    );
}

#[test]
fn clone_copies_the_whole_status() {
    let mut w = DiagnosticStatusWrapper::default();
    w.summary(DiagnosticStatus::STALE, "stale");
    w.status.name = "n".to_string();
    w.status.hardware_id = "hw".to_string();
    w.add("k", "v");
    let c = w.clone();
    assert_eq!(c.status.level, 3);
    assert_eq!(c.status.message, "stale");
    assert_eq!(c.status.name, "n");
    assert_eq!(c.status.hardware_id, "hw");
    assert_eq!(c.status.values.len(), 1);
    assert_eq!(c.status.values[0].key, "k");
}

#[test]
fn merge_summary_into_an_empty_non_ok_message_keeps_the_new_one() {
    let mut w = DiagnosticStatusWrapper::default();
    w.summary(DiagnosticStatus::WARN, "");
    w.merge_summary(DiagnosticStatus::ERROR, "Error");
    assert_eq!(w.status.level, DiagnosticStatus::ERROR);
    assert_eq!(w.status.message, "Error");
    w.merge_summary(DiagnosticStatus::WARN, "Warning");
    assert_eq!(w.status.level, DiagnosticStatus::ERROR);
    assert_eq!(w.status.message, "Error; Warning");
}
