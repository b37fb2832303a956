use lumitray::prefs::{
    config_path, data_dir_path, newest_job, plan_load, read_only_mode, ConfigRead, SaveGate,
    CURRENT_VERSION,
};

#[test]
fn read_only_mode_covers_corrupt_and_future_versions() {
    assert!(!read_only_mode(false, CURRENT_VERSION));
    assert!(!read_only_mode(false, 0));
    assert!(read_only_mode(true, CURRENT_VERSION));
    assert!(read_only_mode(false, CURRENT_VERSION + 1));
}

#[test]
fn missing_file_is_created_with_defaults() {
    let plan = plan_load(ConfigRead::Unreadable);
    assert!(!plan.use_parsed);
    assert!(plan.write_default);
    assert!(!plan.corrupt);
    assert!(!plan.read_only);
    assert_eq!(plan.version, 1);
}

#[test]
fn broken_file_is_kept_and_defaults_used() {
    let plan = plan_load(ConfigRead::Unparsable);
    assert!(!plan.use_parsed);
    assert!(plan.corrupt);
    assert!(!plan.write_default);
    assert!(plan.read_only);
    let gate = SaveGate::new(plan.read_only, true);
    assert!(!gate.may_write());
}

#[test]
fn newer_file_is_used_but_never_written() {
    let plan = plan_load(ConfigRead::Parsed { version: 7 });
    assert!(plan.use_parsed);
    assert!(plan.newer_version);
    assert!(plan.read_only);
    assert_eq!(plan.version, 7);
    assert!(!SaveGate::new(plan.read_only, true).may_write());
}

#[test]
fn current_file_is_used_and_writable() {
    let plan = plan_load(ConfigRead::Parsed { version: CURRENT_VERSION });
    assert!(plan.use_parsed);
    assert!(!plan.read_only);
    assert!(!plan.newer_version);
    assert!(SaveGate::new(plan.read_only, true).may_write());
}

#[test]
fn no_data_directory_means_no_writes() {
    let plan = plan_load(ConfigRead::NoPath);
    assert!(!plan.write_default);
    assert!(!plan.read_only);
    assert!(!SaveGate::new(plan.read_only, false).may_write());
    assert_eq!(config_path(None), None);
}

#[test]
fn newest_queued_save_wins() {
    assert_eq!(newest_job(1, vec![2, 3, 4]), 4);
    assert_eq!(newest_job(1, Vec::new()), 1);
}

#[test]
fn config_path_joins_file_name() {
    let path = config_path(Some("dir".to_string())).unwrap();
    assert!(path == "dir/config.toml" || path == "dir\\config.toml");
    let path = config_path(Some("dir/".to_string())).unwrap();
    assert_eq!(path, "dir/config.toml");
}

#[test]
fn data_dir_is_inside_roaming_folder() {
    let dir = data_dir_path("roaming");
    assert!(dir == "roaming/lumitray" || dir == "roaming\\lumitray");
}

#[test]
fn join_puts_one_separator_where_needed() {
    assert_eq!(config_path(Some(String::new())), Some("config.toml".to_string()));
    let path = config_path(Some("D:/Roam/lumitray".to_string())).unwrap();
    assert!(path == "D:/Roam/lumitray/config.toml" || path == "D:/Roam/lumitray\\config.toml");
    let dir = data_dir_path("D:/Roam");
    assert!(dir == "D:/Roam/lumitray" || dir == "D:/Roam\\lumitray");
    assert_eq!(data_dir_path("D:/Roam/"), "D:/Roam/lumitray");
}
