use lumitray::brightness::{
    align_levels, choose_description, coalesce, first_name, friendly_name_for, lookup_before_command,
    lookup_when_idle, mergeable, apply_command, Action, Command, LevelTable, set_all_levels, set_level, Batch, CommandKind, SetAllTries,
};

fn batch(kind: CommandKind, first: usize, last: usize) -> Batch {
    Batch { kind, first, last }
}

#[test]
fn coalesce_folds_runs_of_the_same_command() {
    let kinds = vec![
        CommandKind::SetOne(1),
        CommandKind::SetOne(1),
        CommandKind::SetOne(2),
        CommandKind::AdjustAll,
        CommandKind::AdjustAll,
        CommandKind::AdjustAll,
        CommandKind::Refresh,
        CommandKind::Refresh,
        CommandKind::SetAll,
        CommandKind::SetAll,
    ];
    assert_eq!(
        coalesce(&kinds),
        vec![
            batch(CommandKind::SetOne(1), 0, 1),
            batch(CommandKind::SetOne(2), 2, 2),
            batch(CommandKind::AdjustAll, 3, 5),
            batch(CommandKind::Refresh, 6, 6),
            batch(CommandKind::Refresh, 7, 7),
            batch(CommandKind::SetAll, 8, 9),
        ]
    );
}

#[test]
fn coalesce_keeps_interleaved_commands_apart() {
    let kinds = vec![CommandKind::SetAll, CommandKind::AdjustAll, CommandKind::SetAll];
    assert_eq!(
        coalesce(&kinds),
        vec![
            batch(CommandKind::SetAll, 0, 0),
            batch(CommandKind::AdjustAll, 1, 1),
            batch(CommandKind::SetAll, 2, 2),
        ]
    );
    assert_eq!(coalesce(&Vec::new()), Vec::new());
}

#[test]
fn refresh_never_merges() {
    assert!(!mergeable(CommandKind::Refresh, CommandKind::Refresh));
    assert!(mergeable(CommandKind::SetOne(3), CommandKind::SetOne(3)));
    assert!(!mergeable(CommandKind::SetOne(3), CommandKind::SetOne(4)));
    assert!(!mergeable(CommandKind::SetAll, CommandKind::AdjustAll));
}

#[test]
fn align_levels_follows_monitor_count() {
    let mut levels = vec![10.0, 20.0];
    align_levels(&vec![30.0, 40.0], &mut levels);
    assert_eq!(levels, vec![10.0, 20.0]);
    align_levels(&vec![30.0, 40.0, 50.0], &mut levels);
    assert_eq!(levels, vec![30.0, 40.0, 50.0]);
    align_levels(&Vec::new(), &mut levels);
    assert!(levels.is_empty());
}

#[test]
fn set_all_and_set_one() {
    let mut levels = vec![1.0, 2.0, 3.0];
    set_all_levels(&mut levels, 55.5);
    assert_eq!(levels, vec![55.5, 55.5, 55.5]);
    assert!(set_level(&mut levels, 3, 1, 10.0));
    assert_eq!(levels, vec![55.5, 10.0, 55.5]);
    assert!(!set_level(&mut levels, 3, 3, 10.0));
    assert!(!set_level(&mut levels, 1, 2, 10.0));
    assert_eq!(levels, vec![55.5, 10.0, 55.5]);
}

#[test]
fn lookup_schedule() {
    assert!(lookup_before_command(None, false));
    assert!(!lookup_before_command(Some(10_000), false));
    assert!(!lookup_before_command(Some(4_999), true));
    assert!(lookup_before_command(Some(5_000), true));
    assert!(lookup_when_idle(None));
    assert!(!lookup_when_idle(Some(4_999)));
    assert!(lookup_when_idle(Some(5_000)));
}

#[test]
fn set_all_is_tried_three_times_at_most() {
    let mut tries = SetAllTries::new();
    assert!(tries.round_done(false));
    assert!(tries.round_done(false));
    assert!(!tries.round_done(false));
    let mut tries = SetAllTries::new();
    assert!(!tries.round_done(true));
}

#[test]
fn friendly_names_are_looked_up_by_device() {
    let friendly = vec![
        ("\\\\.\\DISPLAY1".to_string(), "Dell U2720Q".to_string()),
        ("\\\\.\\DISPLAY2".to_string(), "LG 27UL850".to_string()),
        ("\\\\.\\DISPLAY2".to_string(), "Second entry".to_string()),
    ];
    assert_eq!(
        friendly_name_for(&friendly, &Some("\\\\.\\DISPLAY2".to_string())),
        Some("LG 27UL850".to_string())
    );
    assert_eq!(friendly_name_for(&friendly, &Some("\\\\.\\DISPLAY3".to_string())), None);
    assert_eq!(friendly_name_for(&friendly, &None), None);
}

#[test]
fn description_prefers_a_non_empty_friendly_name() {
    assert_eq!(choose_description(Some("Dell".to_string()), "Generic PnP".to_string()), "Dell");
    assert_eq!(choose_description(Some(String::new()), "Generic PnP".to_string()), "Generic PnP");
    assert_eq!(choose_description(None, "Generic PnP".to_string()), "Generic PnP");
}

#[test]
fn first_name_or_empty() {
    assert_eq!(first_name(&vec!["A".to_string(), "B".to_string()]), "A");
    assert_eq!(first_name(&Vec::new()), "");
}

fn names(list: &[&str]) -> Vec<String> {
    list.iter().map(|name| name.to_string()).collect()
}

fn adjust(level: f64, delta: f64) -> f64 {
    (level + delta).clamp(0.0, 100.0)
}

#[test]
fn level_table_keeps_one_level_per_monitor() {
    let mut table: LevelTable<f64> = LevelTable::new();
    assert!(table.levels().is_empty());
    assert_eq!(table.status().tray_level(), None);
    table.realign(&names(&["A", "B"]), &vec![30.0, 40.0]);
    assert_eq!(table.levels(), &vec![30.0, 40.0]);
    table.set_all(70.0);
    assert_eq!(table.levels(), &vec![70.0, 70.0]);
    table.realign(&names(&["C", "D"]), &vec![10.0, 20.0]);
    assert_eq!(table.levels(), &vec![70.0, 70.0]);
    assert_eq!(table.status().names, names(&["C", "D"]));
    assert!(table.set_one(1, 55.0));
    assert!(!table.set_one(2, 55.0));
    assert_eq!(table.levels(), &vec![70.0, 55.0]);
    table.adjust_each(&adjust, 40.0);
    assert_eq!(table.levels(), &vec![100.0, 95.0]);
    assert_eq!(table.status().tray_level(), Some(100.0));
    table.realign(&names(&["E"]), &vec![5.0]);
    assert_eq!(table.levels(), &vec![5.0]);
    table.reset(&vec![8.0]);
    assert_eq!(table.levels(), &vec![8.0]);
    table.reapply_all(&names(&["F", "G", "H"]), &vec![1.0, 2.0, 3.0], 60.0);
    assert_eq!(table.levels(), &vec![60.0, 60.0, 60.0]);
    table.realign(&Vec::new(), &Vec::new());
    assert!(table.levels().is_empty());
    assert!(table.status().names.is_empty());
}

fn published(action: &Action<f64>) -> (Vec<String>, Vec<f64>) {
    match action {
        Action::Publish(p) => (p.names.clone(), p.levels.clone()),
        _ => panic!("expected a publish"),
    }
}

#[test]
fn commands_publish_then_write() {
    let mut table: LevelTable<f64> = LevelTable::new();
    table.realign(&names(&["A", "B"]), &vec![30.0, 40.0]);
    let probed = vec![31.0, 41.0];

    let actions = apply_command(&mut table, Command::SetAll(80.0), &probed, &adjust);
    assert_eq!(actions.len(), 2);
    assert_eq!(published(&actions[0]), (names(&["A", "B"]), vec![80.0, 80.0]));
    assert!(matches!(actions[1], Action::WriteAll(v) if v == 80.0));

    let actions = apply_command(&mut table, Command::SetOne(1, 25.0), &probed, &adjust);
    assert_eq!(actions.len(), 2);
    assert_eq!(published(&actions[0]), (names(&["A", "B"]), vec![80.0, 25.0]));
    assert!(matches!(actions[1], Action::WriteOne(1, v) if v == 25.0));

    let actions = apply_command(&mut table, Command::SetOne(2, 25.0), &probed, &adjust);
    assert!(actions.is_empty());
    assert_eq!(table.levels(), &vec![80.0, 25.0]);

    let actions = apply_command(&mut table, Command::AdjustAll(30.0), &probed, &adjust);
    assert_eq!(actions.len(), 2);
    assert_eq!(published(&actions[0]), (names(&["A", "B"]), vec![100.0, 55.0]));
    assert!(matches!(&actions[1], Action::WriteEach(each) if *each == vec![100.0, 55.0]));

    let actions = apply_command(&mut table, Command::Refresh, &probed, &adjust);
    assert_eq!(actions.len(), 1);
    assert_eq!(published(&actions[0]), (names(&["A", "B"]), vec![31.0, 41.0]));
}

#[test]
fn command_kinds() {
    assert_eq!(Command::SetOne(3, 1.0).kind(), CommandKind::SetOne(3));
    assert_eq!(Command::<f64>::Refresh.kind(), CommandKind::Refresh);
    assert_eq!(Command::SetAll(1.0).kind(), CommandKind::SetAll);
    assert_eq!(Command::AdjustAll(1.0).kind(), CommandKind::AdjustAll);
}
