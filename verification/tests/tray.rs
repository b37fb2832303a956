use lumitray::tray::{
    decimal_text, icon_index, menu_choice, monitor_label, tooltip_name, MenuChoice, Theme, MENU_AUTOSTART, MENU_EXIT,
    MENU_RESTORE_BRIGHTNESS,
};

#[test]
fn menu_labels_map_to_actions() {
    assert_eq!(menu_choice(MENU_AUTOSTART), MenuChoice::ToggleAutostart);
    assert_eq!(menu_choice("启动时恢复亮度"), MenuChoice::ToggleRestoreBrightness);
    assert_eq!(menu_choice(MENU_RESTORE_BRIGHTNESS), MenuChoice::ToggleRestoreBrightness);
    assert_eq!(menu_choice(MENU_EXIT), MenuChoice::Exit);
    assert_eq!(menu_choice("sep-exit"), MenuChoice::Ignore);
    assert_eq!(menu_choice(""), MenuChoice::Ignore);
}

#[test]
fn icon_follows_theme() {
    assert_eq!(icon_index(Theme::Light), 0);
    assert_eq!(icon_index(Theme::Dark), 1);
}

#[test]
fn tooltip_falls_back_to_generic_name() {
    assert_eq!(tooltip_name(""), "显示器");
    assert_eq!(tooltip_name("Dell"), "Dell");
}

#[test]
fn unnamed_monitor_rows_are_numbered_from_one() {
    assert_eq!(monitor_label(&String::new(), 0), "显示器 1");
    assert_eq!(monitor_label(&String::new(), 11), "显示器 12");
    assert_eq!(monitor_label(&"Dell".to_string(), 3), "Dell");
}

#[test]
fn decimal_text_writes_digits() {
    assert_eq!(decimal_text(0), "0");
    assert_eq!(decimal_text(7), "7");
    assert_eq!(decimal_text(10), "10");
    assert_eq!(decimal_text(4096), "4096");
    assert_eq!(decimal_text(usize::MAX), usize::MAX.to_string());
}
