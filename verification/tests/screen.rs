use dpist::config::{Config, ModifierUi};
use dpist::flow_table::FlowTable;
use dpist::flows::{FlowKey, IpAddr};
use dpist::techniques::{DelayConfig, ModifierConfig};
use dpist::tui::app::{App, Focus, MenuItem};
use dpist::tui::input::{can_handle, Key};
use dpist::tui::ui::{config_rows, menu_rows, status_text};

fn app_with(ui: Vec<ModifierUi>) -> App {
    App::new(
        Config { input: "a.pcap".to_string(), output: "b.pcap".to_string(), modifiers: vec![] },
        ui,
        "cfg.toml".to_string(),
    )
}

fn ui() -> Vec<ModifierUi> {
    vec![
        ModifierUi {
            enabled: true,
            config: ModifierConfig::Delay(DelayConfig::Burst { active_ms: 10, pause_ms: 20 }),
        },
        ModifierUi { enabled: false, config: ModifierConfig::TcpOutOfOrder { window: 4 } },
    ]
}

#[test]
fn new_app_starts_at_the_menu() {
    let app = app_with(ui());
    assert_eq!(app.focus, Focus::Menu);
    assert_eq!(app.selected_menu, MenuItem::General);
    assert_eq!(app.selected_field, 0);
    assert_eq!(app.edit_buffer, "");
    assert_eq!(app.status, "Ready");
    assert_eq!(app.config_path, "cfg.toml");
}

#[test]
fn sync_keeps_enabled_modifiers_in_order() {
    let mut app = app_with(ui());
    app.sync_to_config();
    assert_eq!(
        app.config.modifiers,
        vec![ModifierConfig::Delay(DelayConfig::Burst { active_ms: 10, pause_ms: 20 })]
    );
    app.modifier_ui[1].enabled = true;
    app.sync_to_config();
    assert_eq!(app.config.modifiers.len(), 2);
    assert_eq!(app.config.modifiers[1], ModifierConfig::TcpOutOfOrder { window: 4 });
}

#[test]
fn menu_lines_mark_enabled_modifiers() {
    let mut app = app_with(ui());
    app.selected_menu = MenuItem::Modifier(1);
    let (lines, index) = menu_rows(&app);
    assert_eq!(lines, vec!["General", "\u{2713} Delay (Burst)", "  TCP Out-of-Order"]);
    assert_eq!(index, 2);
}

#[test]
fn settings_rows_of_general_and_modifiers() {
    let mut app = app_with(ui());
    app.focus = Focus::Config;
    app.selected_field = 1;
    let rows = config_rows(&app);
    assert_eq!(rows.len(), 2);
    assert_eq!(rows[0].field.name, "Input");
    assert_eq!(rows[0].field.value, "a.pcap");
    assert!(rows[0].active && !rows[0].selected);
    assert!(rows[1].selected && !rows[1].editing);

    app.selected_menu = MenuItem::Modifier(0);
    app.focus = Focus::Editing;
    app.selected_field = 1;
    app.edit_buffer = "99".to_string();
    let rows = config_rows(&app);
    assert_eq!(rows[0].field.name, "Active ms");
    assert_eq!(rows[0].field.value, "10");
    assert_eq!(rows[1].field.name, "Pause ms");
    assert_eq!(rows[1].field.value, "99");
    assert!(rows[1].editing && !rows[1].selected);

    app.selected_menu = MenuItem::Modifier(1);
    app.focus = Focus::Config;
    let rows = config_rows(&app);
    assert_eq!(rows.len(), 1);
    assert_eq!(rows[0].field.name, "Window");
    assert_eq!(rows[0].field.value, "4");
    assert!(!rows[0].active);
}

#[test]
fn status_line_names_the_mode() {
    let mut app = app_with(ui());
    assert_eq!(
        status_text(&app),
        "Mode: MENU | q: quit | s: save | hjkl/arrows: navigate | enter: edit | tab: toggle"
    );
    app.focus = Focus::Editing;
    assert!(status_text(&app).starts_with("Mode: EDITING |"));
}

#[test]
fn keys_that_cannot_be_handled() {
    let mut app = app_with(ui());
    app.selected_menu = MenuItem::Modifier(5);
    app.focus = Focus::Config;
    assert!(!can_handle(&app, Key::Enter));
    assert!(can_handle(&app, Key::Down));
    app.focus = Focus::Editing;
    assert!(!can_handle(&app, Key::Enter));
    assert!(can_handle(&app, Key::Char('x')));
    app.selected_menu = MenuItem::General;
    app.focus = Focus::Config;
    app.selected_field = usize::MAX;
    assert!(!can_handle(&app, Key::Char('j')));
    assert!(can_handle(&app, Key::Char('q')));
}

fn key(n: u16) -> FlowKey {
    FlowKey { src_ip: IpAddr::V4(1), dst_ip: IpAddr::V6(2), src_port: n, dst_port: 9, protocol: 17 }
}

#[test]
fn flow_table_reads_back_writes() {
    let mut t: FlowTable<u32> = FlowTable::new();
    assert_eq!(t.get(&key(1)), None);
    t.insert(key(1), 10);
    t.insert(key(2), 20);
    t.insert(key(1), 11);
    assert_eq!(t.get(&key(1)), Some(&11));
    assert_eq!(t.get(&key(2)), Some(&20));
    assert_eq!(t.remove(&key(1)), Some(11));
    assert_eq!(t.get(&key(1)), None);
    assert_eq!(t.remove(&key(1)), None);
    assert_eq!(t.get(&key(2)), Some(&20));
}
