use dpist::config::{validate, Config, ModifierUi};
use dpist::techniques::{DelayConfig, ModifierConfig};
use dpist::text::{decimal_string, parse_unsigned, text_eq};
use dpist::tui::app::{finish_save, save, App, Focus, MenuItem};
use dpist::tui::input::{handle_input, DispatchResult, Key};
use dpist::tui::ui_schema::{FieldKind, UiSchema};
use dpist::tui::{modifier_name, open_editor};

fn config(input: &str, output: &str, modifiers: Vec<ModifierConfig>) -> Config {
    Config { input: input.to_string(), output: output.to_string(), modifiers }
}

fn press(app: &mut App, keys: &[Key]) -> DispatchResult {
    let mut last = DispatchResult::Continue;
    for k in keys {
        last = handle_input(app, *k);
    }
    last
}

fn type_text(app: &mut App, text: &str) {
    for c in text.chars() {
        handle_input(app, Key::Char(c));
    }
}

#[test]
fn default_config_paths() {
    let c = Config::default();
    assert_eq!(c.input, "input.pcap");
    assert_eq!(c.output, "output.pcap");
    assert!(c.modifiers.is_empty());
}

#[test]
fn validate_reports_empty_paths() {
    assert_eq!(validate(&config("a", "b", vec![])), Ok(()));
    assert_eq!(validate(&config("", "b", vec![])), Err("Input path cannot be empty".to_string()));
    assert_eq!(validate(&config("a", "", vec![])), Err("Output path cannot be empty".to_string()));
    assert_eq!(validate(&config("", "", vec![])), Err("Input path cannot be empty".to_string()));
}

#[test]
fn editor_offers_configured_then_missing_defaults() {
    let app = open_editor(config(
        "in",
        "out",
        vec![
            ModifierConfig::DropEveryNth { n: 3 },
            ModifierConfig::HttpHeaderFragmentation { fragment_size: 9 },
        ],
    ));
    let names: Vec<&str> = app.modifier_ui.iter().map(|m| modifier_name(&m.config)).collect();
    assert_eq!(
        names,
        vec![
            "Drop Every Nth",
            "HTTP Header Fragmentation",
            "Delay (Fixed)",
            "Delay (Jitter)",
            "Delay (Packet Pacing)",
            "Delay (Rate Limit)",
            "Delay (Burst)",
            "TCP Segmentation",
            "TLS ClientHello Fragmentation",
        ]
    );
    assert!(app.modifier_ui[0].enabled && app.modifier_ui[1].enabled);
    assert!(app.modifier_ui[2..].iter().all(|m| !m.enabled));
    assert_eq!(app.modifier_ui[0].config, ModifierConfig::DropEveryNth { n: 3 });
    assert_eq!(app.status, "Ready");
    assert_eq!(app.config_path, "config.toml");
    assert_eq!(app.focus, Focus::Menu);
    assert_eq!(app.current_menu(), MenuItem::General);
}

#[test]
fn empty_config_gets_all_defaults() {
    let app = open_editor(config("in", "out", vec![]));
    assert_eq!(app.modifier_ui.len(), 8);
    assert_eq!(
        app.modifier_ui[1].config,
        ModifierConfig::Delay(DelayConfig::Jitter { min_ms: 50, max_ms: 200 })
    );
    assert_eq!(app.modifier_ui[7].config, ModifierConfig::DropEveryNth { n: 10 });
}

#[test]
fn menu_wraps_around() {
    let ui = vec![
        ModifierUi { enabled: false, config: ModifierConfig::DropEveryNth { n: 1 } },
        ModifierUi { enabled: false, config: ModifierConfig::DropEveryNth { n: 2 } },
    ];
    assert_eq!(MenuItem::General.next(&ui), MenuItem::Modifier(0));
    assert_eq!(MenuItem::Modifier(1).next(&ui), MenuItem::General);
    assert_eq!(MenuItem::General.prev(&ui), MenuItem::Modifier(1));
    assert_eq!(MenuItem::Modifier(0).prev(&ui), MenuItem::General);
    assert_eq!(MenuItem::Modifier(0).next(&ui).prev(&ui), MenuItem::Modifier(0));
    assert_eq!(MenuItem::General.next(&vec![]), MenuItem::General);
    assert_eq!(MenuItem::General.prev(&vec![]), MenuItem::General);
}

#[test]
fn toggle_and_save_keeps_enabled_modifiers() {
    let mut app = open_editor(config("in.pcap", "out.pcap", vec![]));
    // Select the jitter delay and switch it on.
    press(&mut app, &[Key::Down, Key::Down, Key::Tab]);
    assert_eq!(app.selected_menu, MenuItem::Modifier(1));
    assert!(app.modifier_ui[1].enabled);
    let r = handle_input(&mut app, Key::Char('s'));
    assert_eq!(r, DispatchResult::Save);
    assert_eq!(
        app.config.modifiers,
        vec![ModifierConfig::Delay(DelayConfig::Jitter { min_ms: 50, max_ms: 200 })]
    );
    finish_save(&mut app, Ok(()));
    assert_eq!(app.status, "Saved config.toml");
    finish_save(&mut app, Err("disk full".to_string()));
    assert_eq!(app.status, "Save failed: disk full");
}

#[test]
fn save_of_invalid_config_reports_why() {
    let mut app = open_editor(config("", "out", vec![]));
    assert!(!save(&mut app));
    assert_eq!(app.status, "Invalid config: Input path cannot be empty");
    assert_eq!(handle_input(&mut app, Key::Char('s')), DispatchResult::Continue);
}

#[test]
fn quit_key() {
    let mut app = open_editor(config("in", "out", vec![]));
    assert_eq!(handle_input(&mut app, Key::Char('q')), DispatchResult::Exit);
}

#[test]
fn editing_a_path() {
    let mut app = open_editor(config("in.pcap", "out.pcap", vec![]));
    press(&mut app, &[Key::Right, Key::Down, Key::Enter]);
    assert_eq!(app.focus, Focus::Editing);
    assert_eq!(app.edit_buffer, "out.pcap");
    press(&mut app, &[Key::Backspace, Key::Backspace, Key::Backspace, Key::Backspace]);
    type_text(&mut app, "cap");
    assert_eq!(app.edit_buffer, "out.cap");
    handle_input(&mut app, Key::Enter);
    assert_eq!(app.config.output, "out.cap");
    assert_eq!(app.focus, Focus::Config);
    assert_eq!(app.edit_buffer, "");
}

#[test]
fn editing_a_number() {
    let mut app = open_editor(config("in", "out", vec![ModifierConfig::DropEveryNth { n: 7 }]));
    press(&mut app, &[Key::Down, Key::Char('l'), Key::Enter]);
    assert_eq!(app.edit_buffer, "7");
    press(&mut app, &[Key::Backspace]);
    type_text(&mut app, "+42");
    press(&mut app, &[Key::Enter]);
    assert_eq!(app.modifier_ui[0].config, ModifierConfig::DropEveryNth { n: 42 });
    // Text that is not a number leaves the value as it was.
    press(&mut app, &[Key::Enter]);
    type_text(&mut app, "x");
    press(&mut app, &[Key::Enter]);
    assert_eq!(app.modifier_ui[0].config, ModifierConfig::DropEveryNth { n: 42 });
    // Esc drops the text.
    press(&mut app, &[Key::Enter, Key::Backspace, Key::Backspace]);
    type_text(&mut app, "9");
    press(&mut app, &[Key::Esc]);
    assert_eq!(app.modifier_ui[0].config, ModifierConfig::DropEveryNth { n: 42 });
    assert_eq!(app.focus, Focus::Config);
}

#[test]
fn committing_unchanged_text_keeps_value() {
    let mut app = open_editor(config(
        "in",
        "out",
        vec![ModifierConfig::TcpOutOfOrder { window: 12345 }],
    ));
    press(&mut app, &[Key::Down, Key::Right, Key::Enter, Key::Enter]);
    assert_eq!(app.modifier_ui[0].config, ModifierConfig::TcpOutOfOrder { window: 12345 });
}

#[test]
fn second_setting_of_jitter_is_stored_in_the_first() {
    let mut app = open_editor(config(
        "in",
        "out",
        vec![ModifierConfig::Delay(DelayConfig::Jitter { min_ms: 5, max_ms: 80 })],
    ));
    press(&mut app, &[Key::Down, Key::Right, Key::Down, Key::Down]);
    assert_eq!(app.selected_field, 1);
    handle_input(&mut app, Key::Enter);
    assert_eq!(app.edit_buffer, "80");
    handle_input(&mut app, Key::Enter);
    assert_eq!(
        app.modifier_ui[0].config,
        ModifierConfig::Delay(DelayConfig::Jitter { min_ms: 80, max_ms: 80 })
    );
}

#[test]
fn field_selection_is_bounded() {
    let mut app = open_editor(config("in", "out", vec![]));
    press(&mut app, &[Key::Char('l'), Key::Char('j'), Key::Char('j'), Key::Char('j')]);
    assert_eq!(app.selected_field, 1);
    press(&mut app, &[Key::Char('k'), Key::Char('k'), Key::Char('k')]);
    assert_eq!(app.selected_field, 0);
    press(&mut app, &[Key::Char('h')]);
    assert_eq!(app.focus, Focus::Menu);
}

#[test]
fn numbers_read_and_written() {
    assert_eq!(decimal_string(0), "0");
    assert_eq!(decimal_string(1234567890), "1234567890");
    assert_eq!(decimal_string(u64::MAX), "18446744073709551615");
    let s = |t: &str| t.to_string();
    assert_eq!(parse_unsigned(&s("18446744073709551615"), u64::MAX), Some(u64::MAX));
    assert_eq!(parse_unsigned(&s("18446744073709551616"), u64::MAX), None);
    assert_eq!(parse_unsigned(&s("007"), u64::MAX), Some(7));
    assert_eq!(parse_unsigned(&s("+5"), u64::MAX), Some(5));
    assert_eq!(parse_unsigned(&s("+"), u64::MAX), None);
    assert_eq!(parse_unsigned(&s(""), u64::MAX), None);
    assert_eq!(parse_unsigned(&s("-1"), u64::MAX), None);
    assert_eq!(parse_unsigned(&s("1 2"), u64::MAX), None);
    assert_eq!(parse_unsigned(&s("٣"), u64::MAX), None);
    assert_eq!(parse_unsigned(&s("300"), 255), None);
    assert_eq!(parse_unsigned(&s("255"), 255), Some(255));
    for n in [0u64, 9, 10, 99, 100, 65535, u64::MAX] {
        assert_eq!(parse_unsigned(&decimal_string(n), u64::MAX), Some(n));
        assert_eq!(decimal_string(n), n.to_string());
    }
    assert!(text_eq("abc", "abc"));
    assert!(!text_eq("abc", "abd"));
    assert!(!text_eq("ab", "abc"));
}

#[test]
fn ui_schema_lists_settings() {
    let g = UiSchema::general();
    assert_eq!(g.len(), 2);
    assert_eq!(g[0].name, "input");
    assert!(matches!(g[1].kind, FieldKind::Path));
    let m = UiSchema::modifiers();
    assert_eq!(m.len(), 5);
    assert_eq!(m[2].name, "Delay::Jitter");
    assert_eq!(m[2].fields[1].name, "max_ms");
}

#[test]
fn menu_cycles_through_every_entry() {
    let ui = vec![
        ModifierUi { enabled: false, config: ModifierConfig::DropEveryNth { n: 1 } },
        ModifierUi { enabled: false, config: ModifierConfig::DropEveryNth { n: 2 } },
    ];
    for start in [MenuItem::General, MenuItem::Modifier(0), MenuItem::Modifier(1)] {
        let mut seen = vec![start];
        let mut m = start;
        for _ in 0..3 {
            m = m.next(&ui);
            seen.push(m);
        }
        assert_eq!(m, start);
        for j in 0..3 {
            for k in (j + 1)..3 {
                assert_ne!(seen[j], seen[k]);
            }
        }
    }
}

#[test]
fn toggling_twice_restores_the_editor() {
    let mut app = open_editor(config("in.pcap", "out.pcap", vec![]));
    press(&mut app, &[Key::Down, Key::Down, Key::Down]);
    assert_eq!(app.selected_menu, MenuItem::Modifier(2));
    let before: Vec<ModifierUi> = app.modifier_ui.clone();
    press(&mut app, &[Key::Tab]);
    assert!(app.modifier_ui[2].enabled);
    assert_eq!(app.modifier_ui[..2], before[..2]);
    assert_eq!(app.modifier_ui[3..], before[3..]);
    press(&mut app, &[Key::Tab]);
    assert_eq!(app.modifier_ui, before);
    assert_eq!(app.selected_menu, MenuItem::Modifier(2));
}

#[test]
fn delay_kinds_are_told_apart_by_key() {
    let app = open_editor(config(
        "in",
        "out",
        vec![
            ModifierConfig::Delay(DelayConfig::Burst { active_ms: 1, pause_ms: 2 }),
            ModifierConfig::Delay(DelayConfig::Fixed { millis: 7 }),
        ],
    ));
    let names: Vec<&str> = app.modifier_ui.iter().map(|m| modifier_name(&m.config)).collect();
    assert_eq!(
        names,
        vec![
            "Delay (Burst)",
            "Delay (Fixed)",
            "Delay (Jitter)",
            "Delay (Packet Pacing)",
            "Delay (Rate Limit)",
            "TCP Segmentation",
            "TLS ClientHello Fragmentation",
            "Drop Every Nth",
        ]
    );
}
