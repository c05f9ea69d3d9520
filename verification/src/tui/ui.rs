//! What the editor's screen shows: the menu, the selected entry's settings
//! and the status line. The terminal drawing itself is the program's.
use vstd::prelude::*;
use crate::techniques::{DelayConfig, ModifierConfig};
use crate::text::{decimal, decimal_string};
use crate::tui::app::{App, AppView, Focus, MenuItem, menu_in_range};
use crate::tui::modifier_name;
use crate::tui::modifier_name_text;

verus! {

/// A named value on the screen.
pub struct Field {
    pub name: &'static str,
    pub value: String,
}

/// A line of the settings list: the setting's label, the text shown (the
/// text being typed, where the setting is being edited), whether the
/// modifier is switched on (always, for the general settings), and whether
/// the line is selected or being edited.
pub struct ConfigRow {
    pub field: Field,
    pub active: bool,
    pub selected: bool,
    pub editing: bool,
}

/// The labels, values and activity of the selected entry's settings.
pub open spec fn settings(a: AppView) -> Seq<(Seq<char>, Seq<char>, bool)> {
    match a.selected_menu {
        MenuItem::General => seq![("Input"@, a.input, true), ("Output"@, a.output, true)],
        MenuItem::Modifier(i) => {
            let e = a.modifier_ui[i as int];
            match e.config {
                ModifierConfig::DropEveryNth { n } => seq![("N"@, decimal(n as nat), e.enabled)],
                ModifierConfig::TcpSegmentation { segment_size } => seq![
                    ("Segment"@, decimal(segment_size as nat), e.enabled),
                ],
                ModifierConfig::TlsClientHelloFragmentation { fragment_size } => seq![
                    ("Fragment"@, decimal(fragment_size as nat), e.enabled),
                ],
                ModifierConfig::TcpOutOfOrder { window } => seq![
                    ("Window"@, decimal(window as nat), e.enabled),
                ],
                ModifierConfig::HttpHeaderFragmentation { fragment_size } => seq![
                    ("Fragment"@, decimal(fragment_size as nat), e.enabled),
                ],
                ModifierConfig::Delay(DelayConfig::Fixed { millis }) => seq![
                    ("Millis"@, decimal(millis as nat), e.enabled),
                ],
                ModifierConfig::Delay(DelayConfig::PacketPacing { millis }) => seq![
                    ("Millis"@, decimal(millis as nat), e.enabled),
                ],
                ModifierConfig::Delay(DelayConfig::FlowRateLimit { bytes_per_second }) => seq![
                    ("Bytes/s"@, decimal(bytes_per_second as nat), e.enabled),
                ],
                ModifierConfig::Delay(DelayConfig::Jitter { min_ms, max_ms }) => seq![
                    ("Min ms"@, decimal(min_ms as nat), e.enabled),
                    ("Max ms"@, decimal(max_ms as nat), e.enabled),
                ],
                ModifierConfig::Delay(DelayConfig::Burst { active_ms, pause_ms }) => seq![
                    ("Active ms"@, decimal(active_ms as nat), e.enabled),
                    ("Pause ms"@, decimal(pause_ms as nat), e.enabled),
                ],
            }
        },
    }
}

/// The lines of the settings list, as `config_rows` gives them.
pub open spec fn rows_match(a: AppView, rows: Seq<ConfigRow>) -> bool {
    let s = settings(a);
    &&& rows.len() == s.len()
    &&& forall|i: int|
        0 <= i < s.len() ==> {
            let row = #[trigger] rows[i];
            let editing = a.selected_field == i && a.focus == Focus::Editing;
            &&& row.field.name@ == s[i].0
            &&& row.field.value@ == (if editing {
                a.edit_buffer
            } else {
                s[i].1
            })
            &&& row.active == s[i].2
            &&& row.selected == (a.selected_field == i && a.focus == Focus::Config)
            &&& row.editing == editing
        }
}

/// A row of the settings list.
fn make_row(app: &App, index: usize, name: &'static str, value: String, active: bool) -> (r:
    ConfigRow)
    ensures
        r.field.name@ == name@,
        r.field.value@ == (if app.selected_field == index && app.focus == Focus::Editing {
            app.edit_buffer@
        } else {
            value@
        }),
        r.active == active,
        r.selected == (app.selected_field == index && app.focus == Focus::Config),
        r.editing == (app.selected_field == index && app.focus == Focus::Editing),
{
    let selected = app.selected_field == index && app.focus == Focus::Config;
    let editing = app.selected_field == index && app.focus == Focus::Editing;
    let shown = if editing {
        app.edit_buffer.clone()
    } else {
        value
    };
    ConfigRow { field: Field { name, value: shown }, active, selected, editing }
}

/// The lines of the settings list of the selected menu entry.
pub fn config_rows(app: &App) -> (r: Vec<ConfigRow>)
    requires
        menu_in_range(app.selected_menu, app.modifier_ui@.len()),
    ensures
        rows_match(app@, r@),
{
    let mut rows: Vec<ConfigRow> = Vec::new();
    match app.selected_menu {
        MenuItem::General => {
            rows.push(make_row(app, 0, "Input", app.config.input.clone(), true));
            rows.push(make_row(app, 1, "Output", app.config.output.clone(), true));
        },
        MenuItem::Modifier(idx) => {
            let entry = app.modifier_ui[idx];
            let on = entry.enabled;
            match entry.config {
                ModifierConfig::DropEveryNth { n } => {
                    rows.push(make_row(app, 0, "N", decimal_string(n), on));
                },
                ModifierConfig::TcpSegmentation { segment_size } => {
                    rows.push(make_row(app, 0, "Segment", decimal_string(segment_size as u64), on));
                },
                ModifierConfig::TlsClientHelloFragmentation { fragment_size } => {
                    rows.push(
                        make_row(app, 0, "Fragment", decimal_string(fragment_size as u64), on),
                    );
                },
                ModifierConfig::TcpOutOfOrder { window } => {
                    rows.push(make_row(app, 0, "Window", decimal_string(window as u64), on));
                },
                ModifierConfig::HttpHeaderFragmentation { fragment_size } => {
                    rows.push(
                        make_row(app, 0, "Fragment", decimal_string(fragment_size as u64), on),
                    );
                },
                ModifierConfig::Delay(DelayConfig::Fixed { millis }) => {
                    rows.push(make_row(app, 0, "Millis", decimal_string(millis), on));
                },
                ModifierConfig::Delay(DelayConfig::PacketPacing { millis }) => {
                    rows.push(make_row(app, 0, "Millis", decimal_string(millis), on));
                },
                ModifierConfig::Delay(DelayConfig::FlowRateLimit { bytes_per_second }) => {
                    rows.push(make_row(app, 0, "Bytes/s", decimal_string(bytes_per_second), on));
                },
                ModifierConfig::Delay(DelayConfig::Jitter { min_ms, max_ms }) => {
                    rows.push(make_row(app, 0, "Min ms", decimal_string(min_ms), on));
                    rows.push(make_row(app, 1, "Max ms", decimal_string(max_ms), on));
                },
                ModifierConfig::Delay(DelayConfig::Burst { active_ms, pause_ms }) => {
                    rows.push(make_row(app, 0, "Active ms", decimal_string(active_ms), on));
                    rows.push(make_row(app, 1, "Pause ms", decimal_string(pause_ms), on));
                },
            }
        },
    }
    rows
}

/// The menu's lines: "General", then each modifier's name behind a check
/// mark where it is switched on (a space where it is not) and a space.
pub open spec fn menu_lines(a: AppView) -> Seq<Seq<char>> {
    seq!["General"@] + a.modifier_ui.map_values(
        |e: crate::config::ModifierUi|
            (if e.enabled {
                "\u{2713}"@
            } else {
                " "@
            }) + " "@ + modifier_name_text(e.config),
    )
}

/// The index of the selected menu line.
pub open spec fn menu_index(m: MenuItem) -> int {
    match m {
        MenuItem::General => 0,
        MenuItem::Modifier(i) => i + 1,
    }
}

/// The menu's lines and the index of the selected one.
pub fn menu_rows(app: &App) -> (r: (Vec<String>, usize))
    requires
        app.selected_menu != MenuItem::Modifier(usize::MAX),
    ensures
        r.0@.map_values(|s: String| s@) == menu_lines(app@),
        r.1 == menu_index(app.selected_menu),
{
    let mut lines: Vec<String> = Vec::new();
    lines.push(String::from_str("General"));
    let mut i: usize = 0;
    while i < app.modifier_ui.len()
        invariant
            i <= app.modifier_ui@.len(),
            lines@.map_values(|s: String| s@) == menu_lines(app@).take(i + 1),
        decreases app.modifier_ui@.len() - i,
    {
        let entry = app.modifier_ui[i];
        let state = if entry.enabled {
            "\u{2713}"
        } else {
            " "
        };
        let line = String::from_str(state).concat(" ").concat(modifier_name(&entry.config));
        let ghost before = lines@;
        lines.push(line);
        proof {
            assert(lines@.map_values(|s: String| s@) =~= before.map_values(|s: String| s@).push(
                line@,
            ));
            assert(menu_lines(app@).take(i + 2) =~= menu_lines(app@).take(i + 1).push(
                menu_lines(app@)[i + 1],
            ));
        }
        i = i + 1;
    }
    assert(menu_lines(app@).take(i + 1) =~= menu_lines(app@));
    let index = match app.selected_menu {
        MenuItem::General => 0,
        MenuItem::Modifier(i) => i + 1,
    };
    (lines, index)
}

/// The mode names of the focus.
pub open spec fn mode_text(f: Focus) -> Seq<char> {
    match f {
        Focus::Config => "CONFIG"@,
        Focus::Menu => "MENU"@,
        Focus::Editing => "EDITING"@,
    }
}

/// The status line: the mode, then the key help.
pub fn status_text(app: &App) -> (r: String)
    ensures
        r@ == "Mode: "@ + mode_text(app.focus)
            + " | q: quit | s: save | hjkl/arrows: navigate | enter: edit | tab: toggle"@,
{
    let mode = match app.focus {
        Focus::Config => "CONFIG",
        Focus::Menu => "MENU",
        Focus::Editing => "EDITING",
    };
    String::from_str("Mode: ").concat(mode).concat(
        " | q: quit | s: save | hjkl/arrows: navigate | enter: edit | tab: toggle",
    )
}

} // verus!
