//! How keys change the editor.
use vstd::prelude::*;
use crate::config::{ModifierUi, validation_error};
use crate::techniques::{DelayConfig, ModifierConfig};
use crate::text::{
    decimal, decimal_string, lemma_decimal_parses, parse_unsigned, parsed, pop_char, push_char,
};
use crate::tui::modifier_kind;
use crate::tui::app::{
    App, AppView, Focus, MenuItem, after_save, menu_in_range, save, spec_next, spec_prev,
};

verus! {

/// A key press, as the editor tells keys apart.
#[derive(Debug, Clone, Copy, PartialEq, Eq, Structural)]
pub enum Key {
    Char(char),
    Up,
    Down,
    Left,
    Right,
    Tab,
    Enter,
    Esc,
    Backspace,
    Other,
}

/// What the editor's loop is to do after a key.
#[derive(Debug, Clone, Copy, PartialEq, Eq, Structural)]
pub enum DispatchResult {
    /// Wait for the next key.
    Continue,
    /// Leave the editor.
    Exit,
    /// Write the (valid) configuration to the configuration path, report the
    /// result with `finish_save`, and wait for the next key.
    Save,
}

/// 'j' or the down arrow.
pub open spec fn is_down(key: Key) -> bool {
    key == Key::Down || key == Key::Char('j')
}

/// 'k' or the up arrow.
pub open spec fn is_up(key: Key) -> bool {
    key == Key::Up || key == Key::Char('k')
}

/// 'l' or the right arrow.
pub open spec fn is_right(key: Key) -> bool {
    key == Key::Right || key == Key::Char('l')
}

/// 'h' or the left arrow.
pub open spec fn is_left(key: Key) -> bool {
    key == Key::Left || key == Key::Char('h')
}

/// The editor with the selected modifier switched on or off (unchanged
/// where the general settings, or no existing modifier, are selected).
pub open spec fn toggled(a: AppView) -> AppView {
    match a.selected_menu {
        MenuItem::Modifier(i) => if i < a.modifier_ui.len() {
            AppView {
                modifier_ui: a.modifier_ui.update(
                    i as int,
                    ModifierUi {
                        enabled: !a.modifier_ui[i as int].enabled,
                        config: a.modifier_ui[i as int].config,
                    },
                ),
                ..a
            }
        } else {
            a
        },
        MenuItem::General => a,
    }
}

/// Switching the selected modifier twice leaves the editor as it was.
pub proof fn lemma_toggle_twice(a: AppView)
    ensures
        toggled(toggled(a)) == a,
{
    if let MenuItem::Modifier(i) = a.selected_menu {
        if i < a.modifier_ui.len() {
            assert(toggled(toggled(a)).modifier_ui =~= a.modifier_ui);
        }
    }
}

/// How many settings a modifier has.
pub open spec fn config_field_count(c: ModifierConfig) -> nat {
    match c {
        ModifierConfig::Delay(DelayConfig::Jitter { .. }) => 2,
        ModifierConfig::Delay(DelayConfig::Burst { .. }) => 2,
        _ => 1,
    }
}

/// How many settings the selected entry has: 2 for the general settings,
/// the modifier's count, or 0 where no existing modifier is selected.
pub open spec fn spec_field_count(a: AppView) -> nat {
    match a.selected_menu {
        MenuItem::General => 2,
        MenuItem::Modifier(i) => if i < a.modifier_ui.len() {
            config_field_count(a.modifier_ui[i as int].config)
        } else {
            0
        },
    }
}

/// The editor after a key while the menu has focus.
pub open spec fn after_menu_key(a: AppView, key: Key) -> AppView {
    if is_down(key) {
        AppView {
            selected_menu: spec_next(a.selected_menu, a.modifier_ui.len()),
            selected_field: 0,
            ..a
        }
    } else if is_up(key) {
        AppView {
            selected_menu: spec_prev(a.selected_menu, a.modifier_ui.len()),
            selected_field: 0,
            ..a
        }
    } else if is_right(key) {
        AppView { focus: Focus::Config, selected_field: 0, ..a }
    } else if key == Key::Tab {
        toggled(a)
    } else {
        a
    }
}

/// The text shown for setting `field` of a modifier.
pub open spec fn config_text(c: ModifierConfig, field: usize) -> Seq<char> {
    match c {
        ModifierConfig::DropEveryNth { n } => decimal(n as nat),
        ModifierConfig::TcpSegmentation { segment_size } => decimal(segment_size as nat),
        ModifierConfig::TlsClientHelloFragmentation { fragment_size } => decimal(
            fragment_size as nat,
        ),
        ModifierConfig::TcpOutOfOrder { window } => decimal(window as nat),
        ModifierConfig::HttpHeaderFragmentation { fragment_size } => decimal(fragment_size as nat),
        ModifierConfig::Delay(d) => match d {
            DelayConfig::Fixed { millis } => if field == 0 {
                decimal(millis as nat)
            } else {
                Seq::empty()
            },
            DelayConfig::PacketPacing { millis } => if field == 0 {
                decimal(millis as nat)
            } else {
                Seq::empty()
            },
            DelayConfig::FlowRateLimit { bytes_per_second } => if field == 0 {
                decimal(bytes_per_second as nat)
            } else {
                Seq::empty()
            },
            DelayConfig::Jitter { min_ms, max_ms } => if field == 0 {
                decimal(min_ms as nat)
            } else if field == 1 {
                decimal(max_ms as nat)
            } else {
                Seq::empty()
            },
            DelayConfig::Burst { active_ms, pause_ms } => if field == 0 {
                decimal(active_ms as nat)
            } else if field == 1 {
                decimal(pause_ms as nat)
            } else {
                Seq::empty()
            },
        },
    }
}

/// The text an edit of the selected setting starts from.
pub open spec fn edit_text(a: AppView) -> Seq<char> {
    match a.selected_menu {
        MenuItem::General => if a.selected_field == 0 {
            a.input
        } else if a.selected_field == 1 {
            a.output
        } else {
            Seq::empty()
        },
        MenuItem::Modifier(i) => config_text(a.modifier_ui[i as int].config, a.selected_field),
    }
}

/// The editor once an edit of the selected setting has started.
pub open spec fn started_edit(a: AppView) -> AppView {
    AppView { focus: Focus::Editing, edit_buffer: edit_text(a), ..a }
}

/// The editor after a key while the settings have focus.
pub open spec fn after_config_key(a: AppView, key: Key) -> AppView {
    let max = spec_field_count(a);
    if is_left(key) {
        AppView { focus: Focus::Menu, ..a }
    } else if is_down(key) {
        if max == 0 {
            match a.selected_menu {
                MenuItem::Modifier(_) => AppView { selected_field: 0, ..a },
                MenuItem::General => a,
            }
        } else {
            AppView {
                selected_field: if a.selected_field + 1 <= max - 1 {
                    (a.selected_field + 1) as usize
                } else {
                    (max - 1) as usize
                },
                ..a
            }
        }
    } else if is_up(key) {
        AppView {
            selected_field: if a.selected_field == 0 {
                0
            } else {
                (a.selected_field - 1) as usize
            },
            ..a
        }
    } else if key == Key::Tab {
        toggled(a)
    } else if key == Key::Enter {
        started_edit(a)
    } else {
        a
    }
}

/// `text` read as a `u64` (or `old` where it is not one).
pub open spec fn typed_u64(text: Seq<char>, old: u64) -> u64 {
    match parsed(text, u64::MAX as nat) {
        Some(v) => v as u64,
        None => old,
    }
}

/// `text` read as a `usize` (or `old` where it is not one).
pub open spec fn typed_usize(text: Seq<char>, old: usize) -> usize {
    match parsed(text, usize::MAX as nat) {
        Some(v) => v as usize,
        None => old,
    }
}

/// A modifier's configuration with the typed text stored: in its only
/// setting, or, for the jitter and burst delays, in the first one (the
/// minimum, the active time) whichever setting was being edited.
pub open spec fn committed_config(c: ModifierConfig, text: Seq<char>) -> ModifierConfig {
    match c {
        ModifierConfig::DropEveryNth { n } => ModifierConfig::DropEveryNth {
            n: typed_u64(text, n),
        },
        ModifierConfig::TcpSegmentation { segment_size } => ModifierConfig::TcpSegmentation {
            segment_size: typed_usize(text, segment_size),
        },
        ModifierConfig::TlsClientHelloFragmentation {
            fragment_size,
        } => ModifierConfig::TlsClientHelloFragmentation {
            fragment_size: typed_usize(text, fragment_size),
        },
        ModifierConfig::TcpOutOfOrder { window } => ModifierConfig::TcpOutOfOrder {
            window: typed_usize(text, window),
        },
        ModifierConfig::HttpHeaderFragmentation {
            fragment_size,
        } => ModifierConfig::HttpHeaderFragmentation {
            fragment_size: typed_usize(text, fragment_size),
        },
        ModifierConfig::Delay(d) => ModifierConfig::Delay(
            match d {
                DelayConfig::Fixed { millis } => DelayConfig::Fixed {
                    millis: typed_u64(text, millis),
                },
                DelayConfig::PacketPacing { millis } => DelayConfig::PacketPacing {
                    millis: typed_u64(text, millis),
                },
                DelayConfig::FlowRateLimit { bytes_per_second } => DelayConfig::FlowRateLimit {
                    bytes_per_second: typed_u64(text, bytes_per_second),
                },
                DelayConfig::Jitter { min_ms, max_ms } => DelayConfig::Jitter {
                    min_ms: typed_u64(text, min_ms),
                    max_ms,
                },
                DelayConfig::Burst { active_ms, pause_ms } => DelayConfig::Burst {
                    active_ms: typed_u64(text, active_ms),
                    pause_ms,
                },
            },
        ),
    }
}

/// The editor once the typed text is stored in the selected setting (a
/// number that does not read as one leaves a modifier's setting as it was)
/// and the text is cleared.
pub open spec fn committed(a: AppView) -> AppView {
    let stored = match a.selected_menu {
        MenuItem::General => if a.selected_field == 0 {
            AppView { input: a.edit_buffer, ..a }
        } else if a.selected_field == 1 {
            AppView { output: a.edit_buffer, ..a }
        } else {
            a
        },
        MenuItem::Modifier(i) => AppView {
            modifier_ui: a.modifier_ui.update(
                i as int,
                ModifierUi {
                    enabled: a.modifier_ui[i as int].enabled,
                    config: committed_config(a.modifier_ui[i as int].config, a.edit_buffer),
                },
            ),
            ..a
        },
    };
    AppView { edit_buffer: Seq::empty(), ..stored }
}

/// The editor after a key while text is being typed.
pub open spec fn after_edit_key(a: AppView, key: Key) -> AppView {
    match key {
        Key::Esc => AppView { edit_buffer: Seq::empty(), focus: Focus::Config, ..a },
        Key::Enter => AppView { focus: Focus::Config, ..committed(a) },
        Key::Backspace => AppView {
            edit_buffer: if a.edit_buffer.len() == 0 {
                a.edit_buffer
            } else {
                a.edit_buffer.drop_last()
            },
            ..a
        },
        Key::Char(c) => AppView { edit_buffer: a.edit_buffer.push(c), ..a },
        _ => a,
    }
}

/// A key can be handled: the text is committed into, or an edit started
/// from, an existing modifier (where one is selected), and moving down the
/// settings does not pass the largest index.
pub open spec fn input_defined(a: AppView, key: Key) -> bool {
    let ok_index = menu_in_range(a.selected_menu, a.modifier_ui.len());
    if a.focus == Focus::Editing {
        key == Key::Enter ==> ok_index
    } else if key == Key::Char('q') || key == Key::Char('s') {
        true
    } else if a.focus == Focus::Config {
        &&& (is_down(key) && spec_field_count(a) != 0 ==> a.selected_field < usize::MAX)
        &&& (key == Key::Enter ==> ok_index)
    } else {
        true
    }
}

/// The editor after a key, and what the loop is to do: while typing, the
/// key edits the text; otherwise 'q' leaves, 's' saves, and other keys go to
/// the menu or the settings, whichever has focus.
pub open spec fn dispatched(a: AppView, key: Key) -> (AppView, DispatchResult) {
    if a.focus == Focus::Editing {
        (after_edit_key(a, key), DispatchResult::Continue)
    } else if key == Key::Char('q') {
        (a, DispatchResult::Exit)
    } else if key == Key::Char('s') {
        (
            after_save(a),
            if validation_error(a.input, a.output) is None {
                DispatchResult::Save
            } else {
                DispatchResult::Continue
            },
        )
    } else if a.focus == Focus::Menu {
        (after_menu_key(a, key), DispatchResult::Continue)
    } else {
        (after_config_key(a, key), DispatchResult::Continue)
    }
}

/// The editor is in a state the keys keep it in: the selected menu entry
/// exists and the selected setting index is below the largest index.
pub open spec fn app_valid(a: AppView) -> bool {
    menu_in_range(a.selected_menu, a.modifier_ui.len()) && a.selected_field < usize::MAX
        && a.modifier_ui.len() <= usize::MAX
}

/// In a valid state every key can be handled, and handling it leaves the
/// editor valid.
pub proof fn lemma_input_keeps_app_valid(a: AppView, key: Key)
    requires
        app_valid(a),
    ensures
        input_defined(a, key),
        app_valid(dispatched(a, key).0),
{
    crate::tui::app::lemma_next_prev_inverse(a.selected_menu, a.modifier_ui.len());
}

/// Whether `handle_input` can handle the key in the editor's state.
pub fn can_handle(app: &App, key: Key) -> (r: bool)
    ensures
        r == input_defined(app@, key),
{
    let ok_index = match app.selected_menu {
        MenuItem::General => true,
        MenuItem::Modifier(i) => i < app.modifier_ui.len(),
    };
    if app.focus == Focus::Editing {
        key != Key::Enter || ok_index
    } else if key == Key::Char('q') || key == Key::Char('s') {
        true
    } else if app.focus == Focus::Config {
        let down = key == Key::Down || key == Key::Char('j');
        (!down || field_count(app) == 0 || app.selected_field < usize::MAX) && (key != Key::Enter
            || ok_index)
    } else {
        true
    }
}

/// Handles one key.
pub fn handle_input(app: &mut App, key: Key) -> (r: DispatchResult)
    requires
        input_defined(old(app)@, key),
    ensures
        (final(app)@, r) == dispatched(old(app)@, key),
{
    if app.focus == Focus::Editing {
        handle_editing(app, key);
        return DispatchResult::Continue;
    }
    match key {
        Key::Char('q') => {
            return DispatchResult::Exit;
        },
        Key::Char('s') => {
            if save(app) {
                return DispatchResult::Save;
            } else {
                return DispatchResult::Continue;
            }
        },
        _ => {},
    }
    match app.focus {
        Focus::Menu => handle_menu(app, key),
        Focus::Config => handle_config(app, key),
        Focus::Editing => {},
    }
    DispatchResult::Continue
}

fn handle_menu(app: &mut App, key: Key)
    ensures
        final(app)@ == after_menu_key(old(app)@, key),
{
    match key {
        Key::Char('j') | Key::Down => {
            app.selected_menu = app.selected_menu.next(&app.modifier_ui);
            app.selected_field = 0;
        },
        Key::Char('k') | Key::Up => {
            app.selected_menu = app.selected_menu.prev(&app.modifier_ui);
            app.selected_field = 0;
        },
        Key::Char('l') | Key::Right => {
            app.focus = Focus::Config;
            app.selected_field = 0;
        },
        Key::Tab => toggle_modifier(app),
        _ => {},
    }
    assert(app@ =~= after_menu_key(old(app)@, key));
}

/// Switches the selected modifier on or off.
fn toggle_modifier(app: &mut App)
    ensures
        final(app)@ == toggled(old(app)@),
{
    if let MenuItem::Modifier(idx) = app.selected_menu {
        if idx < app.modifier_ui.len() {
            let mut entry = app.modifier_ui[idx];
            entry.enabled = !entry.enabled;
            app.modifier_ui.set(idx, entry);
        }
    }
    assert(app@ =~= toggled(old(app)@));
}

/// How many settings the selected menu entry has.
fn field_count(app: &App) -> (r: usize)
    ensures
        r == spec_field_count(app@),
{
    match app.selected_menu {
        MenuItem::General => 2,
        MenuItem::Modifier(idx) => {
            if idx >= app.modifier_ui.len() {
                return 0;
            }
            match &app.modifier_ui[idx].config {
                ModifierConfig::DropEveryNth { .. } => 1,
                ModifierConfig::TcpSegmentation { .. } => 1,
                ModifierConfig::TlsClientHelloFragmentation { .. } => 1,
                ModifierConfig::Delay(cfg) => match cfg {
                    DelayConfig::Fixed { .. } => 1,
                    DelayConfig::PacketPacing { .. } => 1,
                    DelayConfig::FlowRateLimit { .. } => 1,
                    DelayConfig::Jitter { .. } => 2,
                    DelayConfig::Burst { .. } => 2,
                },
                ModifierConfig::TcpOutOfOrder { .. } => 1,
                ModifierConfig::HttpHeaderFragmentation { .. } => 1,
            }
        },
    }
}

fn handle_config(app: &mut App, key: Key)
    requires
        is_down(key) && spec_field_count(old(app)@) != 0 ==> old(app).selected_field < usize::MAX,
        key == Key::Enter ==> menu_in_range(old(app).selected_menu, old(app).modifier_ui@.len()),
    ensures
        final(app)@ == after_config_key(old(app)@, key),
{
    let max_fields = field_count(app);
    match key {
        Key::Char('h') | Key::Left => {
            app.focus = Focus::Menu;
        },
        Key::Char('j') | Key::Down => {
            if max_fields == 0 {
                if let MenuItem::Modifier(_) = app.selected_menu {
                    app.selected_field = 0;
                }
            } else {
                let next = app.selected_field + 1;
                let last = max_fields - 1;
                app.selected_field = if next <= last {
                    next
                } else {
                    last
                };
            }
        },
        Key::Char('k') | Key::Up => {
            app.selected_field = if app.selected_field == 0 {
                0
            } else {
                app.selected_field - 1
            };
        },
        Key::Tab => toggle_modifier(app),
        Key::Enter => start_edit(app),
        _ => {},
    }
    assert(app@ =~= after_config_key(old(app)@, key));
}

/// The text shown for setting `field` of a modifier.
fn config_field_text(config: &ModifierConfig, field: usize) -> (r: String)
    ensures
        r@ == config_text(*config, field),
{
    match config {
        ModifierConfig::DropEveryNth { n } => decimal_string(*n),
        ModifierConfig::TcpSegmentation { segment_size } => decimal_string(*segment_size as u64),
        ModifierConfig::TlsClientHelloFragmentation { fragment_size } => decimal_string(
            *fragment_size as u64,
        ),
        ModifierConfig::TcpOutOfOrder { window } => decimal_string(*window as u64),
        ModifierConfig::HttpHeaderFragmentation { fragment_size } => decimal_string(
            *fragment_size as u64,
        ),
        ModifierConfig::Delay(cfg) => match cfg {
            DelayConfig::Fixed { millis } => if field == 0 {
                decimal_string(*millis)
            } else {
                String::new()
            },
            DelayConfig::PacketPacing { millis } => if field == 0 {
                decimal_string(*millis)
            } else {
                String::new()
            },
            DelayConfig::FlowRateLimit { bytes_per_second } => if field == 0 {
                decimal_string(*bytes_per_second)
            } else {
                String::new()
            },
            DelayConfig::Jitter { min_ms, max_ms } => if field == 0 {
                decimal_string(*min_ms)
            } else if field == 1 {
                decimal_string(*max_ms)
            } else {
                String::new()
            },
            DelayConfig::Burst { active_ms, pause_ms } => if field == 0 {
                decimal_string(*active_ms)
            } else if field == 1 {
                decimal_string(*pause_ms)
            } else {
                String::new()
            },
        },
    }
}

/// Starts typing: the text starts as the selected setting's value.
fn start_edit(app: &mut App)
    requires
        menu_in_range(old(app).selected_menu, old(app).modifier_ui@.len()),
    ensures
        final(app)@ == started_edit(old(app)@),
{
    app.focus = Focus::Editing;
    app.edit_buffer = match app.selected_menu {
        MenuItem::General => if app.selected_field == 0 {
            app.config.input.clone()
        } else if app.selected_field == 1 {
            app.config.output.clone()
        } else {
            String::new()
        },
        MenuItem::Modifier(idx) => config_field_text(
            &app.modifier_ui[idx].config,
            app.selected_field,
        ),
    };
    assert(app@ =~= started_edit(old(app)@));
}

fn handle_editing(app: &mut App, key: Key)
    requires
        key == Key::Enter ==> menu_in_range(old(app).selected_menu, old(app).modifier_ui@.len()),
    ensures
        final(app)@ == after_edit_key(old(app)@, key),
{
    match key {
        Key::Esc => {
            app.edit_buffer = String::new();
            app.focus = Focus::Config;
        },
        Key::Enter => {
            commit_edit(app);
            app.focus = Focus::Config;
        },
        Key::Backspace => {
            pop_char(&mut app.edit_buffer);
        },
        Key::Char(c) => {
            push_char(&mut app.edit_buffer, c);
        },
        _ => {},
    }
    assert(app@ =~= after_edit_key(old(app)@, key));
}

/// The typed text read as a `u64`, or `old` where it is not one.
fn typed_u64_of(text: &String, old: u64) -> (r: u64)
    ensures
        r == typed_u64(text@, old),
{
    match parse_unsigned(text, u64::MAX) {
        Some(v) => v,
        None => old,
    }
}

/// The typed text read as a `usize`, or `old` where it is not one.
fn typed_usize_of(text: &String, old: usize) -> (r: usize)
    ensures
        r == typed_usize(text@, old),
{
    match parse_unsigned(text, usize::MAX as u64) {
        Some(v) => v as usize,
        None => old,
    }
}

/// Stores the typed text in the selected setting and clears it.
fn commit_edit(app: &mut App)
    requires
        menu_in_range(old(app).selected_menu, old(app).modifier_ui@.len()),
    ensures
        final(app)@ == committed(old(app)@),
{
    match app.selected_menu {
        MenuItem::General => {
            if app.selected_field == 0 {
                app.config.input = app.edit_buffer.clone();
            } else if app.selected_field == 1 {
                app.config.output = app.edit_buffer.clone();
            }
        },
        MenuItem::Modifier(idx) => {
            let mut entry = app.modifier_ui[idx];
            let text = &app.edit_buffer;
            entry.config = match entry.config {
                ModifierConfig::DropEveryNth { n } => ModifierConfig::DropEveryNth {
                    n: typed_u64_of(text, n),
                },
                ModifierConfig::TcpSegmentation { segment_size } => ModifierConfig::TcpSegmentation {
                    segment_size: typed_usize_of(text, segment_size),
                },
                ModifierConfig::TlsClientHelloFragmentation {
                    fragment_size,
                } => ModifierConfig::TlsClientHelloFragmentation {
                    fragment_size: typed_usize_of(text, fragment_size),
                },
                ModifierConfig::TcpOutOfOrder { window } => ModifierConfig::TcpOutOfOrder {
                    window: typed_usize_of(text, window),
                },
                ModifierConfig::HttpHeaderFragmentation {
                    fragment_size,
                } => ModifierConfig::HttpHeaderFragmentation {
                    fragment_size: typed_usize_of(text, fragment_size),
                },
                ModifierConfig::Delay(cfg) => ModifierConfig::Delay(
                    match cfg {
                        DelayConfig::Fixed { millis } => DelayConfig::Fixed {
                            millis: typed_u64_of(text, millis),
                        },
                        DelayConfig::PacketPacing { millis } => DelayConfig::PacketPacing {
                            millis: typed_u64_of(text, millis),
                        },
                        DelayConfig::FlowRateLimit { bytes_per_second } => DelayConfig::FlowRateLimit {
                            bytes_per_second: typed_u64_of(text, bytes_per_second),
                        },
                        DelayConfig::Jitter { min_ms, max_ms } => DelayConfig::Jitter {
                            min_ms: typed_u64_of(text, min_ms),
                            max_ms,
                        },
                        DelayConfig::Burst { active_ms, pause_ms } => DelayConfig::Burst {
                            active_ms: typed_u64_of(text, active_ms),
                            pause_ms,
                        },
                    },
                ),
            };
            app.modifier_ui.set(idx, entry);
        },
    }
    app.edit_buffer = String::new();
    assert(app@ =~= committed(old(app)@));
}


/// The second setting of a jitter or burst delay is selected and differs
/// from the first: committing its text stores it in the first setting.
pub open spec fn edits_second_setting(a: AppView) -> bool {
    match a.selected_menu {
        MenuItem::Modifier(i) => a.selected_field == 1 && match a.modifier_ui[i as int].config {
            ModifierConfig::Delay(DelayConfig::Jitter { min_ms, max_ms }) => min_ms != max_ms,
            ModifierConfig::Delay(DelayConfig::Burst { active_ms, pause_ms }) => active_ms
                != pause_ms,
            _ => false,
        },
        MenuItem::General => false,
    }
}

/// Starting an edit and committing it without typing leaves every setting as
/// it was (and clears the text), except where the second setting of a jitter
/// or burst delay is selected and differs from the first, which it then
/// replaces.
pub proof fn lemma_unedited_commit_keeps_settings(a: AppView)
    requires
        menu_in_range(a.selected_menu, a.modifier_ui.len()),
        !edits_second_setting(a),
    ensures
        committed(started_edit(a)) == (AppView {
            focus: Focus::Editing,
            edit_buffer: Seq::empty(),
            ..a
        }),
{
    let s = started_edit(a);
    if let MenuItem::Modifier(i) = a.selected_menu {
        let c = a.modifier_ui[i as int].config;
        match c {
            ModifierConfig::DropEveryNth { n } => lemma_decimal_parses(n as nat, u64::MAX as nat),
            ModifierConfig::TcpSegmentation { segment_size } => lemma_decimal_parses(
                segment_size as nat,
                usize::MAX as nat,
            ),
            ModifierConfig::TlsClientHelloFragmentation { fragment_size } => lemma_decimal_parses(
                fragment_size as nat,
                usize::MAX as nat,
            ),
            ModifierConfig::TcpOutOfOrder { window } => lemma_decimal_parses(
                window as nat,
                usize::MAX as nat,
            ),
            ModifierConfig::HttpHeaderFragmentation { fragment_size } => lemma_decimal_parses(
                fragment_size as nat,
                usize::MAX as nat,
            ),
            ModifierConfig::Delay(d) => match d {
                DelayConfig::Fixed { millis } => lemma_decimal_parses(millis as nat, u64::MAX as nat),
                DelayConfig::PacketPacing { millis } => lemma_decimal_parses(
                    millis as nat,
                    u64::MAX as nat,
                ),
                DelayConfig::FlowRateLimit { bytes_per_second } => lemma_decimal_parses(
                    bytes_per_second as nat,
                    u64::MAX as nat,
                ),
                DelayConfig::Jitter { min_ms, max_ms } => {
                    lemma_decimal_parses(min_ms as nat, u64::MAX as nat);
                    lemma_decimal_parses(max_ms as nat, u64::MAX as nat);
                },
                DelayConfig::Burst { active_ms, pause_ms } => {
                    lemma_decimal_parses(active_ms as nat, u64::MAX as nat);
                    lemma_decimal_parses(pause_ms as nat, u64::MAX as nat);
                },
            },
        }
        assert(committed_config(c, s.edit_buffer) == c);
        assert(a.modifier_ui.update(i as int, a.modifier_ui[i as int]) =~= a.modifier_ui);
    }
    assert(committed(s) =~= (AppView { focus: Focus::Editing, edit_buffer: Seq::empty(), ..a }));
}


/// The value of a modifier's first (or only) setting.
pub open spec fn first_setting(c: ModifierConfig) -> nat {
    match c {
        ModifierConfig::DropEveryNth { n } => n as nat,
        ModifierConfig::TcpSegmentation { segment_size } => segment_size as nat,
        ModifierConfig::TlsClientHelloFragmentation { fragment_size } => fragment_size as nat,
        ModifierConfig::TcpOutOfOrder { window } => window as nat,
        ModifierConfig::HttpHeaderFragmentation { fragment_size } => fragment_size as nat,
        ModifierConfig::Delay(DelayConfig::Fixed { millis }) => millis as nat,
        ModifierConfig::Delay(DelayConfig::PacketPacing { millis }) => millis as nat,
        ModifierConfig::Delay(DelayConfig::FlowRateLimit { bytes_per_second }) => bytes_per_second as nat,
        ModifierConfig::Delay(DelayConfig::Jitter { min_ms, .. }) => min_ms as nat,
        ModifierConfig::Delay(DelayConfig::Burst { active_ms, .. }) => active_ms as nat,
    }
}

/// The value of the second setting of a jitter or burst delay (zero for the
/// kinds with one setting).
pub open spec fn second_setting(c: ModifierConfig) -> nat {
    match c {
        ModifierConfig::Delay(DelayConfig::Jitter { max_ms, .. }) => max_ms as nat,
        ModifierConfig::Delay(DelayConfig::Burst { pause_ms, .. }) => pause_ms as nat,
        _ => 0,
    }
}

/// The largest value a modifier's first setting holds: `usize::MAX` for
/// sizes and windows, `u64::MAX` for counts, times and rates.
pub open spec fn first_setting_max(c: ModifierConfig) -> nat {
    match c {
        ModifierConfig::TcpSegmentation { .. } => usize::MAX as nat,
        ModifierConfig::TlsClientHelloFragmentation { .. } => usize::MAX as nat,
        ModifierConfig::TcpOutOfOrder { .. } => usize::MAX as nat,
        ModifierConfig::HttpHeaderFragmentation { .. } => usize::MAX as nat,
        _ => u64::MAX as nat,
    }
}

/// Committing text to a modifier of any kind: where the text reads as a
/// number `v` that the setting holds, the first setting becomes `v`; other
/// text leaves the configuration as it was. The kind and the second setting
/// never change.
pub proof fn lemma_commit_stores_number(c: ModifierConfig, text: Seq<char>)
    ensures
        modifier_kind(committed_config(c, text)) == modifier_kind(c),
        second_setting(committed_config(c, text)) == second_setting(c),
        parsed(text, first_setting_max(c)) matches Some(v) ==> first_setting(
            committed_config(c, text),
        ) == v,
        parsed(text, first_setting_max(c)) is None ==> committed_config(c, text) == c,
{
}

/// Typing the decimal digits of a number the setting holds and committing
/// them stores that number in the modifier's first setting.
pub proof fn lemma_commit_stores_decimal(c: ModifierConfig, v: nat)
    requires
        v <= first_setting_max(c),
    ensures
        first_setting(committed_config(c, decimal(v))) == v,
        second_setting(committed_config(c, decimal(v))) == second_setting(c),
        modifier_kind(committed_config(c, decimal(v))) == modifier_kind(c),
{
    lemma_decimal_parses(v, first_setting_max(c));
    lemma_commit_stores_number(c, decimal(v));
}

/// Committing with a modifier selected changes that modifier only: its
/// first setting becomes the number the text reads as (if it reads as one
/// the setting holds), its kind, second setting and switch are kept, every
/// other modifier and both paths are kept, and the text is cleared.
pub proof fn lemma_commit_changes_selected_modifier(a: AppView, i: usize)
    requires
        a.selected_menu == MenuItem::Modifier(i),
        i < a.modifier_ui.len(),
    ensures
        ({
            let b = committed(a);
            let c = a.modifier_ui[i as int].config;
            let c2 = b.modifier_ui[i as int].config;
            &&& b.modifier_ui.len() == a.modifier_ui.len()
            &&& forall|j: int| 0 <= j < a.modifier_ui.len() && j != i ==> #[trigger] b.modifier_ui[j]
                == a.modifier_ui[j]
            &&& b.modifier_ui[i as int].enabled == a.modifier_ui[i as int].enabled
            &&& modifier_kind(c2) == modifier_kind(c)
            &&& second_setting(c2) == second_setting(c)
            &&& (parsed(a.edit_buffer, first_setting_max(c)) matches Some(v) ==> first_setting(c2)
                == v)
            &&& (parsed(a.edit_buffer, first_setting_max(c)) is None ==> c2 == c)
            &&& b.input == a.input && b.output == a.output
            &&& b.edit_buffer.len() == 0
        }),
{
    lemma_commit_stores_number(a.modifier_ui[i as int].config, a.edit_buffer);
}

} // verus!
