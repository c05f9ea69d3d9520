//! The configuration editor's state.
use vstd::prelude::*;
use crate::config::{Config, ModifierUi, validate, validation_error};
use crate::techniques::ModifierConfig;

verus! {

/// Which part of the editor takes keys.
#[derive(Debug, Clone, Copy, PartialEq, Eq, Structural)]
pub enum Focus {
    Menu,
    Config,
    Editing,
}

/// An entry of the menu: the general settings, or the modifier at an index.
#[derive(Debug, Clone, Copy, PartialEq, Eq, Structural)]
pub enum MenuItem {
    General,
    Modifier(usize),
}

/// The entry after `m` in a menu of the general settings and `len`
/// modifiers, going round to the general settings after the last modifier.
pub open spec fn spec_next(m: MenuItem, len: nat) -> MenuItem {
    match m {
        MenuItem::General => if len == 0 {
            MenuItem::General
        } else {
            MenuItem::Modifier(0)
        },
        MenuItem::Modifier(i) => if i + 1 < len {
            MenuItem::Modifier((i + 1) as usize)
        } else {
            MenuItem::General
        },
    }
}

/// The entry before `m`, going round to the last modifier before the general
/// settings.
pub open spec fn spec_prev(m: MenuItem, len: nat) -> MenuItem {
    match m {
        MenuItem::General => if len == 0 {
            MenuItem::General
        } else {
            MenuItem::Modifier((len - 1) as usize)
        },
        MenuItem::Modifier(i) => if i == 0 {
            MenuItem::General
        } else {
            MenuItem::Modifier((i - 1) as usize)
        },
    }
}

/// The entry names a modifier that exists, or the general settings.
pub open spec fn menu_in_range(m: MenuItem, len: nat) -> bool {
    match m {
        MenuItem::General => true,
        MenuItem::Modifier(i) => i < len,
    }
}

impl MenuItem {
    /// The next menu entry.
    pub fn next(self, ui: &Vec<ModifierUi>) -> (r: Self)
        ensures
            r == spec_next(self, ui@.len()),
    {
        match self {
            MenuItem::General => {
                if ui.is_empty() {
                    MenuItem::General
                } else {
                    MenuItem::Modifier(0)
                }
            },
            MenuItem::Modifier(i) => {
                if i < ui.len() && i + 1 < ui.len() {
                    MenuItem::Modifier(i + 1)
                } else {
                    MenuItem::General
                }
            },
        }
    }

    /// The previous menu entry.
    pub fn prev(self, ui: &Vec<ModifierUi>) -> (r: Self)
        ensures
            r == spec_prev(self, ui@.len()),
    {
        match self {
            MenuItem::General => {
                if ui.is_empty() {
                    MenuItem::General
                } else {
                    MenuItem::Modifier(ui.len() - 1)
                }
            },
            MenuItem::Modifier(i) => {
                if i == 0 {
                    MenuItem::General
                } else {
                    MenuItem::Modifier(i - 1)
                }
            },
        }
    }
}

/// Going back after going forward, or forward after going back, returns to
/// the entry one started from.
pub proof fn lemma_next_prev_inverse(m: MenuItem, len: nat)
    requires
        menu_in_range(m, len),
        len <= usize::MAX,
    ensures
        spec_prev(spec_next(m, len), len) == m,
        spec_next(spec_prev(m, len), len) == m,
        menu_in_range(spec_next(m, len), len),
        menu_in_range(spec_prev(m, len), len),
{
}

/// Where an entry stands in the menu: the general settings first, then the
/// modifiers in order.
pub open spec fn menu_position(m: MenuItem) -> int {
    match m {
        MenuItem::General => 0,
        MenuItem::Modifier(i) => i + 1,
    }
}

/// The entry reached from `m` by moving to the next entry `n` times.
pub open spec fn advanced(m: MenuItem, len: nat, n: nat) -> MenuItem
    decreases n,
{
    if n == 0 {
        m
    } else {
        spec_next(advanced(m, len, (n - 1) as nat), len)
    }
}

/// Moving forward `n` times (at most once round) from an entry in the menu
/// reaches the position `n` further on, counted round the `len + 1` entries.
proof fn lemma_advanced_position(m: MenuItem, len: nat, n: nat)
    requires
        menu_in_range(m, len),
        len <= usize::MAX,
        n <= len + 1,
    ensures
        menu_in_range(advanced(m, len, n), len),
        menu_position(advanced(m, len, n)) == if menu_position(m) + n <= len {
            menu_position(m) + n
        } else {
            menu_position(m) + n - len - 1
        },
    decreases n,
{
    if n > 0 {
        lemma_advanced_position(m, len, (n - 1) as nat);
    }
}

/// Two entries of the menu at one position are the same entry.
proof fn lemma_position_identifies(a: MenuItem, b: MenuItem)
    requires
        menu_position(a) == menu_position(b),
    ensures
        a == b,
{
}

/// Moving to the next entry goes round the whole menu: from any entry, the
/// general settings and each of the `len` modifiers are visited once each,
/// in order, and the `len + 1`-th move comes back to the entry one started
/// from.
pub proof fn lemma_next_cycles(m: MenuItem, len: nat)
    requires
        menu_in_range(m, len),
        len <= usize::MAX,
    ensures
        advanced(m, len, len + 1) == m,
        forall|j: nat, k: nat|
            j < k <= len ==> #[trigger] advanced(m, len, j) != #[trigger] advanced(m, len, k),
        forall|k: nat|
            k <= len ==> menu_position(#[trigger] advanced(m, len, k)) == (menu_position(m) + k)
                % ((len + 1) as int),
{
    lemma_advanced_position(m, len, len + 1);
    lemma_position_identifies(advanced(m, len, len + 1), m);
    assert forall|j: nat, k: nat| j < k <= len implies #[trigger] advanced(m, len, j)
        != #[trigger] advanced(m, len, k) by {
        lemma_advanced_position(m, len, j);
        lemma_advanced_position(m, len, k);
    }
    assert forall|k: nat| k <= len implies menu_position(#[trigger] advanced(m, len, k)) == (
    menu_position(m) + k) % ((len + 1) as int) by {
        lemma_advanced_position(m, len, k);
        let x = menu_position(m) + k;
        if x <= len {
            vstd::arithmetic::div_mod::lemma_small_mod(x as nat, (len + 1) as nat);
        } else {
            vstd::arithmetic::div_mod::lemma_small_mod((x - len - 1) as nat, (len + 1) as nat);
            vstd::arithmetic::div_mod::lemma_mod_add_multiples_vanish(x - len - 1, (len + 1) as int);
        }
    }
}

/// The editor: the configuration being edited, every modifier it offers with
/// whether it is switched on, what has focus, what is selected, the text
/// being typed, the status line, and where the configuration is saved.
#[derive(Debug)]
pub struct App {
    pub config: Config,
    pub modifier_ui: Vec<ModifierUi>,
    pub focus: Focus,
    pub selected_menu: MenuItem,
    pub selected_field: usize,
    pub edit_buffer: String,
    pub status: String,
    pub config_path: String,
}

/// The editor as a mathematical value.
#[verifier::ext_equal]
pub struct AppView {
    pub input: Seq<char>,
    pub output: Seq<char>,
    pub modifiers: Seq<ModifierConfig>,
    pub modifier_ui: Seq<ModifierUi>,
    pub focus: Focus,
    pub selected_menu: MenuItem,
    pub selected_field: usize,
    pub edit_buffer: Seq<char>,
    pub status: Seq<char>,
    pub config_path: Seq<char>,
}

impl View for App {
    type V = AppView;

    open spec fn view(&self) -> AppView {
        AppView {
            input: self.config.input@,
            output: self.config.output@,
            modifiers: self.config.modifiers@,
            modifier_ui: self.modifier_ui@,
            focus: self.focus,
            selected_menu: self.selected_menu,
            selected_field: self.selected_field,
            edit_buffer: self.edit_buffer@,
            status: self.status@,
            config_path: self.config_path@,
        }
    }
}

/// The configurations of the modifiers that are switched on, in order.
pub open spec fn enabled_configs(ui: Seq<ModifierUi>) -> Seq<ModifierConfig>
    decreases ui.len(),
{
    if ui.len() == 0 {
        Seq::empty()
    } else if ui.last().enabled {
        enabled_configs(ui.drop_last()).push(ui.last().config)
    } else {
        enabled_configs(ui.drop_last())
    }
}

/// The editor with the configuration's modifiers set to those switched on.
pub open spec fn synced(a: AppView) -> AppView {
    AppView { modifiers: enabled_configs(a.modifier_ui), ..a }
}

/// The configurations of the modifiers switched on, in order.
pub fn enabled_modifiers(ui: &Vec<ModifierUi>) -> (r: Vec<ModifierConfig>)
    ensures
        r@ == enabled_configs(ui@),
{
    let mut r: Vec<ModifierConfig> = Vec::new();
    let mut i: usize = 0;
    while i < ui.len()
        invariant
            i <= ui@.len(),
            r@ == enabled_configs(ui@.take(i as int)),
        decreases ui@.len() - i,
    {
        proof {
            assert(ui@.take(i + 1).drop_last() =~= ui@.take(i as int));
        }
        if ui[i].enabled {
            r.push(ui[i].config);
        }
        i = i + 1;
    }
    assert(ui@.take(i as int) =~= ui@);
    r
}

impl App {
    /// A fresh editor: the menu has focus, the general settings are
    /// selected, nothing is being typed, and the status is "Ready".
    pub fn new(config: Config, modifier_ui: Vec<ModifierUi>, path: String) -> (r: Self)
        ensures
            r@ == (AppView {
                input: config.input@,
                output: config.output@,
                modifiers: config.modifiers@,
                modifier_ui: modifier_ui@,
                focus: Focus::Menu,
                selected_menu: MenuItem::General,
                selected_field: 0,
                edit_buffer: Seq::empty(),
                status: "Ready"@,
                config_path: path@,
            }),
    {
        let r = Self {
            config,
            modifier_ui,
            focus: Focus::Menu,
            selected_menu: MenuItem::General,
            selected_field: 0,
            edit_buffer: String::new(),
            status: String::from_str("Ready"),
            config_path: path,
        };
        assert(r@ =~= (AppView {
            input: config.input@,
            output: config.output@,
            modifiers: config.modifiers@,
            modifier_ui: modifier_ui@,
            focus: Focus::Menu,
            selected_menu: MenuItem::General,
            selected_field: 0,
            edit_buffer: Seq::empty(),
            status: "Ready"@,
            config_path: path@,
        }));
        r
    }

    /// Sets the configuration's modifiers to those switched on, in order.
    pub fn sync_to_config(&mut self)
        ensures
            final(self)@ == synced(old(self)@),
    {
        self.config.modifiers = enabled_modifiers(&self.modifier_ui);
        assert(self@ =~= synced(old(self)@));
    }

    /// The selected menu entry.
    pub fn current_menu(&self) -> (r: MenuItem)
        ensures
            r == self.selected_menu,
    {
        self.selected_menu
    }
}

/// The editor after a save request: the modifiers switched on are copied to
/// the configuration, and, where the configuration is not valid, the status
/// says why. Whether it is to be written is `validation_error(..) is None`.
pub open spec fn after_save(a: AppView) -> AppView {
    let s = synced(a);
    match validation_error(s.input, s.output) {
        None => s,
        Some(msg) => AppView { status: "Invalid config: "@ + msg, ..s },
    }
}

/// Prepares a save: copies the modifiers switched on into the configuration
/// and validates it. Returns whether the configuration is valid, to be
/// written to `config_path` (after which `finish_save` reports the result);
/// where it is not, the status says why.
pub fn save(app: &mut App) -> (valid: bool)
    ensures
        final(app)@ == after_save(old(app)@),
        valid == (validation_error(old(app)@.input, old(app)@.output) is None),
{
    app.config.modifiers = enabled_modifiers(&app.modifier_ui);
    match validate(&app.config) {
        Ok(()) => {
            assert(app@ =~= after_save(old(app)@));
            true
        },
        Err(err) => {
            app.status = String::from_str("Invalid config: ").concat(err.as_str());
            assert(app@ =~= after_save(old(app)@));
            false
        },
    }
}

/// The status after writing the configuration: "Saved " and the path, or
/// "Save failed: " and the error.
pub open spec fn save_status(config_path: Seq<char>, result: Result<(), Seq<char>>) -> Seq<char> {
    match result {
        Ok(()) => "Saved "@ + config_path,
        Err(e) => "Save failed: "@ + e,
    }
}

/// Reports in the status how writing the configuration went.
pub fn finish_save(app: &mut App, result: Result<(), String>)
    ensures
        final(app)@ == (AppView {
            status: save_status(
                old(app)@.config_path,
                match result {
                    Ok(()) => Ok(()),
                    Err(e) => Err(e@),
                },
            ),
            ..old(app)@
        }),
{
    match result {
        Ok(()) => {
            app.status = String::from_str("Saved ").concat(app.config_path.as_str());
        },
        Err(err) => {
            app.status = String::from_str("Save failed: ").concat(err.as_str());
        },
    }
    assert(app@ =~= (AppView {
        status: save_status(
            old(app)@.config_path,
            match result {
                Ok(()) => Ok(()),
                Err(e) => Err(e@),
            },
        ),
        ..old(app)@
    }));
}

} // verus!
