//! The terminal editor of the configuration: its state, how keys change it,
//! and the modifiers it offers.
pub mod app;
pub mod input;
pub mod ui;
pub mod ui_schema;

use vstd::prelude::*;
use crate::config::{Config, ModifierUi};
use crate::techniques::{DelayConfig, ModifierConfig};
use crate::text::text_eq;
use self::app::{App, AppView, Focus, MenuItem};

verus! {

/// The name the editor shows for a modifier.
pub open spec fn modifier_name_text(cfg: ModifierConfig) -> Seq<char> {
    match cfg {
        ModifierConfig::Delay(DelayConfig::Fixed { .. }) => "Delay (Fixed)"@,
        ModifierConfig::Delay(DelayConfig::Jitter { .. }) => "Delay (Jitter)"@,
        ModifierConfig::Delay(DelayConfig::PacketPacing { .. }) => "Delay (Packet Pacing)"@,
        ModifierConfig::Delay(DelayConfig::FlowRateLimit { .. }) => "Delay (Rate Limit)"@,
        ModifierConfig::Delay(DelayConfig::Burst { .. }) => "Delay (Burst)"@,
        ModifierConfig::TcpSegmentation { .. } => "TCP Segmentation"@,
        ModifierConfig::TlsClientHelloFragmentation { .. } => "TLS ClientHello Fragmentation"@,
        ModifierConfig::DropEveryNth { .. } => "Drop Every Nth"@,
        ModifierConfig::TcpOutOfOrder { .. } => "TCP Out-of-Order"@,
        ModifierConfig::HttpHeaderFragmentation { .. } => "HTTP Header Fragmentation"@,
    }
}

/// The name the editor shows for a modifier.
pub fn modifier_name(cfg: &ModifierConfig) -> (r: &'static str)
    ensures
        r@ == modifier_name_text(*cfg),
{
    match cfg {
        ModifierConfig::Delay(DelayConfig::Fixed { .. }) => "Delay (Fixed)",
        ModifierConfig::Delay(DelayConfig::Jitter { .. }) => "Delay (Jitter)",
        ModifierConfig::Delay(DelayConfig::PacketPacing { .. }) => "Delay (Packet Pacing)",
        ModifierConfig::Delay(DelayConfig::FlowRateLimit { .. }) => "Delay (Rate Limit)",
        ModifierConfig::Delay(DelayConfig::Burst { .. }) => "Delay (Burst)",
        ModifierConfig::TcpSegmentation { .. } => "TCP Segmentation",
        ModifierConfig::TlsClientHelloFragmentation { .. } => "TLS ClientHello Fragmentation",
        ModifierConfig::DropEveryNth { .. } => "Drop Every Nth",
        ModifierConfig::TcpOutOfOrder { .. } => "TCP Out-of-Order",
        ModifierConfig::HttpHeaderFragmentation { .. } => "HTTP Header Fragmentation",
    }
}

/// The key that identifies the kind of a modifier.
pub open spec fn modifier_key_text(cfg: ModifierConfig) -> Seq<char> {
    match cfg {
        ModifierConfig::Delay(DelayConfig::Fixed { .. }) => "delay_fixed"@,
        ModifierConfig::Delay(DelayConfig::Jitter { .. }) => "delay_jitter"@,
        ModifierConfig::Delay(DelayConfig::PacketPacing { .. }) => "delay_packet_pacing"@,
        ModifierConfig::Delay(DelayConfig::FlowRateLimit { .. }) => "delay_rate_limit"@,
        ModifierConfig::Delay(DelayConfig::Burst { .. }) => "delay_burst"@,
        ModifierConfig::TcpSegmentation { .. } => "tcp_segmentation"@,
        ModifierConfig::TlsClientHelloFragmentation { .. } => "tls_clienthello_fragmentation"@,
        ModifierConfig::DropEveryNth { .. } => "drop_every_nth"@,
        ModifierConfig::TcpOutOfOrder { .. } => "tcp_out_of_order"@,
        ModifierConfig::HttpHeaderFragmentation { .. } => "http_header_fragmentation"@,
    }
}

/// The key that identifies the kind of a modifier.
fn modifier_key(cfg: &ModifierConfig) -> (r: &'static str)
    ensures
        r@ == modifier_key_text(*cfg),
{
    match cfg {
        ModifierConfig::Delay(DelayConfig::Fixed { .. }) => "delay_fixed",
        ModifierConfig::Delay(DelayConfig::Jitter { .. }) => "delay_jitter",
        ModifierConfig::Delay(DelayConfig::PacketPacing { .. }) => "delay_packet_pacing",
        ModifierConfig::Delay(DelayConfig::FlowRateLimit { .. }) => "delay_rate_limit",
        ModifierConfig::Delay(DelayConfig::Burst { .. }) => "delay_burst",
        ModifierConfig::TcpSegmentation { .. } => "tcp_segmentation",
        ModifierConfig::TlsClientHelloFragmentation { .. } => "tls_clienthello_fragmentation",
        ModifierConfig::DropEveryNth { .. } => "drop_every_nth",
        ModifierConfig::TcpOutOfOrder { .. } => "tcp_out_of_order",
        ModifierConfig::HttpHeaderFragmentation { .. } => "http_header_fragmentation",
    }
}

/// The kind of a modifier, numbered in the order of `modifier_key_text`
/// (delays told apart by their kind of delay).
pub open spec fn modifier_kind(cfg: ModifierConfig) -> int {
    match cfg {
        ModifierConfig::Delay(DelayConfig::Fixed { .. }) => 0,
        ModifierConfig::Delay(DelayConfig::Jitter { .. }) => 1,
        ModifierConfig::Delay(DelayConfig::PacketPacing { .. }) => 2,
        ModifierConfig::Delay(DelayConfig::FlowRateLimit { .. }) => 3,
        ModifierConfig::Delay(DelayConfig::Burst { .. }) => 4,
        ModifierConfig::TcpSegmentation { .. } => 5,
        ModifierConfig::TlsClientHelloFragmentation { .. } => 6,
        ModifierConfig::DropEveryNth { .. } => 7,
        ModifierConfig::TcpOutOfOrder { .. } => 8,
        ModifierConfig::HttpHeaderFragmentation { .. } => 9,
    }
}

/// A modifier's key names its kind and nothing more: two configurations have
/// the same key exactly when they are of the same kind, whatever their
/// settings.
pub proof fn lemma_key_identifies_kind(a: ModifierConfig, b: ModifierConfig)
    ensures
        modifier_key_text(a) == modifier_key_text(b) <==> modifier_kind(a) == modifier_kind(b),
{
    reveal_strlit("delay_fixed");
    reveal_strlit("delay_jitter");
    reveal_strlit("delay_packet_pacing");
    reveal_strlit("delay_rate_limit");
    reveal_strlit("delay_burst");
    reveal_strlit("tcp_segmentation");
    reveal_strlit("tls_clienthello_fragmentation");
    reveal_strlit("drop_every_nth");
    reveal_strlit("tcp_out_of_order");
    reveal_strlit("http_header_fragmentation");
    let ka = modifier_key_text(a);
    let kb = modifier_key_text(b);
    if modifier_kind(a) != modifier_kind(b) {
        assert(ka.len() != kb.len() || ka[0] != kb[0] || ka[4] != kb[4] || ka[6] != kb[6]);
    }
}

/// The modifiers the editor offers when none of their kind is configured,
/// all switched off: a fixed delay of 100 ms, a jitter of 50 to 200 ms,
/// pacing at 100 ms, a rate limit of 100 000 bytes per second, bursts of
/// 1000 ms active and 500 ms paused, TCP segmentation into 128 bytes,
/// ClientHello fragmentation into 64 bytes, and dropping every 10th packet.
pub open spec fn default_list() -> Seq<ModifierUi> {
    seq![
        ModifierUi { enabled: false, config: ModifierConfig::Delay(DelayConfig::Fixed { millis: 100 }) },
        ModifierUi {
            enabled: false,
            config: ModifierConfig::Delay(DelayConfig::Jitter { min_ms: 50, max_ms: 200 }),
        },
        ModifierUi {
            enabled: false,
            config: ModifierConfig::Delay(DelayConfig::PacketPacing { millis: 100 }),
        },
        ModifierUi {
            enabled: false,
            config: ModifierConfig::Delay(DelayConfig::FlowRateLimit { bytes_per_second: 100_000 }),
        },
        ModifierUi {
            enabled: false,
            config: ModifierConfig::Delay(DelayConfig::Burst { active_ms: 1000, pause_ms: 500 }),
        },
        ModifierUi { enabled: false, config: ModifierConfig::TcpSegmentation { segment_size: 128 } },
        ModifierUi {
            enabled: false,
            config: ModifierConfig::TlsClientHelloFragmentation { fragment_size: 64 },
        },
        ModifierUi { enabled: false, config: ModifierConfig::DropEveryNth { n: 10 } },
    ]
}

fn default_modifiers() -> (r: Vec<ModifierUi>)
    ensures
        r@ == default_list(),
{
    let r = vec![
        ModifierUi { enabled: false, config: ModifierConfig::Delay(DelayConfig::Fixed { millis: 100 }) },
        ModifierUi {
            enabled: false,
            config: ModifierConfig::Delay(DelayConfig::Jitter { min_ms: 50, max_ms: 200 }),
        },
        ModifierUi {
            enabled: false,
            config: ModifierConfig::Delay(DelayConfig::PacketPacing { millis: 100 }),
        },
        ModifierUi {
            enabled: false,
            config: ModifierConfig::Delay(DelayConfig::FlowRateLimit { bytes_per_second: 100_000 }),
        },
        ModifierUi {
            enabled: false,
            config: ModifierConfig::Delay(DelayConfig::Burst { active_ms: 1000, pause_ms: 500 }),
        },
        ModifierUi { enabled: false, config: ModifierConfig::TcpSegmentation { segment_size: 128 } },
        ModifierUi {
            enabled: false,
            config: ModifierConfig::TlsClientHelloFragmentation { fragment_size: 64 },
        },
        ModifierUi { enabled: false, config: ModifierConfig::DropEveryNth { n: 10 } },
    ];
    assert(r@ =~= default_list());
    r
}

/// Some entry of `ui` has a modifier of the kind `key` names.
pub open spec fn has_key(ui: Seq<ModifierUi>, key: Seq<char>) -> bool {
    exists|i: int| 0 <= i < ui.len() && modifier_key_text(#[trigger] ui[i].config) == key
}

/// The configured modifiers, switched on, followed by each of `defaults`
/// whose kind is not among the entries before it.
pub open spec fn merged(loaded: Seq<ModifierConfig>, defaults: Seq<ModifierUi>) -> Seq<ModifierUi>
    decreases defaults.len(),
{
    if defaults.len() == 0 {
        loaded.map_values(|c: ModifierConfig| ModifierUi { enabled: true, config: c })
    } else {
        let prev = merged(loaded, defaults.drop_last());
        if has_key(prev, modifier_key_text(defaults.last().config)) {
            prev
        } else {
            prev.push(defaults.last())
        }
    }
}

/// The editor keeps every configured modifier, switched on, in order, at the
/// front, and offers a modifier of every kind among the offered ones.
pub proof fn lemma_merged_offers_every_kind(loaded: Seq<ModifierConfig>, defaults: Seq<ModifierUi>)
    ensures
        merged(loaded, defaults).len() >= loaded.len(),
        forall|i: int|
            0 <= i < loaded.len() ==> #[trigger] merged(loaded, defaults)[i] == (ModifierUi {
                enabled: true,
                config: loaded[i],
            }),
        forall|d: int|
            0 <= d < defaults.len() ==> has_key(
                merged(loaded, defaults),
                modifier_key_text(#[trigger] defaults[d].config),
            ),
    decreases defaults.len(),
{
    if defaults.len() > 0 {
        let prev = merged(loaded, defaults.drop_last());
        lemma_merged_offers_every_kind(loaded, defaults.drop_last());
        let m = merged(loaded, defaults);
        assert forall|d: int| 0 <= d < defaults.len() implies has_key(
            m,
            modifier_key_text(#[trigger] defaults[d].config),
        ) by {
            let key = modifier_key_text(defaults[d].config);
            if d < defaults.len() - 1 {
                assert(defaults[d] == defaults.drop_last()[d]);
                assert(has_key(prev, key));
                let k = choose|k: int| 0 <= k < prev.len() && modifier_key_text(#[trigger] prev[k].config) == key;
                assert(m[k] == prev[k]);
            } else if !has_key(prev, key) {
                assert(m[prev.len() as int] == defaults.last());
            }
        }
        assert forall|i: int| 0 <= i < loaded.len() implies #[trigger] m[i] == (ModifierUi {
            enabled: true,
            config: loaded[i],
        }) by {
            assert(prev[i] == (ModifierUi { enabled: true, config: loaded[i] }));
        }
    }
}

/// The modifiers the editor shows: those configured, switched on, then the
/// offered ones of kinds not configured.
fn merge_modifiers(loaded: Vec<ModifierConfig>) -> (r: Vec<ModifierUi>)
    ensures
        r@ == merged(loaded@, default_list()),
{
    let mut loaded_ui: Vec<ModifierUi> = Vec::new();
    let mut i: usize = 0;
    while i < loaded.len()
        invariant
            i <= loaded@.len(),
            loaded_ui@ == merged(loaded@.take(i as int), Seq::empty()),
        decreases loaded@.len() - i,
    {
        loaded_ui.push(ModifierUi { enabled: true, config: loaded[i] });
        i = i + 1;
        proof {
            assert(loaded_ui@ =~= merged(loaded@.take(i as int), Seq::empty()));
        }
    }
    assert(loaded@.take(i as int) =~= loaded@);
    let defaults = default_modifiers();
    let mut d: usize = 0;
    proof {
        assert(defaults@.take(0) =~= Seq::<ModifierUi>::empty());
    }
    while d < defaults.len()
        invariant
            d <= defaults@.len(),
            defaults@ == default_list(),
            loaded_ui@ == merged(loaded@, defaults@.take(d as int)),
        decreases defaults@.len() - d,
    {
        let default = defaults[d];
        let key = modifier_key(&default.config);
        let mut exists = false;
        let mut j: usize = 0;
        while j < loaded_ui.len()
            invariant
                j <= loaded_ui@.len(),
                exists == (exists|k: int|
                    0 <= k < j && modifier_key_text(#[trigger] loaded_ui@[k].config) == key@),
            decreases loaded_ui@.len() - j,
        {
            if text_eq(modifier_key(&loaded_ui[j].config), key) {
                exists = true;
            }
            j = j + 1;
        }
        proof {
            assert(defaults@.take(d + 1).drop_last() =~= defaults@.take(d as int));
            assert(defaults@.take(d + 1).last() == default);
        }
        if !exists {
            loaded_ui.push(default);
        }
        d = d + 1;
    }
    assert(defaults@.take(d as int) =~= defaults@);
    loaded_ui
}

/// The editor a configuration is opened in: the configured modifiers
/// switched on, then the offered ones of kinds not configured; it saves to
/// "config.toml".
pub fn open_editor(config: Config) -> (r: App)
    ensures
        r@ == (AppView {
            input: config.input@,
            output: config.output@,
            modifiers: config.modifiers@,
            modifier_ui: merged(config.modifiers@, default_list()),
            focus: Focus::Menu,
            selected_menu: MenuItem::General,
            selected_field: 0,
            edit_buffer: Seq::empty(),
            status: "Ready"@,
            config_path: "config.toml"@,
        }),
{
    let mut loaded: Vec<ModifierConfig> = Vec::new();
    let mut i: usize = 0;
    while i < config.modifiers.len()
        invariant
            i <= config.modifiers@.len(),
            loaded@ == config.modifiers@.take(i as int),
        decreases config.modifiers@.len() - i,
    {
        loaded.push(config.modifiers[i]);
        i = i + 1;
        proof {
            assert(loaded@ =~= config.modifiers@.take(i as int));
        }
    }
    assert(config.modifiers@.take(i as int) =~= config.modifiers@);
    let modifier_ui = merge_modifiers(loaded);
    App::new(config, modifier_ui, String::from_str("config.toml"))
}

} // verus!
