//! The launcher's settings and the rules that keep them.

use crate::apps::{app_entries, empty_apps, reorder_apps, reordered};
use crate::presets::Presets;
use crate::text::{append_decimal, decimal, views};
use indexmap::IndexMap;
use vstd::prelude::*;
use vstd::string::StringExecFns;

verus! {

/// How many addresses the connection history keeps.
pub const HISTORY_LIMIT: usize = 10;

/// Display settings that hold for every app without settings of its own.
#[derive(Clone, Debug, PartialEq, Eq)]
pub struct GlobalSettings {
    pub use_full_res_switch: bool,
    pub full_res: String,
    pub dpi: u32,
    pub is_landscape: bool,
    pub theme: String,
}

/// The theme of a configuration that names none.
pub fn default_theme() -> (theme: String)
    ensures
        theme@ == "light"@,
{
    String::from_str("light")
}

impl Default for GlobalSettings {
    fn default() -> (settings: Self)
        ensures
            settings.use_full_res_switch,
            settings.full_res@ == "1200x2670"@,
            settings.dpi == 400,
            !settings.is_landscape,
            settings.theme@ == "light"@,
    {
        Self {
            use_full_res_switch: true,
            full_res: String::from_str("1200x2670"),
            dpi: 400,
            is_landscape: false,
            theme: default_theme(),
        }
    }
}

/// Display settings of one app.
#[derive(Clone, Debug, PartialEq, Eq)]
pub struct AppSettings {
    pub use_full_res_switch: bool,
    pub full_res: String,
    pub dpi: u32,
    pub is_landscape: bool,
}

/// What the launcher knows of one app.
#[derive(Clone, Debug, PartialEq, Eq)]
pub struct AppConfig {
    pub name: String,
    pub settings: Option<AppSettings>,
    pub scrcpy_args: Option<String>,
}

/// [`AppSettings`] as mathematical values.
pub struct AppSettingsView {
    pub use_full_res_switch: bool,
    pub full_res: Seq<char>,
    pub dpi: u32,
    pub is_landscape: bool,
}

impl View for AppSettings {
    type V = AppSettingsView;

    open spec fn view(&self) -> AppSettingsView {
        AppSettingsView {
            use_full_res_switch: self.use_full_res_switch,
            full_res: self.full_res@,
            dpi: self.dpi,
            is_landscape: self.is_landscape,
        }
    }
}

/// An [`AppConfig`] as mathematical values.
pub struct AppConfigView {
    pub name: Seq<char>,
    pub settings: Option<AppSettingsView>,
    pub scrcpy_args: Option<Seq<char>>,
}

impl View for AppConfig {
    type V = AppConfigView;

    open spec fn view(&self) -> AppConfigView {
        AppConfigView {
            name: self.name@,
            settings: match self.settings {
                Some(s) => Some(s@),
                None => None,
            },
            scrcpy_args: match self.scrcpy_args {
                Some(a) => Some(a@),
                None => None,
            },
        }
    }
}

/// A named display size.
#[derive(Clone, Copy, Debug, PartialEq, Eq, Structural)]
pub struct PresetConfig {
    pub long: u32,
    pub short: u32,
    pub dpi: u32,
    pub is_landscape: bool,
}

/// The switches and limits that are passed to the mirroring tool.
#[derive(Clone, Copy, Debug, PartialEq, Eq, Structural)]
pub struct ScrcpyOptions {
    pub hid_keyboard: bool,
    pub stay_awake: bool,
    pub turn_screen_off: bool,
    pub show_touches: bool,
    pub always_on_top: bool,
    pub borderless: bool,
    pub power_off_on_close: bool,
    pub local_ime: bool,
    pub max_size: u32,
    pub max_fps: u32,
}

/// The options of a fresh configuration: the keyboard is passed through and
/// the device stays awake.
pub open spec fn default_options() -> ScrcpyOptions {
    ScrcpyOptions {
        hid_keyboard: true,
        stay_awake: true,
        turn_screen_off: false,
        show_touches: false,
        always_on_top: false,
        borderless: false,
        power_off_on_close: false,
        local_ime: false,
        max_size: 0,
        max_fps: 0,
    }
}

impl Default for ScrcpyOptions {
    fn default() -> (options: Self)
        ensures
            options == default_options(),
    {
        Self {
            hid_keyboard: true,
            stay_awake: true,
            turn_screen_off: false,
            show_touches: false,
            always_on_top: false,
            borderless: false,
            power_off_on_close: false,
            local_ime: false,
            max_size: 0,
            max_fps: 0,
        }
    }
}

/// The options with which apps are streamed in a fresh configuration: the
/// defaults, with the input method kept on the host.
pub fn default_app_stream_options() -> (options: ScrcpyOptions)
    ensures
        options == (ScrcpyOptions { local_ime: true, ..default_options() }),
{
    let mut options = ScrcpyOptions::default();
    options.local_ime = true;
    options
}

/// `history` without the entries equal to `ip`.
pub open spec fn forgotten(history: Seq<Seq<char>>, ip: Seq<char>) -> Seq<Seq<char>>
    decreases history.len(),
{
    if history.len() == 0 {
        Seq::empty()
    } else if history.last() == ip {
        forgotten(history.drop_last(), ip)
    } else {
        forgotten(history.drop_last(), ip).push(history.last())
    }
}

/// `s` cut down to its first `n` entries.
pub open spec fn first(s: Seq<Seq<char>>, n: nat) -> Seq<Seq<char>> {
    if s.len() <= n {
        s
    } else {
        s.take(n as int)
    }
}

/// The history after `ip` was used: `ip` in front, then the older entries
/// without `ip`, and no more than [`HISTORY_LIMIT`] in all.
pub open spec fn remembered(history: Seq<Seq<char>>, ip: Seq<char>) -> Seq<Seq<char>> {
    first(seq![ip] + forgotten(history, ip), HISTORY_LIMIT as nat)
}

/// Notes in the connection history that `ip` was used.
pub fn add_adb_history(history: &mut Vec<String>, ip: &str)
    ensures
        views(final(history)@) == remembered(views(old(history)@), ip@),
{
    let newest = String::from_str(ip);
    let mut kept: Vec<String> = Vec::new();
    let ghost all = views(history@);
    let mut i: usize = 0;
    assert(all.take(0) =~= Seq::<Seq<char>>::empty());
    assert(views(kept@) =~= Seq::<Seq<char>>::empty());
    while i < history.len()
        invariant
            i <= history.len(),
            history@ == old(history)@,
            all == views(history@),
            newest@ == ip@,
            views(kept@) == forgotten(all.take(i as int), ip@),
        decreases history.len() - i,
    {
        proof {
            assert(all.take(i + 1).drop_last() =~= all.take(i as int));
            assert(all.take(i + 1).last() == history@[i as int]@);
        }
        if history[i] != newest {
            let ghost before = views(kept@);
            kept.push(history[i].clone());
            assert(views(kept@) =~= before.push(history@[i as int]@));
        }
        i += 1;
    }
    assert(all.take(history@.len() as int) =~= all);
    let ghost rest = views(kept@);
    let mut out: Vec<String> = Vec::new();
    out.push(newest);
    let mut k: usize = 0;
    assert(views(out@) =~= (seq![ip@] + rest).take(1));
    while k < kept.len() && out.len() < HISTORY_LIMIT
        invariant
            k <= kept.len(),
            out.len() == k + 1,
            out.len() <= HISTORY_LIMIT,
            rest == views(kept@),
            views(out@) == (seq![ip@] + rest).take(k + 1),
        decreases kept.len() - k,
    {
        let ghost before = views(out@);
        out.push(kept[k].clone());
        assert(views(out@) =~= before.push(kept@[k as int]@));
        assert(before.push(kept@[k as int]@) =~= (seq![ip@] + rest).take(k + 2));
        k += 1;
    }
    assert(views(out@) =~= remembered(all, ip@));
    *history = out;
}

/// The name under which the phone's display size is kept after the first
/// run.
pub open spec fn phone_label() -> Seq<char> {
    "我的手机"@
}

/// The name under which the computer's display size is kept after the first
/// run.
pub open spec fn computer_label() -> Seq<char> {
    "我的电脑"@
}

/// The name of a preset: its label and, in brackets, the two sides of the
/// display.
pub open spec fn preset_label(label: Seq<char>, long: u32, short: u32) -> Seq<char> {
    label + " ("@ + decimal(long as nat) + "x"@ + decimal(short as nat)
        + ")"@
}

/// Names a preset after its label and its display size.
pub fn preset_name(label: &str, long: u32, short: u32) -> (name: String)
    ensures
        name@ == preset_label(label@, long, short),
{
    let mut name = String::from_str(label);
    name.append(" (");
    append_decimal(&mut name, long);
    name.append("x");
    append_decimal(&mut name, short);
    name.append(")");
    name
}

/// A display size as text: the smaller side, an `x`, the larger side.
pub open spec fn resolution_text(long: u32, short: u32) -> Seq<char> {
    let low = if long <= short {
        long
    } else {
        short
    };
    let high = if long <= short {
        short
    } else {
        long
    };
    decimal(low as nat) + "x"@ + decimal(high as nat)
}

/// Writes the full resolution of a display whose sides are `long` and
/// `short`, whichever of them is the larger.
pub fn full_resolution(long: u32, short: u32) -> (text: String)
    ensures
        text@ == resolution_text(long, short),
{
    let low = if long <= short {
        long
    } else {
        short
    };
    let high = if long <= short {
        short
    } else {
        long
    };
    let mut text = String::new();
    append_decimal(&mut text, low);
    text.append("x");
    append_decimal(&mut text, high);
    assert(text@ =~= resolution_text(long, short));
    text
}

/// How many apps the tray menu shows in a fresh configuration.
pub const DEFAULT_TRAY_APP_COUNT: u32 = 4;

/// The written arguments of a fresh configuration.
pub fn default_custom_args() -> (args: String)
    ensures
        args@ == "-K --stay-awake"@,
{
    String::from_str("-K --stay-awake")
}

/// The written arguments for apps of a fresh configuration.
pub fn default_app_custom_args() -> (args: String)
    ensures
        args@ == "-K --stay-awake --display-ime-policy=local"@,
{
    String::from_str("-K --stay-awake --display-ime-policy=local")
}

/// The phone's display size in a fresh configuration.
pub fn default_phone_preset() -> (preset: PresetConfig)
    ensures
        preset == (PresetConfig { long: 2670, short: 1200, dpi: 400, is_landscape: false }),
{
    PresetConfig { long: 2670, short: 1200, dpi: 400, is_landscape: false }
}

/// The computer's display size in a fresh configuration.
pub fn default_computer_preset() -> (preset: PresetConfig)
    ensures
        preset == (PresetConfig { long: 2256, short: 1504, dpi: 260, is_landscape: true }),
{
    PresetConfig { long: 2256, short: 1504, dpi: 260, is_landscape: true }
}

/// The name under which the phone's display size is kept.
pub fn phone_preset_name(long: u32, short: u32) -> (name: String)
    ensures
        name@ == preset_label(phone_label(), long, short),
{
    preset_name("我的手机", long, short)
}

/// The name under which the computer's display size is kept.
pub fn computer_preset_name(long: u32, short: u32) -> (name: String)
    ensures
        name@ == preset_label(computer_label(), long, short),
{
    preset_name("我的电脑", long, short)
}

/// The file in which the custom icon of `package` is kept.
pub fn icon_file_name(package: &str) -> (name: String)
    ensures
        name@ == package@ + ".png"@,
{
    String::from_str(package).concat(".png")
}

/// Everything that the launcher keeps from one run to the next.
pub struct Config {
    /// The addresses that were connected to, the latest first.
    pub adb_history: Vec<String>,
    pub global_settings: GlobalSettings,
    /// The apps in the order in which the user arranged them.
    pub apps: IndexMap<String, AppConfig>,
    pub presets: Presets,
    /// No run has completed the first-run dialogue yet.
    pub first_run: bool,
    pub use_custom_args: bool,
    pub custom_args: String,
    pub scrcpy_options: ScrcpyOptions,
    pub use_app_stream_args: bool,
    pub use_app_custom_args: bool,
    pub app_custom_args: String,
    pub app_stream_options: ScrcpyOptions,
    pub tray_app_count: u32,
    pub tray_show_mirror: bool,
    pub tray_show_audio: bool,
}

/// The display sizes of a fresh configuration: one for the phone and one
/// for the computer.
pub open spec fn default_presets() -> Map<Seq<char>, PresetConfig> {
    Map::<Seq<char>, PresetConfig>::empty().insert(
        preset_label(phone_label(), 2670, 1200),
        PresetConfig { long: 2670, short: 1200, dpi: 400, is_landscape: false },
    ).insert(
        preset_label(computer_label(), 2256, 1504),
        PresetConfig { long: 2256, short: 1504, dpi: 260, is_landscape: true },
    )
}

/// The global settings of a fresh configuration.
pub open spec fn is_default_settings(settings: GlobalSettings) -> bool {
    &&& settings.use_full_res_switch
    &&& settings.full_res@ == "1200x2670"@
    &&& settings.dpi == 400
    &&& !settings.is_landscape
    &&& settings.theme@ == "light"@
}

/// `config` is the configuration of a launcher that has not run yet.
pub open spec fn is_fresh(config: Config) -> bool {
    &&& config.adb_history@.len() == 0
    &&& is_default_settings(config.global_settings)
    &&& app_entries(config.apps).len() == 0
    &&& config.presets@ == default_presets()
    &&& config.first_run
    &&& !config.use_custom_args
    &&& config.custom_args@ == "-K --stay-awake"@
    &&& config.scrcpy_options == default_options()
    &&& config.use_app_stream_args
    &&& !config.use_app_custom_args
    &&& config.app_custom_args@ == "-K --stay-awake --display-ime-policy=local"@
    &&& config.app_stream_options == (ScrcpyOptions { local_ime: true, ..default_options() })
    &&& config.tray_app_count == DEFAULT_TRAY_APP_COUNT
    &&& config.tray_show_mirror
    &&& config.tray_show_audio
}

impl Default for Config {
    fn default() -> (config: Self)
        ensures
            is_fresh(config),
    {
        let mut presets = Presets::new();
        presets.insert(phone_preset_name(2670, 1200), default_phone_preset());
        presets.insert(computer_preset_name(2256, 1504), default_computer_preset());
        Self {
            adb_history: Vec::new(),
            global_settings: GlobalSettings::default(),
            apps: empty_apps(),
            presets,
            first_run: true,
            use_custom_args: false,
            custom_args: default_custom_args(),
            scrcpy_options: ScrcpyOptions::default(),
            use_app_stream_args: true,
            use_app_custom_args: false,
            app_custom_args: default_app_custom_args(),
            app_stream_options: default_app_stream_options(),
            tray_app_count: DEFAULT_TRAY_APP_COUNT,
            tray_show_mirror: true,
            tray_show_audio: true,
        }
    }
}

impl Config {
    /// Notes in the connection history that `ip` was used.
    pub fn add_adb_history(&mut self, ip: &str)
        ensures
            views(final(self).adb_history@) == remembered(views(old(self).adb_history@), ip@),
            *final(self) == (Config { adb_history: final(self).adb_history, ..*old(self) }),
    {
        add_adb_history(&mut self.adb_history, ip);
    }

    /// Notes that the first-run dialogue was completed.
    pub fn set_first_run_complete(&mut self)
        ensures
            *final(self) == (Config { first_run: false, ..*old(self) }),
    {
        self.first_run = false;
    }

    /// Keeps a display size under `name`, in place of what was kept under
    /// that name.
    pub fn add_preset(&mut self, name: &str, long: u32, short: u32, dpi: u32, is_landscape: bool)
        ensures
            final(self).presets@ == old(self).presets@.insert(
                name@,
                PresetConfig { long, short, dpi, is_landscape },
            ),
            *final(self) == (Config { presets: final(self).presets, ..*old(self) }),
    {
        let preset = PresetConfig { long, short, dpi, is_landscape };
        self.presets.insert(String::from_str(name), preset);
    }

    /// Drops what is kept under `old_name` and keeps a display size under
    /// `new_name`.
    pub fn update_preset(
        &mut self,
        old_name: &str,
        new_name: &str,
        long: u32,
        short: u32,
        dpi: u32,
        is_landscape: bool,
    )
        ensures
            final(self).presets@ == old(self).presets@.remove(old_name@).insert(
                new_name@,
                PresetConfig { long, short, dpi, is_landscape },
            ),
            *final(self) == (Config { presets: final(self).presets, ..*old(self) }),
    {
        self.presets.remove(old_name);
        self.add_preset(new_name, long, short, dpi, is_landscape);
    }

    /// Drops the display size kept under `name`.
    pub fn delete_preset(&mut self, name: &str)
        ensures
            final(self).presets@ == old(self).presets@.remove(name@),
            *final(self) == (Config { presets: final(self).presets, ..*old(self) }),
    {
        self.presets.remove(name);
    }

    /// Arranges the apps in the order of `new_order`. Apps that it does not
    /// name follow in the order they had.
    pub fn reorder_apps(&mut self, new_order: Vec<String>)
        ensures
            app_entries(final(self).apps) == reordered(
                app_entries(old(self).apps),
                views(new_order@),
            ),
            *final(self) == (Config { apps: final(self).apps, ..*old(self) }),
    {
        reorder_apps(&mut self.apps, &new_order);
    }
}

/// Takes the answers of the first-run dialogue into `config`: the display
/// sizes of the phone and of the computer are kept under their names, the
/// phone's size becomes the full resolution, and the dialogue counts as
/// completed.
pub fn save_first_run_config(
    config: &mut Config,
    phone_long: u32,
    phone_short: u32,
    phone_dpi: u32,
    phone_landscape: bool,
    pc_long: u32,
    pc_short: u32,
    pc_dpi: u32,
    pc_landscape: bool,
)
    ensures
        final(config).presets@ == old(config).presets@.insert(
            preset_label(phone_label(), phone_long, phone_short),
            PresetConfig {
                long: phone_long,
                short: phone_short,
                dpi: phone_dpi,
                is_landscape: phone_landscape,
            },
        ).insert(
            preset_label(computer_label(), pc_long, pc_short),
            PresetConfig {
                long: pc_long,
                short: pc_short,
                dpi: pc_dpi,
                is_landscape: pc_landscape,
            },
        ),
        final(config).global_settings.full_res@ == resolution_text(phone_long, phone_short),
        final(config).global_settings == (GlobalSettings {
            full_res: final(config).global_settings.full_res,
            use_full_res_switch: true,
            ..old(config).global_settings
        }),
        *final(config) == (Config {
            presets: final(config).presets,
            global_settings: final(config).global_settings,
            first_run: false,
            ..*old(config)
        }),
{
    config.presets.insert(
        phone_preset_name(phone_long, phone_short),
        PresetConfig {
            long: phone_long,
            short: phone_short,
            dpi: phone_dpi,
            is_landscape: phone_landscape,
        },
    );
    config.presets.insert(
        computer_preset_name(pc_long, pc_short),
        PresetConfig { long: pc_long, short: pc_short, dpi: pc_dpi, is_landscape: pc_landscape },
    );
    config.global_settings.full_res = full_resolution(phone_long, phone_short);
    config.global_settings.use_full_res_switch = true;
    config.first_run = false;
}

/// Sets the display density and the full resolution that hold for every
/// app without settings of its own.
pub fn save_global_settings(config: &mut Config, dpi: u32, full_res: String)
    ensures
        final(config).global_settings == (GlobalSettings {
            dpi,
            full_res,
            ..old(config).global_settings
        }),
        *final(config) == (Config {
            global_settings: final(config).global_settings,
            ..*old(config)
        }),
{
    config.global_settings.dpi = dpi;
    config.global_settings.full_res = full_res;
}

/// Sets the theme of the user interface.
pub fn set_theme(config: &mut Config, theme: String)
    ensures
        final(config).global_settings == (GlobalSettings { theme, ..old(config).global_settings }),
        *final(config) == (Config {
            global_settings: final(config).global_settings,
            ..*old(config)
        }),
{
    config.global_settings.theme = theme;
}

/// Sets how the mirroring tool is started, for the screen and for apps:
/// with the switches of the options or with written arguments.
pub fn save_scrcpy_options(
    config: &mut Config,
    use_custom: bool,
    custom_args: String,
    options: ScrcpyOptions,
    use_app_stream_args: bool,
    use_app_custom_args: bool,
    app_custom_args: String,
    app_options: ScrcpyOptions,
)
    ensures
        *final(config) == (Config {
            use_custom_args: use_custom,
            custom_args,
            scrcpy_options: options,
            use_app_stream_args,
            use_app_custom_args,
            app_custom_args,
            app_stream_options: app_options,
            ..*old(config)
        }),
{
    config.use_custom_args = use_custom;
    config.custom_args = custom_args;
    config.scrcpy_options = options;
    config.use_app_stream_args = use_app_stream_args;
    config.use_app_custom_args = use_app_custom_args;
    config.app_custom_args = app_custom_args;
    config.app_stream_options = app_options;
}

/// Sets what the tray menu offers.
pub fn save_tray_settings(config: &mut Config, app_count: u32, show_mirror: bool, show_audio: bool)
    ensures
        *final(config) == (Config {
            tray_app_count: app_count,
            tray_show_mirror: show_mirror,
            tray_show_audio: show_audio,
            ..*old(config)
        }),
{
    config.tray_app_count = app_count;
    config.tray_show_mirror = show_mirror;
    config.tray_show_audio = show_audio;
}

} // verus!
