//! What the launcher says to the debug bridge and to the mirroring tool, and
//! what it makes of their answers.
//!
//! Nothing here starts a process. The functions build argument lists and
//! read the text that a finished command has printed.

use crate::config::{AppSettings, GlobalSettings, ScrcpyOptions};
use crate::text::{
    append_decimal, contains, contains_in, decimal, find, find_in, pieces, split, split_bounds,
    text_from, to_chars, trim, trim_bounds, views,
};
use crate::tokens::{
    number_of, read_number, split_words, strip_pattern, without, word_bounds, words,
};
use vstd::prelude::*;
use vstd::string::{StrSliceExecFns, StringExecFns};

verus! {

/// Whether a device is attached, and a line about it for the user.
#[derive(Debug, PartialEq, Eq)]
pub struct AdbStatus {
    pub connected: bool,
    pub message: String,
}

/// An [`AdbStatus`] with its message as a sequence of characters.
pub struct AdbStatusView {
    pub connected: bool,
    pub message: Seq<char>,
}

impl View for AdbStatus {
    type V = AdbStatusView;

    open spec fn view(&self) -> AdbStatusView {
        AdbStatusView { connected: self.connected, message: self.message@ }
    }
}

/// How a command ended, and a line about it for the user.
#[derive(Debug, PartialEq, Eq)]
pub struct CommandResult {
    pub success: bool,
    pub message: String,
}

/// A [`CommandResult`] with its message as a sequence of characters.
pub struct CommandResultView {
    pub success: bool,
    pub message: Seq<char>,
}

impl View for CommandResult {
    type V = CommandResultView;

    open spec fn view(&self) -> CommandResultView {
        CommandResultView { success: self.success, message: self.message@ }
    }
}

/// What the mirroring tool is started for.
pub enum LaunchMode {
    /// The device's screen.
    Mirror,
    /// The device's sound without its screen.
    Audio,
    /// One app on a display of its own.
    App { package: String, settings: Option<AppSettings>, scrcpy_args: Option<String> },
}

/// The part of the configuration that decides the arguments of a launch.
pub struct LaunchConfig {
    pub use_custom_args: bool,
    pub custom_args: String,
    pub scrcpy_options: ScrcpyOptions,
    pub use_app_stream_args: bool,
    pub use_app_custom_args: bool,
    pub app_custom_args: String,
    pub app_stream_options: ScrcpyOptions,
}

/// `list` with `item` behind it where `wanted` holds.
pub open spec fn with(list: Seq<Seq<char>>, wanted: bool, item: Seq<char>) -> Seq<Seq<char>> {
    if wanted {
        list.push(item)
    } else {
        list
    }
}

/// The arguments that stand for `opts`, in a fixed order. A limit of zero
/// is no limit and gives no argument.
pub open spec fn option_args(opts: ScrcpyOptions) -> Seq<Seq<char>> {
    let a = with(Seq::empty(), opts.hid_keyboard, "-K"@);
    let b = with(a, opts.stay_awake, "--stay-awake"@);
    let c = with(b, opts.turn_screen_off, "-S"@);
    let d = with(c, opts.show_touches, "--show-touches"@);
    let e = with(d, opts.always_on_top, "--always-on-top"@);
    let f = with(e, opts.borderless, "--window-borderless"@);
    let g = with(f, opts.power_off_on_close, "--power-off-on-close"@);
    let h = with(g, opts.local_ime, "--display-ime-policy=local"@);
    let i = with(h, opts.max_size > 0, "-m "@ + decimal(opts.max_size as nat));
    with(i, opts.max_fps > 0, "--max-fps="@ + decimal(opts.max_fps as nat))
}

/// Appends `item` to `list` where `wanted` holds.
fn push_when(list: &mut Vec<String>, wanted: bool, item: &str)
    ensures
        views(final(list)@) == with(views(old(list)@), wanted, item@),
{
    if wanted {
        let ghost before = views(list@);
        list.push(String::from_str(item));
        assert(views(list@) =~= before.push(item@));
    }
}

/// Appends `prefix` followed by `n` in decimal to `list` where `wanted`
/// holds.
fn push_number_when(list: &mut Vec<String>, wanted: bool, prefix: &str, n: u32)
    ensures
        views(final(list)@) == with(views(old(list)@), wanted, prefix@ + decimal(n as nat)),
{
    if wanted {
        let ghost before = views(list@);
        let mut item = String::from_str(prefix);
        append_decimal(&mut item, n);
        list.push(item);
        assert(views(list@) =~= before.push(prefix@ + decimal(n as nat)));
    }
}

/// Turns the options into the arguments of the mirroring tool.
pub fn build_args_from_options(opts: &ScrcpyOptions) -> (args: Vec<String>)
    ensures
        views(args@) == option_args(*opts),
{
    let mut args: Vec<String> = Vec::new();
    assert(views(args@) =~= Seq::<Seq<char>>::empty());
    push_when(&mut args, opts.hid_keyboard, "-K");
    push_when(&mut args, opts.stay_awake, "--stay-awake");
    push_when(&mut args, opts.turn_screen_off, "-S");
    push_when(&mut args, opts.show_touches, "--show-touches");
    push_when(&mut args, opts.always_on_top, "--always-on-top");
    push_when(&mut args, opts.borderless, "--window-borderless");
    push_when(&mut args, opts.power_off_on_close, "--power-off-on-close");
    push_when(&mut args, opts.local_ime, "--display-ime-policy=local");
    push_number_when(&mut args, opts.max_size > 0, "-m ", opts.max_size);
    push_number_when(&mut args, opts.max_fps > 0, "--max-fps=", opts.max_fps);
    args
}

/// A [`LaunchMode`] as mathematical values.
pub enum LaunchModeView {
    Mirror,
    Audio,
    App { package: Seq<char>, settings: Option<(Seq<char>, u32)>, scrcpy_args: Option<Seq<char>> },
}

impl View for LaunchMode {
    type V = LaunchModeView;

    open spec fn view(&self) -> LaunchModeView {
        match self {
            LaunchMode::Mirror => LaunchModeView::Mirror,
            LaunchMode::Audio => LaunchModeView::Audio,
            LaunchMode::App { package, settings, scrcpy_args } => LaunchModeView::App {
                package: package@,
                settings: match settings {
                    Some(s) => Some((s.full_res@, s.dpi)),
                    None => None,
                },
                scrcpy_args: match scrcpy_args {
                    Some(a) => Some(a@),
                    None => None,
                },
            },
        }
    }
}

/// A [`LaunchConfig`] as mathematical values.
pub struct LaunchConfigView {
    pub use_custom_args: bool,
    pub custom_args: Seq<char>,
    pub scrcpy_options: ScrcpyOptions,
    pub use_app_stream_args: bool,
    pub use_app_custom_args: bool,
    pub app_custom_args: Seq<char>,
    pub app_stream_options: ScrcpyOptions,
}

impl View for LaunchConfig {
    type V = LaunchConfigView;

    open spec fn view(&self) -> LaunchConfigView {
        LaunchConfigView {
            use_custom_args: self.use_custom_args,
            custom_args: self.custom_args@,
            scrcpy_options: self.scrcpy_options,
            use_app_stream_args: self.use_app_stream_args,
            use_app_custom_args: self.use_app_custom_args,
            app_custom_args: self.app_custom_args@,
            app_stream_options: self.app_stream_options,
        }
    }
}

/// The arguments that every launch of this mode starts with. An app's own
/// arguments go before the arguments for apps, and those before the general
/// ones; written arguments go before options.
pub open spec fn base_args(mode: LaunchModeView, config: LaunchConfigView) -> Seq<Seq<char>> {
    match mode {
        LaunchModeView::App { scrcpy_args: Some(own), .. } => words(own),
        LaunchModeView::App { scrcpy_args: None, .. } => if config.use_app_stream_args {
            if config.use_app_custom_args {
                words(config.app_custom_args)
            } else {
                option_args(config.app_stream_options)
            }
        } else {
            general_args(config)
        },
        _ => general_args(config),
    }
}

/// The arguments of a launch that is not ruled by the settings for apps.
pub open spec fn general_args(config: LaunchConfigView) -> Seq<Seq<char>> {
    if config.use_custom_args {
        words(config.custom_args)
    } else {
        option_args(config.scrcpy_options)
    }
}

/// The largest of the numbers among `parts`; `None` where no part is a
/// number.
pub open spec fn largest(parts: Seq<Seq<char>>) -> Option<u32>
    decreases parts.len(),
{
    if parts.len() == 0 {
        None
    } else {
        let before = largest(parts.drop_last());
        match number_of(parts.last()) {
            None => before,
            Some(n) => match before {
                Some(m) => if m > n {
                    Some(m)
                } else {
                    Some(n)
                },
                None => Some(n),
            },
        }
    }
}

/// The longer side of a resolution written as `<side>x<side>`; 1920 where
/// the text holds no number.
pub open spec fn longer_side(full_res: Seq<char>) -> u32 {
    match largest(split(full_res, 'x')) {
        Some(n) => n,
        None => 1920,
    }
}

/// The arguments that the mode itself adds.
pub open spec fn mode_args(mode: LaunchModeView, global_res: Seq<char>, global_dpi: u32) -> Seq<
    Seq<char>,
> {
    match mode {
        LaunchModeView::Audio => seq!["--no-video"@],
        LaunchModeView::Mirror => seq!["--max-size="@ + decimal(longer_side(global_res) as nat)],
        LaunchModeView::App { package, settings, .. } => {
            let res = match settings {
                Some(s) => s.0,
                None => global_res,
            };
            let dpi = match settings {
                Some(s) => s.1,
                None => global_dpi,
            };
            seq![
                "--new-display="@ + res + "/"@ + decimal(dpi as nat),
                "--start-app="@ + package,
                "--capture-orientation=0"@,
            ]
        },
    }
}

/// All arguments of a launch.
pub open spec fn launch_args_of(
    mode: LaunchModeView,
    config: LaunchConfigView,
    global_res: Seq<char>,
    global_dpi: u32,
) -> Seq<Seq<char>> {
    base_args(mode, config) + mode_args(mode, global_res, global_dpi)
}

/// Finds the longer side of a resolution written as `<side>x<side>`.
pub fn max_size_of(full_res: &str) -> (side: u32)
    ensures
        side == longer_side(full_res@),
{
    let v = to_chars(full_res);
    let parts = split_bounds(&v, 0, v.len(), 'x');
    assert(v@.subrange(0, v@.len() as int) =~= v@);
    let ghost all = pieces(v@, parts@);
    let mut best: Option<u32> = None;
    let mut i: usize = 0;
    assert(all.take(0) =~= Seq::<Seq<char>>::empty());
    while i < parts.len()
        invariant
            i <= parts.len(),
            all == pieces(v@, parts@),
            forall|k: int|
                0 <= k < parts.len() ==> (#[trigger] parts[k]).0 <= parts[k].1 <= v.len(),
            best == largest(all.take(i as int)),
        decreases parts.len() - i,
    {
        proof {
            assert(all.take(i + 1).drop_last() =~= all.take(i as int));
            assert(all.take(i + 1).last() == v@.subrange(
                parts@[i as int].0 as int,
                parts@[i as int].1 as int,
            ));
        }
        match read_number(&v, parts[i].0, parts[i].1) {
            Some(n) => {
                best = match best {
                    Some(m) => if m > n {
                        Some(m)
                    } else {
                        Some(n)
                    },
                    None => Some(n),
                };
            },
            None => {},
        }
        i += 1;
    }
    assert(all.take(parts@.len() as int) =~= all);
    match best {
        Some(n) => n,
        None => 1920,
    }
}

/// Builds the arguments with which the mirroring tool is started.
pub fn launch_args(mode: &LaunchMode, config: &LaunchConfig, global: &GlobalSettings) -> (args:
    Vec<String>)
    ensures
        views(args@) == launch_args_of(mode@, config@, global.full_res@, global.dpi),
{
    let mut args: Vec<String> = match mode {
        LaunchMode::App { scrcpy_args: Some(own), .. } => split_words(own.as_str()),
        LaunchMode::App { scrcpy_args: None, .. } => {
            if config.use_app_stream_args {
                if config.use_app_custom_args {
                    split_words(config.app_custom_args.as_str())
                } else {
                    build_args_from_options(&config.app_stream_options)
                }
            } else if config.use_custom_args {
                split_words(config.custom_args.as_str())
            } else {
                build_args_from_options(&config.scrcpy_options)
            }
        },
        _ => {
            if config.use_custom_args {
                split_words(config.custom_args.as_str())
            } else {
                build_args_from_options(&config.scrcpy_options)
            }
        },
    };
    let ghost base = views(args@);
    assert(base == base_args(mode@, config@));
    match mode {
        LaunchMode::Audio => {
            args.push(String::from_str("--no-video"));
            assert(views(args@) =~= base + seq!["--no-video"@]);
        },
        LaunchMode::Mirror => {
            let side = max_size_of(global.full_res.as_str());
            let mut item = String::from_str("--max-size=");
            append_decimal(&mut item, side);
            args.push(item);
            assert(views(args@) =~= base + seq!["--max-size="@ + decimal(side as nat)]);
        },
        LaunchMode::App { package, settings, .. } => {
            let mut display = String::from_str("--new-display=");
            let dpi = match settings {
                Some(s) => {
                    display.append(s.full_res.as_str());
                    s.dpi
                },
                None => {
                    display.append(global.full_res.as_str());
                    global.dpi
                },
            };
            display.append("/");
            append_decimal(&mut display, dpi);
            let start = String::from_str("--start-app=").concat(package.as_str());
            let ghost d = display@;
            let ghost st = start@;
            args.push(display);
            args.push(start);
            args.push(String::from_str("--capture-orientation=0"));
            assert(views(args@) =~= base + seq![d, st, "--capture-orientation=0"@]);
        },
    }
    args
}

/// The name of a launch for the user: the package of an app, or the name of
/// the mode.
pub open spec fn mode_name(mode: LaunchModeView) -> Seq<char> {
    match mode {
        LaunchModeView::Mirror => "屏幕镜像"@,
        LaunchModeView::Audio => "纯音频"@,
        LaunchModeView::App { package, .. } => package,
    }
}

/// The result of a launch that started.
pub fn launched(mode: &LaunchMode) -> (r: CommandResult)
    ensures
        r@ == (CommandResultView {
            success: true,
            message: "已启动 ("@ + mode_name(mode@) + ")"@,
        }),
{
    let mut message = String::from_str("已启动 (");
    match mode {
        LaunchMode::Mirror => message.append("屏幕镜像"),
        LaunchMode::Audio => message.append("纯音频"),
        LaunchMode::App { package, .. } => message.append(package.as_str()),
    }
    message.append(")");
    CommandResult { success: true, message }
}

/// The result of a command that failed with `error`, told under `prefix`.
pub fn failed(prefix: &str, error: &str) -> (r: CommandResult)
    ensures
        r@ == (CommandResultView { success: false, message: prefix@ + error@ }),
{
    CommandResult { success: false, message: String::from_str(prefix).concat(error) }
}

/// The result of a command with a fixed message.
pub fn outcome(success: bool, message: &str) -> (r: CommandResult)
    ensures
        r@ == (CommandResultView { success, message: message@ }),
{
    CommandResult { success, message: String::from_str(message) }
}

/// Tells whether `text` holds `pat` anywhere.
pub fn mentions(text: &str, pat: &str) -> (b: bool)
    ensures
        b == contains(text@, pat@),
{
    let v = to_chars(text);
    assert(v@.subrange(0, v@.len() as int) =~= v@);
    contains_in(&v, 0, v.len(), pat)
}

/// A line of the device list names an attached device when it says
/// `device` and does not say `offline`.
pub open spec fn is_device_line(line: Seq<char>) -> bool {
    contains(line, "device"@) && !contains(line, "offline"@)
}

/// The first of `lines` that names an attached device.
pub open spec fn first_device(lines: Seq<Seq<char>>) -> Option<Seq<char>>
    decreases lines.len(),
{
    if lines.len() == 0 {
        None
    } else if is_device_line(lines[0]) {
        Some(lines[0])
    } else {
        first_device(lines.drop_first())
    }
}

/// The serial on a line of the device list: its first word.
pub open spec fn device_id(line: Seq<char>) -> Seq<char> {
    if words(line).len() > 0 {
        words(line)[0]
    } else {
        "unknown"@
    }
}

/// What the output of `adb devices` says: whether a device is attached, and
/// which. The first line is a heading and is passed over.
pub open spec fn devices_status(stdout: Seq<char>) -> AdbStatusView {
    match first_device(split(stdout, '\n').drop_first()) {
        Some(line) => AdbStatusView { connected: true, message: "已连接: "@ + device_id(line) },
        None => AdbStatusView { connected: false, message: "未连接设备"@ },
    }
}

/// Reads the output of `adb devices`.
pub fn status_from_devices(stdout: &str) -> (status: AdbStatus)
    ensures
        status@ == devices_status(stdout@),
{
    let v = to_chars(stdout);
    let lines = split_bounds(&v, 0, v.len(), '\n');
    assert(v@.subrange(0, v@.len() as int) =~= v@);
    let ghost all = pieces(v@, lines@);
    let mut k: usize = 1;
    assert(all.skip(1) =~= all.drop_first());
    while k < lines.len()
        invariant
            1 <= k <= lines.len(),
            v@ == stdout@,
            all == pieces(v@, lines@),
            forall|i: int|
                0 <= i < lines.len() ==> (#[trigger] lines[i]).0 <= lines[i].1 <= v.len(),
            all == split(stdout@, '\n'),
            first_device(all.skip(k as int)) == first_device(all.drop_first()),
        decreases lines.len() - k,
    {
        let (lo, hi) = lines[k];
        let ghost rest = all.skip(k as int);
        proof {
            assert(rest[0] == v@.subrange(lo as int, hi as int));
            assert(rest.drop_first() =~= all.skip(k + 1));
        }
        if contains_in(&v, lo, hi, "device") && !contains_in(&v, lo, hi, "offline") {
            let found = word_bounds(&v, lo, hi);
            let ghost line = v@.subrange(lo as int, hi as int);
            assert(first_device(rest) == Some(line));
            assert(pieces(v@, found@).len() == found@.len());
            let mut message = String::from_str("已连接: ");
            if found.len() > 0 {
                let (a, b) = found[0];
                proof {
                    let w = pieces(v@, found@);
                    assert(w[0] == v@.subrange(a as int, b as int));
                }
                message.append(stdout.substring_char(a, b));
            } else {
                message.append("unknown");
            }
            assert(message@ == "已连接: "@ + device_id(line));
            return AdbStatus { connected: true, message };
        }
        k += 1;
    }
    assert(all.skip(lines@.len() as int) =~= Seq::<Seq<char>>::empty());
    AdbStatus { connected: false, message: String::from_str("未连接设备") }
}

/// The status where the debug bridge could not be run at all.
pub fn status_without_adb() -> (status: AdbStatus)
    ensures
        status@ == (AdbStatusView { connected: false, message: "未找到ADB命令"@ }),
{
    AdbStatus { connected: false, message: String::from_str("未找到ADB命令") }
}

/// The address at which a device is tried before the bridge is asked to
/// connect: the input itself where it names a port, else the input with the
/// device port.
pub open spec fn probe_address_of(ip: Seq<char>) -> Seq<char> {
    if contains(ip, ":"@) {
        ip
    } else {
        ip + ":5555"@
    }
}

/// Completes what the user typed to an address with a port.
pub fn probe_address(ip: &str) -> (address: String)
    ensures
        address@ == probe_address_of(ip@),
{
    if mentions(ip, ":") {
        String::from_str(ip)
    } else {
        String::from_str(ip).concat(":5555")
    }
}

/// What the output of `adb connect` says: the bridge is connected where it
/// says so, and its own words are the message either way.
pub fn connect_result(stdout: &str) -> (r: CommandResult)
    ensures
        r@ == (CommandResultView {
            success: contains(stdout@, "connected to"@),
            message: stdout@,
        }),
{
    CommandResult { success: mentions(stdout, "connected to"), message: String::from_str(stdout) }
}

/// Two texts on two lines behind a heading.
pub open spec fn report(heading: Seq<char>, stdout: Seq<char>, stderr: Seq<char>) -> Seq<char> {
    heading + stdout + seq!['\n'] + stderr
}

/// What became of `adb pair`: it succeeded where it says so or ended well.
pub fn pair_result(stdout: &str, stderr: &str, ended_well: bool) -> (r: CommandResult)
    ensures
        r.success == (contains(stdout@, "Successfully paired"@) || ended_well),
        r.message@ == report(
            if r.success {
                "配对成功: "@
            } else {
                "配对失败: "@
            },
            stdout@,
            stderr@,
        ),
{
    proof {
        reveal_strlit("\n");
    }
    let success = mentions(stdout, "Successfully paired") || ended_well;
    let heading = if success {
        "配对成功: "
    } else {
        "配对失败: "
    };
    let message = String::from_str(heading).concat(stdout).concat("\n").concat(stderr);
    assert(message@ =~= report(heading@, stdout@, stderr@));
    CommandResult { success, message }
}

/// What became of `adb tcpip`, told in the launcher's words. A failure
/// without any error output is taken for a missing device.
pub open spec fn tcpip_outcome(
    stdout: Seq<char>,
    stderr: Seq<char>,
    ended_well: bool,
) -> CommandResultView {
    if contains(stdout, "restarting in TCP mode"@) || ended_well {
        CommandResultView {
            success: true,
            message: "已开启无线调试 (端口 5555)，请断开USB线并输入IP连接。"@,
        }
    } else {
        CommandResultView {
            success: false,
            message: "失败: "@ + if stderr.len() == 0 {
                "未连接设备"@
            } else {
                stderr
            },
        }
    }
}

/// Reads what became of `adb tcpip`.
pub fn tcpip_result(stdout: &str, stderr: &str, ended_well: bool) -> (r: CommandResult)
    ensures
        r@ == tcpip_outcome(stdout@, stderr@, ended_well),
{
    if mentions(stdout, "restarting in TCP mode") || ended_well {
        outcome(true, "已开启无线调试 (端口 5555)，请断开USB线并输入IP连接。")
    } else if stderr.unicode_len() == 0 {
        failed("失败: ", "未连接设备")
    } else {
        failed("失败: ", stderr)
    }
}

/// Reads what became of `adb disconnect`.
pub fn disconnect_result(stdout: &str, ended_well: bool) -> (r: CommandResult)
    ensures
        r.success == (contains(stdout@, "disconnected everything"@) || ended_well),
        r.message@ == if r.success {
            "已断开所有连接。"@
        } else {
            "断开失败"@
        },
{
    if mentions(stdout, "disconnected everything") || ended_well {
        outcome(true, "已断开所有连接。")
    } else {
        outcome(false, "断开失败")
    }
}

/// What the output of `taskkill` says of the mirroring tool's windows. The
/// command having run counts as success whatever it found.
pub open spec fn kill_message(stdout: Seq<char>) -> Seq<char> {
    if contains(stdout, "成功"@) || contains(stdout, "SUCCESS"@) {
        "已关闭所有 Scrcpy 窗口。"@
    } else if contains(stdout, "没有找到"@) || contains(stdout, "not found"@) {
        "当前没有正在运行的 Scrcpy 窗口。"@
    } else {
        "关闭指令已发送。"@
    }
}

/// Reads what became of closing the mirroring tool's windows.
pub fn kill_result(stdout: &str) -> (r: CommandResult)
    ensures
        r@ == (CommandResultView { success: true, message: kill_message(stdout@) }),
{
    if mentions(stdout, "成功") || mentions(stdout, "SUCCESS") {
        outcome(true, "已关闭所有 Scrcpy 窗口。")
    } else if mentions(stdout, "没有找到") || mentions(stdout, "not found") {
        outcome(true, "当前没有正在运行的 Scrcpy 窗口。")
    } else {
        outcome(true, "关闭指令已发送。")
    }
}

/// The name of the package on a line of the package list: the line without
/// the marker `package:`, trimmed.
pub open spec fn package_on(line: Seq<char>) -> Seq<char> {
    trim(without(line, "package:"@))
}

/// The packages that `lines` name, without the lines that name none.
pub open spec fn packages_on(lines: Seq<Seq<char>>) -> Seq<Seq<char>>
    decreases lines.len(),
{
    if lines.len() == 0 {
        Seq::empty()
    } else if package_on(lines.last()).len() == 0 {
        packages_on(lines.drop_last())
    } else {
        packages_on(lines.drop_last()).push(package_on(lines.last()))
    }
}

/// The packages that the output of `pm list packages` names.
pub open spec fn packages_in(stdout: Seq<char>) -> Seq<Seq<char>> {
    packages_on(split(stdout, '\n'))
}

/// Reads the installed packages out of the output of `pm list packages`.
pub fn installed_packages(stdout: &str) -> (out: Vec<String>)
    ensures
        views(out@) == packages_in(stdout@),
{
    let v = to_chars(stdout);
    let lines = split_bounds(&v, 0, v.len(), '\n');
    assert(v@.subrange(0, v@.len() as int) =~= v@);
    let ghost all = pieces(v@, lines@);
    let mut out: Vec<String> = Vec::new();
    let mut k: usize = 0;
    assert(all.take(0) =~= Seq::<Seq<char>>::empty());
    assert(views(out@) =~= Seq::<Seq<char>>::empty());
    while k < lines.len()
        invariant
            k <= lines.len(),
            all == pieces(v@, lines@),
            forall|i: int|
                0 <= i < lines.len() ==> (#[trigger] lines[i]).0 <= lines[i].1 <= v.len(),
            views(out@) == packages_on(all.take(k as int)),
        decreases lines.len() - k,
    {
        let (lo, hi) = lines[k];
        proof {
            assert(all.take(k + 1).drop_last() =~= all.take(k as int));
            assert(all.take(k + 1).last() == v@.subrange(lo as int, hi as int));
        }
        let stripped = strip_pattern(&v, lo, hi, "package:");
        let (a, b) = trim_bounds(&stripped, 0, stripped.len());
        assert(stripped@.subrange(0, stripped@.len() as int) =~= stripped@);
        if a < b {
            let ghost before = views(out@);
            out.push(text_from(&stripped, a, b));
            assert(views(out@) =~= before.push(stripped@.subrange(a as int, b as int)));
        }
        k += 1;
    }
    assert(all.take(lines@.len() as int) =~= all);
    out
}

/// The bridge refused the connection for the reason `error`.
pub fn connect_refused(error: &str) -> (r: CommandResult)
    ensures
        r@ == (CommandResultView {
            success: false,
            message: "无法连接到设备 (拒绝连接): "@ + error@,
        }),
{
    failed("无法连接到设备 (拒绝连接): ", error)
}

/// The device did not answer in time.
pub fn connect_timed_out() -> (r: CommandResult)
    ensures
        r@ == (CommandResultView {
            success: false,
            message: "连接超时：设备不可达或未开启无线调试"@,
        }),
{
    outcome(false, "连接超时：设备不可达或未开启无线调试")
}

/// `adb connect` could not be run for the reason `error`.
pub fn connect_failed(error: &str) -> (r: CommandResult)
    ensures
        r@ == (CommandResultView { success: false, message: "连接失败: "@ + error@ }),
{
    failed("连接失败: ", error)
}

/// A command could not be run for the reason `error`.
pub fn run_failed(error: &str) -> (r: CommandResult)
    ensures
        r@ == (CommandResultView { success: false, message: "执行失败: "@ + error@ }),
{
    failed("执行失败: ", error)
}

/// A program could not be started for the reason `error`.
pub fn start_failed(error: &str) -> (r: CommandResult)
    ensures
        r@ == (CommandResultView { success: false, message: "启动失败: "@ + error@ }),
{
    failed("启动失败: ", error)
}

/// The bridge's server was stopped.
pub fn adb_server_stopped() -> (r: CommandResult)
    ensures
        r@ == (CommandResultView { success: true, message: "ADB 服务已停止"@ }),
{
    outcome(true, "ADB 服务已停止")
}

/// The file at `local_path` arrived on the device.
pub fn push_succeeded(local_path: &str) -> (r: CommandResult)
    ensures
        r@ == (CommandResultView { success: true, message: "发送成功: "@ + local_path@ }),
{
    CommandResult { success: true, message: String::from_str("发送成功: ").concat(local_path) }
}

/// The push ended badly and left `stderr` behind.
pub fn push_failed(stderr: &str) -> (r: CommandResult)
    ensures
        r@ == (CommandResultView { success: false, message: "发送失败: "@ + stderr@ }),
{
    failed("发送失败: ", stderr)
}

/// The push could not be waited for, for the reason `error`.
pub fn push_interrupted(error: &str) -> (r: CommandResult)
    ensures
        r@ == (CommandResultView { success: false, message: "执行中断: "@ + error@ }),
{
    failed("执行中断: ", error)
}

/// A line of the bridge's progress output can be read when its first `[`
/// does not stand behind its first `%]`.
pub open spec fn progress_readable(line: Seq<char>) -> bool {
    match (find(line, "["@), find(line, "%]"@)) {
        (Some(open), Some(close)) => open < close,
        _ => true,
    }
}

/// The percentage on a line of the bridge's progress output: the number
/// between the first `[` and the first `%]`, whatever blanks surround it.
pub open spec fn progress_on(line: Seq<char>) -> Option<u32> {
    match (find(line, "["@), find(line, "%]"@)) {
        (Some(open), Some(close)) => if open < close {
            number_of(trim(line.subrange(open as int + 1, close as int)))
        } else {
            None
        },
        _ => None,
    }
}

/// Tells whether a line of progress output can be read.
pub fn can_read_progress(line: &str) -> (b: bool)
    ensures
        b == progress_readable(line@),
{
    proof {
        reveal_strlit("[");
        reveal_strlit("%]");
    }
    let v = to_chars(line);
    assert(v@.subrange(0, v@.len() as int) =~= v@);
    match find_in(&v, 0, v.len(), "[") {
        Some(open) => match find_in(&v, 0, v.len(), "%]") {
            Some(close) => open < close,
            None => true,
        },
        None => true,
    }
}

/// Reads the percentage off a line of the bridge's progress output.
pub fn read_progress(line: &str) -> (r: Option<u32>)
    requires
        progress_readable(line@),
    ensures
        r == progress_on(line@),
{
    proof {
        reveal_strlit("[");
        reveal_strlit("%]");
    }
    let v = to_chars(line);
    assert(v@.subrange(0, v@.len() as int) =~= v@);
    let open = match find_in(&v, 0, v.len(), "[") {
        Some(i) => i,
        None => {
            return None;
        },
    };
    let close = match find_in(&v, 0, v.len(), "%]") {
        Some(i) => i,
        None => {
            return None;
        },
    };
    let (a, b) = trim_bounds(&v, open + 1, close);
    read_number(&v, a, b)
}

/// What the user is told while a file is on its way.
pub fn progress_message(percent: u32) -> (text: String)
    ensures
        text@ == "正在传输: "@ + decimal(percent as nat) + "%"@,
{
    let mut text = String::from_str("正在传输: ");
    append_decimal(&mut text, percent);
    text.append("%");
    text
}

} // verus!
