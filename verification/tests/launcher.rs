use indexmap::IndexMap;
use scrcpy_launcher::apps::{delete_app, find_app, first_apps, reorder_apps, save_app};
use scrcpy_launcher::commands::{
    cleanup_before_exit, connect_device, disconnect_everything, enable_tcpip, kill_adb_server,
    kill_scrcpy, list_devices, list_packages, pair_with, push_with_progress, HostCommand, Program,
};
use scrcpy_launcher::config::{
    add_adb_history, computer_preset_name, default_app_custom_args, default_app_stream_options,
    default_computer_preset, default_custom_args, default_phone_preset, default_theme,
    full_resolution, icon_file_name, phone_preset_name, preset_name, AppConfig, AppSettings,
    GlobalSettings, PresetConfig, ScrcpyOptions, DEFAULT_TRAY_APP_COUNT, HISTORY_LIMIT,
};
use scrcpy_launcher::scrcpy::{
    adb_server_stopped, build_args_from_options, can_read_progress, connect_failed,
    connect_refused, connect_result, connect_timed_out, disconnect_result, installed_packages,
    kill_result, launch_args, launched, max_size_of, pair_result, probe_address,
    progress_message, push_failed, push_interrupted, push_succeeded, read_progress, run_failed,
    start_failed, status_from_devices, status_without_adb, tcpip_result, LaunchConfig,
    LaunchMode,
};
use scrcpy_launcher::target::remote_target;
use scrcpy_launcher::tokens::{parse_number, split_words};
use scrcpy_launcher::tray::{
    app_entry_id, entry_texts, tray_action, tray_menu, MenuEntry, TrayAction,
};

fn strings(items: &[&str]) -> Vec<String> {
    items.iter().map(|s| s.to_string()).collect()
}

fn app(name: &str) -> AppConfig {
    AppConfig { name: name.to_string(), settings: None, scrcpy_args: None }
}

fn sample_apps() -> IndexMap<String, AppConfig> {
    let mut apps = IndexMap::new();
    apps.insert("com.a".to_string(), app("A"));
    apps.insert("com.b".to_string(), app("B"));
    apps.insert("com.c".to_string(), app("C"));
    apps.insert("com.d".to_string(), app("D"));
    apps
}

fn keys(apps: &IndexMap<String, AppConfig>) -> Vec<String> {
    apps.keys().cloned().collect()
}

fn launch_config() -> LaunchConfig {
    LaunchConfig {
        use_custom_args: false,
        custom_args: default_custom_args(),
        scrcpy_options: ScrcpyOptions::default(),
        use_app_stream_args: true,
        use_app_custom_args: false,
        app_custom_args: default_app_custom_args(),
        app_stream_options: default_app_stream_options(),
    }
}

#[test]
fn directory_destination_takes_the_file_name() {
    assert_eq!(
        remote_target(Some("/sdcard/Download/"), Some("photo.jpg")),
        "/sdcard/Download/photo.jpg,0644"
    );
    assert_eq!(remote_target(Some("/"), Some("a")), "/a,0644");
}

#[test]
fn file_destination_is_taken_as_it_is() {
    assert_eq!(remote_target(Some("/sdcard/x.bin"), Some("photo.jpg")), "/sdcard/x.bin,0644");
    assert_eq!(remote_target(Some(""), Some("photo.jpg")), ",0644");
}

#[test]
fn missing_destination_and_name_fall_back_to_defaults() {
    assert_eq!(remote_target(None, Some("a.txt")), "/sdcard/Download/a.txt,0644");
    assert_eq!(remote_target(None, None), "/sdcard/Download/unknown_file,0644");
    assert_eq!(remote_target(Some("/data/"), None), "/data/unknown_file,0644");
}

#[test]
fn default_settings_are_those_of_a_fresh_configuration() {
    let global = GlobalSettings::default();
    assert!(global.use_full_res_switch);
    assert_eq!(global.full_res, "1200x2670");
    assert_eq!(global.dpi, 400);
    assert!(!global.is_landscape);
    assert_eq!(global.theme, "light");
    assert_eq!(default_theme(), "light");
    let options = ScrcpyOptions::default();
    assert!(options.hid_keyboard && options.stay_awake);
    assert!(!options.turn_screen_off && !options.local_ime);
    assert_eq!((options.max_size, options.max_fps), (0, 0));
    assert!(default_app_stream_options().local_ime);
    assert_eq!(default_custom_args(), "-K --stay-awake");
    assert_eq!(default_app_custom_args(), "-K --stay-awake --display-ime-policy=local");
    assert_eq!(DEFAULT_TRAY_APP_COUNT, 4);
    assert_eq!(
        default_phone_preset(),
        PresetConfig { long: 2670, short: 1200, dpi: 400, is_landscape: false }
    );
    assert_eq!(
        default_computer_preset(),
        PresetConfig { long: 2256, short: 1504, dpi: 260, is_landscape: true }
    );
}

#[test]
fn history_puts_the_newest_first_and_drops_repeats() {
    let mut history = strings(&["1.1.1.1", "2.2.2.2", "3.3.3.3"]);
    add_adb_history(&mut history, "2.2.2.2");
    assert_eq!(history, strings(&["2.2.2.2", "1.1.1.1", "3.3.3.3"]));
    add_adb_history(&mut history, "4.4.4.4");
    assert_eq!(history, strings(&["4.4.4.4", "2.2.2.2", "1.1.1.1", "3.3.3.3"]));
}

#[test]
fn history_keeps_ten_entries() {
    let mut history: Vec<String> = (0..10).map(|i| format!("10.0.0.{}", i)).collect();
    add_adb_history(&mut history, "new");
    assert_eq!(history.len(), HISTORY_LIMIT);
    assert_eq!(history[0], "new");
    assert_eq!(history[9], "10.0.0.8");
    let mut empty: Vec<String> = Vec::new();
    add_adb_history(&mut empty, "1.2.3.4:5555");
    assert_eq!(empty, strings(&["1.2.3.4:5555"]));
}

#[test]
fn preset_names_show_the_display_size() {
    assert_eq!(phone_preset_name(2670, 1200), "我的手机 (2670x1200)");
    assert_eq!(computer_preset_name(2256, 1504), "我的电脑 (2256x1504)");
    assert_eq!(preset_name("Tablet", 0, 4294967295), "Tablet (0x4294967295)");
    assert_eq!(full_resolution(2670, 1200), "1200x2670");
    assert_eq!(full_resolution(1200, 2670), "1200x2670");
    assert_eq!(full_resolution(7, 7), "7x7");
    assert_eq!(icon_file_name("com.example.app"), "com.example.app.png");
}

#[test]
fn options_become_arguments_in_a_fixed_order() {
    assert_eq!(build_args_from_options(&ScrcpyOptions::default()), strings(&["-K", "--stay-awake"]));
    let all = ScrcpyOptions {
        hid_keyboard: true,
        stay_awake: true,
        turn_screen_off: true,
        show_touches: true,
        always_on_top: true,
        borderless: true,
        power_off_on_close: true,
        local_ime: true,
        max_size: 1024,
        max_fps: 60,
    };
    assert_eq!(
        build_args_from_options(&all),
        strings(&[
            "-K",
            "--stay-awake",
            "-S",
            "--show-touches",
            "--always-on-top",
            "--window-borderless",
            "--power-off-on-close",
            "--display-ime-policy=local",
            "-m 1024",
            "--max-fps=60",
        ])
    );
    let none = ScrcpyOptions { hid_keyboard: false, stay_awake: false, ..ScrcpyOptions::default() };
    assert_eq!(build_args_from_options(&none), Vec::<String>::new());
}

#[test]
fn words_are_split_at_any_whitespace() {
    assert_eq!(split_words("  -K   --stay-awake\t-S\n"), strings(&["-K", "--stay-awake", "-S"]));
    assert_eq!(split_words(""), Vec::<String>::new());
    assert_eq!(split_words(" \u{3000} "), Vec::<String>::new());
    assert_eq!(split_words("one"), strings(&["one"]));
}

#[test]
fn numbers_are_read_like_unsigned_integers() {
    assert_eq!(parse_number("1200"), Some(1200));
    assert_eq!(parse_number("+7"), Some(7));
    assert_eq!(parse_number("007"), Some(7));
    assert_eq!(parse_number("4294967295"), Some(4294967295));
    assert_eq!(parse_number("4294967296"), None);
    assert_eq!(parse_number(""), None);
    assert_eq!(parse_number("+"), None);
    assert_eq!(parse_number("-1"), None);
    assert_eq!(parse_number(" 1"), None);
    assert_eq!(parse_number("12a"), None);
}

#[test]
fn mirror_launch_limits_the_size_to_the_longer_side() {
    let global = GlobalSettings::default();
    let args = launch_args(&LaunchMode::Mirror, &launch_config(), &global);
    assert_eq!(args, strings(&["-K", "--stay-awake", "--max-size=2670"]));
    assert_eq!(max_size_of("1200x2670"), 2670);
    assert_eq!(max_size_of("2670x1200"), 2670);
    assert_eq!(max_size_of("wide"), 1920);
    assert_eq!(max_size_of(""), 1920);
    assert_eq!(max_size_of("800"), 800);
}

#[test]
fn audio_launch_turns_video_off() {
    let mut config = launch_config();
    config.use_custom_args = true;
    config.custom_args = "  --no-audio-playback  -K ".to_string();
    let args = launch_args(&LaunchMode::Audio, &config, &GlobalSettings::default());
    assert_eq!(args, strings(&["--no-audio-playback", "-K", "--no-video"]));
}

#[test]
fn app_launch_uses_the_apps_own_settings_first() {
    let global = GlobalSettings::default();
    let own = LaunchMode::App {
        package: "com.example".to_string(),
        settings: Some(AppSettings {
            use_full_res_switch: false,
            full_res: "1080x1920".to_string(),
            dpi: 320,
            is_landscape: false,
        }),
        scrcpy_args: Some("-S --max-fps=30".to_string()),
    };
    assert_eq!(
        launch_args(&own, &launch_config(), &global),
        strings(&[
            "-S",
            "--max-fps=30",
            "--new-display=1080x1920/320",
            "--start-app=com.example",
            "--capture-orientation=0",
        ])
    );
    let plain =
        LaunchMode::App { package: "com.example".to_string(), settings: None, scrcpy_args: None };
    assert_eq!(
        launch_args(&plain, &launch_config(), &global),
        strings(&[
            "-K",
            "--stay-awake",
            "--display-ime-policy=local",
            "--new-display=1200x2670/400",
            "--start-app=com.example",
            "--capture-orientation=0",
        ])
    );
    let mut config = launch_config();
    config.use_app_custom_args = true;
    config.app_custom_args = "-K".to_string();
    assert_eq!(launch_args(&plain, &config, &global)[0], "-K");
    assert_eq!(launch_args(&plain, &config, &global).len(), 4);
    config.use_app_stream_args = false;
    assert_eq!(
        launch_args(&plain, &config, &global)[..2],
        strings(&["-K", "--stay-awake"])[..]
    );
}

#[test]
fn launch_messages_name_the_mode() {
    assert_eq!(launched(&LaunchMode::Mirror).message, "已启动 (屏幕镜像)");
    assert_eq!(launched(&LaunchMode::Audio).message, "已启动 (纯音频)");
    let mode = LaunchMode::App { package: "com.x".to_string(), settings: None, scrcpy_args: None };
    let result = launched(&mode);
    assert!(result.success);
    assert_eq!(result.message, "已启动 (com.x)");
    let failure = start_failed("no such file");
    assert!(!failure.success);
    assert_eq!(failure.message, "启动失败: no such file");
}

#[test]
fn device_list_names_the_first_attached_device() {
    let status = status_from_devices("List of devices attached\nR58M123\tdevice\n\n");
    assert!(status.connected);
    assert_eq!(status.message, "已连接: R58M123");
    let status = status_from_devices(
        "List of devices attached\r\nabc\toffline device\r\n192.168.1.9:5555   device\r\n",
    );
    assert_eq!(status.message, "已连接: 192.168.1.9:5555");
}

#[test]
fn device_list_without_devices_is_not_connected() {
    for output in ["List of devices attached\n\n", "", "device", "List\nabc\toffline\n"] {
        let status = status_from_devices(output);
        assert!(!status.connected);
        assert_eq!(status.message, "未连接设备");
    }
    let missing = status_without_adb();
    assert!(!missing.connected);
    assert_eq!(missing.message, "未找到ADB命令");
}

#[test]
fn probe_address_gets_the_device_port() {
    assert_eq!(probe_address("192.168.1.9"), "192.168.1.9:5555");
    assert_eq!(probe_address("192.168.1.9:40001"), "192.168.1.9:40001");
    assert_eq!(probe_address(""), ":5555");
}

#[test]
fn connect_results_follow_the_bridge_output() {
    let good = connect_result("connected to 192.168.1.9:5555\n");
    assert!(good.success);
    assert_eq!(good.message, "connected to 192.168.1.9:5555\n");
    let bad = connect_result("failed to connect to 192.168.1.9:5555");
    assert!(!bad.success);
    assert_eq!(bad.message, "failed to connect to 192.168.1.9:5555");
    assert_eq!(connect_refused("refused").message, "无法连接到设备 (拒绝连接): refused");
    assert_eq!(connect_timed_out().message, "连接超时：设备不可达或未开启无线调试");
    assert!(!connect_timed_out().success);
    assert_eq!(run_failed("x").message, "执行失败: x");
    assert_eq!(connect_failed("gone").message, "连接失败: gone");
    assert!(!connect_failed("gone").success);
    assert_eq!(push_interrupted("killed").message, "执行中断: killed");
    assert!(adb_server_stopped().success);
    assert_eq!(adb_server_stopped().message, "ADB 服务已停止");
}

#[test]
fn pairing_results_show_both_outputs() {
    let good = pair_result("Successfully paired to 1.2.3.4", "", false);
    assert!(good.success);
    assert_eq!(good.message, "配对成功: Successfully paired to 1.2.3.4\n");
    let by_exit = pair_result("", "warn", true);
    assert!(by_exit.success);
    assert_eq!(by_exit.message, "配对成功: \nwarn");
    let bad = pair_result("out", "err", false);
    assert!(!bad.success);
    assert_eq!(bad.message, "配对失败: out\nerr");
}

#[test]
fn tcpip_and_disconnect_results() {
    let good = tcpip_result("restarting in TCP mode port: 5555", "", false);
    assert!(good.success);
    assert_eq!(good.message, "已开启无线调试 (端口 5555)，请断开USB线并输入IP连接。");
    assert!(tcpip_result("", "", true).success);
    let none = tcpip_result("", "", false);
    assert!(!none.success);
    assert_eq!(none.message, "失败: 未连接设备");
    assert_eq!(tcpip_result("", "no devices", false).message, "失败: no devices");
    assert_eq!(disconnect_result("disconnected everything", false).message, "已断开所有连接。");
    assert!(disconnect_result("", true).success);
    let bad = disconnect_result("", false);
    assert!(!bad.success);
    assert_eq!(bad.message, "断开失败");
}

#[test]
fn kill_results_always_succeed() {
    assert_eq!(kill_result("SUCCESS: terminated").message, "已关闭所有 Scrcpy 窗口。");
    assert_eq!(kill_result("成功: 已终止").message, "已关闭所有 Scrcpy 窗口。");
    assert_eq!(kill_result("ERROR: not found").message, "当前没有正在运行的 Scrcpy 窗口。");
    assert_eq!(kill_result("没有找到进程").message, "当前没有正在运行的 Scrcpy 窗口。");
    assert_eq!(kill_result("").message, "关闭指令已发送。");
    assert!(kill_result("").success);
}

#[test]
fn installed_packages_are_listed_without_the_marker() {
    let output = "package:com.a\r\npackage:com.b.c\n\n  package:  \npackage:x package:y\n";
    assert_eq!(installed_packages(output), strings(&["com.a", "com.b.c", "x y"]));
    assert_eq!(installed_packages(""), Vec::<String>::new());
}

#[test]
fn progress_is_read_between_the_brackets() {
    assert!(can_read_progress("[ 45%] /sdcard/file"));
    assert_eq!(read_progress("[ 45%] /sdcard/file"), Some(45));
    assert_eq!(read_progress("[100%] done"), Some(100));
    assert_eq!(read_progress("[  7 %] x"), Some(7));
    assert_eq!(read_progress("no progress here"), None);
    assert_eq!(read_progress("[abc%]"), None);
    assert!(!can_read_progress("%] then ["));
    assert!(can_read_progress("only [ here"));
    assert_eq!(progress_message(45), "正在传输: 45%");
    assert_eq!(push_succeeded("C:/a.txt").message, "发送成功: C:/a.txt");
    assert_eq!(push_failed("denied").message, "发送失败: denied");
}

#[test]
fn commands_are_spelled_out() {
    assert_eq!(list_devices(), HostCommand { program: Program::Adb, args: strings(&["devices"]) });
    assert_eq!(connect_device("1.2.3.4").args, strings(&["connect", "1.2.3.4"]));
    assert_eq!(pair_with("1.2.3.4:37000", "123456").args, strings(&["pair", "1.2.3.4:37000", "123456"]));
    assert_eq!(list_packages().args, strings(&["shell", "pm", "list", "packages", "-3"]));
    assert_eq!(push_with_progress("a", "b").args, strings(&["push", "-p", "a", "b"]));
    assert_eq!(
        kill_scrcpy(),
        HostCommand { program: Program::TaskKill, args: strings(&["/F", "/IM", "scrcpy.exe"]) }
    );
    assert_eq!(kill_adb_server().len(), 2);
    assert_eq!(enable_tcpip(), HostCommand { program: Program::Adb, args: strings(&["tcpip", "5555"]) });
    assert_eq!(
        disconnect_everything(),
        HostCommand { program: Program::Adb, args: strings(&["disconnect"]) }
    );
}

#[test]
fn cleanup_closes_windows_then_stops_the_server() {
    let commands = cleanup_before_exit();
    assert_eq!(
        commands,
        vec![
            HostCommand { program: Program::TaskKill, args: strings(&["/F", "/IM", "scrcpy.exe"]) },
            HostCommand { program: Program::Adb, args: strings(&["kill-server"]) },
            HostCommand { program: Program::TaskKill, args: strings(&["/F", "/IM", "adb.exe"]) },
        ]
    );
}

#[test]
fn saved_app_keeps_its_place_or_goes_last() {
    let mut apps = sample_apps();
    save_app(&mut apps, "com.b".to_string(), app("B2"));
    assert_eq!(keys(&apps), strings(&["com.a", "com.b", "com.c", "com.d"]));
    assert_eq!(apps["com.b"].name, "B2");
    save_app(&mut apps, "com.e".to_string(), app("E"));
    assert_eq!(keys(&apps), strings(&["com.a", "com.b", "com.c", "com.d", "com.e"]));
}

#[test]
fn deleted_app_leaves_the_order_of_the_rest() {
    let mut apps = sample_apps();
    assert_eq!(delete_app(&mut apps, "com.b"), Some(app("B")));
    assert_eq!(keys(&apps), strings(&["com.a", "com.c", "com.d"]));
    assert_eq!(delete_app(&mut apps, "com.zzz"), None);
    assert_eq!(keys(&apps), strings(&["com.a", "com.c", "com.d"]));
}

#[test]
fn reordered_apps_follow_the_new_order_then_the_old() {
    let mut apps = sample_apps();
    reorder_apps(&mut apps, &strings(&["com.c", "com.x", "com.a", "com.c"]));
    assert_eq!(keys(&apps), strings(&["com.c", "com.a", "com.b", "com.d"]));
    assert_eq!(apps["com.c"].name, "C");
    assert_eq!(apps["com.d"].name, "D");
    let mut apps = sample_apps();
    reorder_apps(&mut apps, &Vec::new());
    assert_eq!(keys(&apps), strings(&["com.a", "com.b", "com.c", "com.d"]));
    let mut none: IndexMap<String, AppConfig> = IndexMap::new();
    reorder_apps(&mut none, &strings(&["com.a"]));
    assert!(none.is_empty());
}

#[test]
fn apps_are_found_and_listed_in_order() {
    let apps = sample_apps();
    assert_eq!(find_app(&apps, "com.c"), Some(app("C")));
    assert_eq!(find_app(&apps, "com.q"), None);
    assert_eq!(
        first_apps(&apps, 2),
        vec![("com.a".to_string(), "A".to_string()), ("com.b".to_string(), "B".to_string())]
    );
    assert_eq!(first_apps(&apps, 9).len(), 4);
    assert_eq!(first_apps(&apps, 0).len(), 0);
}

#[test]
fn tray_menu_groups_are_divided() {
    assert_eq!(
        tray_menu(2, true, true),
        vec![
            MenuEntry::App(0),
            MenuEntry::App(1),
            MenuEntry::Separator,
            MenuEntry::Mirror,
            MenuEntry::Audio,
            MenuEntry::Separator,
            MenuEntry::Show,
            MenuEntry::Hide,
            MenuEntry::Separator,
            MenuEntry::Quit,
        ]
    );
    assert_eq!(
        tray_menu(0, false, false),
        vec![MenuEntry::Show, MenuEntry::Hide, MenuEntry::Separator, MenuEntry::Quit]
    );
    assert_eq!(
        tray_menu(0, false, true),
        vec![
            MenuEntry::Audio,
            MenuEntry::Separator,
            MenuEntry::Show,
            MenuEntry::Hide,
            MenuEntry::Separator,
            MenuEntry::Quit,
        ]
    );
}

#[test]
fn tray_clicks_are_routed_by_identifier() {
    assert_eq!(tray_action("show"), TrayAction::ShowWindow);
    assert_eq!(tray_action("hide"), TrayAction::HideWindow);
    assert_eq!(tray_action("mirror"), TrayAction::Mirror);
    assert_eq!(tray_action("audio"), TrayAction::Audio);
    assert_eq!(tray_action("quit"), TrayAction::Quit);
    assert_eq!(tray_action("app:com.example"), TrayAction::App("com.example".to_string()));
    assert_eq!(tray_action("app:"), TrayAction::App(String::new()));
    assert_eq!(tray_action("other"), TrayAction::Nothing);
    assert_eq!(tray_action(""), TrayAction::Nothing);
    assert_eq!(app_entry_id("com.example"), "app:com.example");
    assert_eq!(entry_texts(MenuEntry::Quit), ("quit".to_string(), "退出".to_string()));
    assert_eq!(entry_texts(MenuEntry::Show).1, "显示主窗口");
    assert_eq!(entry_texts(MenuEntry::Separator), (String::new(), String::new()));
}
