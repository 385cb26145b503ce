use scrcpy_launcher::config::{
    save_first_run_config, save_global_settings, save_scrcpy_options, save_tray_settings,
    set_theme, AppConfig, Config, PresetConfig, ScrcpyOptions,
};
use scrcpy_launcher::presets::Presets;

fn size(long: u32, short: u32, dpi: u32, is_landscape: bool) -> PresetConfig {
    PresetConfig { long, short, dpi, is_landscape }
}

fn names_of(presets: &Presets) -> Vec<String> {
    let mut names: Vec<String> = presets.entries().into_iter().map(|(name, _)| name).collect();
    names.sort();
    names
}

#[test]
fn fresh_configuration_has_the_documented_defaults() {
    let config = Config::default();
    assert!(config.adb_history.is_empty());
    assert!(config.global_settings.use_full_res_switch);
    assert_eq!(config.global_settings.full_res, "1200x2670");
    assert_eq!(config.global_settings.dpi, 400);
    assert!(!config.global_settings.is_landscape);
    assert_eq!(config.global_settings.theme, "light");
    assert!(config.apps.is_empty());
    assert_eq!(config.presets.get("我的手机 (2670x1200)"), Some(size(2670, 1200, 400, false)));
    assert_eq!(config.presets.get("我的电脑 (2256x1504)"), Some(size(2256, 1504, 260, true)));
    assert_eq!(config.presets.entries().len(), 2);
    assert!(config.first_run);
    assert!(!config.use_custom_args);
    assert_eq!(config.custom_args, "-K --stay-awake");
    assert_eq!(config.scrcpy_options, ScrcpyOptions::default());
    assert!(config.use_app_stream_args);
    assert!(!config.use_app_custom_args);
    assert_eq!(config.app_custom_args, "-K --stay-awake --display-ime-policy=local");
    assert!(config.app_stream_options.local_ime);
    assert!(config.app_stream_options.hid_keyboard);
    assert_eq!(config.tray_app_count, 4);
    assert!(config.tray_show_mirror);
    assert!(config.tray_show_audio);
}

#[test]
fn presets_keep_one_size_under_each_name() {
    let mut presets = Presets::new();
    assert_eq!(presets.get("tablet"), None);
    presets.insert("tablet".to_string(), size(2000, 1200, 300, true));
    presets.insert("phone".to_string(), size(2400, 1080, 420, false));
    presets.insert("tablet".to_string(), size(2560, 1600, 320, true));
    assert_eq!(presets.get("tablet"), Some(size(2560, 1600, 320, true)));
    assert_eq!(presets.get("phone"), Some(size(2400, 1080, 420, false)));
    assert_eq!(names_of(&presets), vec!["phone".to_string(), "tablet".to_string()]);
}

#[test]
fn removed_preset_is_handed_back_once() {
    let mut presets = Presets::new();
    presets.insert("a".to_string(), size(1, 2, 3, false));
    presets.insert("b".to_string(), size(4, 5, 6, true));
    presets.insert("c".to_string(), size(7, 8, 9, false));
    assert_eq!(presets.remove("b"), Some(size(4, 5, 6, true)));
    assert_eq!(presets.remove("b"), None);
    assert_eq!(presets.get("a"), Some(size(1, 2, 3, false)));
    assert_eq!(presets.get("c"), Some(size(7, 8, 9, false)));
    assert_eq!(names_of(&presets), vec!["a".to_string(), "c".to_string()]);
}

#[test]
fn configuration_adds_updates_and_deletes_presets() {
    let mut config = Config::default();
    config.add_preset("tablet", 2000, 1200, 300, true);
    assert_eq!(config.presets.get("tablet"), Some(size(2000, 1200, 300, true)));
    assert_eq!(config.presets.entries().len(), 3);

    config.update_preset("tablet", "slate", 2560, 1600, 320, false);
    assert_eq!(config.presets.get("tablet"), None);
    assert_eq!(config.presets.get("slate"), Some(size(2560, 1600, 320, false)));
    assert_eq!(config.presets.entries().len(), 3);

    config.update_preset("missing", "slate", 1, 2, 3, true);
    assert_eq!(config.presets.get("slate"), Some(size(1, 2, 3, true)));
    assert_eq!(config.presets.entries().len(), 3);

    config.delete_preset("slate");
    assert_eq!(config.presets.get("slate"), None);
    config.delete_preset("slate");
    assert_eq!(config.presets.entries().len(), 2);
    assert!(config.first_run);
}

#[test]
fn configuration_history_keeps_the_newest_first() {
    let mut config = Config::default();
    config.add_adb_history("192.168.1.5");
    config.add_adb_history("192.168.1.6");
    config.add_adb_history("192.168.1.5");
    assert_eq!(config.adb_history, vec!["192.168.1.5".to_string(), "192.168.1.6".to_string()]);
    for n in 0..12 {
        config.add_adb_history(&format!("10.0.0.{}", n));
    }
    assert_eq!(config.adb_history.len(), 10);
    assert_eq!(config.adb_history[0], "10.0.0.11");
    assert_eq!(config.adb_history[9], "10.0.0.2");
}

#[test]
fn configuration_reorders_its_apps() {
    let mut config = Config::default();
    for package in ["com.a", "com.b", "com.c"] {
        let app = AppConfig { name: package.to_uppercase(), settings: None, scrcpy_args: None };
        config.apps.insert(package.to_string(), app);
    }
    config.reorder_apps(vec!["com.c".to_string(), "com.x".to_string(), "com.a".to_string()]);
    let order: Vec<String> = config.apps.keys().cloned().collect();
    assert_eq!(order, vec!["com.c".to_string(), "com.a".to_string(), "com.b".to_string()]);
    assert_eq!(config.apps["com.b"].name, "COM.B");
    assert_eq!(config.tray_app_count, 4);
}

#[test]
fn first_run_answers_set_sizes_and_resolution() {
    let mut config = Config::default();
    save_first_run_config(&mut config, 2400, 1080, 420, false, 1920, 1080, 96, true);
    assert_eq!(config.presets.get("我的手机 (2400x1080)"), Some(size(2400, 1080, 420, false)));
    assert_eq!(config.presets.get("我的电脑 (1920x1080)"), Some(size(1920, 1080, 96, true)));
    assert_eq!(config.presets.get("我的手机 (2670x1200)"), Some(size(2670, 1200, 400, false)));
    assert_eq!(config.presets.entries().len(), 4);
    assert_eq!(config.global_settings.full_res, "1080x2400");
    assert!(config.global_settings.use_full_res_switch);
    assert_eq!(config.global_settings.dpi, 400);
    assert!(!config.first_run);
}

#[test]
fn first_run_resolution_puts_the_smaller_side_first() {
    let mut config = Config::default();
    config.global_settings.use_full_res_switch = false;
    save_first_run_config(&mut config, 1080, 2400, 420, false, 2256, 1504, 260, true);
    assert_eq!(config.global_settings.full_res, "1080x2400");
    assert!(config.global_settings.use_full_res_switch);
    assert_eq!(config.presets.get("我的手机 (1080x2400)"), Some(size(1080, 2400, 420, false)));
    assert_eq!(config.presets.get("我的电脑 (2256x1504)"), Some(size(2256, 1504, 260, true)));
    assert_eq!(config.presets.entries().len(), 3);
}

#[test]
fn first_run_is_completed_once() {
    let mut config = Config::default();
    config.set_first_run_complete();
    assert!(!config.first_run);
    config.set_first_run_complete();
    assert!(!config.first_run);
    assert_eq!(config.custom_args, "-K --stay-awake");
}

#[test]
fn settings_are_replaced_field_by_field() {
    let mut config = Config::default();
    save_global_settings(&mut config, 320, "1600x2560".to_string());
    assert_eq!(config.global_settings.dpi, 320);
    assert_eq!(config.global_settings.full_res, "1600x2560");
    assert_eq!(config.global_settings.theme, "light");
    assert!(config.global_settings.use_full_res_switch);

    set_theme(&mut config, "dark".to_string());
    assert_eq!(config.global_settings.theme, "dark");
    assert_eq!(config.global_settings.dpi, 320);

    save_tray_settings(&mut config, 7, false, true);
    assert_eq!(config.tray_app_count, 7);
    assert!(!config.tray_show_mirror);
    assert!(config.tray_show_audio);

    let mut options = ScrcpyOptions::default();
    options.max_fps = 60;
    let mut app_options = ScrcpyOptions::default();
    app_options.borderless = true;
    save_scrcpy_options(
        &mut config,
        true,
        "--no-audio".to_string(),
        options,
        false,
        true,
        "--new-display".to_string(),
        app_options,
    );
    assert!(config.use_custom_args);
    assert_eq!(config.custom_args, "--no-audio");
    assert_eq!(config.scrcpy_options.max_fps, 60);
    assert!(!config.use_app_stream_args);
    assert!(config.use_app_custom_args);
    assert_eq!(config.app_custom_args, "--new-display");
    assert!(config.app_stream_options.borderless);
    assert!(!config.app_stream_options.local_ime);
    assert_eq!(config.tray_app_count, 7);
    assert!(config.first_run);
}
