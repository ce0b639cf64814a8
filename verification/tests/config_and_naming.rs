use bite_screenshot::capture::CaptureKind;
use bite_screenshot::config::{
    default_app_name_pattern, default_filename_pattern, default_fullscreen_hotkey,
    default_output_dir, default_region_hotkey, default_true, default_window_hotkey,
    expand_path_placeholders, Config, HotkeyConfig, KnownFolders,
};
use bite_screenshot::text::trim_str;
use bite_screenshot::winpath::{join_path_exec, same_windows_path_exec};
use bite_screenshot::naming::{
    build_file_name, build_file_name_at, local_time_from_reading, now_local, MAX_CLOCK_SECONDS, file_pattern, file_pattern_is_valid, finish_file_name,
    replace_app_name_placeholders, replace_app_placeholders,
    replace_mode_placeholders, sanitize, LocalTimestamp,
};

fn default_config() -> Config {
    Config::default("C:\\Users\\me\\Pictures\\Screenshots".to_string())
}

fn no_folders() -> KnownFolders {
    KnownFolders {
        desktop: None,
        documents: None,
        downloads: None,
        music: None,
        pictures: None,
        videos: None,
    }
}

fn noon() -> LocalTimestamp {
    LocalTimestamp {
        year: 2024,
        month: 1,
        day: 2,
        hour: 3,
        minute: 4,
        second: 5,
        nanosecond: 0,
        utc_offset_seconds: 8 * 3600,
    }
}

#[test]
fn capture_kind_labels() {
    assert_eq!(CaptureKind::FullScreen.label(), "fullscreen");
    assert_eq!(CaptureKind::CurrentWindow.label(), "app");
    assert_eq!(CaptureKind::SquareRegion.label(), "region");
    assert_eq!(CaptureKind::FullScreen.notification_label(), "全屏");
    assert_eq!(CaptureKind::CurrentWindow.notification_label(), "应用");
    assert_eq!(CaptureKind::SquareRegion.notification_label(), "区域");
}

#[test]
fn default_values() {
    assert_eq!(default_filename_pattern(), "%Y-%m-%d_%H-%M-%S_{Mode}{App}.png");
    assert_eq!(default_app_name_pattern(), "_{AppName}");
    assert_eq!(default_fullscreen_hotkey(), "Ctrl+Alt+1");
    assert_eq!(default_window_hotkey(), "Ctrl+Alt+2");
    assert_eq!(default_region_hotkey(), "Ctrl+Alt+3");
    assert!(default_true());
    let h = HotkeyConfig::default();
    assert_eq!(h.fullscreen, "Ctrl+Alt+1");
    assert_eq!(h.current_window, "Ctrl+Alt+2");
    assert_eq!(h.square_region, "Ctrl+Alt+3");
}

#[test]
fn default_config_settings() {
    let c = default_config();
    assert_eq!(c.output_dir, "C:\\Users\\me\\Pictures\\Screenshots");
    assert!(c.show_notification);
    assert!(!c.auto_open_for(false));
    assert!(!c.auto_open_for(true));
    assert_eq!(c.open_command_for(false), None);
    assert_eq!(c.open_command_for(true), None);
}

#[test]
fn specific_settings_override_general_ones() {
    let mut c = default_config();
    c.auto_open = true;
    c.auto_open_hdr = Some(false);
    assert!(c.auto_open_for(false));
    assert!(!c.auto_open_for(true));
    c.open_command = Some("viewer.exe".to_string());
    c.open_command_hdr = Some("hdr-viewer.exe".to_string());
    assert_eq!(c.open_command_for(false), Some("viewer.exe"));
    assert_eq!(c.open_command_for(true), Some("hdr-viewer.exe"));
    c.open_command = None;
    assert_eq!(c.open_command_for(false), None);
    c.open_command_sdr = Some("mspaint.exe".to_string());
    assert_eq!(c.open_command_for(false), Some("mspaint.exe"));
}

#[test]
fn default_output_folder() {
    assert_eq!(
        default_output_dir(Some("C:\\Users\\me\\Pictures".to_string()), Some("C:\\Users\\me".to_string())),
        "C:\\Users\\me\\Pictures\\Screenshots"
    );
    assert_eq!(
        default_output_dir(None, Some("C:\\Users\\me".to_string())),
        "C:\\Users\\me\\Pictures\\Screenshots"
    );
    assert_eq!(default_output_dir(None, None), ".\\Pictures\\Screenshots");
    assert_eq!(default_output_dir(Some("D:\\".to_string()), None), "D:\\Screenshots");
}

#[test]
fn example_text_of_default_settings() {
    let c = default_config();
    let text = c.example_text("C:\\Users\\me\\Pictures\\Screenshots");
    let expected = "output_dir = '{Pictures}\\Screenshots'\nfilename_pattern = \"%Y-%m-%d_%H-%M-%S_{Mode}{App}.png\"\napp_name_pattern = \"_{AppName}\"\nshow_notification = true\nauto_open_sdr = false\nauto_open_hdr = false\n# open_command_sdr = \"mspaint.exe\"\n# open_command_hdr = \"hdr-viewer.exe\"\n\n[hotkeys]\nfullscreen = \"Ctrl+Alt+1\"\ncurrent_window = \"Ctrl+Alt+2\"\nsquare_region = \"Ctrl+Alt+3\"\n";
    assert_eq!(text, expected);
}

#[test]
fn example_text_of_other_folder() {
    let mut c = default_config();
    c.output_dir = "D:/shots/new".to_string();
    c.auto_open = true;
    c.auto_open_hdr = Some(false);
    let text = c.example_text("C:\\Users\\me\\Pictures\\Screenshots");
    assert!(text.starts_with("output_dir = 'D:\\shots\\new'\n"));
    assert!(text.contains("auto_open_sdr = true\nauto_open_hdr = false\n"));
}

#[test]
fn placeholders_expand_to_known_folders() {
    let mut folders = no_folders();
    folders.pictures = Some("C:\\Users\\me\\Pictures".to_string());
    assert_eq!(
        expand_path_placeholders("{Pictures}\\Screenshots", &folders),
        "C:\\Users\\me\\Pictures\\Screenshots"
    );
    assert_eq!(
        expand_path_placeholders("{Videos}\\Screenshots", &folders),
        "{Videos}\\Screenshots"
    );
    folders.desktop = Some("C:\\Desk".to_string());
    assert_eq!(
        expand_path_placeholders("{Desktop}\\a\\{Pictures}\\{Desktop}", &folders),
        "C:\\Desk\\a\\C:\\Users\\me\\Pictures\\C:\\Desk"
    );
    let mut c = default_config();
    c.output_dir = "{Desktop}\\shots".to_string();
    c.expand_placeholders(&folders);
    assert_eq!(c.output_dir, "C:\\Desk\\shots");
}

#[test]
fn plain_output_folder_is_kept() {
    let mut folders = no_folders();
    folders.documents = Some("C:\\Docs".to_string());
    assert_eq!(expand_path_placeholders("D:\\shots\\{Other}", &folders), "D:\\shots\\{Other}");
}

#[test]
fn sanitize_application_names() {
    assert_eq!(sanitize("notepad"), "notepad");
    assert_eq!(sanitize("  a<b>:c\"d/e\\f|g?h*  "), "a_b__c_d_e_f_g_h_");
    assert_eq!(sanitize("\u{7}tab\tname\u{9f}"), "_tab_name_");
    assert_eq!(sanitize("   "), "");
    assert_eq!(sanitize("\u{3000}记事本\u{2003}"), "记事本");
}

#[test]
fn sanitize_is_idempotent_on_examples() {
    for name in ["  a<b> ", "x\u{1}y", " \u{a0}ok\u{a0} ", "C:\\path"] {
        let once = sanitize(name);
        assert_eq!(sanitize(&once), once);
    }
}

#[test]
fn placeholder_replacement() {
    assert_eq!(replace_mode_placeholders("{Mode}-{Mode}", "app"), "app-app");
    assert_eq!(replace_app_placeholders("x{App}y", "_n"), "x_ny");
    assert_eq!(replace_app_name_placeholders("_{AppName}", "code"), "_code");
    assert_eq!(replace_mode_placeholders("{Mod}", "app"), "{Mod}");
    assert_eq!(replace_mode_placeholders("{{Mode}Mode}", "x"), "{xMode}");
}

#[test]
fn file_patterns() {
    let c = default_config();
    assert_eq!(
        file_pattern(&c, CaptureKind::CurrentWindow, Some("note:pad")),
        "%Y-%m-%d_%H-%M-%S_app_note_pad.png"
    );
    assert_eq!(
        file_pattern(&c, CaptureKind::FullScreen, Some("notepad")),
        "%Y-%m-%d_%H-%M-%S_fullscreen.png"
    );
    assert_eq!(
        file_pattern(&c, CaptureKind::CurrentWindow, Some("")),
        "%Y-%m-%d_%H-%M-%S_app.png"
    );
    assert_eq!(
        file_pattern(&c, CaptureKind::SquareRegion, None),
        "%Y-%m-%d_%H-%M-%S_region.png"
    );
}

#[test]
fn extension_is_swapped() {
    assert_eq!(finish_file_name("2024-01-02_app.png", ".avif"), "2024-01-02_app.avif");
    assert_eq!(finish_file_name("a.b.c", ".png"), "a.b.png");
    assert_eq!(finish_file_name("noext", ".png"), "noext.png");
}

#[test]
fn file_name_at_fixed_time() {
    let c = default_config();
    let t = noon();
    assert!(file_pattern_is_valid(&c, CaptureKind::CurrentWindow, Some("notepad")));
    assert_eq!(
        build_file_name_at(&c, CaptureKind::CurrentWindow, Some("notepad"), ".png", &t),
        "2024-01-02_03-04-05_app_notepad.png"
    );
    assert_eq!(
        build_file_name_at(&c, CaptureKind::FullScreen, None, ".avif", &t),
        "2024-01-02_03-04-05_fullscreen.avif"
    );
    let mut c2 = default_config();
    c2.filename_pattern = "%Y%m%d %z {Mode}".to_string();
    assert_eq!(
        build_file_name_at(&c2, CaptureKind::SquareRegion, None, ".png", &t),
        "20240102 +0800 region.png"
    );
}

#[test]
fn file_name_now_ends_with_extension() {
    let c = default_config();
    let name = build_file_name(&c, CaptureKind::SquareRegion, None, ".png").unwrap();
    assert!(name.ends_with("_region.png"));
    assert_eq!(name.len(), "2024-01-02_03-04-05_region.png".len());
}

#[test]
fn invalid_pattern_gives_no_name() {
    let mut c = default_config();
    c.filename_pattern = "%Q{Mode}".to_string();
    assert!(!file_pattern_is_valid(&c, CaptureKind::FullScreen, None));
    let error = build_file_name(&c, CaptureKind::FullScreen, None, ".png").unwrap_err();
    assert_eq!(error.message(), "文件名格式无效");
}

#[test]
fn default_folder_round_trip() {
    let pictures = "C:\\Users\\me\\Pictures".to_string();
    let dir = default_output_dir(Some(pictures.clone()), None);
    let c = Config::default(dir.clone());
    let text = c.example_text(&dir);
    assert!(text.starts_with("output_dir = '{Pictures}\\Screenshots'\n"));
    let mut folders = no_folders();
    folders.pictures = Some(pictures);
    assert_eq!(expand_path_placeholders("{Pictures}\\Screenshots", &folders), dir);
}

#[test]
fn app_name_only_matters_for_window_captures() {
    let c = default_config();
    for kind in [CaptureKind::FullScreen, CaptureKind::SquareRegion] {
        assert_eq!(file_pattern(&c, kind, Some("a")), file_pattern(&c, kind, None));
    }
    assert_ne!(
        file_pattern(&c, CaptureKind::CurrentWindow, Some("a")),
        file_pattern(&c, CaptureKind::CurrentWindow, None)
    );
}

#[test]
fn trimming_twice_is_trimming_once() {
    for s in ["  a b  ", "\u{2028}x\u{3000}", "", "   "] {
        let once = trim_str(s);
        assert_eq!(trim_str(&once), once);
        assert_eq!(once, s.trim());
    }
}

#[test]
fn example_text_compares_folders_as_paths() {
    let default_dir = "C:\\Users\\me\\Pictures\\Screenshots";
    for spelling in [
        "C:/Users/me/Pictures/Screenshots",
        "c:\\Users\\me\\Pictures\\Screenshots\\",
        "C:\\Users\\\\me\\.\\Pictures\\Screenshots",
    ] {
        let c = Config::default(spelling.to_string());
        assert!(c.example_text(default_dir).starts_with("output_dir = '{Pictures}\\Screenshots'\n"));
    }
    let c = Config::default("C:/Users/me/Pictures/Other".to_string());
    assert!(c.example_text(default_dir).starts_with("output_dir = 'C:\\Users\\me\\Pictures\\Other'\n"));
}

#[test]
fn windows_path_equality() {
    assert!(same_windows_path_exec("C:/a", "C:\\a"));
    assert!(same_windows_path_exec("C:\\a\\", "c:\\a"));
    assert!(same_windows_path_exec("a//b/./c", "a\\b\\c"));
    assert!(same_windows_path_exec("./a", ".\\a"));
    assert!(!same_windows_path_exec("./a", "a"));
    assert!(!same_windows_path_exec("C:a", "C:\\a"));
    assert!(!same_windows_path_exec("C:\\a", "D:\\a"));
    assert!(!same_windows_path_exec("C:\\a", "C:\\A"));
    assert!(!same_windows_path_exec("\\a", "a"));
    assert!(!same_windows_path_exec("a\\b", "a\\b\\c"));
}

#[test]
fn joining_paths_as_windows_does() {
    assert_eq!(join_path_exec("D:\\shots", "a.png"), "D:\\shots\\a.png");
    assert_eq!(join_path_exec("D:\\shots\\", "a.png"), "D:\\shots\\a.png");
    assert_eq!(join_path_exec("D:/shots/", "a.png"), "D:/shots/a.png");
    assert_eq!(join_path_exec("D:", "a.png"), "D:a.png");
    assert_eq!(join_path_exec("", "a.png"), "a.png");
    assert_eq!(join_path_exec("D:\\shots", "E:\\x\\a.png"), "E:\\x\\a.png");
    assert_eq!(join_path_exec("D:\\shots", "E:a.png"), "E:a.png");
    assert_eq!(join_path_exec("D:\\shots", "\\x\\a.png"), "D:\\x\\a.png");
    assert_eq!(join_path_exec("shots", "/x/a.png"), "/x/a.png");
}

#[test]
fn clock_reads_a_valid_local_time() {
    let t = now_local().unwrap();
    assert!(t.year >= 1969);
    assert!((1..=12).contains(&t.month));
    assert!(t.day >= 1 && t.day <= 31);
    assert!(t.hour < 24 && t.minute < 60 && t.second < 60);
    assert!(t.utc_offset_seconds.abs() < 86_400);
}

#[test]
fn file_name_with_a_drive_replaces_the_folder() {
    let mut c = Config::default("D:\\shots".to_string());
    c.filename_pattern = "E:\\other\\%Y.png".to_string();
    let image = bite_screenshot::capture::CapturedImage::SdrRgba8 { width: 0, height: 0, pixels: vec![] };
    let path = bite_screenshot::capture::capture_path(&c, &image, CaptureKind::FullScreen, None).unwrap();
    assert!(path.starts_with("E:\\other\\"));
    assert!(path.ends_with(".png"));
}

#[test]
fn joining_to_unc_device_and_verbatim_folders() {
    assert_eq!(join_path_exec("\\\\server\\share", "\\x.png"), "\\\\server\\share\\x.png");
    assert_eq!(join_path_exec("\\\\server\\share\\a", "x.png"), "\\\\server\\share\\a\\x.png");
    assert_eq!(join_path_exec("\\\\server\\share\\a", "\\x.png"), "\\\\server\\share\\x.png");
    assert_eq!(join_path_exec("\\\\.\\pipe\\a", "\\b"), "\\\\.\\pipe\\b");
    assert_eq!(join_path_exec("D:\\shots", "\\\\srv\\sh\\x.png"), "\\\\srv\\sh\\x.png");
    assert_eq!(join_path_exec("\\\\?\\C:\\a", "b\\.\\..\\c.png"), "\\\\?\\C:\\a\\c.png");
    assert_eq!(join_path_exec("\\\\?\\C:\\a\\", "b.png"), "\\\\?\\C:\\a\\b.png");
    assert_eq!(join_path_exec("\\\\?\\C:\\a", "\\x.png"), "\\\\?\\C:\\x.png");
    assert_eq!(join_path_exec("\\\\?\\C:\\a", "../../x.png"), "\\\\?\\C:\\x.png");
    assert_eq!(join_path_exec("\\\\?\\C:\\a", ""), "\\\\?\\C:\\a\\");
    assert_eq!(join_path_exec("\\\\?\\UNC\\srv\\sh\\a", "b"), "\\\\?\\UNC\\srv\\sh\\a\\b");
}

#[test]
fn prefixed_path_equality() {
    assert!(same_windows_path_exec("\\\\server\\share", "//server/share/"));
    assert!(same_windows_path_exec("\\\\server\\share\\a", "\\\\server\\share\\\\a\\"));
    assert!(!same_windows_path_exec("\\\\server\\share", "\\\\server\\Share"));
    assert!(!same_windows_path_exec("\\\\?\\C:\\a", "C:\\a"));
    assert!(same_windows_path_exec("\\\\?\\c:\\a", "\\\\?\\C:\\a"));
    assert!(!same_windows_path_exec("\\\\?\\C:\\a\\.\\b", "\\\\?\\C:\\a\\b"));
    assert!(!same_windows_path_exec("\\\\?\\C:\\a/b", "\\\\?\\C:\\a\\b"));
    assert!(same_windows_path_exec("C:.\\a", "C:a"));
    assert!(!same_windows_path_exec("\\\\.\\pipe\\x", "\\\\.\\pipe\\y"));
}

#[test]
fn clock_readings_to_local_time() {
    assert!(local_time_from_reading(None).is_none());
    assert!(local_time_from_reading(Some((0, 0))).is_some());
    assert!(local_time_from_reading(Some((1_700_000_000, 999_999_999))).is_some());
    assert!(local_time_from_reading(Some((MAX_CLOCK_SECONDS, 0))).is_some());
    assert!(local_time_from_reading(Some((MAX_CLOCK_SECONDS + 1, 0))).is_none());
    assert!(local_time_from_reading(Some((0, 1_000_000_000))).is_none());
}

#[test]
fn patterns_chrono_cannot_format_are_refused() {
    let mut c = default_config();
    for pattern in ["%#z_{Mode}.png", "%Q", "%", "%:x"] {
        c.filename_pattern = pattern.to_string();
        assert!(!file_pattern_is_valid(&c, CaptureKind::FullScreen, None));
        let error = build_file_name(&c, CaptureKind::FullScreen, None, ".png").unwrap_err();
        assert_eq!(error.message(), "文件名格式无效");
    }
    for pattern in ["%z %:z %::z %Z %+ %s %.3f %c", "%Y%m%d"] {
        c.filename_pattern = pattern.to_string();
        assert!(file_pattern_is_valid(&c, CaptureKind::FullScreen, None));
        assert!(build_file_name(&c, CaptureKind::FullScreen, None, ".png").is_ok());
    }
}
