use tacklecast::devices::AudioDevice;
use tacklecast::logger::{
    default_log_directives, is_log_file_name, log_file_name, logs_to_prune, logs_to_remove,
};
use tacklecast::settings::{ScaleFilter, Settings};
use tacklecast::text::{decimal_string, str_eq};
use tacklecast::ui::{
    audio_device_name, audio_status_tone, display_or_default, fps_mode_label, fps_mode_warning,
    fullscreen_label, overlay_text, resolution_options, spaced_caps, step_custom_fps,
    video_device_options, OverlayInfo, StatusTone, UiOutput, UiState,
};

#[test]
fn menu_open_close_hands_back_the_draft() {
    let mut ui = UiState::new();
    assert!(!ui.is_menu_open());
    assert!(ui.close_menu_and_apply().is_none());
    let mut settings = Settings::default();
    settings.video_device = "Cam Link".to_string();
    ui.open_menu(&settings);
    assert!(ui.is_menu_open());
    ui.draft_mut().custom_fps = 99;
    let applied = ui.close_menu_and_apply().unwrap();
    assert_eq!(applied.video_device, "Cam Link");
    assert_eq!(applied.custom_fps, 99);
    assert!(!ui.is_menu_open());
    assert!(ui.close_menu_and_apply().is_none());
}

#[test]
fn frames_sync_draft_and_apply_closes() {
    let mut ui = UiState::new();
    let mut settings = Settings::default();
    settings.resolution = "4K".to_string();
    ui.begin_frame(&settings);
    assert_eq!(ui.draft_mut().resolution, "4K");
    ui.open_menu(&settings);
    let mut other = Settings::default();
    other.resolution = "720p".to_string();
    ui.begin_frame(&other);
    assert_eq!(ui.draft_mut().resolution, "4K");
    ui.end_frame(&UiOutput::none());
    assert!(ui.is_menu_open());
    let mut out = UiOutput::none();
    out.apply_settings = Some(other);
    ui.end_frame(&out);
    assert!(!ui.is_menu_open());
}

fn overlay() -> OverlayInfo {
    OverlayInfo {
        width: Some(1920),
        height: Some(1080),
        fps_text: Some(format!("{:.1}", 59.94f32)),
        filter: ScaleFilter::Lanczos,
        show_overlay: true,
        detailed: false,
        status_message: None,
        status_is_alert: false,
    }
}

#[test]
fn overlay_texts() {
    assert_eq!(overlay_text(&overlay()), Some("1920x1080 | 59.9 FPS".to_string()));
    let mut o = overlay();
    o.detailed = true;
    assert_eq!(overlay_text(&o), Some("1920x1080\nLanczos\n59.9 FPS".to_string()));
    o.fps_text = None;
    assert_eq!(overlay_text(&o), Some("Waiting For Video...".to_string()));
    o.show_overlay = false;
    assert_eq!(overlay_text(&o), None);
    o.status_message = Some("Capture failed".to_string());
    assert_eq!(overlay_text(&o), Some("Capture failed".to_string()));
}

#[test]
fn device_option_lists() {
    let devices = vec!["A".to_string(), "B".to_string()];
    assert_eq!(video_device_options(&devices, "B"), vec!["A", "B"]);
    assert_eq!(video_device_options(&devices, "C"), vec!["A", "B", "C"]);
    assert_eq!(video_device_options(&[], ""), vec![""]);
    assert_eq!(display_or_default(""), "No Devices Found");
    assert_eq!(display_or_default("A"), "A");
    let audio = vec![AudioDevice { index: 3, name: "USB".to_string() }];
    assert_eq!(audio_device_name(-1, &audio), "Default");
    assert_eq!(audio_device_name(3, &audio), "USB");
    assert_eq!(audio_device_name(12, &audio), "Saved Device #12");
}

#[test]
fn menu_texts() {
    assert_eq!(spaced_caps("video"), "V I D E O");
    assert_eq!(spaced_caps(""), "");
    assert_eq!(fps_mode_label("30"), "30 FPS");
    assert_eq!(fps_mode_label("120"), "120 FPS");
    assert_eq!(fps_mode_label("custom"), "Custom");
    assert_eq!(fps_mode_label("anything"), "60 FPS");
    assert!(fps_mode_warning("custom").unwrap().starts_with("Custom FPS is experimental"));
    assert!(fps_mode_warning("120").unwrap().starts_with("A fast CPU"));
    assert_eq!(fps_mode_warning("60"), None);
    assert_eq!(fullscreen_label(true), "Exit Fullscreen");
    assert_eq!(fullscreen_label(false), "Enter Fullscreen");
    assert_eq!(audio_status_tone("Connected"), StatusTone::Good);
    assert_eq!(audio_status_tone("Stopped"), StatusTone::Idle);
    assert_eq!(audio_status_tone("Error: x"), StatusTone::Alert);
    assert_eq!(resolution_options(), ["720p", "1080p", "1440p", "4K"]);
}

#[test]
fn custom_fps_steps_stay_in_range() {
    assert_eq!(step_custom_fps(30, false), 30);
    assert_eq!(step_custom_fps(31, false), 30);
    assert_eq!(step_custom_fps(100, false), 99);
    assert_eq!(step_custom_fps(100, true), 101);
    assert_eq!(step_custom_fps(240, true), 240);
    assert_eq!(step_custom_fps(u32::MAX, true), 240);
    assert_eq!(step_custom_fps(0, false), 30);
}

#[test]
fn log_file_rules() {
    assert!(is_log_file_name("tacklecast_20240101_120000.log"));
    assert!(!is_log_file_name("tacklecast_20240101_120000.txt"));
    assert!(!is_log_file_name("other.log"));
    assert_eq!(log_file_name("20240101_120000"), "tacklecast_20240101_120000.log");
    assert!(is_log_file_name(&log_file_name("x")));
    assert_eq!(logs_to_prune(7), 2);
    assert_eq!(logs_to_prune(3), 0);
    assert_eq!(default_log_directives()[0], "tacklecast=info");
}

#[test]
fn pruning_removes_the_oldest_logs() {
    let times = [Some(50), None, Some(10), Some(70), Some(10), Some(90), Some(20)];
    // sorted: #1 (unknown), #2 (10), #4 (10), #6 (20), #0, #3, #5
    assert_eq!(logs_to_remove(&times), vec![false, true, true, false, false, false, false]);
    assert_eq!(logs_to_remove(&[Some(1), Some(2)]), vec![false, false]);
    assert!(logs_to_remove(&[]).is_empty());
}

#[test]
fn decimal_and_equality_helpers() {
    assert_eq!(decimal_string(0), "0");
    assert_eq!(decimal_string(1234567890), "1234567890");
    assert_eq!(decimal_string(u64::MAX), u64::MAX.to_string());
    assert!(str_eq("abc", "abc"));
    assert!(!str_eq("abc", "abd"));
}
