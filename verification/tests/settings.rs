use tacklecast::settings::{
    default_audio_index, default_custom_fps, default_fps_mode, default_resolution,
    default_scaling_filter, default_show_overlay, default_volume_bits, get_capture_config,
    ScaleFilter, Settings, FPS_MODE_CUSTOM,
};

#[test]
fn capture_config_matches_python_logic() {
    let nv12 = get_capture_config("1080p", 60);
    assert_eq!(nv12.pixel_format, "nv12");
    assert_eq!(nv12.decode_threads, 1);

    let mjpeg = get_capture_config("1440p", 120);
    assert_eq!(mjpeg.width, 2560);
    assert_eq!(mjpeg.height, 1440);
    assert_eq!(mjpeg.pixel_format, "mjpeg");
    assert_eq!(mjpeg.decode_threads, 4);
}

#[test]
fn capture_config_presets() {
    let c = get_capture_config("720p", 30);
    assert_eq!((c.width, c.height, c.fps), (1280, 720, 30));
    let c = get_capture_config("4K", 61);
    assert_eq!((c.width, c.height, c.pixel_format), (3840, 2160, "mjpeg"));
    let c = get_capture_config("unknown", 60);
    assert_eq!((c.width, c.height), (1920, 1080));
}

#[test]
fn default_settings() {
    let s = Settings::default();
    assert_eq!(s.video_device, "");
    assert_eq!(s.scaling_filter, ScaleFilter::Bilinear);
    assert_eq!((s.audio_input, s.audio_output), (-1, -1));
    assert_eq!(s.resolution, "1080p");
    assert_eq!(s.fps_mode, "60");
    assert_eq!(s.custom_fps, 120);
    assert_eq!(f64::from_bits(s.volume_bits), 1.0);
    assert!(!s.audio_muted && s.show_overlay && !s.detailed_overlay);
    assert_eq!(s.get_fps(), 60);
    assert_eq!(default_audio_index(), -1);
    assert_eq!(default_scaling_filter(), ScaleFilter::Bilinear);
    assert_eq!(default_resolution(), "1080p");
    assert_eq!(default_fps_mode(), "60");
    assert_eq!(default_custom_fps(), 120);
    assert_eq!(f64::from_bits(default_volume_bits()), 1.0);
    assert!(default_show_overlay());
}

#[test]
fn get_fps_modes_and_custom_clamp() {
    let mut s = Settings::default();
    s.fps_mode = "30".to_string();
    assert_eq!(s.get_fps(), 30);
    s.fps_mode = "120".to_string();
    assert_eq!(s.get_fps(), 120);
    s.fps_mode = FPS_MODE_CUSTOM.to_string();
    s.custom_fps = 500;
    assert_eq!(s.get_fps(), 240);
    s.custom_fps = 5;
    assert_eq!(s.get_fps(), 30);
    s.custom_fps = 75;
    assert_eq!(s.get_fps(), 75);
}

#[test]
fn apply_negotiated_round_trips() {
    let mut s = Settings::default();
    s.apply_negotiated(1280, 720, 30);
    assert_eq!((s.resolution.as_str(), s.fps_mode.as_str()), ("720p", "30"));
    assert_eq!(s.get_fps(), 30);
    let c = get_capture_config(&s.resolution, s.get_fps());
    assert_eq!((c.width, c.height), (1280, 720));
    s.apply_negotiated(800, 600, 45);
    assert_eq!((s.resolution.as_str(), s.fps_mode.as_str(), s.custom_fps), ("1080p", "custom", 45));
    assert_eq!(s.get_fps(), 45);
    s.apply_negotiated(3840, 2160, 120);
    assert_eq!((s.resolution.as_str(), s.fps_mode.as_str(), s.custom_fps), ("4K", "120", 45));
}

#[test]
fn scale_filter_codes_and_labels() {
    let all = ScaleFilter::all();
    assert_eq!(all, [ScaleFilter::Bilinear, ScaleFilter::Bicubic, ScaleFilter::Lanczos]);
    let codes: Vec<u32> = all.iter().map(|f| f.as_u32()).collect();
    assert_eq!(codes, vec![0, 1, 2]);
    let labels: Vec<&str> = all.iter().map(|f| f.label()).collect();
    assert_eq!(labels, vec!["Bilinear", "Bicubic", "Lanczos"]);
    let s = Settings::default();
    let c = s.clone();
    assert_eq!(c.resolution, s.resolution);
}
