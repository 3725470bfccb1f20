use tacklecast::devices::{
    collect_audio_devices, find_audio_input_for_video, keywords_for_device_name,
    v4l2_device_label, AudioDevice, HostDevice,
};

#[test]
fn auto_detect_matches_keyword_overlap() {
    let inputs = vec![
        AudioDevice {
            index: 2,
            name: "Microphone (USB Audio Device)".to_string(),
        },
        AudioDevice {
            index: 7,
            name: "ShadowCast Capture Audio".to_string(),
        },
    ];

    assert_eq!(
        find_audio_input_for_video("ShadowCast Capture", &inputs),
        Some(7)
    );
}

#[test]
fn keywords_lowercase_split_and_filter() {
    assert_eq!(
        keywords_for_device_name("Elgato HD60-Pro the  Capture\tCard"),
        vec!["elgato", "hd60", "capture", "card"]
    );
    assert!(keywords_for_device_name("").is_empty());
    assert!(keywords_for_device_name("TV 4K").is_empty());
    // byte length: two non-ASCII characters take four bytes
    assert_eq!(keywords_for_device_name("éé"), vec!["éé"]);
}

#[test]
fn no_keywords_or_no_overlap_finds_nothing() {
    let inputs = vec![AudioDevice { index: 1, name: "Speakers".to_string() }];
    assert_eq!(find_audio_input_for_video("TV", &inputs), None);
    assert_eq!(find_audio_input_for_video("Capture Card", &inputs), None);
    assert_eq!(find_audio_input_for_video("Capture Card", &[]), None);
}

#[test]
fn first_best_device_wins() {
    let inputs = vec![
        AudioDevice { index: 4, name: "capture card one".to_string() },
        AudioDevice { index: 5, name: "CAPTURE CARD two".to_string() },
    ];
    assert_eq!(find_audio_input_for_video("Capture Card", &inputs), Some(4));
}

#[test]
fn v4l2_labels() {
    assert_eq!(
        v4l2_device_label("  USB Video\n", "video0"),
        Some("USB Video (/dev/video0)".to_string())
    );
    assert_eq!(v4l2_device_label(" \n", "video1"), None);
}

#[test]
fn collects_usable_audio_devices_with_host_positions() {
    let host = vec![
        HostDevice { name: Some("A".to_string()), supported: true },
        HostDevice { name: None, supported: true },
        HostDevice { name: Some("C".to_string()), supported: false },
        HostDevice { name: Some("D".to_string()), supported: true },
    ];
    let devices = collect_audio_devices(&host);
    let pairs: Vec<(i32, String)> = devices.into_iter().map(|d| (d.index, d.name)).collect();
    assert_eq!(pairs, vec![(0, "A".to_string()), (3, "D".to_string())]);
}
