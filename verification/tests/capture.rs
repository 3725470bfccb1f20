use tacklecast::capture::{
    blank_test_frame, capture_input_options, conversion_target, copy_plane, extract_supported_frame_with_format,
    names_mjpeg, pixel_format_attempts, resolution_fallback_tiers, should_log_packet_error,
    test_pattern_format, v4l2_node_from_name, is_readable_v4l2_label, ArrivalStats, CaptureBackend, CaptureFrame,
    CapturePlan, NegotiatedConfig, PixelFormat, PlaneData,
};
use tacklecast::dx12_interop::{plane_sizes, SharedBufferLayout};
use tacklecast::gpu_monitor::{GpuSnapshot, NvmlUtilization};

#[test]
fn pixel_format_attempts_include_fallbacks_without_duplicates() {
    let attempts = pixel_format_attempts("nv12");
    let labels: Vec<_> = attempts
        .iter()
        .map(|s| s.as_deref().unwrap_or("auto"))
        .collect();
    assert!(labels.contains(&"nv12"));
    assert!(labels.contains(&"mjpeg"));
    assert!(labels.contains(&"auto"));
    let nv12_count = labels.iter().filter(|v| **v == "nv12").count();
    assert_eq!(nv12_count, 1);
}

#[test]
fn pixel_format_attempts_order() {
    let attempts = pixel_format_attempts("yuyv422");
    let labels: Vec<_> = attempts.iter().map(|s| s.as_deref().unwrap_or("auto")).collect();
    assert_eq!(labels, vec!["yuyv422", "mjpeg", "nv12", "uyvy422", "yuv420p", "auto"]);
}

#[test]
fn fallback_tiers_for_1440p120() {
    assert_eq!(
        resolution_fallback_tiers(2560, 1440, 120),
        vec![
            (2560, 1440, 120),
            (2560, 1440, 60),
            (2560, 1440, 30),
            (1920, 1080, 60),
            (1920, 1080, 30),
            (1280, 720, 60),
            (1280, 720, 30),
            (640, 480, 60),
            (640, 480, 30),
        ]
    );
}

#[test]
fn fallback_tiers_skip_duplicates_and_larger_sizes() {
    assert_eq!(
        resolution_fallback_tiers(1280, 720, 60),
        vec![(1280, 720, 60), (1280, 720, 30), (640, 480, 60), (640, 480, 30)]
    );
    assert_eq!(resolution_fallback_tiers(640, 480, 30), vec![(640, 480, 30)]);
}

#[test]
fn capture_plan_walks_tiers_then_formats() {
    let mut plan = CapturePlan::new(1280, 720, 60, "nv12");
    let mut seen = Vec::new();
    while let Some(a) = plan.next_attempt() {
        seen.push((a.width, a.height, a.fps, a.pixel_format.unwrap_or_else(|| "auto".to_string())));
    }
    assert_eq!(seen.len(), 4 * 6);
    assert_eq!(seen[0], (1280, 720, 60, "nv12".to_string()));
    assert_eq!(seen[5], (1280, 720, 60, "auto".to_string()));
    assert_eq!(seen[6], (1280, 720, 30, "nv12".to_string()));
    assert_eq!(seen[23], (640, 480, 30, "auto".to_string()));
    assert!(plan.next_attempt().is_none());
}

#[test]
fn capture_plan_reports_fallback_and_errors() {
    let mut plan = CapturePlan::new(1920, 1080, 60, "mjpeg");
    assert_eq!(plan.failure_message("Cam"), "all capture attempts failed for 'Cam'");
    let first = plan.next_attempt().unwrap();
    assert_eq!(plan.negotiated(&first), None);
    plan.record_failure("busy".to_string());
    assert_eq!(plan.failure_message("Cam"), "busy");
    let mut later = plan.next_attempt().unwrap();
    while later.fps == 60 {
        later = plan.next_attempt().unwrap();
    }
    assert_eq!(
        plan.negotiated(&later),
        Some(NegotiatedConfig { width: 1920, height: 1080, fps: 30 })
    );
}

#[test]
fn test_pattern_alternates_every_three_seconds() {
    assert_eq!(test_pattern_format(None, true, 0, 60), PixelFormat::Nv12);
    assert_eq!(test_pattern_format(None, true, 179, 60), PixelFormat::Nv12);
    assert_eq!(test_pattern_format(None, true, 180, 60), PixelFormat::Yuvj422p);
    assert_eq!(test_pattern_format(None, true, 359, 60), PixelFormat::Yuvj422p);
    assert_eq!(test_pattern_format(None, true, 360, 60), PixelFormat::Nv12);
    assert_eq!(test_pattern_format(None, false, 200, 60), PixelFormat::Nv12);
    assert_eq!(
        test_pattern_format(Some(PixelFormat::Yuvj422p), false, 0, 30),
        PixelFormat::Yuvj422p
    );
}

#[test]
fn copy_plane_drops_row_padding() {
    let source: Vec<u8> = (0..12).collect();
    assert_eq!(copy_plane(&source, 4, 3, 3), vec![0, 1, 2, 4, 5, 6, 8, 9, 10]);
    assert_eq!(copy_plane(&source, 4, 2, 0), Vec::<u8>::new());
}

#[test]
fn extracts_nv12_and_yuvj422p_planes() {
    let y: Vec<u8> = (0..8).collect();
    let uv: Vec<u8> = (100..104).collect();
    let planes = [PlaneData { data: &y, stride: 4 }, PlaneData { data: &uv, stride: 4 }];
    let frame = extract_supported_frame_with_format(&planes, PixelFormat::Nv12, 4, 2).unwrap();
    let CaptureFrame::Cpu { width, height, format, y_data, u_data, v_data } = &frame;
    assert_eq!((*width, *height, *format), (4, 2, PixelFormat::Nv12));
    assert_eq!(y_data, &y);
    assert_eq!(u_data, &uv);
    assert!(v_data.is_empty());

    let u: Vec<u8> = vec![1, 2, 0, 0, 3, 4, 0, 0];
    let v: Vec<u8> = vec![5, 6, 0, 0, 7, 8, 0, 0];
    let planes = [
        PlaneData { data: &y, stride: 4 },
        PlaneData { data: &u, stride: 4 },
        PlaneData { data: &v, stride: 4 },
    ];
    let frame = extract_supported_frame_with_format(&planes, PixelFormat::Yuvj422p, 4, 2).unwrap();
    let CaptureFrame::Cpu { u_data, v_data, .. } = &frame;
    assert_eq!(u_data, &vec![1, 2, 3, 4]);
    assert_eq!(v_data, &vec![5, 6, 7, 8]);
    assert_eq!(frame.width(), 4);
    assert_eq!(frame.height(), 2);
    assert_eq!(frame.format(), Some(PixelFormat::Yuvj422p));
}

#[test]
fn empty_frame_and_reshape() {
    let mut frame = CaptureFrame::empty();
    assert_eq!((frame.width(), frame.height(), frame.format()), (0, 0, Some(PixelFormat::Nv12)));
    {
        let (y, u, v) = frame.reshape_cpu(2, 2, PixelFormat::Yuvj422p, 4, 2);
        assert_eq!((y.len(), u.len(), v.len()), (4, 2, 2));
        y[0] = 9;
    }
    let CaptureFrame::Cpu { y_data, .. } = frame.clone();
    assert_eq!(y_data, vec![9, 0, 0, 0]);
    assert_eq!(frame.format(), Some(PixelFormat::Yuvj422p));
    let (y, _, _) = frame.reshape_cpu(1, 1, PixelFormat::Nv12, 2, 0);
    assert_eq!(y.to_vec(), vec![9, 0]);
}

#[test]
fn input_options_per_backend() {
    let pairs = |v: Vec<(String, String)>| -> Vec<(String, String)> { v };
    let o = pairs(capture_input_options(1920, 1080, 60, Some("MJPEG"), CaptureBackend::V4l2));
    assert_eq!(o[0], ("video_size".to_string(), "1920x1080".to_string()));
    assert_eq!(o[1], ("framerate".to_string(), "60".to_string()));
    assert_eq!(o[2], ("rtbufsize".to_string(), "16M".to_string()));
    assert_eq!(o[3], ("probesize".to_string(), "5000000".to_string()));
    assert_eq!(o[4], ("analyzeduration".to_string(), "1000000".to_string()));
    assert_eq!(o[5], ("input_format".to_string(), "mjpeg".to_string()));
    let o = capture_input_options(1280, 720, 30, Some("nv12"), CaptureBackend::DirectShow);
    assert_eq!(o[5], ("pixel_format".to_string(), "nv12".to_string()));
    let o = capture_input_options(1280, 720, 30, Some("Mjpeg"), CaptureBackend::DirectShow);
    assert_eq!(o[5], ("vcodec".to_string(), "mjpeg".to_string()));
    assert_eq!(capture_input_options(1280, 720, 30, None, CaptureBackend::V4l2).len(), 5);
    assert!(names_mjpeg("mJpEg"));
    assert!(!names_mjpeg("mjpeg2"));
}

#[test]
fn v4l2_node_names() {
    assert_eq!(v4l2_node_from_name("/dev/video2"), Some("/dev/video2".to_string()));
    assert_eq!(
        v4l2_node_from_name("USB Capture (x) (/dev/video4)"),
        Some("/dev/video4".to_string())
    );
    assert_eq!(v4l2_node_from_name("USB Capture (usb-1)"), None);
    assert_eq!(v4l2_node_from_name("USB Capture"), None);
    assert!(is_readable_v4l2_label("USB (x)"));
    assert!(is_readable_v4l2_label("/dev/video0 )("));
    assert!(!is_readable_v4l2_label("a)b("));
}

#[test]
fn arrival_stats_track_extremes() {
    let mut s = ArrivalStats::new();
    s.record(16_000);
    s.record(17_500);
    s.record(15_000);
    assert_eq!(s, ArrivalStats { min_us: 15_000, max_us: 17_500, sum_us: 48_500, count: 3 });
    assert!(should_log_packet_error(10));
    assert!(!should_log_packet_error(11));
    assert!(should_log_packet_error(100));
    assert_eq!(conversion_target(120), PixelFormat::Yuvj422p);
    assert_eq!(conversion_target(60), PixelFormat::Nv12);
}

#[test]
fn shared_plane_sizes_are_aligned() {
    assert_eq!(
        plane_sizes(1920, 1080),
        SharedBufferLayout { y_pitch: 2048, uv_pitch: 1024, y_size: 2048 * 1080, uv_size: 1024 * 1080 }
    );
    assert_eq!(plane_sizes(256, 2).y_pitch, 256);
    assert_eq!(plane_sizes(0, 2).y_pitch, 0);
}

#[test]
fn gpu_snapshot_text() {
    let util = NvmlUtilization { gpu: 40, memory: 12 };
    assert_eq!(GpuSnapshot::from_readings(true, 65, true, util).describe(), "GPU 65C 40% util 12% mem");
    assert_eq!(GpuSnapshot::from_readings(false, 65, false, util).describe(), "GPU");
}

#[test]
fn generates_expected_plane_sizes_for_nv12() {
    let frame = blank_test_frame(1280, 720, PixelFormat::Nv12);
    let CaptureFrame::Cpu { y_data, u_data, v_data, .. } = &frame;
    assert_eq!(y_data.len(), 1280 * 720);
    assert_eq!(u_data.len(), 1280 * 720 / 2);
    assert!(v_data.is_empty());
}

#[test]
fn generates_expected_plane_sizes_for_yuvj422p() {
    let frame = blank_test_frame(1280, 720, PixelFormat::Yuvj422p);
    let CaptureFrame::Cpu { y_data, u_data, v_data, .. } = &frame;
    assert_eq!(y_data.len(), 1280 * 720);
    assert_eq!(u_data.len(), 640 * 720);
    assert_eq!(v_data.len(), 640 * 720);
}

#[test]
fn blank_test_frame_rounds_odd_chroma_down() {
    let frame = blank_test_frame(5, 3, PixelFormat::Nv12);
    let CaptureFrame::Cpu { width, height, format, y_data, u_data, v_data } = &frame;
    assert_eq!((*width, *height, *format), (5, 3, PixelFormat::Nv12));
    assert_eq!(y_data.len(), 15);
    assert_eq!(u_data.len(), 2 * 1 * 2);
    assert!(v_data.is_empty());
    assert!(y_data.iter().chain(u_data.iter()).all(|b| *b == 0));
}
