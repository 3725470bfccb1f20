use tacklecast::audio::common::{
    channel_plan, AudioDiagnostics, AudioRingBuffer, AudioStatus, AudioStreamInfo, ChannelPlan,
    ChannelRoute, SampleFormat, VolumeController,
};
use tacklecast::audio::linux::{
    find_audio_input_for_video, input_device_candidates, is_capture_like,
    keywords_for_device_name, output_device_candidates, Direction,
};
use tacklecast::audio::{start_failure_status, stream_error_status, StartFailure, RING_BUFFER_CAPACITY};
use tacklecast::devices::AudioDevice;

fn bits(samples: &[f32]) -> Vec<u32> {
    samples.iter().map(|s| s.to_bits()).collect()
}

fn floats(samples: &[u32]) -> Vec<f32> {
    samples.iter().map(|b| f32::from_bits(*b)).collect()
}

/// Applies a channel plan to `f32` samples the way the capture callback does.
fn convert_channels(input: &[f32], in_channels: usize, out_channels: usize, output: &mut Vec<f32>) {
    match channel_plan(in_channels, out_channels) {
        ChannelPlan::Nothing => {}
        ChannelPlan::Passthrough => output.extend_from_slice(input),
        ChannelPlan::PerFrame(routes) => {
            for frame in input.chunks_exact(in_channels) {
                for route in &routes {
                    output.push(match *route {
                        ChannelRoute::Source(i) => frame[i],
                        ChannelRoute::HalfSumOfFirstTwo => 0.5 * (frame[0] + frame[1]),
                        ChannelRoute::MeanOfAll => {
                            let sum: f32 = frame.iter().sum();
                            sum * (1.0 / in_channels as f32)
                        }
                        ChannelRoute::Silence => 0.0,
                    });
                }
            }
        }
    }
}

#[test]
fn channel_conversion_mono_to_stereo() {
    let input = [0.25f32, -0.5, 0.75];
    let mut output = Vec::new();
    convert_channels(&input, 1, 2, &mut output);
    assert_eq!(output.len(), 6);
    assert_eq!(output, vec![0.25, 0.25, -0.5, -0.5, 0.75, 0.75]);
}

#[test]
fn channel_conversion_stereo_to_mono() {
    let input = [0.2f32, 0.4, -0.6, 0.2];
    let mut output = Vec::new();
    convert_channels(&input, 2, 1, &mut output);
    assert_eq!(output.len(), 2);
    assert!((output[0] - 0.3).abs() < 1e-5);
    assert!((output[1] - -0.2).abs() < 1e-5);
}

#[test]
fn channel_conversion_identical_passthrough() {
    let input = [0.1f32, 0.2, 0.3, 0.4];
    let mut output = Vec::new();
    convert_channels(&input, 2, 2, &mut output);
    assert_eq!(output, input);
}

#[test]
fn channel_conversion_multichannel_downmix() {
    let input = [1.0, 2.0, 3.0, 4.0, 5.0, 6.0, 7.0, 8.0];
    let mut output = Vec::new();
    convert_channels(&input, 4, 2, &mut output);
    assert_eq!(output, vec![1.0, 2.0, 5.0, 6.0]);
}

#[test]
fn channel_plan_routes_for_each_case() {
    assert_eq!(channel_plan(0, 2), ChannelPlan::Nothing);
    assert_eq!(channel_plan(2, 0), ChannelPlan::Nothing);
    assert_eq!(channel_plan(3, 3), ChannelPlan::Passthrough);
    assert_eq!(
        channel_plan(1, 2),
        ChannelPlan::PerFrame(vec![ChannelRoute::Source(0), ChannelRoute::Source(0)])
    );
    assert_eq!(channel_plan(2, 1), ChannelPlan::PerFrame(vec![ChannelRoute::HalfSumOfFirstTwo]));
    assert_eq!(channel_plan(1, 3), ChannelPlan::PerFrame(vec![ChannelRoute::Source(0); 3]));
    assert_eq!(
        channel_plan(6, 2),
        ChannelPlan::PerFrame(vec![ChannelRoute::Source(0), ChannelRoute::Source(1)])
    );
    assert_eq!(channel_plan(6, 1), ChannelPlan::PerFrame(vec![ChannelRoute::MeanOfAll]));
    assert_eq!(
        channel_plan(2, 4),
        ChannelPlan::PerFrame(vec![
            ChannelRoute::Source(0),
            ChannelRoute::Source(1),
            ChannelRoute::Silence,
            ChannelRoute::Silence
        ])
    );
    assert_eq!(
        channel_plan(6, 4),
        ChannelPlan::PerFrame(vec![
            ChannelRoute::Source(0),
            ChannelRoute::Source(1),
            ChannelRoute::Source(2),
            ChannelRoute::Source(3)
        ])
    );
}

#[test]
fn channel_conversion_multichannel_to_mono_averages() {
    let input = [1.0f32, 2.0, 3.0, 6.0, 6.0, 6.0];
    let mut output = Vec::new();
    convert_channels(&input, 3, 1, &mut output);
    assert_eq!(output.len(), 2);
    assert!((output[0] - 2.0).abs() < 1e-5);
    assert!((output[1] - 6.0).abs() < 1e-5);
}

#[test]
fn ring_buffer_push_pop_order() {
    let mut diag = AudioDiagnostics::new();
    let mut ring = AudioRingBuffer::new(16);
    assert_eq!(ring.push_samples(&bits(&[1.0, 2.0, 3.0, 4.0]), &mut diag), 4);
    assert_eq!(ring.available(), 4);

    let mut out = [0u32; 4];
    assert_eq!(ring.pop_samples(&mut out, &mut diag), 4);
    assert_eq!(floats(&out), vec![1.0, 2.0, 3.0, 4.0]);
    assert_eq!(ring.available(), 0);
}

#[test]
fn ring_buffer_underrun_zero_fills() {
    let mut diag = AudioDiagnostics::new();
    let mut ring = AudioRingBuffer::new(8);
    assert_eq!(ring.push_samples(&bits(&[0.5, 0.6]), &mut diag), 2);

    let mut out = [1.0f32.to_bits(); 4];
    let count = ring.pop_samples(&mut out, &mut diag);
    assert_eq!(count, 2);
    let out = floats(&out);
    assert_eq!(out[0], 0.5);
    assert_eq!(out[1], 0.6);
    assert_eq!(out[2], 0.0);
    assert_eq!(out[3], 0.0);
}

#[test]
fn ring_buffer_overrun_limits_to_capacity() {
    let mut diag = AudioDiagnostics::new();
    let mut ring = AudioRingBuffer::new(4);
    assert_eq!(ring.push_samples(&bits(&[0.1, 0.2, 0.3, 0.4, 0.5]), &mut diag), 4);
    assert_eq!(ring.available(), 4);
}

#[test]
fn ring_buffer_wraps_around_in_order() {
    let mut diag = AudioDiagnostics::new();
    let mut ring = AudioRingBuffer::new(4);
    assert_eq!(ring.push_samples(&[1, 2, 3], &mut diag), 3);
    let mut out = [0u32; 2];
    assert_eq!(ring.pop_samples(&mut out, &mut diag), 2);
    assert_eq!(out, [1, 2]);
    assert_eq!(ring.push_samples(&[4, 5, 6], &mut diag), 3);
    assert_eq!(ring.available(), 4);
    let mut out = [0u32; 4];
    assert_eq!(ring.pop_samples(&mut out, &mut diag), 4);
    assert_eq!(out, [3, 4, 5, 6]);
    assert_eq!(ring.capacity(), 4);
}

#[test]
fn ring_buffer_counts_overruns_and_underruns() {
    let mut diag = AudioDiagnostics::new();
    let mut ring = AudioRingBuffer::new(2);
    assert_eq!(diag.take_overrun_report(0), None);
    assert_eq!(ring.push_samples(&[1, 2, 3], &mut diag), 2);
    assert_eq!(diag.take_overrun_report(10), Some(1));
    // full buffer: dropped again, but the last warning is too recent
    assert_eq!(ring.push_samples(&[4], &mut diag), 0);
    assert_eq!(diag.take_overrun_report(20), None);
    assert_eq!(ring.push_samples(&[4], &mut diag), 0);
    assert_eq!(diag.take_overrun_report(5_000_000_010), Some(3));

    let mut out = [7u32; 3];
    assert_eq!(ring.pop_samples(&mut out, &mut diag), 2);
    assert_eq!(out, [1, 2, 0]);
    // partial pop is not an underrun
    assert_eq!(diag.take_underrun_report(0), None);
    assert_eq!(ring.pop_samples(&mut out, &mut diag), 0);
    assert_eq!(out, [0, 0, 0]);
    assert_eq!(diag.take_underrun_report(0), Some(1));
    // popping into nothing is not an underrun either
    let mut none: [u32; 0] = [];
    assert_eq!(ring.pop_samples(&mut none, &mut diag), 0);
    assert_eq!(diag.take_underrun_report(10_000_000_000), None);
}

#[test]
fn ring_buffer_of_zero_capacity_drops_everything() {
    let mut diag = AudioDiagnostics::new();
    let mut ring = AudioRingBuffer::new(0);
    assert_eq!(ring.push_samples(&[], &mut diag), 0);
    assert_eq!(diag.take_overrun_report(0), Some(1));
    let mut out = [9u32; 2];
    assert_eq!(ring.pop_samples(&mut out, &mut diag), 0);
    assert_eq!(out, [0, 0]);
}

#[test]
fn volume_controller_gain() {
    let mut vol = VolumeController::new((0.8f64.clamp(0.0, 1.0) as f32).to_bits(), false);
    assert!((f32::from_bits(vol.gain()) - 0.8).abs() < 1e-4);

    vol.set_muted(true);
    assert_eq!(f32::from_bits(vol.gain()), 0.0);

    vol.set_muted(false);
    assert!((f32::from_bits(vol.gain()) - 0.8).abs() < 1e-4);

    vol.set_volume((0.5f64.clamp(0.0, 1.0) as f32).to_bits());
    assert!((f32::from_bits(vol.gain()) - 0.5).abs() < 1e-4);
}

#[test]
fn volume_controller_keeps_volume_while_muted() {
    let mut vol = VolumeController::new(0.25f32.to_bits(), true);
    assert!(vol.is_muted());
    assert_eq!(vol.gain(), 0);
    assert_eq!(f32::from_bits(vol.volume()), 0.25);
    vol.set_muted(false);
    assert!(!vol.is_muted());
    assert_eq!(f32::from_bits(vol.gain()), 0.25);
}

#[test]
fn diagnostics_status_reads_back_what_was_set() {
    let mut diag = AudioDiagnostics::new();
    assert!(matches!(diag.status(), AudioStatus::Stopped));
    diag.set_status(AudioStatus::Error("device lost".to_string()));
    match diag.status() {
        AudioStatus::Error(msg) => assert_eq!(msg, "device lost"),
        other => panic!("unexpected {other:?}"),
    }
    diag.set_status(AudioStatus::Connected);
    assert!(matches!(diag.status(), AudioStatus::Connected));
    diag.set_status(AudioStatus::NoInput);
    assert!(matches!(diag.status(), AudioStatus::NoInput));
    diag.set_status(AudioStatus::NoOutput);
    assert!(matches!(diag.status(), AudioStatus::NoOutput));
}

#[test]
fn diagnostics_keep_stream_info() {
    let mut diag = AudioDiagnostics::new();
    assert!(diag.input_info().is_none());
    diag.set_input_info(Some(AudioStreamInfo {
        device_name: "USB Audio".to_string(),
        sample_rate: 48000,
        channels: 2,
        sample_format: SampleFormat::I16,
    }));
    let info = diag.input_info().unwrap();
    assert_eq!(info.device_name, "USB Audio");
    assert_eq!(info.describe(), "'USB Audio' (2 ch, 48000 Hz, I16)");
    assert!(diag.output_info().is_none());
    diag.set_input_info(None);
    assert!(diag.input_info().is_none());
}

#[test]
fn status_texts() {
    assert_eq!(AudioStatus::Connected.describe(), "Connected");
    assert_eq!(AudioStatus::NoInput.describe(), "No Input Device");
    assert_eq!(AudioStatus::NoOutput.describe(), "No Output Device");
    assert_eq!(AudioStatus::Error("boom".to_string()).describe(), "Error: boom");
    assert_eq!(AudioStatus::Stopped.describe(), "Stopped");
}

#[test]
fn start_failures_map_to_status() {
    assert!(matches!(
        start_failure_status(&StartFailure::InputUnavailable("x".to_string())),
        AudioStatus::NoInput
    ));
    assert!(matches!(
        start_failure_status(&StartFailure::OutputUnavailable("x".to_string())),
        AudioStatus::NoOutput
    ));
    let cases = [
        (StartFailure::ConfigNegotiation("e".to_string()), "audio stream config negotiation failed: e"),
        (StartFailure::BuildInput("e".to_string()), "failed to build input audio stream: e"),
        (StartFailure::BuildOutput("e".to_string()), "failed to build output audio stream: e"),
        (StartFailure::PlayInput("e".to_string()), "failed to start input audio stream: e"),
        (StartFailure::PlayOutput("e".to_string()), "failed to start output audio stream: e"),
    ];
    for (failure, text) in cases {
        match start_failure_status(&failure) {
            AudioStatus::Error(msg) => assert_eq!(msg, text),
            other => panic!("unexpected {other:?}"),
        }
    }
    match stream_error_status(Direction::Output, "gone") {
        AudioStatus::Error(msg) => assert_eq!(msg, "Output error: gone"),
        other => panic!("unexpected {other:?}"),
    }
    match stream_error_status(Direction::Input, "gone") {
        AudioStatus::Error(msg) => assert_eq!(msg, "Input error: gone"),
        other => panic!("unexpected {other:?}"),
    }
    assert_eq!(RING_BUFFER_CAPACITY, 192_000);
}

fn dev(index: i32, name: &str) -> AudioDevice {
    AudioDevice { index, name: name.to_string() }
}

#[test]
fn linux_keywords_split_on_brackets_and_skip_ignored_words() {
    assert_eq!(
        keywords_for_device_name("ShadowCast_Capture (USB Audio Device)"),
        vec!["shadowcast", "capture", "usb"]
    );
    assert!(keywords_for_device_name("The Pro-Audio").is_empty());
}

#[test]
fn linux_auto_detect_matches_keyword_overlap() {
    let inputs = vec![dev(2, "Microphone (USB Audio Device)"), dev(7, "ShadowCast Capture Audio")];
    assert_eq!(find_audio_input_for_video("ShadowCast Capture", &inputs), Some(7));
    // one keyword in common is not enough when the name has two
    assert_eq!(find_audio_input_for_video("ShadowCast Mk2", &inputs), None);
    // a single keyword needs a single match
    assert_eq!(find_audio_input_for_video("Microphone", &inputs), Some(2));
}

#[test]
fn linux_input_candidates_in_order() {
    let inputs = vec![
        dev(0, "Built-in Microphone"),
        dev(3, "HDMI Capture"),
        dev(5, "Elgato Cam Link 4K"),
    ];
    assert_eq!(input_device_candidates(9, "Cam Link 4K", &inputs), vec![9, 5, 3, 5]);
    assert_eq!(input_device_candidates(-1, "Webcam", &inputs), vec![3, 5]);
    assert!(is_capture_like("PS4 controller"));
    assert!(!is_capture_like("Speakers"));
    assert_eq!(output_device_candidates(4), vec![4]);
    assert!(output_device_candidates(-1).is_empty());
}
