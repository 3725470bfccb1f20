//! User settings: frame-rate modes, resolution presets, the scaling filter,
//! and the capture configuration derived from them.
use vstd::prelude::*;
use crate::text::{owned, str_eq};

verus! {

pub const FPS_MODE_30: &'static str = "30";

pub const FPS_MODE_60: &'static str = "60";

pub const FPS_MODE_120: &'static str = "120";

pub const FPS_MODE_CUSTOM: &'static str = "custom";

pub const MIN_FPS: u32 = 30;

pub const MAX_FPS: u32 = 240;

/// Bit pattern of the `f64` value `1.0`, the default volume.
pub const FULL_VOLUME_BITS: u64 = 0x3FF0_0000_0000_0000;

/// Upscaling filter applied to the video planes in the fragment shader.
#[derive(Clone, Copy, Debug, PartialEq, Eq)]
pub enum ScaleFilter {
    Bilinear,
    Bicubic,
    Lanczos,
}

/// The name of a filter as shown in the menu.
pub open spec fn filter_label(f: ScaleFilter) -> Seq<char> {
    match f {
        ScaleFilter::Bilinear => "Bilinear"@,
        ScaleFilter::Bicubic => "Bicubic"@,
        ScaleFilter::Lanczos => "Lanczos"@,
    }
}

impl ScaleFilter {
    /// The `filter_mode` value the shader branches on.
    pub fn as_u32(self) -> (code: u32)
        ensures
            code == match self {
                ScaleFilter::Bilinear => 0u32,
                ScaleFilter::Bicubic => 1u32,
                ScaleFilter::Lanczos => 2u32,
            },
    {
        match self {
            ScaleFilter::Bilinear => 0,
            ScaleFilter::Bicubic => 1,
            ScaleFilter::Lanczos => 2,
        }
    }

    /// Every variant, in menu order.
    pub fn all() -> (filters: [ScaleFilter; 3])
        ensures
            filters@ == seq![ScaleFilter::Bilinear, ScaleFilter::Bicubic, ScaleFilter::Lanczos],
    {
        [ScaleFilter::Bilinear, ScaleFilter::Bicubic, ScaleFilter::Lanczos]
    }

    /// The name shown in the menu.
    pub fn label(self) -> (name: &'static str)
        ensures
            name@ == filter_label(self),
    {
        match self {
            ScaleFilter::Bilinear => "Bilinear",
            ScaleFilter::Bicubic => "Bicubic",
            ScaleFilter::Lanczos => "Lanczos",
        }
    }
}

/// The persisted user settings. The volume is kept as the bit pattern of an
/// `f64` (`f64::to_bits`).
#[derive(Debug)]
pub struct Settings {
    pub video_device: String,
    pub scaling_filter: ScaleFilter,
    pub audio_input: i32,
    pub audio_output: i32,
    pub resolution: String,
    pub fps_mode: String,
    pub custom_fps: u32,
    pub volume_bits: u64,
    pub audio_muted: bool,
    pub show_overlay: bool,
    pub detailed_overlay: bool,
}

impl Clone for Settings {
    fn clone(&self) -> (copy: Self)
        ensures
            copy == *self,
    {
        Settings {
            video_device: self.video_device.clone(),
            scaling_filter: self.scaling_filter,
            audio_input: self.audio_input,
            audio_output: self.audio_output,
            resolution: self.resolution.clone(),
            fps_mode: self.fps_mode.clone(),
            custom_fps: self.custom_fps,
            volume_bits: self.volume_bits,
            audio_muted: self.audio_muted,
            show_overlay: self.show_overlay,
            detailed_overlay: self.detailed_overlay,
        }
    }
}

/// The settings used when none were saved.
pub open spec fn default_settings_spec(s: Settings) -> bool {
    &&& s.video_device@ == Seq::<char>::empty()
    &&& s.scaling_filter == ScaleFilter::Bilinear
    &&& s.audio_input == -1
    &&& s.audio_output == -1
    &&& s.resolution@ == "1080p"@
    &&& s.fps_mode@ == FPS_MODE_60@
    &&& s.custom_fps == 120
    &&& s.volume_bits == FULL_VOLUME_BITS
    &&& !s.audio_muted
    &&& s.show_overlay
    &&& !s.detailed_overlay
}

impl Default for Settings {
    fn default() -> (s: Self)
        ensures
            default_settings_spec(s),
    {
        Settings {
            video_device: String::new(),
            scaling_filter: default_scaling_filter(),
            audio_input: default_audio_index(),
            audio_output: default_audio_index(),
            resolution: default_resolution(),
            fps_mode: default_fps_mode(),
            custom_fps: default_custom_fps(),
            volume_bits: default_volume_bits(),
            audio_muted: false,
            show_overlay: default_show_overlay(),
            detailed_overlay: false,
        }
    }
}

/// The frame rate a mode selects; any other mode uses the custom rate,
/// clamped to [`MIN_FPS`, `MAX_FPS`].
pub open spec fn fps_for_mode(mode: Seq<char>, custom_fps: u32) -> u32 {
    if mode == FPS_MODE_30@ {
        30
    } else if mode == FPS_MODE_60@ {
        60
    } else if mode == FPS_MODE_120@ {
        120
    } else if custom_fps < MIN_FPS {
        MIN_FPS
    } else if custom_fps > MAX_FPS {
        MAX_FPS
    } else {
        custom_fps
    }
}

/// The resolution preset named for a frame size; sizes without a preset of
/// their own are reported as 1080p.
pub open spec fn resolution_name(width: u32, height: u32) -> Seq<char> {
    if width == 3840 && height == 2160 {
        "4K"@
    } else if width == 2560 && height == 1440 {
        "1440p"@
    } else if width == 1280 && height == 720 {
        "720p"@
    } else {
        "1080p"@
    }
}

/// The frame-rate mode for a frame rate.
pub open spec fn fps_mode_name(fps: u32) -> Seq<char> {
    if fps == 30 {
        FPS_MODE_30@
    } else if fps == 120 {
        FPS_MODE_120@
    } else if fps == 60 {
        FPS_MODE_60@
    } else {
        FPS_MODE_CUSTOM@
    }
}

impl Settings {
    /// The frame rate selected by the frame-rate mode.
    pub fn get_fps(&self) -> (fps: u32)
        ensures
            fps == fps_for_mode(self.fps_mode@, self.custom_fps),
    {
        let mode = self.fps_mode.as_str();
        if str_eq(mode, FPS_MODE_30) {
            30
        } else if str_eq(mode, FPS_MODE_60) {
            60
        } else if str_eq(mode, FPS_MODE_120) {
            120
        } else if self.custom_fps < MIN_FPS {
            MIN_FPS
        } else if self.custom_fps > MAX_FPS {
            MAX_FPS
        } else {
            self.custom_fps
        }
    }

    /// Update resolution and fps_mode to reflect what the capture device
    /// actually negotiated (e.g. after fallback to a lower resolution/fps).
    pub fn apply_negotiated(&mut self, width: u32, height: u32, fps: u32)
        ensures
            final(self).resolution@ == resolution_name(width, height),
            final(self).fps_mode@ == fps_mode_name(fps),
            final(self).custom_fps == if fps == 30 || fps == 60 || fps == 120 {
                old(self).custom_fps
            } else {
                fps
            },
            final(self).video_device == old(self).video_device,
            final(self).scaling_filter == old(self).scaling_filter,
            final(self).audio_input == old(self).audio_input,
            final(self).audio_output == old(self).audio_output,
            final(self).volume_bits == old(self).volume_bits,
            final(self).audio_muted == old(self).audio_muted,
            final(self).show_overlay == old(self).show_overlay,
            final(self).detailed_overlay == old(self).detailed_overlay,
    {
        let new_resolution = if width == 3840 && height == 2160 {
            "4K"
        } else if width == 2560 && height == 1440 {
            "1440p"
        } else if width == 1280 && height == 720 {
            "720p"
        } else {
            "1080p"
        };
        let new_fps_mode = if fps == 30 {
            FPS_MODE_30
        } else if fps == 120 {
            FPS_MODE_120
        } else if fps == 60 {
            FPS_MODE_60
        } else {
            self.custom_fps = fps;
            FPS_MODE_CUSTOM
        };
        self.resolution = owned(new_resolution);
        self.fps_mode = owned(new_fps_mode);
    }
}

/// The capture parameters for a resolution preset and frame rate.
#[derive(Debug, Clone, Copy, PartialEq, Eq)]
pub struct CaptureConfig {
    pub width: u32,
    pub height: u32,
    pub fps: u32,
    pub pixel_format: &'static str,
    pub decode_threads: usize,
}

/// The frame size of a resolution preset; unknown presets mean 1080p.
pub open spec fn preset_size(resolution: Seq<char>) -> (u32, u32) {
    if resolution == "720p"@ {
        (1280, 720)
    } else if resolution == "1440p"@ {
        (2560, 1440)
    } else if resolution == "4K"@ {
        (3840, 2160)
    } else {
        (1920, 1080)
    }
}

/// Raw NV12 from the device up to 60 fps (one decode thread); above that,
/// MJPEG decoded on four threads.
pub fn get_capture_config(resolution: &str, fps: u32) -> (config: CaptureConfig)
    ensures
        (config.width, config.height) == preset_size(resolution@),
        config.fps == fps,
        fps <= 60 ==> config.pixel_format@ == "nv12"@ && config.decode_threads == 1,
        fps > 60 ==> config.pixel_format@ == "mjpeg"@ && config.decode_threads == 4,
{
    let (width, height): (u32, u32) = if str_eq(resolution, "720p") {
        (1280, 720)
    } else if str_eq(resolution, "1440p") {
        (2560, 1440)
    } else if str_eq(resolution, "4K") {
        (3840, 2160)
    } else {
        (1920, 1080)
    };
    if fps <= 60 {
        CaptureConfig { width, height, fps, pixel_format: "nv12", decode_threads: 1 }
    } else {
        CaptureConfig { width, height, fps, pixel_format: "mjpeg", decode_threads: 4 }
    }
}

/// "Default" audio device: no saved index.
pub fn default_audio_index() -> (i: i32)
    ensures
        i == -1,
{
    -1
}

pub fn default_scaling_filter() -> (f: ScaleFilter)
    ensures
        f == ScaleFilter::Bilinear,
{
    ScaleFilter::Bilinear
}

pub fn default_resolution() -> (r: String)
    ensures
        r@ == "1080p"@,
{
    owned("1080p")
}

pub fn default_fps_mode() -> (m: String)
    ensures
        m@ == FPS_MODE_60@,
{
    owned(FPS_MODE_60)
}

pub fn default_custom_fps() -> (fps: u32)
    ensures
        fps == 120,
{
    120
}

/// Full volume (`1.0`), as an `f64` bit pattern.
pub fn default_volume_bits() -> (bits: u64)
    ensures
        bits == FULL_VOLUME_BITS,
{
    FULL_VOLUME_BITS
}

pub fn default_show_overlay() -> (b: bool)
    ensures
        b,
{
    true
}

/// Law: recording a negotiated frame rate inside [`MIN_FPS`, `MAX_FPS`] and
/// reading the frame rate back gives that rate.
pub proof fn lemma_negotiated_fps_round_trip(fps: u32, old_custom: u32)
    requires
        MIN_FPS <= fps <= MAX_FPS,
    ensures
        fps_for_mode(
            fps_mode_name(fps),
            if fps == 30 || fps == 60 || fps == 120 {
                old_custom
            } else {
                fps
            },
        ) == fps,
{
    reveal_strlit("30");
    reveal_strlit("60");
    reveal_strlit("120");
    reveal_strlit("custom");
    assert("30"@.len() == 2 && "30"@[0] == '3');
    assert("60"@.len() == 2 && "60"@[0] == '6');
    assert("120"@.len() == 3);
    assert("custom"@.len() == 6);
}

/// Law: recording a negotiated frame size that has a preset and deriving the
/// capture configuration from the recorded preset gives that frame size back;
/// any other size comes back as 1080p.
pub proof fn lemma_negotiated_resolution_round_trip(width: u32, height: u32)
    ensures
        ((width == 3840 && height == 2160) || (width == 2560 && height == 1440) || (width == 1280
            && height == 720) || (width == 1920 && height == 1080)) ==> preset_size(
            resolution_name(width, height),
        ) == (width, height),
        !((width == 3840 && height == 2160) || (width == 2560 && height == 1440) || (width == 1280
            && height == 720)) ==> preset_size(resolution_name(width, height)) == (1920u32, 1080u32),
{
    reveal_strlit("4K");
    reveal_strlit("1440p");
    reveal_strlit("720p");
    reveal_strlit("1080p");
    assert("4K"@.len() == 2);
    assert("720p"@.len() == 4);
    assert("1440p"@.len() == 5 && "1440p"@[1] == '4');
    assert("1080p"@.len() == 5 && "1080p"@[1] == '0');
}

} // verus!
