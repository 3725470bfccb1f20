//! The settings menu and overlay: menu open/close state with its draft
//! settings, and the texts and choices the menu and overlay show.
use vstd::prelude::*;
use crate::devices::AudioDevice;
use crate::settings::{
    filter_label, ScaleFilter, Settings, FPS_MODE_120, FPS_MODE_30, FPS_MODE_CUSTOM, MAX_FPS,
    MIN_FPS,
};
use crate::text::{
    chars_of, decimal, has_prefix, owned, push_char, push_decimal, push_str, starts_with_chars,
    str_eq,
};

verus! {

/// The resolution presets offered in the menu.
pub fn resolution_options() -> (options: [&'static str; 4])
    ensures
        options@.map_values(|o: &str| o@) == seq!["720p"@, "1080p"@, "1440p"@, "4K"@],
{
    let options: [&'static str; 4] = ["720p", "1080p", "1440p", "4K"];
    assert(options@.map_values(|o: &str| o@) == seq!["720p"@, "1080p"@, "1440p"@, "4K"@]);
    options
}

/// What the user asked for in one frame of the menu.
#[derive(Debug)]
pub struct UiOutput {
    pub apply_settings: Option<Settings>,
    pub toggle_fullscreen: bool,
    pub exit_requested: bool,
}

impl UiOutput {
    /// Nothing asked for.
    pub fn none() -> (o: Self)
        ensures
            o.apply_settings is None,
            !o.toggle_fullscreen,
            !o.exit_requested,
    {
        UiOutput { apply_settings: None, toggle_fullscreen: false, exit_requested: false }
    }
}

/// Whether the settings menu is open, and the settings being edited in it.
pub struct UiState {
    menu_open: bool,
    draft_settings: Settings,
}

impl UiState {
    /// Whether the menu is open.
    pub closed spec fn spec_menu_open(&self) -> bool {
        self.menu_open
    }

    /// The settings being edited.
    pub closed spec fn spec_draft(&self) -> Settings {
        self.draft_settings
    }

    /// Menu closed, draft at the default settings.
    pub fn new() -> (ui: Self)
        ensures
            !ui.spec_menu_open(),
            crate::settings::default_settings_spec(ui.spec_draft()),
    {
        UiState { menu_open: false, draft_settings: Settings::default() }
    }

    /// Whether the menu is open.
    pub fn is_menu_open(&self) -> (open: bool)
        ensures
            open == self.spec_menu_open(),
    {
        self.menu_open
    }

    /// Opens the menu with a draft of the given settings.
    pub fn open_menu(&mut self, settings: &Settings)
        ensures
            final(self).spec_menu_open(),
            final(self).spec_draft() == *settings,
    {
        self.menu_open = true;
        self.draft_settings = settings.clone();
    }

    /// Closes the menu; when it was open, the draft is returned to be applied.
    pub fn close_menu_and_apply(&mut self) -> (applied: Option<Settings>)
        ensures
            !final(self).spec_menu_open(),
            final(self).spec_draft() == old(self).spec_draft(),
            applied == if old(self).spec_menu_open() {
                Some(old(self).spec_draft())
            } else {
                None
            },
    {
        if !self.menu_open {
            return None;
        }
        self.menu_open = false;
        Some(self.draft_settings.clone())
    }

    /// Start of a UI frame: while the menu is closed the draft follows the
    /// current settings.
    pub fn begin_frame(&mut self, settings: &Settings)
        ensures
            final(self).spec_menu_open() == old(self).spec_menu_open(),
            final(self).spec_draft() == if old(self).spec_menu_open() {
                old(self).spec_draft()
            } else {
                *settings
            },
    {
        if !self.menu_open {
            self.draft_settings = settings.clone();
        }
    }

    /// The draft, for the menu widgets to edit.
    pub fn draft_mut(&mut self) -> (draft: &mut Settings)
        ensures
            *draft == old(self).spec_draft(),
            final(self).spec_draft() == *final(draft),
            final(self).spec_menu_open() == old(self).spec_menu_open(),
    {
        &mut self.draft_settings
    }

    /// End of a UI frame: applying settings from the menu closes it.
    pub fn end_frame(&mut self, output: &UiOutput)
        ensures
            final(self).spec_draft() == old(self).spec_draft(),
            final(self).spec_menu_open() == (old(self).spec_menu_open()
                && output.apply_settings is None),
    {
        if output.apply_settings.is_some() {
            self.menu_open = false;
        }
    }
}

/// Law: opening the menu with some settings and closing it again hands back
/// exactly those settings, whatever the menu held before; closing an already
/// closed menu hands back nothing. The states are related as the contracts of
/// [`UiState::open_menu`] and [`UiState::close_menu_and_apply`] relate them.
pub proof fn lemma_open_close_round_trip(
    opened: UiState,
    closed: UiState,
    settings: Settings,
    applied: Option<Settings>,
    applied_again: Option<Settings>,
)
    requires
        opened.spec_menu_open(),
        opened.spec_draft() == settings,
        !closed.spec_menu_open(),
        applied == if opened.spec_menu_open() {
            Some(opened.spec_draft())
        } else {
            None
        },
        applied_again == if closed.spec_menu_open() {
            Some(closed.spec_draft())
        } else {
            None
        },
    ensures
        applied == Some(settings),
        applied_again is None,
{
}

/// What the overlay shows about the video.
#[derive(Debug)]
pub struct OverlayInfo {
    pub width: Option<u32>,
    pub height: Option<u32>,
    /// The measured frame rate, already written with one decimal.
    pub fps_text: Option<String>,
    pub filter: ScaleFilter,
    pub show_overlay: bool,
    /// Stack resolution, filter, and FPS over three lines instead of one.
    pub detailed: bool,
    pub status_message: Option<String>,
    pub status_is_alert: bool,
}

/// The overlay text: a status message when there is one; nothing when the
/// overlay is hidden; otherwise the frame size and rate (with the filter, on
/// three lines, when detailed), or a waiting notice before the first frame.
pub open spec fn overlay_text_spec(o: OverlayInfo) -> Option<Seq<char>> {
    match o.status_message {
        Some(m) => Some(m@),
        None => if !o.show_overlay {
            None
        } else {
            match (o.width, o.height, o.fps_text) {
                (Some(w), Some(h), Some(f)) => Some(
                    if o.detailed {
                        decimal(w as nat) + "x"@ + decimal(h as nat) + "\n"@ + filter_label(o.filter)
                            + "\n"@ + f@ + " FPS"@
                    } else {
                        decimal(w as nat) + "x"@ + decimal(h as nat) + " | "@ + f@ + " FPS"@
                    },
                ),
                _ => Some("Waiting For Video..."@),
            }
        },
    }
}

/// The overlay text (see [`overlay_text_spec`]).
pub fn overlay_text(overlay: &OverlayInfo) -> (text: Option<String>)
    ensures
        match text {
            Some(t) => overlay_text_spec(*overlay) == Some(t@),
            None => overlay_text_spec(*overlay) is None,
        },
{
    if let Some(message) = &overlay.status_message {
        return Some(message.clone());
    }
    if !overlay.show_overlay {
        return None;
    }
    match (overlay.width, overlay.height, &overlay.fps_text) {
        (Some(width), Some(height), Some(fps)) => {
            let mut t = String::new();
            push_decimal(&mut t, width as u64);
            push_str(&mut t, "x");
            push_decimal(&mut t, height as u64);
            if overlay.detailed {
                push_str(&mut t, "\n");
                push_str(&mut t, overlay.filter.label());
                push_str(&mut t, "\n");
            } else {
                push_str(&mut t, " | ");
            }
            push_str(&mut t, fps.as_str());
            push_str(&mut t, " FPS");
            Some(t)
        },
        _ => Some(owned("Waiting For Video...")),
    }
}

/// The video devices offered in the menu: the enumerated ones, plus the
/// current choice when it is set but no longer enumerated; never an empty
/// list (an empty name stands in).
pub open spec fn video_options_spec(devices: Seq<Seq<char>>, current: Seq<char>) -> Seq<Seq<char>> {
    let with_current = if current.len() > 0 && !devices.contains(current) {
        devices.push(current)
    } else {
        devices
    };
    if with_current.len() == 0 {
        seq![Seq::<char>::empty()]
    } else {
        with_current
    }
}

/// The video devices offered in the menu (see [`video_options_spec`]).
pub fn video_device_options(video_devices: &[String], current: &str) -> (options: Vec<String>)
    ensures
        options@.map_values(|s: String| s@) == video_options_spec(
            video_devices@.map_values(|s: String| s@),
            current@,
        ),
{
    let ghost devs = video_devices@.map_values(|s: String| s@);
    let mut options: Vec<String> = Vec::new();
    let mut found = false;
    let mut i: usize = 0;
    while i < video_devices.len()
        invariant
            i <= video_devices.len(),
            devs == video_devices@.map_values(|s: String| s@),
            options@.map_values(|s: String| s@) == devs.take(i as int),
            found == devs.take(i as int).contains(current@),
        decreases video_devices.len() - i,
    {
        let d = video_devices[i].clone();
        let same = str_eq(d.as_str(), current);
        assert(devs.take(i as int + 1) == devs.take(i as int).push(devs[i as int]));
        proof {
            let t0 = devs.take(i as int);
            let t1 = devs.take(i as int + 1);
            if t0.contains(current@) {
                let k = choose|k: int| 0 <= k < t0.len() && t0[k] == current@;
                assert(t1[k] == current@);
            }
            if t1.contains(current@) && !(devs[i as int] == current@) {
                let k = choose|k: int| 0 <= k < t1.len() && t1[k] == current@;
                assert(t0[k] == current@);
            }
            if devs[i as int] == current@ {
                assert(t1[i as int] == current@);
            }
        }
        if same {
            found = true;
        }
        options.push(d);
        assert(options@.map_values(|s: String| s@) == devs.take(i as int + 1));
        i += 1;
    }
    assert(devs.take(video_devices.len() as int) == devs);
    if !current.is_empty() && !found {
        options.push(owned(current));
        assert(options@.map_values(|s: String| s@) == devs.push(current@));
    }
    if options.is_empty() {
        options.push(String::new());
        assert(options@.map_values(|s: String| s@) == seq![Seq::<char>::empty()]);
    }
    options
}

/// The shown name of a device choice: the name, or a notice when empty.
pub fn display_or_default(value: &str) -> (shown: String)
    ensures
        shown@ == if value@.len() == 0 {
            "No Devices Found"@
        } else {
            value@
        },
{
    if value.is_empty() {
        owned("No Devices Found")
    } else {
        owned(value)
    }
}

/// The first device with the given index, if any.
pub open spec fn first_with_index(devices: Seq<AudioDevice>, index: i32) -> Option<AudioDevice>
    decreases devices.len(),
{
    if devices.len() == 0 {
        None
    } else if devices[0].index == index {
        Some(devices[0])
    } else {
        first_with_index(devices.drop_first(), index)
    }
}

/// The shown name of an audio device choice: "Default" for no saved index,
/// the device's name when it is present, otherwise "Saved Device #<index>".
pub open spec fn audio_device_label(index: i32, devices: Seq<AudioDevice>) -> Seq<char> {
    if index < 0 {
        "Default"@
    } else {
        match first_with_index(devices, index) {
            Some(d) => d.name@,
            None => "Saved Device #"@ + decimal(index as nat),
        }
    }
}

/// The shown name of an audio device choice (see [`audio_device_label`]).
pub fn audio_device_name(index: i32, devices: &[AudioDevice]) -> (name: String)
    ensures
        name@ == audio_device_label(index, devices@),
{
    if index < 0 {
        return owned("Default");
    }
    let mut i: usize = 0;
    assert(devices@.skip(0) == devices@);
    while i < devices.len()
        invariant
            i <= devices.len(),
            index >= 0,
            first_with_index(devices@, index) == first_with_index(devices@.skip(i as int), index),
        decreases devices.len() - i,
    {
        assert(devices@.skip(i as int).drop_first() == devices@.skip(i as int + 1));
        assert(devices@.skip(i as int)[0] == devices@[i as int]);
        if devices[i].index == index {
            assert(first_with_index(devices@.skip(i as int), index) == Some(devices@[i as int]));
            return devices[i].name.clone();
        }
        i += 1;
    }
    let mut label = owned("Saved Device #");
    push_decimal(&mut label, index as u64);
    label
}

/// ASCII upper-casing of one character.
pub open spec fn ascii_upper(c: char) -> char {
    if 'a' <= c && c <= 'z' {
        ((c as u32) - 32) as char
    } else {
        c
    }
}

/// The characters of `s` upper-cased and separated by single spaces.
pub open spec fn spaced(s: Seq<char>) -> Seq<char>
    decreases s.len(),
{
    if s.len() == 0 {
        Seq::empty()
    } else if s.len() == 1 {
        seq![ascii_upper(s[0])]
    } else {
        spaced(s.drop_last()) + seq![' ', ascii_upper(s.last())]
    }
}

/// Section headers: each character upper-cased, with spaces between.
pub fn spaced_caps(text: &str) -> (out: String)
    ensures
        out@ == spaced(text@),
{
    let chars = chars_of(text);
    let mut out = String::new();
    let mut i: usize = 0;
    while i < chars.len()
        invariant
            i <= chars.len(),
            chars@ == text@,
            out@ == spaced(chars@.take(i as int)),
        decreases chars.len() - i,
    {
        let c = chars[i];
        let up = if 'a' <= c && c <= 'z' {
            let b: u8 = c as u8;
            let r: u8 = b - 32;
            r as char
        } else {
            c
        };
        assert(chars@.take(i as int + 1).drop_last() == chars@.take(i as int));
        if i > 0 {
            push_char(&mut out, ' ');
        }
        push_char(&mut out, up);
        i += 1;
    }
    assert(chars@.take(chars.len() as int) == chars@);
    out
}

/// Law: spacing out `n >= 1` characters gives `2n - 1` characters.
pub proof fn lemma_spaced_len(s: Seq<char>)
    ensures
        s.len() > 0 ==> spaced(s).len() == 2 * s.len() - 1,
        s.len() == 0 ==> spaced(s).len() == 0,
    decreases s.len(),
{
    if s.len() > 1 {
        lemma_spaced_len(s.drop_last());
    }
}

/// The label of a frame-rate mode in the menu.
pub fn fps_mode_label(fps_mode: &str) -> (label: &'static str)
    ensures
        label@ == if fps_mode@ == FPS_MODE_30@ {
            "30 FPS"@
        } else if fps_mode@ == FPS_MODE_120@ {
            "120 FPS"@
        } else if fps_mode@ == FPS_MODE_CUSTOM@ {
            "Custom"@
        } else {
            "60 FPS"@
        },
{
    if str_eq(fps_mode, FPS_MODE_30) {
        "30 FPS"
    } else if str_eq(fps_mode, FPS_MODE_120) {
        "120 FPS"
    } else if str_eq(fps_mode, FPS_MODE_CUSTOM) {
        "Custom"
    } else {
        "60 FPS"
    }
}

/// The warning shown under the frame-rate choice, if any.
pub fn fps_mode_warning(fps_mode: &str) -> (warning: Option<&'static str>)
    ensures
        fps_mode@ == FPS_MODE_CUSTOM@ ==> (warning matches Some(w) && w@
            == "Custom FPS is experimental and is not guaranteed to work with all devices."@),
        fps_mode@ != FPS_MODE_CUSTOM@ && fps_mode@ == FPS_MODE_120@ ==> (warning matches Some(w) && w@
            == "A fast CPU is required for 120 FPS. Performance may vary by hardware."@),
        fps_mode@ != FPS_MODE_CUSTOM@ && fps_mode@ != FPS_MODE_120@ ==> warning is None,
{
    if str_eq(fps_mode, FPS_MODE_CUSTOM) {
        Some("Custom FPS is experimental and is not guaranteed to work with all devices.")
    } else if str_eq(fps_mode, FPS_MODE_120) {
        Some("A fast CPU is required for 120 FPS. Performance may vary by hardware.")
    } else {
        None
    }
}

/// The custom frame rate after pressing "-" (`up == false`) or "+": one
/// lower, but not below [`MIN_FPS`], or one higher, but not above
/// [`MAX_FPS`].
pub fn step_custom_fps(fps: u32, up: bool) -> (next: u32)
    ensures
        !up ==> next == if fps <= MIN_FPS + 1 {
            MIN_FPS
        } else {
            (fps - 1) as u32
        },
        up ==> next == if fps >= MAX_FPS - 1 {
            MAX_FPS
        } else {
            (fps + 1) as u32
        },
{
    if up {
        let n = fps.saturating_add(1);
        if n < MAX_FPS {
            n
        } else {
            MAX_FPS
        }
    } else {
        let n = fps.saturating_sub(1);
        if n > MIN_FPS {
            n
        } else {
            MIN_FPS
        }
    }
}

/// Law: stepping keeps a custom frame rate inside [`MIN_FPS`, `MAX_FPS`],
/// and one step down undoes one step up inside that range.
pub proof fn lemma_step_stays_in_range(fps: u32)
    requires
        MIN_FPS <= fps <= MAX_FPS,
    ensures
        ({
            let down = if fps <= MIN_FPS + 1 {
                MIN_FPS
            } else {
                (fps - 1) as u32
            };
            let up = if fps >= MAX_FPS - 1 {
                MAX_FPS
            } else {
                (fps + 1) as u32
            };
            &&& MIN_FPS <= down <= MAX_FPS
            &&& MIN_FPS <= up <= MAX_FPS
            &&& fps < MAX_FPS ==> (if up <= MIN_FPS + 1 {
                MIN_FPS
            } else {
                (up - 1) as u32
            }) == fps
        }),
{
}

/// The label of the fullscreen button.
pub fn fullscreen_label(is_fullscreen: bool) -> (label: &'static str)
    ensures
        label@ == if is_fullscreen {
            "Exit Fullscreen"@
        } else {
            "Enter Fullscreen"@
        },
{
    if is_fullscreen {
        "Exit Fullscreen"
    } else {
        "Enter Fullscreen"
    }
}

/// How the audio status line is coloured.
#[derive(Debug, Clone, Copy, PartialEq, Eq)]
pub enum StatusTone {
    /// Connected.
    Good,
    /// Stopped.
    Idle,
    /// Anything else.
    Alert,
}

/// The tone of an audio status text.
pub fn audio_status_tone(audio_status: &str) -> (tone: StatusTone)
    ensures
        tone == if has_prefix(audio_status@, "Connected"@) {
            StatusTone::Good
        } else if has_prefix(audio_status@, "Stopped"@) {
            StatusTone::Idle
        } else {
            StatusTone::Alert
        },
{
    let s = chars_of(audio_status);
    if starts_with_chars(s.as_slice(), chars_of("Connected").as_slice()) {
        StatusTone::Good
    } else if starts_with_chars(s.as_slice(), chars_of("Stopped").as_slice()) {
        StatusTone::Idle
    } else {
        StatusTone::Alert
    }
}

} // verus!
