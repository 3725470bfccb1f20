//! Audio device selection rules used with the PipeWire / ALSA host: which
//! saved, matched or recognisable devices to try, in which order, before the
//! system default.
use vstd::prelude::*;
use crate::devices::{
    keywords_spec, keywords_with, literal_words, match_input, matched_input, views, AudioDevice,
};
use crate::text::{chars_of, contains_chars, contains_sub, lower, lower_chars};

verus! {

/// Stream direction a device must support.
#[derive(Debug, Clone, Copy, PartialEq, Eq)]
pub enum Direction {
    Input,
    Output,
}

/// Name fragments of devices that are likely capture-card audio.
pub open spec fn capture_keywords() -> Seq<Seq<char>> {
    seq![
        "capture"@,
        "hdmi"@,
        "usb audio"@,
        "shadowcast"@,
        "cam link"@,
        "camlink"@,
        "elgato"@,
        "avermedia"@,
        "mirabox"@,
        "video"@,
        "game"@,
        "ps4"@,
        "playstation"@,
        "interface"@,
        "endpoint"@,
        "pipewire"@,
        "alsa"@,
    ]
}

/// Words never used as keywords when matching a video device to its audio.
pub open spec fn ignored_words() -> Seq<Seq<char>> {
    seq!["pro"@, "the"@, "and"@, "audio"@, "device"@]
}

/// Characters read as word breaks in a video device name.
pub open spec fn separators() -> Seq<char> {
    seq!['-', '_', '/', '\\', '(', ')']
}

/// The lower-cased `name` contains one of the capture keywords.
pub open spec fn looks_like_capture(name: Seq<char>) -> bool {
    exists|k: int| 0 <= k < capture_keywords().len() && contains_sub(lower(name), #[trigger] capture_keywords()[k])
}

/// The indices of the devices whose names look like capture-card audio, in
/// order.
pub open spec fn capture_like(devices: Seq<AudioDevice>) -> Seq<i32>
    decreases devices.len(),
{
    if devices.len() == 0 {
        Seq::empty()
    } else {
        let prev = capture_like(devices.drop_last());
        if looks_like_capture(devices.last().name@) {
            prev.push(devices.last().index)
        } else {
            prev
        }
    }
}

/// The input devices to try, in order, before falling back to the system
/// default: the saved index (when one is saved), then the input matched to
/// the video device, then every input whose name looks like capture-card
/// audio.
pub open spec fn input_candidates(input_index: i32, video_name: Seq<char>, inputs: Seq<AudioDevice>) -> Seq<i32> {
    let saved = if input_index >= 0 {
        seq![input_index]
    } else {
        Seq::empty()
    };
    let matched = match matched_input(
        keywords_spec(video_name, separators(), ignored_words()),
        inputs,
    ) {
        Some(i) => seq![i],
        None => Seq::empty(),
    };
    saved + matched + capture_like(inputs)
}

/// The keywords of a video device name: lower-cased, `-`, `_`, `/`, `\`, `(`
/// and `)` read as spaces, words of three or more bytes other than "pro",
/// "the", "and", "audio" and "device".
pub fn keywords_for_device_name(device_name: &str) -> (keys: Vec<String>)
    ensures
        keys@.map_values(|k: String| k@) == keywords_spec(device_name@, separators(), ignored_words()),
{
    let lits: [&str; 5] = ["pro", "the", "and", "audio", "device"];
    let ignored = literal_words(&lits);
    assert(lits@.map_values(|l: &str| l@) == ignored_words());
    let seps: [char; 6] = ['-', '_', '/', '\\', '(', ')'];
    let keys = keywords_with(device_name, &seps, &ignored);
    assert(seps@ == separators());
    keys
}

/// The audio input that belongs to a video device: the input whose name
/// shares the most keywords with the video device's name, or `None` when no
/// input shares enough (see [`matched_input`]).
pub fn find_audio_input_for_video(video_device_name: &str, inputs: &[AudioDevice]) -> (found: Option<i32>)
    ensures
        found == matched_input(
            keywords_spec(video_device_name@, separators(), ignored_words()),
            inputs@,
        ),
{
    let keys = keywords_for_device_name(video_device_name);
    match_input(&keys, inputs)
}

/// Whether a device name looks like capture-card audio.
pub fn is_capture_like(name: &str) -> (r: bool)
    ensures
        r == looks_like_capture(name@),
{
    let lits: [&str; 17] = [
        "capture",
        "hdmi",
        "usb audio",
        "shadowcast",
        "cam link",
        "camlink",
        "elgato",
        "avermedia",
        "mirabox",
        "video",
        "game",
        "ps4",
        "playstation",
        "interface",
        "endpoint",
        "pipewire",
        "alsa",
    ];
    let keywords = literal_words(&lits);
    assert(views(keywords@) == capture_keywords());
    let hay = lower_chars(chars_of(name).as_slice());
    let mut k: usize = 0;
    while k < keywords.len()
        invariant
            k <= keywords.len(),
            views(keywords@) == capture_keywords(),
            hay@ == lower(name@),
            forall|t: int| 0 <= t < k ==> !contains_sub(hay@, #[trigger] capture_keywords()[t]),
        decreases keywords.len() - k,
    {
        assert(views(keywords@)[k as int] == keywords@[k as int]@);
        if contains_chars(hay.as_slice(), keywords[k].as_slice()) {
            return true;
        }
        k += 1;
    }
    false
}

/// The input devices to try, in order, before falling back to the system
/// default (see [`input_candidates`]).
pub fn input_device_candidates(input_index: i32, video_device_name: &str, inputs: &[AudioDevice]) -> (candidates: Vec<i32>)
    ensures
        candidates@ == input_candidates(input_index, video_device_name@, inputs@),
{
    let mut candidates: Vec<i32> = Vec::new();
    if input_index >= 0 {
        candidates.push(input_index);
    }
    if let Some(index) = find_audio_input_for_video(video_device_name, inputs) {
        candidates.push(index);
    }
    let ghost head = candidates@;
    let mut i: usize = 0;
    while i < inputs.len()
        invariant
            i <= inputs.len(),
            candidates@ == head + capture_like(inputs@.take(i as int)),
        decreases inputs.len() - i,
    {
        assert(inputs@.take(i as int + 1).drop_last() == inputs@.take(i as int));
        if is_capture_like(inputs[i].name.as_str()) {
            candidates.push(inputs[i].index);
        }
        i += 1;
    }
    assert(inputs@.take(inputs.len() as int) == inputs@);
    candidates
}

proof fn lemma_capture_like_are_inputs(devices: Seq<AudioDevice>)
    ensures
        forall|c: int| #![trigger capture_like(devices)[c]] 0 <= c < capture_like(devices).len() ==> exists|k: int|
            0 <= k < devices.len() && #[trigger] devices[k].index == capture_like(devices)[c],
    decreases devices.len(),
{
    if devices.len() > 0 {
        let prev = devices.drop_last();
        lemma_capture_like_are_inputs(prev);
        let cl = capture_like(devices);
        assert forall|c: int| #![trigger cl[c]] 0 <= c < cl.len() implies exists|k: int|
            0 <= k < devices.len() && #[trigger] devices[k].index == cl[c] by {
            if c < capture_like(prev).len() {
                let k = choose|k: int|
                    0 <= k < prev.len() && #[trigger] prev[k].index == capture_like(prev)[c];
                assert(devices[k] == prev[k]);
            } else {
                assert(devices[devices.len() - 1] == devices.last());
            }
        }
    }
}

/// Law (saved input first): whenever an input index is saved (any index from
/// zero up), it is the first device tried; when none is saved, every device
/// tried is one of the listed inputs.
pub proof fn lemma_saved_input_first(input_index: i32, video_name: Seq<char>, inputs: Seq<AudioDevice>)
    ensures
        input_index >= 0 ==> input_candidates(input_index, video_name, inputs).len() >= 1
            && input_candidates(input_index, video_name, inputs)[0] == input_index,
        input_index < 0 ==> forall|c: int|
            #![trigger input_candidates(input_index, video_name, inputs)[c]]
            0 <= c < input_candidates(input_index, video_name, inputs).len() ==> exists|k: int|
                0 <= k < inputs.len() && #[trigger] inputs[k].index == input_candidates(
                    input_index,
                    video_name,
                    inputs,
                )[c],
{
    let keys = keywords_spec(video_name, separators(), ignored_words());
    crate::devices::lemma_match_is_an_input(keys, inputs);
    lemma_capture_like_are_inputs(inputs);
    let cands = input_candidates(input_index, video_name, inputs);
    if input_index < 0 {
        let matched = match matched_input(keys, inputs) {
            Some(i) => seq![i],
            None => Seq::<i32>::empty(),
        };
        assert(cands == matched + capture_like(inputs));
        assert forall|c: int| #![trigger cands[c]] 0 <= c < cands.len() implies exists|k: int|
            0 <= k < inputs.len() && #[trigger] inputs[k].index == cands[c] by {
            if c < matched.len() {
                assert(cands[c] == matched_input(keys, inputs)->0);
            } else {
                assert(cands[c] == capture_like(inputs)[c - matched.len()]);
            }
        }
    }
}

/// The output devices to try before falling back to the system default: the
/// saved index, when one is saved.
pub fn output_device_candidates(output_index: i32) -> (candidates: Vec<i32>)
    ensures
        candidates@ == if output_index >= 0 {
            seq![output_index]
        } else {
            Seq::<i32>::empty()
        },
{
    let mut candidates: Vec<i32> = Vec::new();
    if output_index >= 0 {
        candidates.push(output_index);
    }
    candidates
}

} // verus!
