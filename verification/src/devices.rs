//! Audio device descriptions and the keyword matching that pairs a capture
//! card's video device with the audio input it exposes.
use vstd::prelude::*;
use crate::text::{
    push_str, trim, trim_chars,
    ascii_lower, chars_eq, chars_of, contains_chars, contains_sub, is_space, is_space_char,
    lower, lower_chars, lower_char, string_from_chars, words,
};

verus! {

/// An audio endpoint as enumerated by the audio host: its position in the
/// host's device list and its name.
#[derive(Debug)]
pub struct AudioDevice {
    pub index: i32,
    pub name: String,
}

impl Clone for AudioDevice {
    fn clone(&self) -> (copy: Self)
        ensures
            copy == *self,
    {
        AudioDevice { index: self.index, name: self.name.clone() }
    }
}

/// `c` lower-cased, or a space when it is one of `separators`.
pub open spec fn normalize_char(c: char, separators: Seq<char>) -> char {
    if separators.contains(c) {
        ' '
    } else {
        ascii_lower(c)
    }
}

/// Bytes in the UTF-8 encoding of `c`.
pub open spec fn utf8_width(c: char) -> nat {
    if (c as u32) < 0x80 {
        1
    } else if (c as u32) < 0x800 {
        2
    } else if (c as u32) < 0x10000 {
        3
    } else {
        4
    }
}

/// Bytes in the UTF-8 encoding of `s` (what `str::len` counts).
pub open spec fn utf8_len(s: Seq<char>) -> nat
    decreases s.len(),
{
    if s.len() == 0 {
        0
    } else {
        utf8_len(s.drop_last()) + utf8_width(s.last())
    }
}

/// Whether the UTF-8 encoding of `w` takes at least three bytes.
fn at_least_three_bytes(w: &[char]) -> (r: bool)
    ensures
        r == (utf8_len(w@) >= 3),
{
    let mut total: usize = 0;
    let mut i: usize = 0;
    while i < w.len()
        invariant
            i <= w.len(),
            total == utf8_len(w@.take(i as int)),
            total < 3,
        decreases w.len() - i,
    {
        let c = w[i];
        let width: usize = if (c as u32) < 0x80 {
            1
        } else if (c as u32) < 0x800 {
            2
        } else if (c as u32) < 0x10000 {
            3
        } else {
            4
        };
        assert(w@.take(i as int + 1).drop_last() == w@.take(i as int));
        total = total + width;
        i += 1;
        if total >= 3 {
            proof {
                lemma_utf8_len_prefix_monotone(w@, i as int);
            }
            return true;
        }
    }
    assert(w@.take(w.len() as int) == w@);
    false
}

proof fn lemma_utf8_len_prefix_monotone(s: Seq<char>, i: int)
    requires
        0 <= i <= s.len(),
    ensures
        utf8_len(s.take(i)) <= utf8_len(s),
    decreases s.len() - i,
{
    if i < s.len() {
        lemma_utf8_len_prefix_monotone(s, i + 1);
        assert(s.take(i + 1).drop_last() == s.take(i));
    } else {
        assert(s.take(i) == s);
    }
}

/// The words of `s` (an ordered list) that are at least three bytes long in
/// UTF-8 and not in `ignored`.
pub open spec fn keep_keywords(ws: Seq<Seq<char>>, ignored: Seq<Seq<char>>) -> Seq<Seq<char>>
    decreases ws.len(),
{
    if ws.len() == 0 {
        Seq::empty()
    } else {
        let prev = keep_keywords(ws.drop_last(), ignored);
        let w = ws.last();
        if utf8_len(w) >= 3 && !ignored.contains(w) {
            prev.push(w)
        } else {
            prev
        }
    }
}

/// The keywords of a device name: lower-case it, turn `separators` into
/// spaces, split at whitespace, and keep the words of three or more bytes that
/// are not `ignored`.
pub open spec fn keywords_spec(name: Seq<char>, separators: Seq<char>, ignored: Seq<Seq<char>>) -> Seq<Seq<char>> {
    keep_keywords(words(name.map_values(|c: char| normalize_char(c, separators))), ignored)
}

/// How many of `keys` (counted with repetition) occur in `hay`.
pub open spec fn match_score(keys: Seq<Seq<char>>, hay: Seq<char>) -> nat
    decreases keys.len(),
{
    if keys.len() == 0 {
        0
    } else {
        match_score(keys.drop_last(), hay) + if contains_sub(hay, keys.last()) {
            1nat
        } else {
            0nat
        }
    }
}

/// The first device with the highest nonzero score among `devices`, and that
/// score.
pub open spec fn best_match(keys: Seq<Seq<char>>, devices: Seq<AudioDevice>) -> (Option<i32>, nat)
    decreases devices.len(),
{
    if devices.len() == 0 {
        (None, 0)
    } else {
        let prev = best_match(keys, devices.drop_last());
        let d = devices.last();
        let score = match_score(keys, lower(d.name@));
        if score > prev.1 {
            (Some(d.index), score)
        } else {
            prev
        }
    }
}

/// The input chosen for the keywords of a video device: the best-scoring
/// input, provided it matches every keyword when there is only one, and at
/// least two otherwise.
pub open spec fn matched_input(keys: Seq<Seq<char>>, devices: Seq<AudioDevice>) -> Option<i32> {
    if keys.len() == 0 {
        None
    } else {
        let best = best_match(keys, devices);
        let threshold: nat = if keys.len() == 1 {
            1
        } else {
            2
        };
        if best.1 >= threshold {
            best.0
        } else {
            None
        }
    }
}

/// The view of a list of character vectors.
pub open spec fn views(v: Seq<Vec<char>>) -> Seq<Seq<char>> {
    v.map_values(|w: Vec<char>| w@)
}

/// The characters of `s`, lower-cased and with `separators` turned into
/// spaces.
fn normalize(s: &str, separators: &[char]) -> (r: Vec<char>)
    ensures
        r@ == s@.map_values(|c: char| normalize_char(c, separators@)),
{
    let v = chars_of(s);
    let mut r: Vec<char> = Vec::new();
    let mut i: usize = 0;
    while i < v.len()
        invariant
            i <= v.len(),
            v@ == s@,
            r@ == v@.take(i as int).map_values(|c: char| normalize_char(c, separators@)),
        decreases v.len() - i,
    {
        let c = v[i];
        let mut is_sep = false;
        let mut k: usize = 0;
        while k < separators.len()
            invariant
                k <= separators.len(),
                is_sep == (exists|t: int| 0 <= t < k && separators@[t] == c),
            decreases separators.len() - k,
        {
            if separators[k] == c {
                is_sep = true;
            }
            k += 1;
        }
        let n = if is_sep {
            ' '
        } else {
            lower_char(c)
        };
        assert(is_sep == separators@.contains(c));
        r.push(n);
        assert(v@.take(i as int + 1) == v@.take(i as int).push(c));
        i += 1;
    }
    assert(v@.take(v.len() as int) == v@);
    r
}

/// The words of `s` (`str::split_whitespace`).
pub fn split_words(s: &[char]) -> (ws: Vec<Vec<char>>)
    ensures
        views(ws@) == words(s@),
{
    let mut done: Vec<Vec<char>> = Vec::new();
    let mut cur: Vec<char> = Vec::new();
    let mut i: usize = 0;
    while i < s.len()
        invariant
            i <= s.len(),
            cur@.len() > 0 ==> i > 0 && !is_space(s@[i - 1]) && views(done@).push(cur@) == words(
                s@.take(i as int),
            ),
            cur@.len() == 0 ==> (i == 0 || is_space(s@[i - 1])) && views(done@) == words(
                s@.take(i as int),
            ),
        decreases s.len() - i,
    {
        let c = s[i];
        let ghost prefix = s@.take(i as int);
        let ghost next = s@.take(i as int + 1);
        assert(next.drop_last() == prefix);
        assert(next.last() == c);
        if is_space_char(c) {
            if cur.len() > 0 {
                let w = cur;
                done.push(w);
                cur = Vec::new();
                assert(views(done@) == words(next));
            } else {
                assert(views(done@) == words(next));
            }
        } else {
            if cur.len() > 0 {
                assert(next[next.len() - 2] == s@[i - 1]);
                cur.push(c);
                assert(views(done@).push(cur@) == words(next));
            } else {
                proof {
                    if i > 0 {
                        assert(next[next.len() - 2] == s@[i - 1]);
                    }
                }
                cur.push(c);
                assert(cur@ == seq![c]);
                assert(views(done@).push(cur@) == words(next));
            }
        }
        i += 1;
    }
    assert(s@.take(s.len() as int) == s@);
    if cur.len() > 0 {
        done.push(cur);
        assert(views(done@) == words(s@));
    }
    done
}

/// Whether `w` is one of `ignored`.
fn is_ignored(w: &[char], ignored: &Vec<Vec<char>>) -> (r: bool)
    ensures
        r == views(ignored@).contains(w@),
{
    let mut k: usize = 0;
    while k < ignored.len()
        invariant
            k <= ignored.len(),
            forall|t: int| 0 <= t < k ==> views(ignored@)[t] != w@,
        decreases ignored.len() - k,
    {
        if chars_eq(ignored[k].as_slice(), w) {
            assert(views(ignored@)[k as int] == w@);
            return true;
        }
        k += 1;
    }
    false
}

/// The keywords of `name` under the given separators and ignored words.
pub(crate) fn keywords_with(name: &str, separators: &[char], ignored: &Vec<Vec<char>>) -> (keys: Vec<String>)
    ensures
        keys@.map_values(|k: String| k@) == keywords_spec(name@, separators@, views(ignored@)),
{
    let normalized = normalize(name, separators);
    let ws = split_words(normalized.as_slice());
    let ghost all = views(ws@);
    let mut keys: Vec<String> = Vec::new();
    let mut i: usize = 0;
    while i < ws.len()
        invariant
            i <= ws.len(),
            all == views(ws@),
            keys@.map_values(|k: String| k@) == keep_keywords(all.take(i as int), views(ignored@)),
        decreases ws.len() - i,
    {
        let w = string_from_chars(ws[i].as_slice());
        let ghost next = all.take(i as int + 1);
        assert(next.drop_last() == all.take(i as int));
        assert(next.last() == w@);
        let long_enough = at_least_three_bytes(ws[i].as_slice());
        if long_enough && !is_ignored(ws[i].as_slice(), ignored) {
            keys.push(w);
            assert(keys@.map_values(|k: String| k@) == keep_keywords(next, views(ignored@)));
        } else {
            assert(keys@.map_values(|k: String| k@) == keep_keywords(next, views(ignored@)));
        }
        i += 1;
    }
    assert(all.take(ws.len() as int) == all);
    keys
}

/// The words "pro", "the" and "and", as characters.
pub(crate) fn literal_words(lits: &[&str]) -> (ws: Vec<Vec<char>>)
    ensures
        views(ws@) == lits@.map_values(|l: &str| l@),
{
    let mut ws: Vec<Vec<char>> = Vec::new();
    let mut i: usize = 0;
    while i < lits.len()
        invariant
            i <= lits.len(),
            views(ws@) == lits@.take(i as int).map_values(|l: &str| l@),
        decreases lits.len() - i,
    {
        ws.push(chars_of(lits[i]));
        assert(lits@.take(i as int + 1) == lits@.take(i as int).push(lits@[i as int]));
        assert(lits@.take(i as int + 1).map_values(|l: &str| l@) == lits@.take(i as int).map_values(
            |l: &str| l@,
        ).push(lits@[i as int]@));
        i += 1;
    }
    assert(lits@.take(lits.len() as int) == lits@);
    ws
}

/// How many of `keys` occur in `hay`.
fn count_matches(keys: &Vec<String>, hay: &[char]) -> (n: usize)
    ensures
        n == match_score(keys@.map_values(|k: String| k@), hay@),
{
    let ghost ks = keys@.map_values(|k: String| k@);
    let mut n: usize = 0;
    let mut i: usize = 0;
    while i < keys.len()
        invariant
            i <= keys.len(),
            ks == keys@.map_values(|k: String| k@),
            n == match_score(ks.take(i as int), hay@),
            n <= i,
        decreases keys.len() - i,
    {
        let k = chars_of(keys[i].as_str());
        assert(ks.take(i as int + 1).drop_last() == ks.take(i as int));
        if contains_chars(hay, k.as_slice()) {
            n += 1;
        }
        i += 1;
    }
    assert(ks.take(keys.len() as int) == ks);
    n
}

/// The input chosen for the given keywords (see [`matched_input`]).
pub(crate) fn match_input(keys: &Vec<String>, inputs: &[AudioDevice]) -> (found: Option<i32>)
    ensures
        found == matched_input(keys@.map_values(|k: String| k@), inputs@),
{
    let ghost ks = keys@.map_values(|k: String| k@);
    if keys.len() == 0 {
        return None;
    }
    let mut best_index: Option<i32> = None;
    let mut best_score: usize = 0;
    let mut i: usize = 0;
    while i < inputs.len()
        invariant
            i <= inputs.len(),
            ks == keys@.map_values(|k: String| k@),
            (best_index, best_score as nat) == best_match(ks, inputs@.take(i as int)),
        decreases inputs.len() - i,
    {
        let name = chars_of(inputs[i].name.as_str());
        let hay = lower_chars(name.as_slice());
        let score = count_matches(keys, hay.as_slice());
        assert(inputs@.take(i as int + 1).drop_last() == inputs@.take(i as int));
        if score > best_score {
            best_score = score;
            best_index = Some(inputs[i].index);
        }
        i += 1;
    }
    assert(inputs@.take(inputs.len() as int) == inputs@);
    let threshold: usize = if keys.len() == 1 {
        1
    } else {
        2
    };
    if best_score >= threshold {
        best_index
    } else {
        None
    }
}

/// Words never used as keywords.
pub open spec fn ignored_words() -> Seq<Seq<char>> {
    seq!["pro"@, "the"@, "and"@]
}

/// The keywords of a video device name: lower-cased, hyphens read as spaces,
/// words of three or more bytes other than "pro", "the" and "and".
pub fn keywords_for_device_name(device_name: &str) -> (keys: Vec<String>)
    ensures
        keys@.map_values(|k: String| k@) == keywords_spec(device_name@, seq!['-'], ignored_words()),
{
    let lits: [&str; 3] = ["pro", "the", "and"];
    let ignored = literal_words(&lits);
    assert(lits@.map_values(|l: &str| l@) == ignored_words());
    let seps: [char; 1] = ['-'];
    let keys = keywords_with(device_name, &seps, &ignored);
    assert(seps@ == seq!['-']);
    keys
}

/// The audio input that belongs to a video device: the input whose name
/// shares the most keywords with the video device's name (see
/// [`matched_input`]), or `None` when no input shares enough.
pub fn find_audio_input_for_video(video_device_name: &str, inputs: &[AudioDevice]) -> (found: Option<i32>)
    ensures
        found == matched_input(
            keywords_spec(video_device_name@, seq!['-'], ignored_words()),
            inputs@,
        ),
{
    let keys = keywords_for_device_name(video_device_name);
    match_input(&keys, inputs)
}

/// Law: a matched input is one of the given inputs.
pub proof fn lemma_match_is_an_input(keys: Seq<Seq<char>>, devices: Seq<AudioDevice>)
    ensures
        matched_input(keys, devices) matches Some(i) ==> exists|k: int|
            0 <= k < devices.len() && #[trigger] devices[k].index == i,
    decreases devices.len(),
{
    lemma_best_is_an_input(keys, devices);
}

proof fn lemma_best_is_an_input(keys: Seq<Seq<char>>, devices: Seq<AudioDevice>)
    ensures
        best_match(keys, devices).0 matches Some(i) ==> exists|k: int|
            0 <= k < devices.len() && #[trigger] devices[k].index == i,
    decreases devices.len(),
{
    if devices.len() > 0 {
        let prev = devices.drop_last();
        lemma_best_is_an_input(keys, prev);
        if best_match(keys, prev).0 is Some {
            let i = best_match(keys, prev).0->0;
            let k = choose|k: int| 0 <= k < prev.len() && #[trigger] prev[k].index == i;
            assert(devices[k].index == i);
        }
        assert(devices[devices.len() - 1] == devices.last());
    }
}

/// How many of `keys` occur in the lower-cased name of input `k`.
pub open spec fn input_score(keys: Seq<Seq<char>>, devices: Seq<AudioDevice>, k: int) -> nat {
    match_score(keys, lower(devices[k].name@))
}

/// The best score found is the highest score of any input, and when it is
/// nonzero it belongs to the first input reaching it.
proof fn lemma_best_is_first_max(keys: Seq<Seq<char>>, devices: Seq<AudioDevice>)
    ensures
        forall|t: int| 0 <= t < devices.len() ==> #[trigger] input_score(keys, devices, t)
            <= best_match(keys, devices).1,
        best_match(keys, devices).1 == 0 ==> best_match(keys, devices).0 is None,
        best_match(keys, devices).1 > 0 ==> exists|j: int|
            0 <= j < devices.len() && best_match(keys, devices).0 == Some(devices[j].index)
                && #[trigger] input_score(keys, devices, j) == best_match(keys, devices).1 && forall|
                t: int,
            | 0 <= t < j ==> #[trigger] input_score(keys, devices, t) < best_match(keys, devices).1,
    decreases devices.len(),
{
    if devices.len() > 0 {
        let prev = devices.drop_last();
        let n = devices.len() - 1;
        lemma_best_is_first_max(keys, prev);
        assert(devices[n] == devices.last());
        assert forall|t: int| 0 <= t < n implies #[trigger] input_score(keys, devices, t)
            == input_score(keys, prev, t) by {
            assert(devices[t] == prev[t]);
        }
        let pb = best_match(keys, prev);
        if input_score(keys, devices, n) > pb.1 {
            assert forall|t: int| 0 <= t < n implies #[trigger] input_score(keys, devices, t)
                < best_match(keys, devices).1 by {
                assert(input_score(keys, devices, t) == input_score(keys, prev, t));
            }
        } else if pb.1 > 0 {
            let j = choose|j: int|
                0 <= j < prev.len() && pb.0 == Some(prev[j].index) && #[trigger] input_score(
                    keys,
                    prev,
                    j,
                ) == pb.1 && forall|t: int| 0 <= t < j ==> #[trigger] input_score(keys, prev, t) < pb.1;
            assert(devices[j] == prev[j]);
            assert(input_score(keys, devices, j) == input_score(keys, prev, j));
            assert forall|t: int| 0 <= t < j implies #[trigger] input_score(keys, devices, t) < pb.1 by {
                assert(input_score(keys, devices, t) == input_score(keys, prev, t));
            }
        }
        assert forall|t: int| 0 <= t < devices.len() implies #[trigger] input_score(keys, devices, t)
            <= best_match(keys, devices).1 by {
            if t < n {
                assert(input_score(keys, devices, t) == input_score(keys, prev, t));
            }
        }
    }
}

/// Law (matching threshold): an input that shares at least two keywords with
/// the video device's name — or the only keyword, when the name has just one
/// — is enough for a match, however many keywords the name has. The input
/// matched is then the first one among those sharing the most keywords.
pub proof fn lemma_two_shared_keywords_match(keys: Seq<Seq<char>>, devices: Seq<AudioDevice>, k: int)
    requires
        keys.len() >= 1,
        0 <= k < devices.len(),
        input_score(keys, devices, k) >= if keys.len() == 1 {
            1nat
        } else {
            2nat
        },
    ensures
        exists|j: int|
            0 <= j < devices.len() && matched_input(keys, devices) == Some(devices[j].index)
                && #[trigger] input_score(keys, devices, j) >= input_score(keys, devices, k)
                && (forall|t: int|
                0 <= t < devices.len() ==> #[trigger] input_score(keys, devices, t) <= input_score(
                    keys,
                    devices,
                    j,
                )) && (forall|t: int|
                0 <= t < j ==> #[trigger] input_score(keys, devices, t) < input_score(keys, devices, j)),
{
    lemma_best_is_first_max(keys, devices);
    assert(input_score(keys, devices, k) <= best_match(keys, devices).1);
}


/// The menu label of a V4L2 device: its name (from its `name` file, trimmed)
/// followed by its device node, or nothing when the name is blank.
pub open spec fn v4l2_label(name_file: Seq<char>, entry_name: Seq<char>) -> Option<Seq<char>> {
    let name = trim(name_file);
    if name.len() == 0 {
        None
    } else {
        Some(name + " (/dev/"@ + entry_name + ")"@)
    }
}

/// The menu label of a V4L2 device (see [`v4l2_label`]).
pub fn v4l2_device_label(name_file: &str, entry_name: &str) -> (label: Option<String>)
    ensures
        match label {
            Some(l) => v4l2_label(name_file@, entry_name@) == Some(l@),
            None => v4l2_label(name_file@, entry_name@) is None,
        },
{
    let name = trim_chars(chars_of(name_file).as_slice());
    if name.len() == 0 {
        return None;
    }
    let mut label = string_from_chars(name.as_slice());
    push_str(&mut label, " (/dev/");
    push_str(&mut label, entry_name);
    push_str(&mut label, ")");
    Some(label)
}

/// What the audio host reports about one device: its name, when it could be
/// read, and whether it supports the wanted stream direction.
#[derive(Debug)]
pub struct HostDevice {
    pub name: Option<String>,
    pub supported: bool,
}

/// The usable devices among `host` (those with a readable name that support
/// the direction), numbered by their position in the host's list.
pub open spec fn usable_devices(host: Seq<HostDevice>) -> Seq<AudioDevice>
    decreases host.len(),
{
    if host.len() == 0 {
        Seq::empty()
    } else {
        let prev = usable_devices(host.drop_last());
        let d = host.last();
        if d.supported && d.name is Some {
            prev.push(AudioDevice { index: (host.len() - 1) as i32, name: d.name->0 })
        } else {
            prev
        }
    }
}

/// The audio devices of one direction, from the host's device list (see
/// [`usable_devices`]).
pub fn collect_audio_devices(host: &[HostDevice]) -> (devices: Vec<AudioDevice>)
    requires
        host@.len() <= i32::MAX + 1,
    ensures
        devices@ == usable_devices(host@),
{
    let mut devices: Vec<AudioDevice> = Vec::new();
    let mut i: usize = 0;
    while i < host.len()
        invariant
            i <= host.len(),
            host@.len() <= i32::MAX + 1,
            devices@ == usable_devices(host@.take(i as int)),
        decreases host.len() - i,
    {
        assert(host@.take(i as int + 1).drop_last() == host@.take(i as int));
        if host[i].supported {
            if let Some(name) = &host[i].name {
                devices.push(AudioDevice { index: i as i32, name: name.clone() });
            }
        }
        i += 1;
    }
    assert(host@.take(host.len() as int) == host@);
    devices
}


/// Law: every keyword is a word of the name that is at least three bytes
/// long and not ignored, in the order the words occur.
pub proof fn lemma_keywords_filtered(ws: Seq<Seq<char>>, ignored: Seq<Seq<char>>)
    ensures
        forall|k: int|
            0 <= k < keep_keywords(ws, ignored).len() ==> utf8_len(
                #[trigger] keep_keywords(ws, ignored)[k],
            ) >= 3 && !ignored.contains(keep_keywords(ws, ignored)[k]) && ws.contains(
                keep_keywords(ws, ignored)[k],
            ),
        keep_keywords(ws, ignored).len() <= ws.len(),
    decreases ws.len(),
{
    if ws.len() > 0 {
        let prev = ws.drop_last();
        lemma_keywords_filtered(prev, ignored);
        let kept = keep_keywords(ws, ignored);
        assert forall|k: int| 0 <= k < kept.len() implies utf8_len(#[trigger] kept[k]) >= 3
            && !ignored.contains(kept[k]) && ws.contains(kept[k]) by {
            let pk = keep_keywords(prev, ignored);
            if k < pk.len() {
                assert(kept[k] == pk[k]);
                let j = choose|j: int| 0 <= j < prev.len() && prev[j] == pk[k];
                assert(ws[j] == prev[j]);
            } else {
                assert(kept[k] == ws.last());
                assert(ws[ws.len() - 1] == ws.last());
            }
        }
    }
}

} // verus!
