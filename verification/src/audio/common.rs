//! Audio pipeline state shared by the capture and playback sides: connection
//! status and diagnostics, the sample ring buffer between the two stream
//! callbacks, the volume/mute control, and the channel-layout routing used
//! when the input and output devices disagree on the channel count.
//!
//! Samples travel through the library as the IEEE-754 bit patterns of their
//! `f32` values (`f32::to_bits`), so moving, queueing and silencing them is
//! exact; the arithmetic on sample values stays with the stream callbacks.
use vstd::prelude::*;
use crate::text::{decimal, owned, push_decimal, push_str};

verus! {

/// Real-time audio connection status reported to the UI and logger.
#[derive(Debug)]
pub enum AudioStatus {
    Connected,
    NoInput,
    NoOutput,
    Error(String),
    Stopped,
}

/// The text shown for a status in the UI.
pub open spec fn status_text(s: AudioStatus) -> Seq<char> {
    match s {
        AudioStatus::Connected => "Connected"@,
        AudioStatus::NoInput => "No Input Device"@,
        AudioStatus::NoOutput => "No Output Device"@,
        AudioStatus::Error(msg) => "Error: "@ + msg@,
        AudioStatus::Stopped => "Stopped"@,
    }
}

impl AudioStatus {
    /// The text shown for this status in the UI.
    pub fn describe(&self) -> (text: String)
        ensures
            text@ == status_text(*self),
    {
        match self {
            AudioStatus::Connected => owned("Connected"),
            AudioStatus::NoInput => owned("No Input Device"),
            AudioStatus::NoOutput => owned("No Output Device"),
            AudioStatus::Error(msg) => {
                let mut text = owned("Error: ");
                push_str(&mut text, msg.as_str());
                text
            },
            AudioStatus::Stopped => owned("Stopped"),
        }
    }
}

/// The sample encodings an audio device can use.
#[derive(Debug, Clone, Copy, PartialEq, Eq)]
pub enum SampleFormat {
    I8,
    I16,
    I32,
    I64,
    U8,
    U16,
    U32,
    U64,
    F32,
    F64,
}

/// The name of a sample format.
pub open spec fn sample_format_name(f: SampleFormat) -> Seq<char> {
    match f {
        SampleFormat::I8 => "I8"@,
        SampleFormat::I16 => "I16"@,
        SampleFormat::I32 => "I32"@,
        SampleFormat::I64 => "I64"@,
        SampleFormat::U8 => "U8"@,
        SampleFormat::U16 => "U16"@,
        SampleFormat::U32 => "U32"@,
        SampleFormat::U64 => "U64"@,
        SampleFormat::F32 => "F32"@,
        SampleFormat::F64 => "F64"@,
    }
}

impl SampleFormat {
    /// The name of this sample format.
    pub fn name(self) -> (n: &'static str)
        ensures
            n@ == sample_format_name(self),
    {
        match self {
            SampleFormat::I8 => "I8",
            SampleFormat::I16 => "I16",
            SampleFormat::I32 => "I32",
            SampleFormat::I64 => "I64",
            SampleFormat::U8 => "U8",
            SampleFormat::U16 => "U16",
            SampleFormat::U32 => "U32",
            SampleFormat::U64 => "U64",
            SampleFormat::F32 => "F32",
            SampleFormat::F64 => "F64",
        }
    }
}

/// Metadata about an active audio stream (for logging and UI inspection).
#[derive(Debug)]
pub struct AudioStreamInfo {
    pub device_name: String,
    pub sample_rate: u32,
    pub channels: u16,
    pub sample_format: SampleFormat,
}

/// `'<device>' (<channels> ch, <rate> Hz, <format>)`.
pub open spec fn stream_info_text(info: AudioStreamInfo) -> Seq<char> {
    "'"@ + info.device_name@ + "' ("@ + decimal(info.channels as nat) + " ch, "@ + decimal(
        info.sample_rate as nat,
    ) + " Hz, "@ + sample_format_name(info.sample_format) + ")"@
}

impl AudioStreamInfo {
    /// One-line description used in the log.
    pub fn describe(&self) -> (text: String)
        ensures
            text@ == stream_info_text(*self),
    {
        let mut text = owned("'");
        push_str(&mut text, self.device_name.as_str());
        push_str(&mut text, "' (");
        push_decimal(&mut text, self.channels as u64);
        push_str(&mut text, " ch, ");
        push_decimal(&mut text, self.sample_rate as u64);
        push_str(&mut text, " Hz, ");
        push_str(&mut text, self.sample_format.name());
        push_str(&mut text, ")");
        text
    }

    /// A field-by-field copy.
    pub fn duplicate(&self) -> (copy: AudioStreamInfo)
        ensures
            copy == *self,
    {
        AudioStreamInfo {
            device_name: self.device_name.clone(),
            sample_rate: self.sample_rate,
            channels: self.channels,
            sample_format: self.sample_format,
        }
    }
}

/// Copy of an optional stream description.
fn duplicate_info(info: &Option<AudioStreamInfo>) -> (copy: Option<AudioStreamInfo>)
    ensures
        copy == *info,
{
    match info {
        Some(i) => Some(i.duplicate()),
        None => None,
    }
}

/// Minimum time between two warnings about the same kind of buffer fault.
pub const REPORT_INTERVAL_NS: u64 = 5_000_000_000;

/// A warning is due when none was given yet or the last one is at least
/// `REPORT_INTERVAL_NS` old (a clock that went backwards counts as no time).
pub open spec fn report_due(last: Option<u64>, now_ns: u64) -> bool {
    match last {
        None => true,
        Some(t) => now_ns >= t && now_ns - t >= REPORT_INTERVAL_NS,
    }
}

/// What the diagnostics hold, as plain values.
pub struct DiagnosticsModel {
    pub status: AudioStatus,
    pub input_info: Option<AudioStreamInfo>,
    pub output_info: Option<AudioStreamInfo>,
    pub underruns: usize,
    pub overruns: usize,
    pub underrun_unreported: bool,
    pub overrun_unreported: bool,
    pub last_underrun_report: Option<u64>,
    pub last_overrun_report: Option<u64>,
}

/// Diagnostic state for monitoring the audio pipeline.
pub struct AudioDiagnostics {
    status_code: u32,
    last_error: Option<String>,
    input_info: Option<AudioStreamInfo>,
    output_info: Option<AudioStreamInfo>,
    underrun_counter: usize,
    overrun_counter: usize,
    underrun_unreported: bool,
    overrun_unreported: bool,
    last_underrun_log: Option<u64>,
    last_overrun_log: Option<u64>,
}

impl View for AudioDiagnostics {
    type V = DiagnosticsModel;

    closed spec fn view(&self) -> DiagnosticsModel {
        DiagnosticsModel {
            status: match self.status_code {
                1 => AudioStatus::Connected,
                2 => AudioStatus::NoInput,
                3 => AudioStatus::NoOutput,
                4 => AudioStatus::Error(self.last_error->0),
                _ => AudioStatus::Stopped,
            },
            input_info: self.input_info,
            output_info: self.output_info,
            underruns: self.underrun_counter,
            overruns: self.overrun_counter,
            underrun_unreported: self.underrun_unreported,
            overrun_unreported: self.overrun_unreported,
            last_underrun_report: self.last_underrun_log,
            last_overrun_report: self.last_overrun_log,
        }
    }
}

impl AudioDiagnostics {
    #[verifier::type_invariant]
    spec fn inv(self) -> bool {
        &&& self.status_code <= 4
        &&& (self.status_code == 4 ==> self.last_error is Some)
    }

    /// Fresh diagnostics: stopped, no stream information, no faults.
    pub fn new() -> (d: Self)
        ensures
            d@.status == AudioStatus::Stopped,
            d@.input_info is None,
            d@.output_info is None,
            d@.underruns == 0,
            d@.overruns == 0,
            !d@.underrun_unreported,
            !d@.overrun_unreported,
            d@.last_underrun_report is None,
            d@.last_overrun_report is None,
    {
        AudioDiagnostics {
            status_code: 0,
            last_error: None,
            input_info: None,
            output_info: None,
            underrun_counter: 0,
            overrun_counter: 0,
            underrun_unreported: false,
            overrun_unreported: false,
            last_underrun_log: None,
            last_overrun_log: None,
        }
    }

    /// Records the pipeline status.
    pub fn set_status(&mut self, status: AudioStatus)
        ensures
            final(self)@ == (DiagnosticsModel { status, ..old(self)@ }),
    {
        proof {
            use_type_invariant(&*self);
        }
        match status {
            AudioStatus::Stopped => {
                self.status_code = 0;
                self.last_error = None;
            },
            AudioStatus::Connected => {
                self.status_code = 1;
                self.last_error = None;
            },
            AudioStatus::NoInput => {
                self.status_code = 2;
                self.last_error = None;
            },
            AudioStatus::NoOutput => {
                self.status_code = 3;
                self.last_error = None;
            },
            AudioStatus::Error(err) => {
                self.last_error = Some(err);
                self.status_code = 4;
            },
        }
    }

    /// The pipeline status last recorded.
    pub fn status(&self) -> (s: AudioStatus)
        ensures
            s == self@.status,
    {
        proof {
            use_type_invariant(self);
        }
        match self.status_code {
            1 => AudioStatus::Connected,
            2 => AudioStatus::NoInput,
            3 => AudioStatus::NoOutput,
            4 => match &self.last_error {
                Some(e) => AudioStatus::Error(e.clone()),
                None => AudioStatus::Error(owned("unknown error")),
            },
            _ => AudioStatus::Stopped,
        }
    }

    /// Records the description of the input stream.
    pub fn set_input_info(&mut self, info: Option<AudioStreamInfo>)
        ensures
            final(self)@ == (DiagnosticsModel { input_info: info, ..old(self)@ }),
    {
        proof {
            use_type_invariant(&*self);
        }
        self.input_info = info;
    }

    /// Records the description of the output stream.
    pub fn set_output_info(&mut self, info: Option<AudioStreamInfo>)
        ensures
            final(self)@ == (DiagnosticsModel { output_info: info, ..old(self)@ }),
    {
        proof {
            use_type_invariant(&*self);
        }
        self.output_info = info;
    }

    /// The description of the input stream last recorded.
    pub fn input_info(&self) -> (info: Option<AudioStreamInfo>)
        ensures
            info == self@.input_info,
    {
        duplicate_info(&self.input_info)
    }

    /// The description of the output stream last recorded.
    pub fn output_info(&self) -> (info: Option<AudioStreamInfo>)
        ensures
            info == self@.output_info,
    {
        duplicate_info(&self.output_info)
    }

    /// Counts an output underrun (the playback side found the buffer empty).
    pub fn record_underrun(&mut self)
        ensures
            final(self)@ == (DiagnosticsModel {
                underruns: old(self)@.underruns.wrapping_add(1),
                underrun_unreported: true,
                ..old(self)@
            }),
    {
        proof {
            use_type_invariant(&*self);
        }
        self.underrun_counter = self.underrun_counter.wrapping_add(1);
        self.underrun_unreported = true;
    }

    /// Counts an input overrun (the capture side found the buffer full and
    /// dropped samples).
    pub fn record_overrun(&mut self)
        ensures
            final(self)@ == (DiagnosticsModel {
                overruns: old(self)@.overruns.wrapping_add(1),
                overrun_unreported: true,
                ..old(self)@
            }),
    {
        proof {
            use_type_invariant(&*self);
        }
        self.overrun_counter = self.overrun_counter.wrapping_add(1);
        self.overrun_unreported = true;
    }

    /// The total underrun count to warn about now, if an underrun was counted
    /// since the last call and the last warning is old enough; the warning is
    /// then noted as given at `now_ns`.
    pub fn take_underrun_report(&mut self, now_ns: u64) -> (report: Option<usize>)
        ensures
            report == (if old(self)@.underrun_unreported && report_due(
                old(self)@.last_underrun_report,
                now_ns,
            ) {
                Some(old(self)@.underruns)
            } else {
                None::<usize>
            }),
            final(self)@ == (DiagnosticsModel {
                underrun_unreported: false,
                last_underrun_report: if report is Some {
                    Some(now_ns)
                } else {
                    old(self)@.last_underrun_report
                },
                ..old(self)@
            }),
    {
        proof {
            use_type_invariant(&*self);
        }
        if !self.underrun_unreported {
            return None;
        }
        self.underrun_unreported = false;
        let due = match self.last_underrun_log {
            None => true,
            Some(t) => now_ns >= t && now_ns - t >= REPORT_INTERVAL_NS,
        };
        if due {
            self.last_underrun_log = Some(now_ns);
            Some(self.underrun_counter)
        } else {
            None
        }
    }

    /// The total overrun count to warn about now, if an overrun was counted
    /// since the last call and the last warning is old enough; the warning is
    /// then noted as given at `now_ns`.
    pub fn take_overrun_report(&mut self, now_ns: u64) -> (report: Option<usize>)
        ensures
            report == (if old(self)@.overrun_unreported && report_due(
                old(self)@.last_overrun_report,
                now_ns,
            ) {
                Some(old(self)@.overruns)
            } else {
                None::<usize>
            }),
            final(self)@ == (DiagnosticsModel {
                overrun_unreported: false,
                last_overrun_report: if report is Some {
                    Some(now_ns)
                } else {
                    old(self)@.last_overrun_report
                },
                ..old(self)@
            }),
    {
        proof {
            use_type_invariant(&*self);
        }
        if !self.overrun_unreported {
            return None;
        }
        self.overrun_unreported = false;
        let due = match self.last_overrun_log {
            None => true,
            Some(t) => now_ns >= t && now_ns - t >= REPORT_INTERVAL_NS,
        };
        if due {
            self.last_overrun_log = Some(now_ns);
            Some(self.overrun_counter)
        } else {
            None
        }
    }
}


/// Position `i` slots after `start` in a ring of `cap` slots, for `start < cap`
/// and `i <= cap`.
pub open spec fn ring_slot(start: int, i: int, cap: int) -> int {
    if start + i < cap {
        start + i
    } else {
        start + i - cap
    }
}

/// How many of `offered` samples a push takes when `queued` of `capacity`
/// slots are in use.
pub open spec fn push_accepts(queued: nat, offered: nat, capacity: nat) -> nat {
    if queued >= capacity {
        0
    } else if offered <= capacity - queued {
        offered
    } else {
        (capacity - queued) as nat
    }
}

/// How many samples a pop into `wanted` slots takes when `queued` are
/// available.
pub open spec fn pop_takes(queued: nat, wanted: nat) -> nat {
    if queued <= wanted {
        queued
    } else {
        wanted
    }
}

/// A bounded FIFO queue of samples between the capture callback, which pushes,
/// and the playback callback, which pops. Overflowing samples are dropped and
/// missing samples are played as silence; both are counted in the
/// diagnostics.
pub struct AudioRingBuffer {
    data: Vec<u32>,
    capacity: usize,
    read_index: usize,
    occupied: usize,
}

impl View for AudioRingBuffer {
    type V = Seq<u32>;

    /// The queued samples, oldest first.
    closed spec fn view(&self) -> Seq<u32> {
        Seq::new(
            self.occupied as nat,
            |i: int| self.data@[ring_slot(self.read_index as int, i, self.capacity as int)],
        )
    }
}

impl AudioRingBuffer {
    /// The buffer's internal invariant: every constructor establishes it and
    /// every method keeps it.
    pub closed spec fn wf(&self) -> bool {
        &&& self.data.len() == self.capacity
        &&& self.occupied <= self.capacity
        &&& (self.capacity == 0 ==> self.read_index == 0)
        &&& (self.capacity > 0 ==> self.read_index < self.capacity)
    }

    /// The number of samples the buffer can hold.
    pub closed spec fn spec_capacity(&self) -> nat {
        self.capacity as nat
    }

    /// An empty buffer that holds up to `capacity` samples.
    pub fn new(capacity: usize) -> (ring: Self)
        ensures
            ring.wf(),
            ring@ == Seq::<u32>::empty(),
            ring.spec_capacity() == capacity,
    {
        let mut data: Vec<u32> = Vec::new();
        let mut i: usize = 0;
        while i < capacity
            invariant
                i <= capacity,
                data.len() == i,
            decreases capacity - i,
        {
            data.push(0);
            i += 1;
        }
        let ring = AudioRingBuffer { data, capacity, read_index: 0, occupied: 0 };
        assert(ring@ == Seq::<u32>::empty());
        ring
    }

    /// The number of samples the buffer can hold.
    pub fn capacity(&self) -> (c: usize)
        ensures
            c == self.spec_capacity(),
    {
        self.capacity
    }

    /// The number of samples queued.
    pub fn available(&self) -> (n: usize)
        requires
            self.wf(),
        ensures
            n == self@.len(),
            n <= self.spec_capacity(),
    {
        self.occupied
    }

    /// Appends as many of `samples` as fit and returns how many it took. When
    /// the buffer was already full, or some samples did not fit, one overrun
    /// is recorded.
    pub fn push_samples(&mut self, samples: &[u32], diagnostics: &mut AudioDiagnostics) -> (written: usize)
        requires
            old(self).wf(),
        ensures
            final(self).wf(),
            old(self)@.len() <= old(self).spec_capacity(),
            written == push_accepts(old(self)@.len(), samples@.len(), old(self).spec_capacity()),
            final(self)@ == old(self)@ + samples@.take(written as int),
            final(self).spec_capacity() == old(self).spec_capacity(),
            final(diagnostics)@ == if old(self)@.len() == old(self).spec_capacity() || written
                < samples@.len() {
                DiagnosticsModel {
                    overruns: old(diagnostics)@.overruns.wrapping_add(1),
                    overrun_unreported: true,
                    ..old(diagnostics)@
                }
            } else {
                old(diagnostics)@
            },
    {
        let ghost before = self@;
        let cap = self.capacity;
        let occ = self.occupied;
        if occ >= cap {
            diagnostics.record_overrun();
            assert(samples@.take(0) == Seq::<u32>::empty());
            assert(self@ == before + samples@.take(0));
            return 0;
        }
        let space = cap - occ;
        let to_write = if samples.len() < space {
            samples.len()
        } else {
            space
        };
        if to_write < samples.len() {
            diagnostics.record_overrun();
        }
        let read = self.read_index;
        let mut slot: usize = if read >= cap - occ {
            read - (cap - occ)
        } else {
            read + occ
        };
        let mut written: usize = 0;
        while written < to_write
            invariant
                self.data.len() == cap,
                cap > 0,
                read < cap,
                occ + to_write <= cap,
                to_write <= samples.len(),
                written <= to_write,
                slot == ring_slot(read as int, occ + written, cap as int),
                before.len() == occ,
                forall|i: int|
                    0 <= i < occ ==> #[trigger] self.data@[ring_slot(read as int, i, cap as int)]
                        == before[i],
                forall|j: int|
                    0 <= j < written ==> #[trigger] self.data@[ring_slot(
                        read as int,
                        occ + j,
                        cap as int,
                    )] == samples@[j],
                self.capacity == cap,
                self.read_index == read,
                self.occupied == occ,
            decreases to_write - written,
        {
            self.data.set(slot, samples[written]);
            slot = if slot + 1 == cap {
                0
            } else {
                slot + 1
            };
            written += 1;
        }
        self.occupied = occ + to_write;
        assert forall|i: int| 0 <= i < occ + to_write implies #[trigger] self@[i] == (before
            + samples@.take(written as int))[i] by {
            if i >= occ {
                let j = i - occ;
                assert(self.data@[ring_slot(read as int, occ + j, cap as int)] == samples@[j]);
            }
        }
        assert(self@ == before + samples@.take(written as int));
        written
    }

    /// Fills `output` with the oldest queued samples, removing them from the
    /// buffer, and silences (zeroes) the rest of `output`; returns how many
    /// samples it took. When nothing at all was queued and `output` is not
    /// empty, one underrun is recorded.
    pub fn pop_samples(&mut self, output: &mut [u32], diagnostics: &mut AudioDiagnostics) -> (count: usize)
        requires
            old(self).wf(),
        ensures
            final(self).wf(),
            count == pop_takes(old(self)@.len(), old(output)@.len()),
            final(output)@.len() == old(output)@.len(),
            final(output)@.take(count as int) == old(self)@.take(count as int),
            forall|i: int| count <= i < final(output)@.len() ==> #[trigger] final(output)@[i] == 0,
            final(self)@ == old(self)@.skip(count as int),
            final(self).spec_capacity() == old(self).spec_capacity(),
            final(diagnostics)@ == if old(self)@.len() == 0 && old(output)@.len() > 0 {
                DiagnosticsModel {
                    underruns: old(diagnostics)@.underruns.wrapping_add(1),
                    underrun_unreported: true,
                    ..old(diagnostics)@
                }
            } else {
                old(diagnostics)@
            },
    {
        let ghost before = self@;
        let cap = self.capacity;
        let read = self.read_index;
        let available = self.occupied;
        let count = if available < output.len() {
            available
        } else {
            output.len()
        };
        let mut slot = read;
        let mut k: usize = 0;
        while k < count
            invariant
                self.data.len() == cap,
                count <= available,
                available <= cap,
                cap > 0 ==> read < cap,
                count <= output@.len(),
                output@.len() == old(output)@.len(),
                k <= count,
                k < count ==> slot == ring_slot(read as int, k as int, cap as int),
                before.len() == available,
                forall|i: int|
                    0 <= i < available ==> #[trigger] self.data@[ring_slot(
                        read as int,
                        i,
                        cap as int,
                    )] == before[i],
                forall|j: int| 0 <= j < k ==> #[trigger] output@[j] == before[j],
            decreases count - k,
        {
            output[k] = self.data[slot];
            slot = if slot + 1 == cap {
                0
            } else {
                slot + 1
            };
            k += 1;
        }
        let mut z: usize = count;
        while z < output.len()
            invariant
                count <= z <= output@.len(),
                output@.len() == old(output)@.len(),
                forall|j: int| 0 <= j < count ==> #[trigger] output@[j] == before[j],
                forall|j: int| count <= j < z ==> #[trigger] output@[j] == 0,
            decreases output@.len() - z,
        {
            output[z] = 0;
            z += 1;
        }
        if count < output.len() && available == 0 {
            diagnostics.record_underrun();
        }
        if count > 0 {
            let next = if read >= cap - count {
                read - (cap - count)
            } else {
                read + count
            };
            self.read_index = next;
            self.occupied = available - count;
        }
        assert(output@.take(count as int) == before.take(count as int));
        assert(self@ == before.skip(count as int));
        count
    }
}

/// Volume and mute state read by the playback callback. The volume is kept as
/// the bit pattern of an `f32` in [0.0, 1.0].
pub struct VolumeController {
    volume_bits: u32,
    muted: bool,
}

impl VolumeController {
    /// The volume bit pattern currently set.
    pub closed spec fn spec_volume_bits(&self) -> u32 {
        self.volume_bits
    }

    /// Whether output is muted.
    pub closed spec fn spec_muted(&self) -> bool {
        self.muted
    }

    /// A controller at the given volume and mute state.
    pub fn new(volume_bits: u32, muted: bool) -> (v: Self)
        ensures
            v.spec_volume_bits() == volume_bits,
            v.spec_muted() == muted,
    {
        VolumeController { volume_bits, muted }
    }

    /// Sets the volume, leaving the mute state alone.
    pub fn set_volume(&mut self, volume_bits: u32)
        ensures
            final(self).spec_volume_bits() == volume_bits,
            final(self).spec_muted() == old(self).spec_muted(),
    {
        self.volume_bits = volume_bits;
    }

    /// Mutes or unmutes, leaving the volume alone.
    pub fn set_muted(&mut self, muted: bool)
        ensures
            final(self).spec_muted() == muted,
            final(self).spec_volume_bits() == old(self).spec_volume_bits(),
    {
        self.muted = muted;
    }

    /// Whether output is muted.
    pub fn is_muted(&self) -> (m: bool)
        ensures
            m == self.spec_muted(),
    {
        self.muted
    }

    /// The volume bit pattern.
    pub fn volume(&self) -> (bits: u32)
        ensures
            bits == self.spec_volume_bits(),
    {
        self.volume_bits
    }

    /// Multiplier for output samples: silence (`0.0`, bit pattern 0) while
    /// muted, otherwise the volume.
    pub fn gain(&self) -> (bits: u32)
        ensures
            bits == if self.spec_muted() {
                0u32
            } else {
                self.spec_volume_bits()
            },
    {
        if self.is_muted() {
            0
        } else {
            self.volume()
        }
    }
}


/// Law (capacity): a push never fills the buffer beyond its capacity, and
/// when there is room for every offered sample it takes them all.
pub proof fn lemma_push_respects_capacity(queued: nat, offered: nat, capacity: nat)
    requires
        queued <= capacity,
    ensures
        queued + push_accepts(queued, offered, capacity) <= capacity,
        push_accepts(queued, offered, capacity) <= offered,
        queued + offered <= capacity ==> push_accepts(queued, offered, capacity) == offered,
{
}

/// Law (first in, first out): after pushing `pushed` behind `queued` with
/// room for all of it, popping everything that was queued before leaves
/// exactly the pushed samples, in the order they were pushed; and the samples
/// a pop hands out followed by those it leaves are the samples that were
/// queued.
pub proof fn lemma_ring_fifo(queued: Seq<u32>, pushed: Seq<u32>, capacity: nat, wanted: nat)
    requires
        queued.len() + pushed.len() <= capacity,
    ensures
        ({
            let after_push = queued + pushed.take(
                push_accepts(queued.len(), pushed.len(), capacity) as int,
            );
            &&& after_push.take(queued.len() as int) == queued
            &&& after_push.skip(queued.len() as int) == pushed
        }),
        queued.take(pop_takes(queued.len(), wanted) as int) + queued.skip(
            pop_takes(queued.len(), wanted) as int,
        ) == queued,
{
    assert(pushed.take(pushed.len() as int) == pushed);
    let n = pop_takes(queued.len(), wanted) as int;
    assert(queued.take(n) + queued.skip(n) == queued);
}


/// Where one output channel of a converted frame takes its sample from.
#[derive(Debug, Clone, Copy, PartialEq, Eq)]
pub enum ChannelRoute {
    /// The input channel with this number.
    Source(usize),
    /// Half the sum of the first two input channels (`0.5 * (L + R)`).
    HalfSumOfFirstTwo,
    /// The sum of all input channels times the reciprocal of their count.
    MeanOfAll,
    /// Silence (`0.0`).
    Silence,
}

/// How interleaved audio is converted between channel counts.
#[derive(Debug, PartialEq, Eq)]
pub enum ChannelPlan {
    /// Nothing is produced (a channel count of zero).
    Nothing,
    /// The input is copied as it is.
    Passthrough,
    /// Each complete input frame becomes one output frame whose channels are
    /// given by the routes, in order.
    PerFrame(Vec<ChannelRoute>),
}

/// The route of output channel `j` when converting `n` to `m` channels
/// (`n != m`, both nonzero): mono to stereo duplicates, stereo to mono
/// averages, mono to more channels replicates, more than two to stereo keeps
/// the front pair, more than two to mono averages everything, and any other
/// conversion keeps the common channels and pads with silence.
pub open spec fn route_of(n: nat, m: nat, j: nat) -> ChannelRoute {
    if n == 1 && m == 2 {
        ChannelRoute::Source(0)
    } else if n == 2 && m == 1 {
        ChannelRoute::HalfSumOfFirstTwo
    } else if n == 1 {
        ChannelRoute::Source(0)
    } else if n > 2 && m == 2 {
        ChannelRoute::Source(j as usize)
    } else if n > 2 && m == 1 {
        ChannelRoute::MeanOfAll
    } else if j < n {
        ChannelRoute::Source(j as usize)
    } else {
        ChannelRoute::Silence
    }
}

/// The conversion plan from `in_channels` to `out_channels`.
pub open spec fn channel_plan_spec(in_channels: nat, out_channels: nat) -> Option<Seq<ChannelRoute>> {
    if in_channels == 0 || out_channels == 0 {
        None
    } else if in_channels == out_channels {
        None
    } else {
        Some(Seq::new(out_channels, |j: int| route_of(in_channels, out_channels, j as nat)))
    }
}

/// How to convert interleaved audio from `in_channels` to `out_channels`.
pub fn channel_plan(in_channels: usize, out_channels: usize) -> (plan: ChannelPlan)
    ensures
        (in_channels == 0 || out_channels == 0) ==> plan == ChannelPlan::Nothing,
        (in_channels != 0 && out_channels != 0 && in_channels == out_channels) ==> plan
            == ChannelPlan::Passthrough,
        (in_channels != 0 && out_channels != 0 && in_channels != out_channels) ==> (
        plan matches ChannelPlan::PerFrame(routes) && routes@ == channel_plan_spec(
            in_channels as nat,
            out_channels as nat,
        )->0),
{
    if in_channels == 0 || out_channels == 0 {
        return ChannelPlan::Nothing;
    }
    if in_channels == out_channels {
        return ChannelPlan::Passthrough;
    }
    let mut routes: Vec<ChannelRoute> = Vec::new();
    let mut j: usize = 0;
    while j < out_channels
        invariant
            in_channels != 0,
            out_channels != 0,
            in_channels != out_channels,
            j <= out_channels,
            routes@ == Seq::new(j as nat, |k: int| route_of(in_channels as nat, out_channels as nat, k as nat)),
        decreases out_channels - j,
    {
        let route = if in_channels == 1 && out_channels == 2 {
            ChannelRoute::Source(0)
        } else if in_channels == 2 && out_channels == 1 {
            ChannelRoute::HalfSumOfFirstTwo
        } else if in_channels == 1 {
            ChannelRoute::Source(0)
        } else if in_channels > 2 && out_channels == 2 {
            ChannelRoute::Source(j)
        } else if in_channels > 2 && out_channels == 1 {
            ChannelRoute::MeanOfAll
        } else if j < in_channels {
            ChannelRoute::Source(j)
        } else {
            ChannelRoute::Silence
        };
        routes.push(route);
        j += 1;
        assert(routes@ =~= Seq::new(j as nat, |k: int| route_of(in_channels as nat, out_channels as nat, k as nat)));
    }
    ChannelPlan::PerFrame(routes)
}

/// Law: a route only ever reads an input channel that exists, and the
/// averaging routes only appear where there are at least two input channels.
pub proof fn lemma_routes_in_range(n: nat, m: nat, j: nat)
    requires
        n > 0,
        m > 0,
        n != m,
        j < m,
    ensures
        route_of(n, m, j) matches ChannelRoute::Source(i) ==> i < n,
        route_of(n, m, j) is HalfSumOfFirstTwo ==> n == 2,
        route_of(n, m, j) is MeanOfAll ==> n > 2,
{
}

/// Law (what each conversion does): converting between two different nonzero
/// channel counts gives one route per output channel, and
/// - mono input is copied to every output channel;
/// - a mono output gets the mean of the inputs (half the sum of a stereo
///   pair, the mean of all channels of a wider layout);
/// - a stereo output from a wider layout takes the front pair as it is;
/// - otherwise the channels both layouts have are copied in place and any
///   further output channels are silent.
/// No output channel is silent unless it has no input channel of its own.
pub proof fn lemma_channel_plan_behaviour(n: nat, m: nat)
    requires
        n > 0,
        m > 0,
        n != m,
    ensures
        channel_plan_spec(n, m) matches Some(routes) && routes.len() == m && (forall|j: int|
            0 <= j < m ==> {
                &&& n == 1 ==> #[trigger] routes[j] == ChannelRoute::Source(0)
                &&& m == 1 && n == 2 ==> routes[j] == ChannelRoute::HalfSumOfFirstTwo
                &&& m == 1 && n > 2 ==> routes[j] == ChannelRoute::MeanOfAll
                &&& m == 2 && n > 2 ==> routes[j] == ChannelRoute::Source(j as usize)
                &&& n >= 2 && m > 2 && j < n ==> routes[j] == ChannelRoute::Source(j as usize)
                &&& n >= 2 && m > 2 && j >= n ==> routes[j] == ChannelRoute::Silence
                &&& routes[j] == ChannelRoute::Silence ==> j >= n
            }),
{
}


/// Law (read back): the status read after recording one is the status
/// recorded, whatever was recorded before; the rest of the diagnostics are
/// untouched. The states are related as [`AudioDiagnostics::set_status`] and
/// [`AudioDiagnostics::status`] relate them.
pub proof fn lemma_status_round_trip(
    before: DiagnosticsModel,
    after: DiagnosticsModel,
    recorded: AudioStatus,
    read: AudioStatus,
)
    requires
        after == (DiagnosticsModel { status: recorded, ..before }),
        read == after.status,
    ensures
        read == recorded,
        after.input_info == before.input_info,
        after.output_info == before.output_info,
        after.underruns == before.underruns,
        after.overruns == before.overruns,
{
}

/// Law (throttling): once a warning was given at `t`, no other warning of the
/// same kind is due before `t + REPORT_INTERVAL_NS`, and one is due from then
/// on.
pub proof fn lemma_reports_are_throttled(t: u64, now_ns: u64)
    ensures
        now_ns >= t && now_ns - t < REPORT_INTERVAL_NS ==> !report_due(Some(t), now_ns),
        now_ns >= t && now_ns - t >= REPORT_INTERVAL_NS ==> report_due(Some(t), now_ns),
        report_due(None, now_ns),
{
}

} // verus!
