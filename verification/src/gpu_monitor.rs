//! GPU temperature and utilisation readings for the overlay.
use vstd::prelude::*;
use crate::text::{decimal, owned, push_decimal, push_str};

verus! {

/// Utilisation rates reported by the GPU driver, in percent.
#[derive(Debug, Clone, Copy, PartialEq, Eq)]
pub struct NvmlUtilization {
    pub gpu: u32,
    pub memory: u32,
}

/// One set of GPU readings; a reading the driver could not give is `None`.
#[derive(Debug, Clone, Copy, PartialEq, Eq)]
pub struct GpuSnapshot {
    pub temp_c: Option<u32>,
    pub gpu_util: Option<u32>,
    pub mem_util: Option<u32>,
}

/// The overlay text for a snapshot: "GPU", then each available reading.
pub open spec fn snapshot_text(s: GpuSnapshot) -> Seq<char> {
    "GPU"@ + match s.temp_c {
        Some(t) => " "@ + decimal(t as nat) + "C"@,
        None => Seq::empty(),
    } + match s.gpu_util {
        Some(u) => " "@ + decimal(u as nat) + "% util"@,
        None => Seq::empty(),
    } + match s.mem_util {
        Some(m) => " "@ + decimal(m as nat) + "% mem"@,
        None => Seq::empty(),
    }
}

impl GpuSnapshot {
    /// The snapshot for one round of driver queries: the temperature when its
    /// query succeeded, both utilisation rates when theirs did.
    pub fn from_readings(temp_ok: bool, temp: u32, util_ok: bool, util: NvmlUtilization) -> (s: Self)
        ensures
            s.temp_c == if temp_ok {
                Some(temp)
            } else {
                None
            },
            s.gpu_util == if util_ok {
                Some(util.gpu)
            } else {
                None
            },
            s.mem_util == if util_ok {
                Some(util.memory)
            } else {
                None
            },
    {
        GpuSnapshot {
            temp_c: if temp_ok {
                Some(temp)
            } else {
                None
            },
            gpu_util: if util_ok {
                Some(util.gpu)
            } else {
                None
            },
            mem_util: if util_ok {
                Some(util.memory)
            } else {
                None
            },
        }
    }

    /// The overlay text (see [`snapshot_text`]).
    pub fn describe(&self) -> (text: String)
        ensures
            text@ == snapshot_text(*self),
    {
        let mut text = owned("GPU");
        let ghost t0 = text@;
        if let Some(temp) = self.temp_c {
            push_str(&mut text, " ");
            push_decimal(&mut text, temp as u64);
            push_str(&mut text, "C");
        }
        let ghost t1 = text@;
        assert(t1 == t0 + match self.temp_c {
            Some(t) => " "@ + decimal(t as nat) + "C"@,
            None => Seq::<char>::empty(),
        });
        if let Some(util) = self.gpu_util {
            push_str(&mut text, " ");
            push_decimal(&mut text, util as u64);
            push_str(&mut text, "% util");
        }
        let ghost t2 = text@;
        assert(t2 == t1 + match self.gpu_util {
            Some(u) => " "@ + decimal(u as nat) + "% util"@,
            None => Seq::<char>::empty(),
        });
        if let Some(mem) = self.mem_util {
            push_str(&mut text, " ");
            push_decimal(&mut text, mem as u64);
            push_str(&mut text, "% mem");
        }
        assert(text@ == t2 + match self.mem_util {
            Some(m) => " "@ + decimal(m as nat) + "% mem"@,
            None => Seq::<char>::empty(),
        });
        text
    }
}

} // verus!
