//! Input level monitoring: whether it runs, its last readings, and which
//! input device it listens to.
use vstd::prelude::*;
use crate::text::str_eq;

verus! {

/// State of the level monitor. Readings are `f32` bit patterns.
pub struct LevelMonitor {
    pub is_monitoring: bool,
    pub mic_rms_bits: u32,
    pub mic_peak_bits: u32,
}

impl LevelMonitor {
    /// A monitor that is not running.
    pub fn new() -> (r: Self)
        ensures
            !r.is_monitoring,
            r.mic_rms_bits == 0,
            r.mic_peak_bits == 0,
    {
        LevelMonitor { is_monitoring: false, mic_rms_bits: 0, mic_peak_bits: 0 }
    }

    /// Monitoring (re)starts with the readings reset.
    pub fn begin_monitoring(&mut self)
        ensures
            final(self).is_monitoring,
            final(self).mic_rms_bits == 0,
            final(self).mic_peak_bits == 0,
    {
        self.is_monitoring = true;
        self.mic_rms_bits = 0;
        self.mic_peak_bits = 0;
    }

    /// Monitoring stops with the readings reset.
    pub fn stop_monitoring(&mut self)
        ensures
            !final(self).is_monitoring,
            final(self).mic_rms_bits == 0,
            final(self).mic_peak_bits == 0,
    {
        self.is_monitoring = false;
        self.mic_rms_bits = 0;
        self.mic_peak_bits = 0;
    }

    /// Stores a reading.
    pub fn store_levels(&mut self, rms_bits: u32, peak_bits: u32)
        ensures
            final(self).is_monitoring == old(self).is_monitoring,
            final(self).mic_rms_bits == rms_bits,
            final(self).mic_peak_bits == peak_bits,
    {
        self.mic_rms_bits = rms_bits;
        self.mic_peak_bits = peak_bits;
    }
}

/// Whether the level monitor is running.
pub fn is_monitoring(m: &LevelMonitor) -> (r: bool)
    ensures
        r == m.is_monitoring,
{
    m.is_monitoring
}

/// The index of the first name in `available` equal to `wanted`.
pub open spec fn index_of_name(available: Seq<Seq<char>>, wanted: Seq<char>) -> Option<int>
    decreases available.len(),
{
    if available.len() == 0 {
        None
    } else if available[0] == wanted {
        Some(0)
    } else {
        match index_of_name(available.drop_first(), wanted) {
            Some(i) => Some(i + 1),
            None => None,
        }
    }
}

/// The input device to monitor, as an index into the names of the
/// available input devices: the one named first in `requested` when it is
/// available; `None` (the default input) when no name or an empty one is
/// requested or the named device is missing.
pub fn select_monitor_device(requested: &Vec<String>, available: &Vec<String>) -> (r: Option<
    usize,
>)
    ensures
        requested.len() == 0 || requested[0]@.len() == 0 ==> r is None,
        requested.len() > 0 && requested[0]@.len() > 0 ==> r == match index_of_name(
            available@.map_values(|s: String| s@),
            requested[0]@,
        ) {
            Some(i) => Some(i as usize),
            None => None,
        },
{
    if requested.len() == 0 || requested[0].as_str().is_empty() {
        return None;
    }
    let ghost names = available@.map_values(|s: String| s@);
    let ghost wanted = requested[0]@;
    let mut i: usize = 0;
    assert(names.skip(0) =~= names);
    while i < available.len()
        invariant
            requested.len() > 0,
            wanted == requested[0]@,
            wanted.len() > 0,
            names == available@.map_values(|s: String| s@),
            i <= available.len(),
            index_of_name(names, wanted) == match index_of_name(names.skip(i as int), wanted) {
                Some(k) => Some(k + i),
                None => None,
            },
        decreases available.len() - i,
    {
        let ghost rest = names.skip(i as int);
        assert(rest[0] == names[i as int]);
        assert(rest.drop_first() =~= names.skip(i + 1));
        if str_eq(available[i].as_str(), requested[0].as_str()) {
            return Some(i);
        }
        i += 1;
    }
    assert(names.skip(i as int) =~= Seq::<Seq<char>>::empty());
    None
}


/// The device name reported with the levels: the first one requested, or
/// "Default".
pub fn reported_device_name(device_names: &Vec<String>) -> (r: String)
    ensures
        device_names.len() > 0 ==> r@ == device_names[0]@,
        device_names.len() == 0 ==> r@ == "Default"@,
{
    if device_names.len() > 0 {
        device_names[0].clone()
    } else {
        crate::text::copy_str("Default")
    }
}

} // verus!
