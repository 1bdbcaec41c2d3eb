//! The state the DSP app shares with its audio processing object: whether
//! the equaliser is on, whether the output is muted, which filter each band
//! runs, and a sequence number that tells the processing object to reload.
//! The band frequencies, gains and Q factors are written beside these by
//! the caller.
use vstd::prelude::*;
use crate::text::str_eq;

verus! {

/// The name of the shared memory section.
pub const SHARED_MEMORY_NAME: &'static str = "Global\\VesperDspApoSharedMemory";

/// The bands the shared section has room for.
pub const MAX_EQ_BANDS: usize = 32;

/// The shared section, as far as the app decides its contents.
pub struct ApoLink {
    pub is_enabled: bool,
    pub is_muted: bool,
    pub band_count: u32,
    pub band_codes: Vec<u32>,
    pub update_sequence: u64,
}

impl ApoLink {
    /// The section has one filter code per band slot.
    pub open spec fn wf(&self) -> bool {
        self.band_codes.len() == MAX_EQ_BANDS
    }

    /// The section as the app fills it when it maps it: equaliser on,
    /// unmuted, no bands, every slot a peaking filter, sequence 1.
    pub fn new() -> (r: ApoLink)
        ensures
            r.wf(),
            r.is_enabled,
            !r.is_muted,
            r.band_count == 0,
            forall|i: int| 0 <= i < MAX_EQ_BANDS ==> r.band_codes@[i] == 0,
            r.update_sequence == 1,
    {
        let mut codes: Vec<u32> = Vec::new();
        let mut k: usize = 0;
        while k < MAX_EQ_BANDS
            invariant
                k <= MAX_EQ_BANDS,
                codes.len() == k,
                forall|i: int| 0 <= i < k ==> codes@[i] == 0,
            decreases MAX_EQ_BANDS - k,
        {
            codes.push(0);
            k += 1;
        }
        ApoLink { is_enabled: true, is_muted: false, band_count: 0, band_codes: codes, update_sequence: 1 }
    }
}

/// The code the processing object knows each band type by: 1 low shelf,
/// 2 high shelf, 3 low pass, 4 high pass, 5 notch, 0 peaking (and anything
/// else).
pub open spec fn apo_filter_code_of(name: Seq<char>) -> u32 {
    if name == "low_shelf"@ {
        1
    } else if name == "high_shelf"@ {
        2
    } else if name == "low_pass"@ {
        3
    } else if name == "high_pass"@ {
        4
    } else if name == "band_stop"@ || name == "notch"@ {
        5
    } else {
        0
    }
}

/// Chooses [`apo_filter_code_of`].
pub fn apo_filter_code(name: &str) -> (r: u32)
    ensures
        r == apo_filter_code_of(name@),
{
    if str_eq(name, "low_shelf") {
        1
    } else if str_eq(name, "high_shelf") {
        2
    } else if str_eq(name, "low_pass") {
        3
    } else if str_eq(name, "high_pass") {
        4
    } else if str_eq(name, "band_stop") || str_eq(name, "notch") {
        5
    } else {
        0
    }
}

/// The processing object is reachable: the shared section is mapped.
pub fn is_apo_active(link: &Option<ApoLink>) -> (r: bool)
    ensures
        r == link is Some,
{
    link.is_some()
}

/// Tells the processing object whether to mute.
pub fn sync_apo_mute(link: &mut Option<ApoLink>, muted: bool)
    ensures
        match (*old(link), *final(link)) {
            (Some(a), Some(b)) => b.is_muted == muted && b.is_enabled == a.is_enabled
                && b.band_count == a.band_count && b.band_codes@ == a.band_codes@
                && b.update_sequence == a.update_sequence,
            (None, None) => true,
            _ => false,
        },
{
    match link {
        Some(l) => {
            l.is_muted = muted;
        },
        None => {},
    }
}

/// The number of bands the section holds for a profile of `len` bands: at
/// most [`MAX_EQ_BANDS`], counted as a `u32` length.
pub open spec fn band_count_of(len: usize) -> u32 {
    let n = (len as u32) as nat;
    if n < MAX_EQ_BANDS {
        n as u32
    } else {
        MAX_EQ_BANDS as u32
    }
}

/// Hands the processing object a new equaliser profile: whether it is on,
/// and the filter of each of its first [`MAX_EQ_BANDS`] bands; the sequence
/// number moves on (wrapping, as an atomic add does).
pub fn sync_apo_eq_profile(link: &mut Option<ApoLink>, enabled: bool, band_types: &Vec<String>)
    requires
        match *old(link) {
            Some(l) => l.wf(),
            None => true,
        },
    ensures
        match (*old(link), *final(link)) {
            (Some(a), Some(b)) => {
                &&& b.wf()
                &&& b.is_enabled == enabled
                &&& b.is_muted == a.is_muted
                &&& b.band_count == band_count_of(band_types.len())
                &&& forall|i: int|
                    0 <= i < MAX_EQ_BANDS ==> #[trigger] b.band_codes@[i] == if i
                        < band_types.len() {
                        apo_filter_code_of(band_types@[i]@)
                    } else {
                        a.band_codes@[i]
                    }
                &&& b.update_sequence == a.update_sequence.wrapping_add(1)
            },
            (None, None) => true,
            _ => false,
        },
{
    match link {
        Some(l) => {
            l.is_enabled = enabled;
            #[verifier::truncate]
            let n: u32 = (band_types.len() as u32);
            l.band_count = if n < MAX_EQ_BANDS as u32 {
                n
            } else {
                MAX_EQ_BANDS as u32
            };
            fill_band_codes(&mut l.band_codes, band_types);
            l.update_sequence = l.update_sequence.wrapping_add(1);
        },
        None => {},
    }
}

/// Writes the filter code of each of the first bands into its slot.
fn fill_band_codes(codes: &mut Vec<u32>, band_types: &Vec<String>)
    requires
        old(codes).len() == MAX_EQ_BANDS,
    ensures
        final(codes).len() == MAX_EQ_BANDS,
        forall|i: int|
            0 <= i < MAX_EQ_BANDS ==> #[trigger] final(codes)@[i] == if i < band_types.len() {
                apo_filter_code_of(band_types@[i]@)
            } else {
                old(codes)@[i]
            },
{
    let ghost start = codes@;
    let mut k: usize = 0;
    while k < band_types.len() && k < MAX_EQ_BANDS
        invariant
            k <= MAX_EQ_BANDS,
            k <= band_types.len(),
            codes.len() == MAX_EQ_BANDS,
            start.len() == MAX_EQ_BANDS,
            forall|i: int|
                0 <= i < MAX_EQ_BANDS ==> #[trigger] codes@[i] == if i < k {
                    apo_filter_code_of(band_types@[i]@)
                } else {
                    start[i]
                },
        decreases MAX_EQ_BANDS - k,
    {
        let code = apo_filter_code(band_types[k].as_str());
        codes.set(k, code);
        k += 1;
    }
}

} // verus!
