//! The woofer router's decisions: one source split to an earphone and a
//! speaker (the woofer). Which devices and configurations it uses, what a
//! device offers, and the state of the router.
use vstd::prelude::*;
use crate::audio_devices::{
    AudioDevice, AudioHost, ConfigRange, SampleFormat, StreamConfig, append_new, ascending,
    covered, covering_index, device_at, find_covering_index, find_device, found_device, names_of,
    pick_range, picked, push_all_names, push_new_names, ranges_of, standard_rates, string_views,
    supported_standard_rates, first_covering, lemma_first_covering_unique,
};
use crate::dsp_engine::{decimal_text, pick_at, text_both, text_err, integer_depth, max_integer_depth,
    is_fiio, largest_integer_depth};
use crate::dsp_session::{EqFilterKind, WindowKind};
use crate::text::{chars_of, contains, contains_seq, decimal, str_eq, to_lowercase, unicode_lowercase};

verus! {

/// What the router keeps between calls.
pub struct RouterState {
    pub running: bool,
    pub earphone_muted: bool,
    pub speaker_muted: bool,
}

impl RouterState {
    /// The router before its first start: stopped, nothing muted.
    pub fn new() -> (r: RouterState)
        ensures
            !r.running,
            !r.earphone_muted,
            !r.speaker_muted,
    {
        RouterState { running: false, earphone_muted: false, speaker_muted: false }
    }
}

/// Mutes or unmutes the earphone.
pub fn set_earphone_mute(state: &mut RouterState, muted: bool)
    ensures
        final(state).earphone_muted == muted,
        final(state).speaker_muted == old(state).speaker_muted,
        final(state).running == old(state).running,
{
    state.earphone_muted = muted;
}

/// Mutes or unmutes the speaker.
pub fn set_speaker_mute(state: &mut RouterState, muted: bool)
    ensures
        final(state).speaker_muted == muted,
        final(state).earphone_muted == old(state).earphone_muted,
        final(state).running == old(state).running,
{
    state.speaker_muted = muted;
}

/// Stops the router; the caller drops its streams when it was running.
pub fn stop_audio_sync(state: &mut RouterState) -> (r: Result<(), String>)
    ensures
        r is Ok,
        !final(state).running,
        final(state).earphone_muted == old(state).earphone_muted,
        final(state).speaker_muted == old(state).speaker_muted,
{
    if state.running {
        state.running = false;
    }
    Ok(())
}

/// The devices the router offers: every playback device, then each capture
/// device whose name is not listed yet.
pub fn get_available_devices(host: &AudioHost) -> (r: Vec<String>)
    ensures
        string_views(r@) == append_new(names_of(host.output_devices@), names_of(host.input_devices@)),
{
    let mut names: Vec<String> = Vec::new();
    push_all_names(&mut names, &host.output_devices);
    assert(string_views(names@) =~= names_of(host.output_devices@));
    push_new_names(&mut names, &host.input_devices);
    names
}

// ---------------------------------------------------------------------------
// Configurations
// ---------------------------------------------------------------------------

/// A device's default configuration for capture or playback.
pub open spec fn default_for(dev: AudioDevice, is_input: bool) -> Option<StreamConfig> {
    if is_input {
        dev.default_input
    } else {
        dev.default_output
    }
}

/// A device's ranges for capture or playback (`None` for a failed query).
pub open spec fn ranges_for(dev: AudioDevice, is_input: bool) -> Option<Vec<ConfigRange>> {
    if is_input {
        dev.input_ranges
    } else {
        dev.output_ranges
    }
}

/// The error for a device with no configuration.
pub open spec fn no_config(is_input: bool) -> Seq<char> {
    if is_input {
        "No input config"@
    } else {
        "No output config"@
    }
}

/// The router can name a preferred configuration without failing: the
/// device has a default, or its ranges could not be listed, or it lists
/// some. (A device that lists no ranges and has no default stops the
/// router.)
pub open spec fn best_defined(dev: AudioDevice, is_input: bool) -> bool {
    ||| default_for(dev, is_input) is Some
    ||| ranges_for(dev, is_input) is None
    ||| ranges_of(ranges_for(dev, is_input)).len() > 0
}

/// The router's preferred configuration: the default, else the range with
/// the highest rate, at that rate.
pub open spec fn router_best_of(dev: AudioDevice, is_input: bool) -> Result<StreamConfig, Seq<char>> {
    match default_for(dev, is_input) {
        Some(c) => Ok(c),
        None => match ranges_for(dev, is_input) {
            None => Err(no_config(is_input)),
            Some(v) => match picked(v@, false, None, None, false) {
                Some(i) => Ok(pick_at(v@, i, None)),
                None => Err(no_config(is_input)),
            },
        },
    }
}

/// Finds [`router_best_of`].
pub fn router_best_config(dev: &AudioDevice, is_input: bool) -> (r: Result<StreamConfig, String>)
    requires
        best_defined(*dev, is_input),
    ensures
        text_err(r) == router_best_of(*dev, is_input),
{
    let (default, ranges) = if is_input {
        (dev.default_input, &dev.input_ranges)
    } else {
        (dev.default_output, &dev.output_ranges)
    };
    match default {
        Some(c) => Ok(c),
        None => match ranges {
            None => if is_input {
                Err("No input config".to_owned())
            } else {
                Err("No output config".to_owned())
            },
            Some(v) => match pick_range(v, false, None, None, false) {
                Some(i) => Ok(v[i].with_max_sample_rate()),
                None => {
                    proof {
                        assert(v@.len() > 0);
                        assert(!(eligible_any(v@)));
                    }
                    if is_input {
                        Err("No input config".to_owned())
                    } else {
                        Err("No output config".to_owned())
                    }
                },
            },
        },
    }
}

/// Some range is eligible for an unconstrained search.
pub open spec fn eligible_any(s: Seq<ConfigRange>) -> bool {
    picked(s, false, None, None, false) is Some
}

/// The playback configuration for a wanted rate: the first range, in the
/// device's order, that holds it, at that rate; else [`router_best_of`].
pub open spec fn router_output_of(dev: AudioDevice, target: Option<u32>) -> Result<StreamConfig, Seq<char>> {
    match (target, dev.output_ranges) {
        (Some(t), Some(v)) => match covering_index(v@, t) {
            Some(i) => Ok(v@[i].at_rate(t)),
            None => router_best_of(dev, false),
        },
        _ => router_best_of(dev, false),
    }
}

/// The router can pick a playback configuration for a wanted rate without
/// failing.
pub open spec fn output_defined(dev: AudioDevice, target: Option<u32>) -> bool {
    ||| best_defined(dev, false)
    ||| (target matches Some(t) && dev.output_ranges matches Some(v) && covering_index(v@, t) is Some)
}

/// Finds [`router_output_of`].
pub fn router_output_config(dev: &AudioDevice, target: Option<u32>) -> (r: Result<StreamConfig, String>)
    requires
        output_defined(*dev, target),
    ensures
        text_err(r) == router_output_of(*dev, target),
{
    match target {
        Some(t) => match &dev.output_ranges {
            Some(v) => match find_covering_index(v, t) {
                Some(i) => {
                    return Ok(v[i].with_sample_rate(t));
                },
                None => {},
            },
            None => {},
        },
        None => {},
    }
    router_best_config(dev, false)
}

// ---------------------------------------------------------------------------
// What a device offers
// ---------------------------------------------------------------------------

/// The device found for a name can name its preferred configuration.
pub open spec fn found_best_defined(host: AudioHost, name: Seq<char>) -> bool {
    forall|f: Option<(usize, bool)>|
        #[trigger] found_device(host, name, f) ==> (f matches Some(g) ==> best_defined(
            device_at(host, g),
            g.1,
        ))
}

/// What `get_device_sample_rate` answers: the rate of the preferred
/// configuration of the device found.
pub open spec fn router_rate_of(host: AudioHost, found: Option<(usize, bool)>) -> Result<u32, Seq<char>> {
    match found {
        None => Err("Device not found"@),
        Some(g) => match router_best_of(device_at(host, g), g.1) {
            Ok(c) => Ok(c.sample_rate),
            Err(e) => Err(e),
        },
    }
}

/// The current sample rate of the device whose name contains `device_name`.
pub fn get_device_sample_rate(host: &AudioHost, device_name: &str) -> (r: Result<u32, String>)
    requires
        found_best_defined(*host, device_name@),
    ensures
        exists|f: Option<(usize, bool)>|
            found_device(*host, device_name@, f) && text_err(r) == router_rate_of(*host, f),
{
    let found = find_device(host, device_name);
    assert(found_device(*host, device_name@, found));
    match found {
        None => Err("Device not found".to_owned()),
        Some((i, is_input)) => {
            let dev = if is_input {
                &host.input_devices[i]
            } else {
                &host.output_devices[i]
            };
            assert(*dev == device_at(*host, (i, is_input)));
            let r = router_best_config(dev, is_input);
            let out = match r {
                Ok(c) => Ok(c.sample_rate),
                Err(e) => Err(e),
            };
            assert(text_err(out) == router_rate_of(*host, found));
            out
        },
    }
}

/// The name of a sample format's depth, as the router's page shows it.
pub open spec fn router_depth_name(f: SampleFormat) -> Seq<char> {
    match f {
        SampleFormat::F32 => "32bit Float"@,
        SampleFormat::I16 => "16bit"@,
        SampleFormat::I32 => "32bit"@,
        SampleFormat::U16 => "16bit Unsigned"@,
        SampleFormat::U32 => "32bit Unsigned"@,
        SampleFormat::I8 => "8bit"@,
        SampleFormat::U8 => "8bit Unsigned"@,
        SampleFormat::F64 => "64bit Float"@,
        _ => "Unknown Format"@,
    }
}

/// Names [`router_depth_name`].
pub fn router_depth_name_of(f: SampleFormat) -> (r: String)
    ensures
        r@ == router_depth_name(f),
{
    match f {
        SampleFormat::F32 => "32bit Float".to_owned(),
        SampleFormat::I16 => "16bit".to_owned(),
        SampleFormat::I32 => "32bit".to_owned(),
        SampleFormat::U16 => "16bit Unsigned".to_owned(),
        SampleFormat::U32 => "32bit Unsigned".to_owned(),
        SampleFormat::I8 => "8bit".to_owned(),
        SampleFormat::U8 => "8bit Unsigned".to_owned(),
        SampleFormat::F64 => "64bit Float".to_owned(),
        _ => "Unknown Format".to_owned(),
    }
}

/// The depth reported: [`router_depth_name`], except that a 32-bit float
/// format is replaced by the largest integer depth the device's ranges
/// reveal, when there is one.
pub open spec fn router_reported_depth(f: SampleFormat, ranges: Seq<ConfigRange>, fiio: bool) -> Seq<char> {
    let bits = max_integer_depth(ranges, fiio);
    if router_depth_name(f) == "32bit Float"@ && bits > 0 {
        decimal(bits) + "bit"@
    } else {
        router_depth_name(f)
    }
}

/// What `get_device_bit_depth` answers for the device found.
pub open spec fn router_depth_of(host: AudioHost, name: Seq<char>, found: Option<(usize, bool)>) -> Result<
    Seq<char>,
    Seq<char>,
> {
    match found {
        None => Err("Device not found"@),
        Some(g) => {
            let dev = device_at(host, g);
            match router_best_of(dev, g.1) {
                Err(e) => Err(e),
                Ok(c) => Ok(router_reported_depth(
                    c.sample_format,
                    ranges_of(ranges_for(dev, g.1)),
                    is_fiio(name),
                )),
            }
        },
    }
}

/// The bit depth of the device whose name contains `device_name`.
pub fn get_device_bit_depth(host: &AudioHost, device_name: &str) -> (r: Result<String, String>)
    requires
        found_best_defined(*host, device_name@),
    ensures
        exists|f: Option<(usize, bool)>|
            found_device(*host, device_name@, f) && text_both(r) == router_depth_of(
                *host,
                device_name@,
                f,
            ),
{
    let found = find_device(host, device_name);
    assert(found_device(*host, device_name@, found));
    let (dev, is_input) = match found {
        None => {
            return Err("Device not found".to_owned());
        },
        Some((i, true)) => (&host.input_devices[i], true),
        Some((i, false)) => (&host.output_devices[i], false),
    };
    let config = match router_best_config(dev, is_input) {
        Ok(c) => c,
        Err(e) => {
            return Err(e);
        },
    };
    let name = router_depth_name_of(config.sample_format);
    if str_eq(name.as_str(), "32bit Float") {
        let lower = to_lowercase(device_name);
        let fiio = contains(&chars_of(lower.as_str()), &chars_of("fiio"));
        let ranges = if is_input {
            &dev.input_ranges
        } else {
            &dev.output_ranges
        };
        let bits = match ranges {
            Some(v) => largest_integer_depth(v, fiio),
            None => 0,
        };
        if bits > 0 {
            let mut text = decimal_text(bits);
            text.append("bit");
            return Ok(text);
        }
    }
    Ok(name)
}

/// What `get_device_supported_sample_rates` answers for the device found:
/// the standard rates its ranges (capture ranges for a capture device)
/// hold, ascending.
pub open spec fn router_rates_ok(host: AudioHost, g: (usize, bool), rates: Seq<u32>) -> bool {
    &&& ranges_for(device_at(host, g), g.1) is Some
    &&& ascending(rates)
    &&& forall|x: u32| #[trigger]
        rates.contains(x) <==> (standard_rates().contains(x) && covered(
            ranges_of(ranges_for(device_at(host, g), g.1)),
            x,
        ))
}

/// The standard sample rates of the device whose name contains
/// `device_name`, ascending and without repeats.
pub fn get_device_supported_sample_rates(host: &AudioHost, device_name: &str) -> (r: Result<
    Vec<u32>,
    String,
>)
    ensures
        exists|f: Option<(usize, bool)>|
            found_device(*host, device_name@, f) && match f {
                None => text_err(r) == Err::<Vec<u32>, Seq<char>>("Device not found"@),
                Some(g) => match ranges_for(device_at(*host, g), g.1) {
                    None => text_err(r) == Err::<Vec<u32>, Seq<char>>(no_config(g.1)),
                    Some(_) => r matches Ok(v) && router_rates_ok(*host, g, v@),
                },
            },
{
    let found = find_device(host, device_name);
    let (ranges, is_input) = match found {
        None => {
            return Err("Device not found".to_owned());
        },
        Some((i, true)) => (&host.input_devices[i].input_ranges, true),
        Some((i, false)) => (&host.output_devices[i].output_ranges, false),
    };
    match ranges {
        None => if is_input {
            Err("No input config".to_owned())
        } else {
            Err("No output config".to_owned())
        },
        Some(v) => Ok(supported_standard_rates(v)),
    }
}

// ---------------------------------------------------------------------------
// Planning a run
// ---------------------------------------------------------------------------

/// The formats the router streams.
pub open spec fn router_streamable(f: SampleFormat) -> bool {
    f == SampleFormat::F32 || f == SampleFormat::I16 || f == SampleFormat::I32 || f
        == SampleFormat::U16
}

/// The name a format is printed with in an error.
pub open spec fn format_debug_name(f: SampleFormat) -> Seq<char> {
    match f {
        SampleFormat::I8 => "I8"@,
        SampleFormat::I16 => "I16"@,
        SampleFormat::I24 => "I24"@,
        SampleFormat::I32 => "I32"@,
        SampleFormat::I64 => "I64"@,
        SampleFormat::U8 => "U8"@,
        SampleFormat::U16 => "U16"@,
        SampleFormat::U32 => "U32"@,
        SampleFormat::U64 => "U64"@,
        SampleFormat::F32 => "F32"@,
        SampleFormat::F64 => "F64"@,
        SampleFormat::Other => "Other"@,
    }
}

/// Prints [`format_debug_name`].
pub fn format_debug_text(f: SampleFormat) -> (r: String)
    ensures
        r@ == format_debug_name(f),
{
    match f {
        SampleFormat::I8 => "I8".to_owned(),
        SampleFormat::I16 => "I16".to_owned(),
        SampleFormat::I24 => "I24".to_owned(),
        SampleFormat::I32 => "I32".to_owned(),
        SampleFormat::I64 => "I64".to_owned(),
        SampleFormat::U8 => "U8".to_owned(),
        SampleFormat::U16 => "U16".to_owned(),
        SampleFormat::U32 => "U32".to_owned(),
        SampleFormat::U64 => "U64".to_owned(),
        SampleFormat::F32 => "F32".to_owned(),
        SampleFormat::F64 => "F64".to_owned(),
        SampleFormat::Other => "Other".to_owned(),
    }
}

/// Whether the router streams a format, decided.
fn streamable(f: SampleFormat) -> (r: bool)
    ensures
        r == router_streamable(f),
{
    match f {
        SampleFormat::F32 | SampleFormat::I16 | SampleFormat::I32 | SampleFormat::U16 => true,
        _ => false,
    }
}

/// The configurations a run uses, or why it stops and whether the router
/// is left marked as running, for the devices found for the source, the
/// earphone and the speaker. Devices are checked first, then
/// configurations, then formats (earphone, speaker, source).
pub open spec fn router_outcome(
    host: AudioHost,
    fs: Option<(usize, bool)>,
    fe: Option<(usize, bool)>,
    fk: Option<(usize, bool)>,
    earphone_target: Option<u32>,
    speaker_target: Option<u32>,
) -> Result<(StreamConfig, StreamConfig, StreamConfig), (Seq<char>, bool)> {
    match (fs, fe, fk) {
        (None, _, _) => Err(("Source device not found"@, false)),
        (_, None, _) => Err(("Earphone device not found"@, false)),
        (_, _, None) => Err(("Speaker device not found"@, false)),
        (Some(s), Some(e), Some(k)) => match router_best_of(device_at(host, s), s.1) {
            Err(m) => Err((m, true)),
            Ok(sc) => match router_output_of(device_at(host, e), earphone_target) {
                Err(m) => Err((m, true)),
                Ok(ec) => match router_output_of(device_at(host, k), speaker_target) {
                    Err(m) => Err((m, true)),
                    Ok(kc) => if !router_streamable(ec.sample_format) {
                        Err(("Unsupported earphone format: "@ + format_debug_name(ec.sample_format), true))
                    } else if !router_streamable(kc.sample_format) {
                        Err(("Unsupported speaker format: "@ + format_debug_name(kc.sample_format), true))
                    } else if !router_streamable(sc.sample_format) {
                        Err(("Unsupported source format: "@ + format_debug_name(sc.sample_format), true))
                    } else {
                        Ok((sc, ec, kc))
                    },
                },
            },
        },
    }
}

/// A run can be planned without stopping the router: each configuration
/// the router reaches can be named.
pub open spec fn router_total(
    host: AudioHost,
    fs: Option<(usize, bool)>,
    fe: Option<(usize, bool)>,
    fk: Option<(usize, bool)>,
    earphone_target: Option<u32>,
    speaker_target: Option<u32>,
) -> bool {
    match (fs, fe, fk) {
        (Some(s), Some(e), Some(k)) => {
            &&& best_defined(device_at(host, s), s.1)
            &&& router_best_of(device_at(host, s), s.1) is Ok ==> output_defined(
                device_at(host, e),
                earphone_target,
            )
            &&& router_best_of(device_at(host, s), s.1) is Ok && router_output_of(
                device_at(host, e),
                earphone_target,
            ) is Ok ==> output_defined(device_at(host, k), speaker_target)
        },
        _ => true,
    }
}

/// A ring's capacity in samples: ten seconds of audio.
pub open spec fn router_capacity_of(rate: u32, channels: u16) -> nat {
    (rate * channels * 10) as nat
}

/// Computes [`router_capacity_of`].
pub fn router_capacity(rate: u32, channels: u16) -> (r: u64)
    ensures
        r == router_capacity_of(rate, channels),
{
    let rt: u64 = rate as u64;
    let ch: u64 = channels as u64;
    assert(rt * ch <= 0xFFFF_FFFFu64 * 0xFFFFu64) by (nonlinear_arith)
        requires
            rt <= 0xFFFF_FFFFu64,
            ch <= 0xFFFFu64,
    ;
    rt * ch * 10
}

/// The window a path's resampler uses: Blackman-Harris for the linear-phase
/// filter (its name mentions `선형 위상`), Hann otherwise.
pub open spec fn router_window_of(filter: Seq<char>) -> WindowKind {
    if contains_seq(filter, "선형 위상"@) {
        WindowKind::BlackmanHarris2
    } else {
        WindowKind::Hann
    }
}

/// A path is resampled when its rate differs from the source's.
pub open spec fn router_resampler_of(source_rate: u32, target_rate: u32, filter: Seq<char>) -> Option<WindowKind> {
    if source_rate == target_rate {
        None
    } else {
        Some(router_window_of(filter))
    }
}

/// Decides [`router_resampler_of`].
pub fn router_resampler(source_rate: u32, target_rate: u32, filter: &str) -> (r: Option<WindowKind>)
    ensures
        r == router_resampler_of(source_rate, target_rate, filter@),
{
    if source_rate == target_rate {
        None
    } else if contains(&chars_of(filter), &chars_of("선형 위상")) {
        Some(WindowKind::BlackmanHarris2)
    } else {
        Some(WindowKind::Hann)
    }
}

/// The low-pass sections the woofer path runs per channel: none without a
/// slope or a rate, two for a 24 dB slope, one otherwise.
pub open spec fn lowpass_stages_of(slope: u32, rate: u32) -> u8 {
    if slope == 0 || rate == 0 {
        0
    } else if slope == 24 {
        2
    } else {
        1
    }
}

/// Decides [`lowpass_stages_of`].
pub fn lowpass_stages(slope: u32, rate: u32) -> (r: u8)
    ensures
        r == lowpass_stages_of(slope, rate),
{
    if slope == 0 || rate == 0 {
        0
    } else if slope == 24 {
        2
    } else {
        1
    }
}

/// The shape of an earphone equaliser band: shelves by name, every other
/// band peaking.
pub open spec fn earphone_band_kind_of(name: Seq<char>) -> EqFilterKind {
    if name == "low_shelf"@ {
        EqFilterKind::LowShelf
    } else if name == "high_shelf"@ {
        EqFilterKind::HighShelf
    } else {
        EqFilterKind::Peaking
    }
}

/// Chooses [`earphone_band_kind_of`].
pub fn earphone_band_kind(name: &str) -> (r: EqFilterKind)
    ensures
        r == earphone_band_kind_of(name@),
{
    if str_eq(name, "low_shelf") {
        EqFilterKind::LowShelf
    } else if str_eq(name, "high_shelf") {
        EqFilterKind::HighShelf
    } else {
        EqFilterKind::Peaking
    }
}

/// Everything a run of the router is started with.
#[derive(Debug)]
pub struct RouterPlan {
    pub source: (usize, bool),
    pub earphone: (usize, bool),
    pub speaker: (usize, bool),
    pub source_config: StreamConfig,
    pub earphone_config: StreamConfig,
    pub speaker_config: StreamConfig,
    pub input_capacity: u64,
    pub earphone_capacity: u64,
    pub speaker_capacity: u64,
    pub earphone_resampler: Option<WindowKind>,
    pub speaker_resampler: Option<WindowKind>,
    pub speaker_lowpass_stages: u8,
}

/// A plan is the one the router makes for the devices found.
pub open spec fn router_plan_fits(
    host: AudioHost,
    p: RouterPlan,
    earphone_target: Option<u32>,
    speaker_target: Option<u32>,
    earphone_filter: Seq<char>,
    speaker_filter: Seq<char>,
    lpf_slope: u32,
) -> bool {
    let sc = p.source_config;
    let ec = p.earphone_config;
    let kc = p.speaker_config;
    &&& router_outcome(host, Some(p.source), Some(p.earphone), Some(p.speaker), earphone_target, speaker_target)
        == Ok::<(StreamConfig, StreamConfig, StreamConfig), (Seq<char>, bool)>((sc, ec, kc))
    &&& p.input_capacity == router_capacity_of(sc.sample_rate, sc.channels)
    &&& p.earphone_capacity == router_capacity_of(ec.sample_rate, ec.channels)
    &&& p.speaker_capacity == router_capacity_of(kc.sample_rate, kc.channels)
    &&& p.earphone_resampler == router_resampler_of(sc.sample_rate, ec.sample_rate, earphone_filter)
    &&& p.speaker_resampler == router_resampler_of(sc.sample_rate, kc.sample_rate, speaker_filter)
    &&& p.speaker_lowpass_stages == lowpass_stages_of(lpf_slope, kc.sample_rate)
}

/// The device an answer of the finder designates, fetched.
fn device_ref<'a>(host: &'a AudioHost, f: (usize, bool)) -> (r: &'a AudioDevice)
    requires
        f.1 ==> f.0 < host.input_devices.len(),
        !f.1 ==> f.0 < host.output_devices.len(),
    ensures
        *r == device_at(*host, f),
{
    if f.1 {
        &host.input_devices[f.0]
    } else {
        &host.output_devices[f.0]
    }
}

/// Starts a run of the router: a running router is stopped first, then the
/// source, earphone and speaker are found by name and their configurations
/// chosen (see [`router_outcome`] and [`router_plan_fits`]). The router is
/// left marked as running unless a device was not found.
pub fn start_audio_sync(
    state: &mut RouterState,
    host: &AudioHost,
    source_name: &str,
    earphone_name: &str,
    speaker_name: &str,
    lpf_slope: u32,
    earphone_target_sr: Option<u32>,
    speaker_target_sr: Option<u32>,
    earphone_filter: &str,
    speaker_filter: &str,
) -> (r: Result<RouterPlan, String>)
    requires
        forall|fs: Option<(usize, bool)>, fe: Option<(usize, bool)>, fk: Option<(usize, bool)>|
            #![trigger found_device(*host, source_name@, fs), found_device(*host, earphone_name@, fe), found_device(*host, speaker_name@, fk)]
            found_device(*host, source_name@, fs) && found_device(*host, earphone_name@, fe)
                && found_device(*host, speaker_name@, fk) ==> router_total(
                *host,
                fs,
                fe,
                fk,
                earphone_target_sr,
                speaker_target_sr,
            ),
    ensures
        final(state).earphone_muted == old(state).earphone_muted,
        final(state).speaker_muted == old(state).speaker_muted,
        exists|fs: Option<(usize, bool)>, fe: Option<(usize, bool)>, fk: Option<(usize, bool)>|
            {
                &&& found_device(*host, source_name@, fs)
                &&& found_device(*host, earphone_name@, fe)
                &&& found_device(*host, speaker_name@, fk)
                &&& match r {
                    Ok(p) => {
                        &&& fs == Some(p.source)
                        &&& fe == Some(p.earphone)
                        &&& fk == Some(p.speaker)
                        &&& router_plan_fits(
                            *host,
                            p,
                            earphone_target_sr,
                            speaker_target_sr,
                            earphone_filter@,
                            speaker_filter@,
                            lpf_slope,
                        )
                        &&& final(state).running
                    },
                    Err(e) => router_outcome(
                        *host,
                        fs,
                        fe,
                        fk,
                        earphone_target_sr,
                        speaker_target_sr,
                    ) == Err::<(StreamConfig, StreamConfig, StreamConfig), (Seq<char>, bool)>(
                        (e@, final(state).running),
                    ),
                }
            },
{
    if state.running {
        let _ = stop_audio_sync(state);
    }
    state.running = true;
    let fs = find_device(host, source_name);
    let fe = find_device(host, earphone_name);
    let fk = find_device(host, speaker_name);
    proof {
        assert(router_total(*host, fs, fe, fk, earphone_target_sr, speaker_target_sr));
    }
    let s = match fs {
        Some(s) => s,
        None => {
            state.running = false;
            return Err("Source device not found".to_owned());
        },
    };
    let e = match fe {
        Some(e) => e,
        None => {
            state.running = false;
            return Err("Earphone device not found".to_owned());
        },
    };
    let k = match fk {
        Some(k) => k,
        None => {
            state.running = false;
            return Err("Speaker device not found".to_owned());
        },
    };
    let sc = match router_best_config(device_ref(host, s), s.1) {
        Ok(c) => c,
        Err(m) => {
            return Err(m);
        },
    };
    let ec = match router_output_config(device_ref(host, e), earphone_target_sr) {
        Ok(c) => c,
        Err(m) => {
            return Err(m);
        },
    };
    let kc = match router_output_config(device_ref(host, k), speaker_target_sr) {
        Ok(c) => c,
        Err(m) => {
            return Err(m);
        },
    };
    if !streamable(ec.sample_format) {
        let mut m = "Unsupported earphone format: ".to_owned();
        let d = format_debug_text(ec.sample_format);
        m.append(d.as_str());
        return Err(m);
    }
    if !streamable(kc.sample_format) {
        let mut m = "Unsupported speaker format: ".to_owned();
        let d = format_debug_text(kc.sample_format);
        m.append(d.as_str());
        return Err(m);
    }
    if !streamable(sc.sample_format) {
        let mut m = "Unsupported source format: ".to_owned();
        let d = format_debug_text(sc.sample_format);
        m.append(d.as_str());
        return Err(m);
    }
    Ok(RouterPlan {
        source: s,
        earphone: e,
        speaker: k,
        source_config: sc,
        earphone_config: ec,
        speaker_config: kc,
        input_capacity: router_capacity(sc.sample_rate, sc.channels),
        earphone_capacity: router_capacity(ec.sample_rate, ec.channels),
        speaker_capacity: router_capacity(kc.sample_rate, kc.channels),
        earphone_resampler: router_resampler(sc.sample_rate, ec.sample_rate, earphone_filter),
        speaker_resampler: router_resampler(sc.sample_rate, kc.sample_rate, speaker_filter),
        speaker_lowpass_stages: lowpass_stages(lpf_slope, kc.sample_rate),
    })
}

/// A wanted playback rate is honoured: when some playback range of the
/// device holds the rate, the router plays at exactly that rate, in the
/// channels and format of the first such range in the device's order.
pub proof fn law_router_output_honours_target(dev: AudioDevice, t: u32, i: int)
    requires
        dev.output_ranges is Some,
        0 <= i < dev.output_ranges.unwrap()@.len(),
        dev.output_ranges.unwrap()@[i].min_sample_rate <= t <= dev.output_ranges.unwrap()@[i].max_sample_rate,
        forall|j: int|
            0 <= j < i ==> !(#[trigger] dev.output_ranges.unwrap()@[j].min_sample_rate <= t
                <= dev.output_ranges.unwrap()@[j].max_sample_rate),
    ensures
        router_output_of(dev, Some(t)) == Ok::<StreamConfig, Seq<char>>(
            StreamConfig {
                channels: dev.output_ranges.unwrap()@[i].channels,
                sample_rate: t,
                sample_format: dev.output_ranges.unwrap()@[i].sample_format,
            },
        ),
{
    let v = dev.output_ranges.unwrap()@;
    assert(first_covering(v, t, i));
    lemma_first_covering_unique(v, t, i, covering_index(v, t).unwrap());
}

/// The earphone equaliser shapes its shelves as the DSP engine does, and
/// every other band type as a peaking band.
pub proof fn law_earphone_bands_follow_engine_shapes(name: Seq<char>)
    ensures
        earphone_band_kind_of(name) == match crate::dsp_session::eq_filter_kind_of(name) {
            EqFilterKind::LowShelf => EqFilterKind::LowShelf,
            EqFilterKind::HighShelf => EqFilterKind::HighShelf,
            _ => EqFilterKind::Peaking,
        },
{
}

} // verus!
