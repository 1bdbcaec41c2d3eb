//! One run of the DSP engine: the plan made before the streams start (which
//! devices, which configurations, how large the rings are, whether and how
//! to resample), and the state the engine keeps and reports while it runs.
use vstd::prelude::*;
use crate::audio_devices::{
    AudioHost, SampleFormat, StreamConfig, find_named_index, format_label, format_value,
    is_virtual_cable, is_virtual_cable_device, named_index, opt_text, sample_format_label, picked, is_pick,
};
use crate::dsp_engine::{best_output_config, best_output_of, input_config_for, input_config_with_target,
    output_config_for, output_config_with_target, text_err};
use crate::text::str_eq;

verus! {

/// The parameters of the stream the engine runs, as the settings page shows
/// them.
#[derive(Debug)]
pub struct StreamInfo {
    pub source_sample_rate: u32,
    pub source_bit_depth: String,
    pub source_channels: usize,
    pub output_sample_rate: u32,
    pub output_bit_depth: String,
    pub output_channels: usize,
}

/// Whether the engine runs, and the samples it has lost so far.
#[derive(Clone, Copy, Debug)]
pub struct EngineStatus {
    pub running: bool,
    pub input_overruns: u64,
    pub output_overruns: u64,
    pub output_underruns: u64,
}

/// What the engine keeps between calls.
pub struct EngineState {
    pub running: bool,
    pub input_overruns: u64,
    pub output_overruns: u64,
    pub output_underruns: u64,
    pub stream_info: Option<StreamInfo>,
    pub output_muted: bool,
}

/// A stream description read as plain values.
pub open spec fn info_view(i: StreamInfo) -> (u32, Seq<char>, usize, u32, Seq<char>, usize) {
    (
        i.source_sample_rate,
        i.source_bit_depth@,
        i.source_channels,
        i.output_sample_rate,
        i.output_bit_depth@,
        i.output_channels,
    )
}

/// An optional stream description read as plain values.
pub open spec fn opt_info_view(o: Option<StreamInfo>) -> Option<
    (u32, Seq<char>, usize, u32, Seq<char>, usize),
> {
    match o {
        Some(i) => Some(info_view(i)),
        None => None,
    }
}

impl EngineState {
    /// The engine before its first start: stopped, nothing lost, unmuted.
    pub fn new() -> (r: EngineState)
        ensures
            !r.running,
            r.input_overruns == 0,
            r.output_overruns == 0,
            r.output_underruns == 0,
            r.stream_info is None,
            !r.output_muted,
    {
        EngineState {
            running: false,
            input_overruns: 0,
            output_overruns: 0,
            output_underruns: 0,
            stream_info: None,
            output_muted: false,
        }
    }
}

/// A copy of a stream description.
pub fn copy_stream_info(i: &StreamInfo) -> (r: StreamInfo)
    ensures
        info_view(r) == info_view(*i),
{
    StreamInfo {
        source_sample_rate: i.source_sample_rate,
        source_bit_depth: i.source_bit_depth.clone(),
        source_channels: i.source_channels,
        output_sample_rate: i.output_sample_rate,
        output_bit_depth: i.output_bit_depth.clone(),
        output_channels: i.output_channels,
    }
}

/// The parameters of the running stream, if the engine has reported them.
pub fn get_current_stream_info(state: &EngineState) -> (r: Option<StreamInfo>)
    ensures
        opt_info_view(r) == opt_info_view(state.stream_info),
{
    match &state.stream_info {
        Some(i) => Some(copy_stream_info(i)),
        None => None,
    }
}

/// Whether the engine runs and what it has lost.
pub fn get_engine_status(state: &EngineState) -> (r: EngineStatus)
    ensures
        r.running == state.running,
        r.input_overruns == state.input_overruns,
        r.output_overruns == state.output_overruns,
        r.output_underruns == state.output_underruns,
{
    EngineStatus {
        running: state.running,
        input_overruns: state.input_overruns,
        output_overruns: state.output_overruns,
        output_underruns: state.output_underruns,
    }
}

/// No loss counter of `b` is below that of `a`.
pub open spec fn counts_grow(a: EngineState, b: EngineState) -> bool {
    &&& a.input_overruns <= b.input_overruns
    &&& a.output_overruns <= b.output_overruns
    &&& a.output_underruns <= b.output_underruns
}

/// Between two starts the loss counters only grow: every call but
/// [`start_dsp_engine`] keeps them or adds to them (see the `ensures` of
/// each, when the added amount does not wrap), so along any run of such
/// calls the last counts are at least the first.
pub proof fn law_counters_grow_between_starts(states: Seq<EngineState>)
    requires
        states.len() > 0,
        forall|i: int| 0 <= i < states.len() - 1 ==> counts_grow(#[trigger] states[i], states[i + 1]),
    ensures
        counts_grow(states[0], states.last()),
    decreases states.len(),
{
    if states.len() > 1 {
        let front = states.drop_last();
        assert forall|i: int| 0 <= i < front.len() - 1 implies counts_grow(#[trigger] front[i], front[i + 1]) by {
            assert(front[i] == states[i] && front[i + 1] == states[i + 1]);
        }
        law_counters_grow_between_starts(front);
        assert(counts_grow(states[states.len() - 2], states.last()));
    }
}

/// Mutes or unmutes the engine's output; the caller mutes the system
/// endpoint alike.
pub fn set_output_mute(state: &mut EngineState, muted: bool)
    ensures
        counts_grow(*old(state), *final(state)),
        final(state).output_muted == muted,
        final(state).running == old(state).running,
        final(state).input_overruns == old(state).input_overruns,
        final(state).output_overruns == old(state).output_overruns,
        final(state).output_underruns == old(state).output_underruns,
        opt_info_view(final(state).stream_info) == opt_info_view(old(state).stream_info),
{
    state.output_muted = muted;
}

/// Whether the output is muted: what the system endpoint reports, or the
/// engine's own switch when the endpoint could not be asked.
pub fn get_system_mute(state: &EngineState, endpoint_muted: Option<bool>) -> (r: bool)
    ensures
        r == match endpoint_muted {
            Some(m) => m,
            None => state.output_muted,
        },
{
    match endpoint_muted {
        Some(m) => m,
        None => state.output_muted,
    }
}

/// Counts capture samples lost because the ring was full (the counter wraps
/// as an atomic `fetch_add` does).
pub fn add_input_overruns(state: &mut EngineState, n: u64)
    ensures
        old(state).input_overruns + n <= u64::MAX ==> counts_grow(*old(state), *final(state)),
        final(state).input_overruns == old(state).input_overruns.wrapping_add(n),
        final(state).output_overruns == old(state).output_overruns,
        final(state).output_underruns == old(state).output_underruns,
        final(state).running == old(state).running,
        final(state).output_muted == old(state).output_muted,
{
    state.input_overruns = state.input_overruns.wrapping_add(n);
}

/// Counts resampled samples lost because the output ring was full.
pub fn add_output_overruns(state: &mut EngineState, n: u64)
    ensures
        old(state).output_overruns + n <= u64::MAX ==> counts_grow(*old(state), *final(state)),
        final(state).output_overruns == old(state).output_overruns.wrapping_add(n),
        final(state).input_overruns == old(state).input_overruns,
        final(state).output_underruns == old(state).output_underruns,
        final(state).running == old(state).running,
        final(state).output_muted == old(state).output_muted,
{
    state.output_overruns = state.output_overruns.wrapping_add(n);
}

/// Counts output samples played as silence because the ring was empty.
pub fn add_output_underruns(state: &mut EngineState, n: u64)
    ensures
        old(state).output_underruns + n <= u64::MAX ==> counts_grow(*old(state), *final(state)),
        final(state).output_underruns == old(state).output_underruns.wrapping_add(n),
        final(state).input_overruns == old(state).input_overruns,
        final(state).output_overruns == old(state).output_overruns,
        final(state).running == old(state).running,
        final(state).output_muted == old(state).output_muted,
{
    state.output_underruns = state.output_underruns.wrapping_add(n);
}

/// A stream failed: the engine no longer runs.
pub fn report_stream_error(state: &mut EngineState)
    ensures
        counts_grow(*old(state), *final(state)),
        !final(state).running,
        final(state).input_overruns == old(state).input_overruns,
        final(state).output_overruns == old(state).output_overruns,
        final(state).output_underruns == old(state).output_underruns,
        final(state).output_muted == old(state).output_muted,
        opt_info_view(final(state).stream_info) == opt_info_view(old(state).stream_info),
{
    state.running = false;
}

/// Stops the engine: it no longer runs and reports no stream. The device to
/// make the system's default playback device again, if one is given, is
/// handed back.
pub fn stop_dsp_engine(state: &mut EngineState, output_name: Option<&str>) -> (r: Option<String>)
    ensures
        counts_grow(*old(state), *final(state)),
        !final(state).running,
        final(state).stream_info is None,
        final(state).input_overruns == old(state).input_overruns,
        final(state).output_overruns == old(state).output_overruns,
        final(state).output_underruns == old(state).output_underruns,
        final(state).output_muted == old(state).output_muted,
        match r {
            Some(s) => opt_text(output_name) == Some(s@),
            None => output_name is None,
        },
{
    stop_dsp_engine_inner(state);
    match output_name {
        Some(n) => Some(n.to_owned()),
        None => None,
    }
}

/// The stop shared by [`stop_dsp_engine`] and [`start_dsp_engine`]: the
/// engine no longer runs and reports no stream; its counters and mute
/// state are kept.
pub fn stop_dsp_engine_inner(state: &mut EngineState)
    ensures
        counts_grow(*old(state), *final(state)),
        !final(state).running,
        final(state).stream_info is None,
        final(state).input_overruns == old(state).input_overruns,
        final(state).output_overruns == old(state).output_overruns,
        final(state).output_underruns == old(state).output_underruns,
        final(state).output_muted == old(state).output_muted,
{
    state.running = false;
    state.stream_info = None;
}

// ---------------------------------------------------------------------------
// Planning a run
// ---------------------------------------------------------------------------

/// The window a resampler shapes its sinc kernel with.
#[derive(Clone, Copy, Debug, PartialEq, Eq, Structural)]
pub enum WindowKind {
    BlackmanHarris2,
    Hann,
}

/// A resampler's parameters; the cutoff is in thousandths of the Nyquist
/// frequency.
#[derive(Clone, Copy, Debug, PartialEq, Eq, Structural)]
pub struct ResamplerProfile {
    pub sinc_len: usize,
    pub cutoff_thousandths: u32,
    pub oversampling_factor: usize,
    pub window: WindowKind,
}

/// The resampler each filter of the settings page stands for.
pub open spec fn resampler_profile_of(filter: Seq<char>) -> ResamplerProfile {
    if filter == "linear_precise"@ {
        ResamplerProfile { sinc_len: 256, cutoff_thousandths: 960, oversampling_factor: 256, window: WindowKind::BlackmanHarris2 }
    } else if filter == "linear_smooth"@ {
        ResamplerProfile { sinc_len: 96, cutoff_thousandths: 920, oversampling_factor: 96, window: WindowKind::BlackmanHarris2 }
    } else if filter == "phase_smooth"@ {
        ResamplerProfile { sinc_len: 64, cutoff_thousandths: 880, oversampling_factor: 64, window: WindowKind::Hann }
    } else if filter == "biophys_phase_flash"@ {
        ResamplerProfile { sinc_len: 128, cutoff_thousandths: 980, oversampling_factor: 512, window: WindowKind::BlackmanHarris2 }
    } else if filter == "biophys_acoustic_smooth"@ {
        ResamplerProfile { sinc_len: 96, cutoff_thousandths: 940, oversampling_factor: 256, window: WindowKind::Hann }
    } else {
        ResamplerProfile { sinc_len: 128, cutoff_thousandths: 950, oversampling_factor: 128, window: WindowKind::Hann }
    }
}

/// Chooses [`resampler_profile_of`].
pub fn resampler_profile(filter_type: &str) -> (r: ResamplerProfile)
    ensures
        r == resampler_profile_of(filter_type@),
{
    if str_eq(filter_type, "linear_precise") {
        ResamplerProfile { sinc_len: 256, cutoff_thousandths: 960, oversampling_factor: 256, window: WindowKind::BlackmanHarris2 }
    } else if str_eq(filter_type, "linear_smooth") {
        ResamplerProfile { sinc_len: 96, cutoff_thousandths: 920, oversampling_factor: 96, window: WindowKind::BlackmanHarris2 }
    } else if str_eq(filter_type, "phase_smooth") {
        ResamplerProfile { sinc_len: 64, cutoff_thousandths: 880, oversampling_factor: 64, window: WindowKind::Hann }
    } else if str_eq(filter_type, "biophys_phase_flash") {
        ResamplerProfile { sinc_len: 128, cutoff_thousandths: 980, oversampling_factor: 512, window: WindowKind::BlackmanHarris2 }
    } else if str_eq(filter_type, "biophys_acoustic_smooth") {
        ResamplerProfile { sinc_len: 96, cutoff_thousandths: 940, oversampling_factor: 256, window: WindowKind::Hann }
    } else {
        ResamplerProfile { sinc_len: 128, cutoff_thousandths: 950, oversampling_factor: 128, window: WindowKind::Hann }
    }
}

/// The frames the engine moves per chunk.
pub const CHUNK_FRAMES: u64 = 1024;

/// A ring's capacity in samples: a quarter second of audio, and at least
/// four chunks.
pub open spec fn ring_capacity_of(rate: u32, channels: u16) -> nat {
    let quarter = ((rate / 4) * channels) as nat;
    let chunks = (CHUNK_FRAMES * channels * 4) as nat;
    if quarter < chunks {
        chunks
    } else {
        quarter
    }
}

/// Computes [`ring_capacity_of`].
pub fn ring_capacity(rate: u32, channels: u16) -> (r: u64)
    ensures
        r == ring_capacity_of(rate, channels),
{
    let q: u64 = (rate / 4) as u64;
    let ch: u64 = channels as u64;
    assert(q * ch <= 0xFFFF_FFFFu64 * 0xFFFFu64) by (nonlinear_arith)
        requires
            q <= 0xFFFF_FFFFu64,
            ch <= 0xFFFFu64,
    ;
    let quarter: u64 = q * ch;
    let chunks: u64 = CHUNK_FRAMES * channels as u64 * 4;
    if quarter < chunks {
        chunks
    } else {
        quarter
    }
}

/// The samples over which the output fades in when it starts: 50 ms, at
/// least one.
pub open spec fn fade_in_samples_of(rate: u32, channels: u16) -> nat {
    let n = ((rate * channels) / 20) as nat;
    if n < 1 {
        1
    } else {
        n
    }
}

/// Computes [`fade_in_samples_of`].
pub fn fade_in_samples(rate: u32, channels: u16) -> (r: u64)
    ensures
        r == fade_in_samples_of(rate, channels),
{
    let rt: u64 = rate as u64;
    let ch: u64 = channels as u64;
    assert(rt * ch <= 0xFFFF_FFFFu64 * 0xFFFFu64) by (nonlinear_arith)
        requires
            rt <= 0xFFFF_FFFFu64,
            ch <= 0xFFFFu64,
    ;
    let n: u64 = (rt * ch) / 20;
    if n < 1 {
        1
    } else {
        n
    }
}

/// A format's label, or `Unknown`.
pub open spec fn label_or_unknown(f: SampleFormat) -> Seq<char> {
    match format_label(f) {
        Some(l) => l,
        None => "Unknown"@,
    }
}

/// The source the engine captures from: the capture device named exactly
/// `name`, else a playback device of that name if it is a virtual cable.
pub open spec fn source_index(host: AudioHost, name: Seq<char>) -> Option<(int, bool)> {
    match named_index(host.input_devices@, name) {
        Some(i) => Some((i, true)),
        None => if is_virtual_cable(name) {
            match named_index(host.output_devices@, name) {
                Some(i) => Some((i, false)),
                None => None,
            }
        } else {
            None
        },
    }
}

/// The source's configuration: a capture device at the output's rate, a
/// playback device (captured by loopback) at its preferred configuration.
pub open spec fn source_config_of(host: AudioHost, source: (int, bool), output_rate: u32) -> Result<
    StreamConfig,
    Seq<char>,
> {
    if source.1 {
        input_config_for(host.input_devices@[source.0], Some(output_rate))
    } else {
        match best_output_of(host.output_devices@[source.0]) {
            Some(c) => Ok(c),
            None => Err("No output config"@),
        }
    }
}

/// Everything a run of the engine is started with.
#[derive(Debug)]
pub struct DspPlan {
    pub source_device: usize,
    pub source_is_input: bool,
    pub output_device: usize,
    pub source_config: StreamConfig,
    pub output_config: StreamConfig,
    pub input_capacity: u64,
    pub output_capacity: u64,
    pub resampler: Option<ResamplerProfile>,
    pub fade_in_samples: u64,
    pub stream_info: StreamInfo,
    pub pin_source_as_default: bool,
}

/// Why a run cannot start, in the order the engine checks, or `None`.
pub open spec fn dsp_plan_error(
    host: AudioHost,
    source: Seq<char>,
    output: Seq<char>,
    target: Option<u32>,
    format: Option<Seq<char>>,
) -> Option<Seq<char>> {
    match source_index(host, source) {
        None => Some("Audio source device not found"@),
        Some(s) => match named_index(host.output_devices@, output) {
            None => Some("Output device not found"@),
            Some(o) => match output_config_for(host.output_devices@[o], target, format) {
                Err(e) => Some(e),
                Ok(oc) => match source_config_of(host, s, oc.sample_rate) {
                    Err(e) => Some(e),
                    Ok(_) => None,
                },
            },
        },
    }
}

/// A plan is the one the engine makes for these requests.
pub open spec fn dsp_plan_fits(
    host: AudioHost,
    source: Seq<char>,
    output: Seq<char>,
    target: Option<u32>,
    filter: Seq<char>,
    format: Option<Seq<char>>,
    p: DspPlan,
) -> bool {
    let sc = p.source_config;
    let oc = p.output_config;
    &&& source_index(host, source) == Some((p.source_device as int, p.source_is_input))
    &&& named_index(host.output_devices@, output) == Some(p.output_device as int)
    &&& output_config_for(host.output_devices@[p.output_device as int], target, format) == Ok::<
        StreamConfig,
        Seq<char>,
    >(oc)
    &&& source_config_of(host, (p.source_device as int, p.source_is_input), oc.sample_rate)
        == Ok::<StreamConfig, Seq<char>>(sc)
    &&& format_value(sc.sample_format) is Some
    &&& format_value(oc.sample_format) is Some
    &&& p.input_capacity == ring_capacity_of(sc.sample_rate, sc.channels)
    &&& p.output_capacity == ring_capacity_of(oc.sample_rate, oc.channels)
    &&& p.resampler == (if sc.sample_rate == oc.sample_rate {
        None
    } else {
        Some(resampler_profile_of(filter))
    })
    &&& p.fade_in_samples == fade_in_samples_of(oc.sample_rate, oc.channels)
    &&& info_view(p.stream_info) == (
        sc.sample_rate,
        label_or_unknown(sc.sample_format),
        sc.channels as usize,
        oc.sample_rate,
        label_or_unknown(oc.sample_format),
        oc.channels as usize,
    )
    &&& p.pin_source_as_default == is_virtual_cable(source)
}

/// A format's label, or `Unknown`.
fn label_text(f: SampleFormat) -> (r: String)
    ensures
        r@ == label_or_unknown(f),
{
    match sample_format_label(f) {
        Some(l) => l.to_owned(),
        None => "Unknown".to_owned(),
    }
}

/// Plans a run of the engine (see [`dsp_plan_error`] and
/// [`dsp_plan_fits`]).
pub fn plan_dsp_engine(
    host: &AudioHost,
    source_name: &str,
    output_name: &str,
    target_sample_rate: Option<u32>,
    filter_type: &str,
    output_sample_format: Option<&str>,
) -> (r: Result<DspPlan, String>)
    ensures
        r is Err <==> dsp_plan_error(
            *host,
            source_name@,
            output_name@,
            target_sample_rate,
            opt_text(output_sample_format),
        ) is Some,
        r matches Err(e) ==> dsp_plan_error(
            *host,
            source_name@,
            output_name@,
            target_sample_rate,
            opt_text(output_sample_format),
        ) == Some(e@),
        r matches Ok(p) ==> dsp_plan_fits(
            *host,
            source_name@,
            output_name@,
            target_sample_rate,
            filter_type@,
            opt_text(output_sample_format),
            p,
        ),
{
    let (src, src_is_input) = match find_named_index(&host.input_devices, source_name) {
        Some(i) => (i, true),
        None => {
            if !is_virtual_cable_device(source_name) {
                return Err("Audio source device not found".to_owned());
            }
            match find_named_index(&host.output_devices, source_name) {
                Some(i) => (i, false),
                None => {
                    return Err("Audio source device not found".to_owned());
                },
            }
        },
    };
    let out = match find_named_index(&host.output_devices, output_name) {
        Some(i) => i,
        None => {
            return Err("Output device not found".to_owned());
        },
    };
    let output_config = match output_config_with_target(
        &host.output_devices[out],
        target_sample_rate,
        output_sample_format,
    ) {
        Ok(c) => c,
        Err(e) => {
            return Err(e);
        },
    };
    let source_config = if src_is_input {
        match input_config_with_target(&host.input_devices[src], Some(output_config.sample_rate)) {
            Ok(c) => c,
            Err(e) => {
                return Err(e);
            },
        }
    } else {
        match best_output_config(&host.output_devices[src]) {
            Some(c) => c,
            None => {
                return Err("No output config".to_owned());
            },
        }
    };
    proof {
        let ghost o = host.output_devices@[out as int];
        let ghost fmt = opt_text(output_sample_format);
        assert(format_value(output_config.sample_format) is Some);
        assert(format_value(source_config.sample_format) is Some);
    }
    let resampler = if source_config.sample_rate == output_config.sample_rate {
        None
    } else {
        Some(resampler_profile(filter_type))
    };
    let info = StreamInfo {
        source_sample_rate: source_config.sample_rate,
        source_bit_depth: label_text(source_config.sample_format),
        source_channels: source_config.channels as usize,
        output_sample_rate: output_config.sample_rate,
        output_bit_depth: label_text(output_config.sample_format),
        output_channels: output_config.channels as usize,
    };
    Ok(DspPlan {
        source_device: src,
        source_is_input: src_is_input,
        output_device: out,
        source_config,
        output_config,
        input_capacity: ring_capacity(source_config.sample_rate, source_config.channels),
        output_capacity: ring_capacity(output_config.sample_rate, output_config.channels),
        resampler,
        fade_in_samples: fade_in_samples(output_config.sample_rate, output_config.channels),
        stream_info: info,
        pin_source_as_default: is_virtual_cable_device(source_name),
    })
}

/// Starts a run: the engine is stopped and its counters cleared, then the
/// run is planned. A plan leaves the engine running, with no stream
/// reported until [`record_stream_info`]; a refusal leaves it stopped.
pub fn start_dsp_engine(
    state: &mut EngineState,
    host: &AudioHost,
    source_name: &str,
    output_name: &str,
    target_sample_rate: Option<u32>,
    filter_type: &str,
    output_sample_format: Option<&str>,
) -> (r: Result<DspPlan, String>)
    ensures
        final(state).running == r is Ok,
        final(state).input_overruns == 0,
        final(state).output_overruns == 0,
        final(state).output_underruns == 0,
        r is Err ==> final(state).stream_info is None,
        r matches Ok(p) ==> opt_info_view(final(state).stream_info) == Some(info_view(p.stream_info)),
        final(state).output_muted == old(state).output_muted,
        r is Err <==> dsp_plan_error(
            *host,
            source_name@,
            output_name@,
            target_sample_rate,
            opt_text(output_sample_format),
        ) is Some,
        r matches Err(e) ==> dsp_plan_error(
            *host,
            source_name@,
            output_name@,
            target_sample_rate,
            opt_text(output_sample_format),
        ) == Some(e@),
        r matches Ok(p) ==> dsp_plan_fits(
            *host,
            source_name@,
            output_name@,
            target_sample_rate,
            filter_type@,
            opt_text(output_sample_format),
            p,
        ),
{
    stop_dsp_engine_inner(state);
    state.input_overruns = 0;
    state.output_overruns = 0;
    state.output_underruns = 0;
    let r = plan_dsp_engine(
        host,
        source_name,
        output_name,
        target_sample_rate,
        filter_type,
        output_sample_format,
    );
    match &r {
        Ok(p) => {
            state.running = true;
            state.stream_info = Some(copy_stream_info(&p.stream_info));
        },
        Err(_) => {
            state.running = false;
        },
    }
    r
}

/// The label of the bit depth the engine streams for a requested output
/// format value.
pub open spec fn label_for_value(f: Seq<char>) -> Seq<char> {
    if f == "i16"@ || f == "u16"@ {
        "16-bit"@
    } else if f == "i24"@ {
        "24-bit"@
    } else if f == "i32"@ {
        "32-bit"@
    } else if f == "f32"@ {
        "32-bit float"@
    } else {
        "Unknown"@
    }
}

/// A start that asked for a sample rate and an output format, and
/// succeeded, streams at exactly that rate and reports the bit depth of
/// that format (the engine's stream info holds the plan's, see
/// [`start_dsp_engine`]).
pub proof fn law_started_stream_matches_request(
    host: AudioHost,
    source: Seq<char>,
    output: Seq<char>,
    rate: u32,
    filter: Seq<char>,
    format: Seq<char>,
    p: DspPlan,
)
    requires
        dsp_plan_fits(host, source, output, Some(rate), filter, Some(format), p),
    ensures
        p.stream_info.output_sample_rate == rate,
        p.stream_info.output_bit_depth@ == label_for_value(format),
{
    let dev = host.output_devices@[p.output_device as int];
    let v = dev.output_ranges.unwrap();
    let i = picked(v@, true, Some(format), Some(rate), false).unwrap();
    assert(is_pick(v@, true, Some(format), Some(rate), false, i));
    reveal_strlit("i16");
    reveal_strlit("u16");
    reveal_strlit("i24");
    reveal_strlit("i32");
    reveal_strlit("f32");
    assert("i16"@[1] == '1' && "u16"@[0] == 'u' && "i24"@[1] == '2' && "i32"@[1] == '3'
        && "f32"@[0] == 'f' && "i24"@[0] == 'i' && "i32"@[0] == 'i');
    let sf = p.output_config.sample_format;
    assert(sf == v@[i].sample_format);
    assert(format_value(sf) == Some(format));
    match sf {
        SampleFormat::I16 => assert(format == "i16"@),
        SampleFormat::U16 => assert(format == "u16"@),
        SampleFormat::I24 => {
            assert(format == "i24"@);
            assert(format != "i16"@ && format != "u16"@);
        },
        SampleFormat::I32 => {
            assert(format == "i32"@);
            assert(format != "i16"@ && format != "u16"@ && format != "i24"@);
        },
        SampleFormat::F32 => {
            assert(format == "f32"@);
            assert(format != "i16"@ && format != "u16"@ && format != "i24"@ && format != "i32"@);
        },
        _ => {},
    }
}


/// The streams play: the engine reports their parameters.
pub fn record_stream_info(state: &mut EngineState, info: StreamInfo)
    ensures
        counts_grow(*old(state), *final(state)),
        opt_info_view(final(state).stream_info) == Some(info_view(info)),
        final(state).running == old(state).running,
        final(state).input_overruns == old(state).input_overruns,
        final(state).output_overruns == old(state).output_overruns,
        final(state).output_underruns == old(state).output_underruns,
        final(state).output_muted == old(state).output_muted,
{
    state.stream_info = Some(info);
}

// ---------------------------------------------------------------------------
// Equaliser bands
// ---------------------------------------------------------------------------

/// The biquad shape of an equaliser band.
#[derive(Clone, Copy, Debug, PartialEq, Eq, Structural)]
pub enum EqFilterKind {
    LowShelf,
    HighShelf,
    LowPass,
    HighPass,
    BandPass,
    Notch,
    Peaking,
}

/// The shape each band type of the settings page stands for; unknown types
/// are peaking bands.
pub open spec fn eq_filter_kind_of(name: Seq<char>) -> EqFilterKind {
    if name == "low_shelf"@ {
        EqFilterKind::LowShelf
    } else if name == "high_shelf"@ {
        EqFilterKind::HighShelf
    } else if name == "low_pass"@ {
        EqFilterKind::LowPass
    } else if name == "high_pass"@ {
        EqFilterKind::HighPass
    } else if name == "band_pass"@ {
        EqFilterKind::BandPass
    } else if name == "band_stop"@ || name == "notch"@ {
        EqFilterKind::Notch
    } else {
        EqFilterKind::Peaking
    }
}

/// Chooses [`eq_filter_kind_of`].
pub fn eq_filter_kind(name: &str) -> (r: EqFilterKind)
    ensures
        r == eq_filter_kind_of(name@),
{
    if str_eq(name, "low_shelf") {
        EqFilterKind::LowShelf
    } else if str_eq(name, "high_shelf") {
        EqFilterKind::HighShelf
    } else if str_eq(name, "low_pass") {
        EqFilterKind::LowPass
    } else if str_eq(name, "high_pass") {
        EqFilterKind::HighPass
    } else if str_eq(name, "band_pass") {
        EqFilterKind::BandPass
    } else if str_eq(name, "band_stop") || str_eq(name, "notch") {
        EqFilterKind::Notch
    } else {
        EqFilterKind::Peaking
    }
}

/// The code the system effect receives for a band type agrees with the
/// shape the engine gives it: shelves, passes and notches get codes 1 to 5
/// in the order low shelf, high shelf, low pass, high pass, notch; band
/// passes and peaking bands (every other name) get 0.
pub proof fn law_effect_codes_match_band_shapes(name: Seq<char>)
    ensures
        crate::apo_link::apo_filter_code_of(name) == match eq_filter_kind_of(name) {
            EqFilterKind::LowShelf => 1u32,
            EqFilterKind::HighShelf => 2u32,
            EqFilterKind::LowPass => 3u32,
            EqFilterKind::HighPass => 4u32,
            EqFilterKind::Notch => 5u32,
            EqFilterKind::BandPass => 0u32,
            EqFilterKind::Peaking => 0u32,
        },
{
    reveal_strlit("band_pass");
    reveal_strlit("low_shelf");
    reveal_strlit("high_shelf");
    reveal_strlit("low_pass");
    reveal_strlit("high_pass");
    reveal_strlit("band_stop");
    reveal_strlit("notch");
    if name == "band_pass"@ {
        assert("band_pass"@[1] == 'a' && "low_shelf"@[1] == 'o' && "high_shelf"@[1] == 'i');
        assert("low_pass"@[1] == 'o' && "high_pass"@[1] == 'i');
        assert("band_pass"@[5] == 'p' && "band_stop"@[5] == 's' && "notch"@.len() == 5);
        assert("band_pass"@.len() == 9);
    }
}

} // verus!
