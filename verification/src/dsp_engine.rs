//! The DSP engine's decisions: which configuration each device streams
//! with, which bit depths and rates a device offers, how the engine is
//! planned before its streams start, and the state the engine reports.
use vstd::prelude::*;
use crate::audio_devices::{
    AudioDevice, AudioHost, ConfigRange, SampleFormat, StreamConfig, ascending, covered, device_at,
    eligible, find_device, find_named, first_named, format_label, format_value, found_device,
    is_virtual_cable, is_virtual_cable_device, names_of, none_named, opt_text, pick_range, picked,
    push_all_names, push_new_names, ranges_of, sample_format_label, sample_format_value,
    standard_rates, string_views, supported_standard_rates, append_new,
};
use crate::text::{chars_of, contains, contains_seq, decimal, push_decimal, str_eq, string_of,
    to_lowercase, unicode_lowercase};

verus! {

/// A `Result` whose error text is read as its characters.
pub open spec fn text_err<T>(r: Result<T, String>) -> Result<T, Seq<char>> {
    match r {
        Ok(v) => Ok(v),
        Err(e) => Err(e@),
    }
}

/// A text `Result`, read as characters on both sides.
pub open spec fn text_both(r: Result<String, String>) -> Result<Seq<char>, Seq<char>> {
    match r {
        Ok(v) => Ok(v@),
        Err(e) => Err(e@),
    }
}

/// An error carrying a fixed message.
fn fail<T>(msg: &str) -> (r: Result<T, String>)
    ensures
        text_err(r) == Err::<T, Seq<char>>(msg@),
{
    Err(msg.to_owned())
}

/// The decimal text of a number.
pub fn decimal_text(n: u64) -> (r: String)
    ensures
        r@ == decimal(n as nat),
{
    let mut d: Vec<char> = Vec::new();
    push_decimal(&mut d, n);
    assert(d@ =~= decimal(n as nat));
    string_of(&d)
}

// ---------------------------------------------------------------------------
// Configurations
// ---------------------------------------------------------------------------

/// The range a search picks, at the rate it is to run.
pub open spec fn pick_at(s: Seq<ConfigRange>, i: int, rate: Option<u32>) -> StreamConfig {
    match rate {
        Some(t) => s[i].at_rate(t),
        None => s[i].at_rate(s[i].max_sample_rate),
    }
}

/// The capture configuration the engine prefers: the device's default,
/// else the range with the highest rate, at that rate.
pub open spec fn best_input_of(dev: AudioDevice) -> Option<StreamConfig> {
    match dev.default_input {
        Some(c) => Some(c),
        None => match picked(ranges_of(dev.input_ranges), false, None, None, false) {
            Some(i) => Some(pick_at(ranges_of(dev.input_ranges), i, None)),
            None => None,
        },
    }
}

/// The playback configuration the engine prefers: the device's default if
/// its format can be streamed, else the streamable range with the highest
/// rate, at that rate.
pub open spec fn best_output_of(dev: AudioDevice) -> Option<StreamConfig> {
    match dev.default_output {
        Some(c) if format_value(c.sample_format) is Some => Some(c),
        _ => match picked(ranges_of(dev.output_ranges), true, None, None, false) {
            Some(i) => Some(pick_at(ranges_of(dev.output_ranges), i, None)),
            None => None,
        },
    }
}

/// Finds [`best_input_of`].
pub fn best_input_config(dev: &AudioDevice) -> (r: Option<StreamConfig>)
    ensures
        r == best_input_of(*dev),
{
    match dev.default_input {
        Some(c) => Some(c),
        None => match &dev.input_ranges {
            Some(ranges) => match pick_range(ranges, false, None, None, false) {
                Some(i) => Some(ranges[i].with_max_sample_rate()),
                None => None,
            },
            None => {
                assert(ranges_of(dev.input_ranges).len() == 0);
                None
            },
        },
    }
}

/// Finds [`best_output_of`].
pub fn best_output_config(dev: &AudioDevice) -> (r: Option<StreamConfig>)
    ensures
        r == best_output_of(*dev),
{
    match dev.default_output {
        Some(c) => {
            if sample_format_value(c.sample_format).is_some() {
                return Some(c);
            }
        },
        None => {},
    }
    match &dev.output_ranges {
        Some(ranges) => match pick_range(ranges, true, None, None, false) {
            Some(i) => Some(ranges[i].with_max_sample_rate()),
            None => None,
        },
        None => {
            assert(ranges_of(dev.output_ranges).len() == 0);
            None
        },
    }
}

/// The capture configuration for a wanted rate: with a target, the
/// streamable range that holds it (32-bit integer ranges first, then the
/// highest rate), at the target; without one, [`best_input_of`].
pub open spec fn input_config_for(dev: AudioDevice, target: Option<u32>) -> Result<
    StreamConfig,
    Seq<char>,
> {
    match target {
        None => match best_input_of(dev) {
            Some(c) => Ok(c),
            None => Err("No input config"@),
        },
        Some(t) => match dev.input_ranges {
            None => Err("No input config"@),
            Some(v) => match picked(v@, true, None, Some(t), true) {
                Some(i) => Ok(pick_at(v@, i, Some(t))),
                None => Err("Input device does not support "@ + decimal(t as nat) + " Hz"@),
            },
        },
    }
}

/// Finds [`input_config_for`].
pub fn input_config_with_target(dev: &AudioDevice, target: Option<u32>) -> (r: Result<
    StreamConfig,
    String,
>)
    ensures
        text_err(r) == input_config_for(*dev, target),
{
    match target {
        None => match best_input_config(dev) {
            Some(c) => Ok(c),
            None => fail("No input config"),
        },
        Some(t) => match &dev.input_ranges {
            None => fail("No input config"),
            Some(ranges) => match pick_range(ranges, true, None, Some(t), true) {
                Some(i) => Ok(ranges[i].with_sample_rate(t)),
                None => {
                    let mut msg = "Input device does not support ".to_owned();
                    let num = decimal_text(t as u64);
                    msg.append(num.as_str());
                    msg.append(" Hz");
                    Err(msg)
                },
            },
        },
    }
}

/// The playback configuration for a wanted rate and bit depth. With either
/// given, the streamable ranges of the wanted format are searched by highest
/// rate for one holding the target (or for any, without a target); if none
/// qualifies, a wanted format is an error and otherwise
/// [`best_output_of`] stands. With neither given, [`best_output_of`].
pub open spec fn output_config_for(
    dev: AudioDevice,
    target: Option<u32>,
    format: Option<Seq<char>>,
) -> Result<StreamConfig, Seq<char>> {
    let best = match best_output_of(dev) {
        Some(c) => Ok(c),
        None => Err("No output config"@),
    };
    if target is Some || format is Some {
        match dev.output_ranges {
            None => Err("No output config"@),
            Some(v) => match picked(v@, true, format, target, false) {
                Some(i) => Ok(pick_at(v@, i, target)),
                None => if format is Some {
                    Err("Output device does not support the selected bit depth"@)
                } else {
                    best
                },
            },
        }
    } else {
        best
    }
}

/// Finds [`output_config_for`].
pub fn output_config_with_target(
    dev: &AudioDevice,
    target: Option<u32>,
    format: Option<&str>,
) -> (r: Result<StreamConfig, String>)
    ensures
        text_err(r) == output_config_for(*dev, target, opt_text(format)),
{
    if target.is_some() || format.is_some() {
        match &dev.output_ranges {
            None => {
                return fail("No output config");
            },
            Some(ranges) => match pick_range(ranges, true, format, target, false) {
                Some(i) => {
                    return match target {
                        Some(t) => Ok(ranges[i].with_sample_rate(t)),
                        None => Ok(ranges[i].with_max_sample_rate()),
                    };
                },
                None => {
                    if format.is_some() {
                        return fail("Output device does not support the selected bit depth");
                    }
                },
            },
        }
    }
    match best_output_config(dev) {
        Some(c) => Ok(c),
        None => fail("No output config"),
    }
}

// ---------------------------------------------------------------------------
// What a device offers
// ---------------------------------------------------------------------------

/// What `get_device_sample_rate` answers: the rate of the preferred
/// capture configuration of a capture device, or of the preferred playback
/// configuration of a playback device.
pub open spec fn device_sample_rate_of(host: AudioHost, name: Seq<char>, found: Option<(usize, bool)>) -> Result<
    u32,
    Seq<char>,
> {
    match found {
        None => Err("Device not found"@),
        Some(f) => if f.1 {
            match best_input_of(device_at(host, f)) {
                Some(c) => Ok(c.sample_rate),
                None => Err("No input config"@),
            }
        } else {
            match best_output_of(device_at(host, f)) {
                Some(c) => Ok(c.sample_rate),
                None => Err("No output config"@),
            }
        },
    }
}

/// The current sample rate of the device whose name contains `device_name`.
pub fn get_device_sample_rate(host: &AudioHost, device_name: &str, is_asio: bool) -> (r: Result<
    u32,
    String,
>)
    ensures
        exists|f: Option<(usize, bool)>|
            found_device(*host, device_name@, f) && text_err(r) == device_sample_rate_of(
                *host,
                device_name@,
                f,
            ),
{
    let found = find_device(host, device_name);
    match found {
        None => fail("Device not found"),
        Some((i, true)) => match best_input_config(&host.input_devices[i]) {
            Some(c) => Ok(c.sample_rate),
            None => fail("No input config"),
        },
        Some((i, false)) => match best_output_config(&host.output_devices[i]) {
            Some(c) => Ok(c.sample_rate),
            None => fail("No output config"),
        },
    }
}

/// The name of a sample format's depth, as the settings page shows it.
pub open spec fn depth_name(f: SampleFormat) -> Seq<char> {
    match f {
        SampleFormat::F32 => "32-bit float"@,
        SampleFormat::F64 => "64-bit float"@,
        SampleFormat::I16 | SampleFormat::U16 => "16-bit"@,
        SampleFormat::I32 | SampleFormat::U32 => "32-bit"@,
        SampleFormat::I8 | SampleFormat::U8 => "8-bit"@,
        _ => "Unknown"@,
    }
}

/// The integer depth a range reveals behind a shared-mode float format: 16
/// for 16-bit integer ranges, and for 32-bit integer ranges 32 on FiiO
/// devices and 24 elsewhere.
pub open spec fn integer_depth(c: ConfigRange, fiio: bool) -> nat {
    match c.sample_format {
        SampleFormat::I16 => 16,
        SampleFormat::I32 => if fiio {
            32
        } else {
            24
        },
        _ => 0,
    }
}

/// The largest [`integer_depth`] among ranges (0 for none).
pub open spec fn max_integer_depth(s: Seq<ConfigRange>, fiio: bool) -> nat
    decreases s.len(),
{
    if s.len() == 0 {
        0
    } else {
        let rest = max_integer_depth(s.drop_last(), fiio);
        let d = integer_depth(s.last(), fiio);
        if rest < d {
            d
        } else {
            rest
        }
    }
}

/// The depth reported for a configuration: its [`depth_name`], except that
/// a 32-bit float format outside ASIO is replaced by the largest integer
/// depth the device's ranges reveal, when there is one.
pub open spec fn reported_depth(
    f: SampleFormat,
    ranges: Seq<ConfigRange>,
    is_asio: bool,
    fiio: bool,
) -> Seq<char> {
    let bits = max_integer_depth(ranges, fiio);
    if !is_asio && depth_name(f) == "32-bit float"@ && bits > 0 {
        decimal(bits) + "-bit"@
    } else {
        depth_name(f)
    }
}

/// The device is a FiiO: its lower-cased name mentions `fiio`.
pub open spec fn is_fiio(name: Seq<char>) -> bool {
    contains_seq(unicode_lowercase(name), "fiio"@)
}

/// Computes [`max_integer_depth`].
pub fn largest_integer_depth(ranges: &Vec<ConfigRange>, fiio: bool) -> (r: u64)
    ensures
        r == max_integer_depth(ranges@, fiio),
        r <= 32,
{
    let mut best: u64 = 0;
    let mut k: usize = 0;
    while k < ranges.len()
        invariant
            k <= ranges.len(),
            best == max_integer_depth(ranges@.take(k as int), fiio),
            best <= 32,
        decreases ranges.len() - k,
    {
        let d: u64 = match ranges[k].sample_format {
            SampleFormat::I16 => 16,
            SampleFormat::I32 => if fiio {
                32
            } else {
                24
            },
            _ => 0,
        };
        assert(ranges@.take(k + 1).drop_last() =~= ranges@.take(k as int));
        if best < d {
            best = d;
        }
        k += 1;
    }
    assert(ranges@.take(ranges.len() as int) =~= ranges@);
    best
}

/// Names the depth of a format (see [`depth_name`]).
pub fn depth_name_of(f: SampleFormat) -> (r: String)
    ensures
        r@ == depth_name(f),
{
    match f {
        SampleFormat::F32 => "32-bit float".to_owned(),
        SampleFormat::F64 => "64-bit float".to_owned(),
        SampleFormat::I16 | SampleFormat::U16 => "16-bit".to_owned(),
        SampleFormat::I32 | SampleFormat::U32 => "32-bit".to_owned(),
        SampleFormat::I8 | SampleFormat::U8 => "8-bit".to_owned(),
        _ => "Unknown".to_owned(),
    }
}

/// What `get_device_bit_depth` answers for a found device.
pub open spec fn device_bit_depth_of(
    host: AudioHost,
    name: Seq<char>,
    is_asio: bool,
    found: Option<(usize, bool)>,
) -> Result<Seq<char>, Seq<char>> {
    match found {
        None => Err("Device not found"@),
        Some(f) => {
            let dev = device_at(host, f);
            let config = if f.1 {
                best_input_of(dev)
            } else {
                best_output_of(dev)
            };
            let ranges = if f.1 {
                ranges_of(dev.input_ranges)
            } else {
                ranges_of(dev.output_ranges)
            };
            match config {
                None => if f.1 {
                    Err("No input config"@)
                } else {
                    Err("No output config"@)
                },
                Some(c) => Ok(reported_depth(c.sample_format, ranges, is_asio, is_fiio(name))),
            }
        },
    }
}

/// The bit depth of the device whose name contains `device_name` (see
/// [`device_bit_depth_of`]).
pub fn get_device_bit_depth(host: &AudioHost, device_name: &str, is_asio: bool) -> (r: Result<
    String,
    String,
>)
    ensures
        exists|f: Option<(usize, bool)>|
            found_device(*host, device_name@, f) && text_both(r) == device_bit_depth_of(
                *host,
                device_name@,
                is_asio,
                f,
            ),
{
    let found = find_device(host, device_name);
    let (dev, is_input) = match found {
        None => {
            return fail("Device not found");
        },
        Some((i, true)) => (&host.input_devices[i], true),
        Some((i, false)) => (&host.output_devices[i], false),
    };
    let config = if is_input {
        match best_input_config(dev) {
            Some(c) => c,
            None => {
                return fail("No input config");
            },
        }
    } else {
        match best_output_config(dev) {
            Some(c) => c,
            None => {
                return fail("No output config");
            },
        }
    };
    let name = depth_name_of(config.sample_format);
    if !is_asio && str_eq(name.as_str(), "32-bit float") {
        let lower = to_lowercase(device_name);
        let fiio = contains(&chars_of(lower.as_str()), &chars_of("fiio"));
        let ranges = if is_input {
            &dev.input_ranges
        } else {
            &dev.output_ranges
        };
        let bits = match ranges {
            Some(v) => largest_integer_depth(v, fiio),
            None => 0,
        };
        if bits > 0 {
            let mut text = decimal_text(bits);
            text.append("-bit");
            return Ok(text);
        }
    }
    Ok(name)
}

/// A bit depth the settings page offers: the format's value and its label.
#[derive(Debug)]
pub struct BitDepthOption {
    pub value: String,
    pub label: String,
}

/// The (value, label) pairs of a list of options.
pub open spec fn option_views(v: Seq<BitDepthOption>) -> Seq<(Seq<char>, Seq<char>)> {
    v.map_values(|o: BitDepthOption| (o.value@, o.label@))
}

/// Some option already carries value `v`.
pub open spec fn has_value(opts: Seq<(Seq<char>, Seq<char>)>, v: Seq<char>) -> bool {
    exists|k: int| 0 <= k < opts.len() && #[trigger] opts[k].0 == v
}

/// The options a list of ranges offers: each streamable format once, in
/// the order of its first range.
pub open spec fn depth_options(s: Seq<ConfigRange>) -> Seq<(Seq<char>, Seq<char>)>
    decreases s.len(),
{
    if s.len() == 0 {
        Seq::empty()
    } else {
        let before = depth_options(s.drop_last());
        let f = s.last().sample_format;
        match (format_value(f), format_label(f)) {
            (Some(v), Some(l)) => if has_value(before, v) {
                before
            } else {
                before.push((v, l))
            },
            _ => before,
        }
    }
}

/// Some range streams a format with this value and label.
pub open spec fn offered_by(s: Seq<ConfigRange>, o: (Seq<char>, Seq<char>)) -> bool {
    exists|k: int|
        0 <= k < s.len() && format_value(#[trigger] s[k].sample_format) == Some(o.0) && format_label(
            s[k].sample_format,
        ) == Some(o.1)
}

/// Law: the bit depths offered name each format once, and each carries the
/// value and label of a format some range streams.
pub proof fn law_depth_options_distinct(s: Seq<ConfigRange>)
    ensures
        forall|i: int, j: int|
            0 <= i < j < depth_options(s).len() ==> #[trigger] depth_options(s)[i].0
                != #[trigger] depth_options(s)[j].0,
        forall|i: int| 0 <= i < depth_options(s).len() ==> offered_by(s, #[trigger] depth_options(s)[i]),
    decreases s.len(),
{
    if s.len() > 0 {
        let rest = s.drop_last();
        law_depth_options_distinct(rest);
        let before = depth_options(rest);
        assert forall|i: int| 0 <= i < before.len() implies offered_by(s, #[trigger] before[i]) by {
            assert(offered_by(rest, before[i]));
            let k = choose|k: int|
                0 <= k < rest.len() && format_value(#[trigger] rest[k].sample_format) == Some(
                    before[i].0,
                ) && format_label(rest[k].sample_format) == Some(before[i].1);
            assert(s[k] == rest[k]);
        }
        let f = s.last().sample_format;
        match (format_value(f), format_label(f)) {
            (Some(v), Some(l)) => {
                if !has_value(before, v) {
                    let after = before.push((v, l));
                    assert(depth_options(s) == after);
                    assert forall|i: int, j: int|
                        0 <= i < j < after.len() implies #[trigger] after[i].0 != #[trigger] after[j].0 by {
                        if j == after.len() - 1 {
                            assert(after[i] == before[i]);
                            if after[i].0 == v {
                                assert(before[i].0 == v);
                            }
                        } else {
                            assert(after[i] == before[i]);
                            assert(after[j] == before[j]);
                        }
                    }
                    assert forall|i: int| 0 <= i < after.len() implies offered_by(s, #[trigger] after[i]) by {
                        if i == after.len() - 1 {
                            assert(s[s.len() - 1] == s.last());
                        } else {
                            assert(after[i] == before[i]);
                        }
                    }
                }
            },
            _ => {},
        }
    }
}

/// Whether some option carries value `v`.
fn holds_value(opts: &Vec<BitDepthOption>, v: &str) -> (r: bool)
    ensures
        r == has_value(option_views(opts@), v@),
{
    let mut k: usize = 0;
    while k < opts.len()
        invariant
            k <= opts.len(),
            forall|j: int| 0 <= j < k ==> #[trigger] option_views(opts@)[j].0 != v@,
        decreases opts.len() - k,
    {
        if str_eq(opts[k].value.as_str(), v) {
            assert(option_views(opts@)[k as int].0 == v@);
            return true;
        }
        k += 1;
    }
    false
}

/// Computes [`depth_options`].
pub fn bit_depth_options(ranges: &Vec<ConfigRange>) -> (r: Vec<BitDepthOption>)
    ensures
        option_views(r@) == depth_options(ranges@),
{
    let mut opts: Vec<BitDepthOption> = Vec::new();
    let mut k: usize = 0;
    while k < ranges.len()
        invariant
            k <= ranges.len(),
            option_views(opts@) == depth_options(ranges@.take(k as int)),
        decreases ranges.len() - k,
    {
        let f = ranges[k].sample_format;
        assert(ranges@.take(k + 1).drop_last() =~= ranges@.take(k as int));
        assert(ranges@.take(k + 1).last() == ranges@[k as int]);
        match (sample_format_value(f), sample_format_label(f)) {
            (Some(v), Some(l)) => {
                if !holds_value(&opts, v) {
                    let ghost before = opts@;
                    opts.push(BitDepthOption { value: v.to_owned(), label: l.to_owned() });
                    assert(option_views(opts@) =~= option_views(before).push((v@, l@)));
                }
            },
            _ => {},
        }
        k += 1;
    }
    assert(ranges@.take(ranges.len() as int) =~= ranges@);
    opts
}

/// What `get_device_supported_bit_depths` answers for a found device: the
/// options of its playback ranges.
pub open spec fn supported_bit_depths_of(host: AudioHost, found: Option<(usize, bool)>) -> Result<
    Seq<(Seq<char>, Seq<char>)>,
    Seq<char>,
> {
    match found {
        None => Err("Output device not found"@),
        Some(f) => match device_at(host, f).output_ranges {
            None => Err("No output config"@),
            Some(v) => Ok(depth_options(v@)),
        },
    }
}

/// The bit depths the device whose name contains `device_name` can play.
pub fn get_device_supported_bit_depths(host: &AudioHost, device_name: &str, is_asio: bool) -> (r:
    Result<Vec<BitDepthOption>, String>)
    ensures
        exists|f: Option<(usize, bool)>|
            found_device(*host, device_name@, f) && match r {
                Ok(v) => supported_bit_depths_of(*host, f) == Ok::<
                    Seq<(Seq<char>, Seq<char>)>,
                    Seq<char>,
                >(option_views(v@)),
                Err(e) => supported_bit_depths_of(*host, f) == Err::<
                    Seq<(Seq<char>, Seq<char>)>,
                    Seq<char>,
                >(e@),
            },
{
    let found = find_device(host, device_name);
    let dev = match found {
        None => {
            return fail("Output device not found");
        },
        Some((i, true)) => &host.input_devices[i],
        Some((i, false)) => &host.output_devices[i],
    };
    match &dev.output_ranges {
        None => fail("No output config"),
        Some(v) => Ok(bit_depth_options(v)),
    }
}

/// What `get_device_supported_sample_rates` answers for a found device:
/// the standard rates its playback ranges hold, ascending.
pub open spec fn supported_rates_ok(host: AudioHost, f: (usize, bool), rates: Seq<u32>) -> bool {
    &&& device_at(host, f).output_ranges is Some
    &&& ascending(rates)
    &&& forall|x: u32| #[trigger]
        rates.contains(x) <==> (standard_rates().contains(x) && covered(
            ranges_of(device_at(host, f).output_ranges),
            x,
        ))
}

/// The standard sample rates the device whose name contains `device_name`
/// can play, ascending and without repeats.
pub fn get_device_supported_sample_rates(host: &AudioHost, device_name: &str, is_asio: bool) -> (r:
    Result<Vec<u32>, String>)
    ensures
        exists|f: Option<(usize, bool)>|
            found_device(*host, device_name@, f) && match f {
                None => text_err(r) == Err::<Vec<u32>, Seq<char>>("Output device not found"@),
                Some(g) => match device_at(*host, g).output_ranges {
                    None => text_err(r) == Err::<Vec<u32>, Seq<char>>("No output config"@),
                    Some(_) => r matches Ok(v) && supported_rates_ok(*host, g, v@),
                },
            },
{
    let found = find_device(host, device_name);
    let dev = match found {
        None => {
            return fail("Output device not found");
        },
        Some((i, true)) => &host.input_devices[i],
        Some((i, false)) => &host.output_devices[i],
    };
    match &dev.output_ranges {
        None => fail("No output config"),
        Some(v) => Ok(supported_standard_rates(v)),
    }
}

/// The devices offered as sources: every playback device, each name once,
/// in the host's order.
pub fn get_source_devices(host: &AudioHost, is_asio: bool) -> (r: Vec<String>)
    ensures
        string_views(r@) == append_new(Seq::empty(), names_of(host.output_devices@)),
{
    let mut names: Vec<String> = Vec::new();
    assert(string_views(names@) =~= Seq::<Seq<char>>::empty());
    push_new_names(&mut names, &host.output_devices);
    names
}

/// The devices offered as outputs: every playback device, in the host's
/// order.
pub fn get_output_devices(host: &AudioHost, is_asio: bool) -> (r: Vec<String>)
    ensures
        string_views(r@) == names_of(host.output_devices@),
{
    let mut names: Vec<String> = Vec::new();
    push_all_names(&mut names, &host.output_devices);
    assert(string_views(names@) =~= names_of(host.output_devices@));
    names
}

} // verus!
