//! Audio devices as the DSP engine and the woofer router see them: the
//! stream configurations a device offers, how a device is found by name,
//! and how a configuration is chosen among the ranges it supports.
//!
//! A host is held as plain values: the devices it lists for capture and for
//! playback, each with its name, its default configurations and its
//! supported ranges (`None` where the query failed).
use vstd::prelude::*;
use crate::text::{chars_of, contains, contains_seq, str_eq, to_lowercase, unicode_lowercase};

verus! {

/// How a device stores one sample.
#[derive(Clone, Copy, Debug, PartialEq, Eq, Structural)]
pub enum SampleFormat {
    I8,
    I16,
    I24,
    I32,
    I64,
    U8,
    U16,
    U32,
    U64,
    F32,
    F64,
    Other,
}

/// A range of stream configurations a device supports.
#[derive(Clone, Copy, Debug)]
pub struct ConfigRange {
    pub channels: u16,
    pub min_sample_rate: u32,
    pub max_sample_rate: u32,
    pub sample_format: SampleFormat,
}

/// One stream configuration.
#[derive(Clone, Copy, Debug, PartialEq, Eq, Structural)]
pub struct StreamConfig {
    pub channels: u16,
    pub sample_rate: u32,
    pub sample_format: SampleFormat,
}

/// A device: its name, its default configurations and its supported ranges.
/// A `None` stands for a query that failed.
#[derive(Debug)]
pub struct AudioDevice {
    pub name: String,
    pub default_input: Option<StreamConfig>,
    pub default_output: Option<StreamConfig>,
    pub input_ranges: Option<Vec<ConfigRange>>,
    pub output_ranges: Option<Vec<ConfigRange>>,
}

/// The devices a host lists for capture and for playback, in its order.
#[derive(Debug)]
pub struct AudioHost {
    pub input_devices: Vec<AudioDevice>,
    pub output_devices: Vec<AudioDevice>,
}

impl ConfigRange {
    /// The configuration of this range at a given rate.
    pub open spec fn at_rate(self, rate: u32) -> StreamConfig {
        StreamConfig { channels: self.channels, sample_rate: rate, sample_format: self.sample_format }
    }

    /// This range at `rate`.
    pub fn with_sample_rate(&self, rate: u32) -> (r: StreamConfig)
        ensures
            r == self.at_rate(rate),
    {
        StreamConfig { channels: self.channels, sample_rate: rate, sample_format: self.sample_format }
    }

    /// This range at its highest rate.
    pub fn with_max_sample_rate(&self) -> (r: StreamConfig)
        ensures
            r == self.at_rate(self.max_sample_rate),
    {
        self.with_sample_rate(self.max_sample_rate)
    }
}

/// The ranges of a query that succeeded, and no ranges for one that failed.
pub open spec fn ranges_of(q: Option<Vec<ConfigRange>>) -> Seq<ConfigRange> {
    match q {
        Some(v) => v@,
        None => Seq::empty(),
    }
}

// ---------------------------------------------------------------------------
// Sample formats
// ---------------------------------------------------------------------------

/// The value by which the engine names a sample format it can stream.
pub open spec fn format_value(f: SampleFormat) -> Option<Seq<char>> {
    match f {
        SampleFormat::I16 => Some("i16"@),
        SampleFormat::I24 => Some("i24"@),
        SampleFormat::I32 => Some("i32"@),
        SampleFormat::U16 => Some("u16"@),
        SampleFormat::F32 => Some("f32"@),
        _ => None,
    }
}

/// The label shown for a sample format the engine can stream.
pub open spec fn format_label(f: SampleFormat) -> Option<Seq<char>> {
    match f {
        SampleFormat::I16 | SampleFormat::U16 => Some("16-bit"@),
        SampleFormat::I24 => Some("24-bit"@),
        SampleFormat::I32 => Some("32-bit"@),
        SampleFormat::F32 => Some("32-bit float"@),
        _ => None,
    }
}

/// Names a sample format (see [`format_value`]).
pub fn sample_format_value(f: SampleFormat) -> (r: Option<&'static str>)
    ensures
        match r {
            Some(s) => format_value(f) == Some(s@),
            None => format_value(f) is None,
        },
{
    match f {
        SampleFormat::I16 => Some("i16"),
        SampleFormat::I24 => Some("i24"),
        SampleFormat::I32 => Some("i32"),
        SampleFormat::U16 => Some("u16"),
        SampleFormat::F32 => Some("f32"),
        _ => None,
    }
}

/// Labels a sample format (see [`format_label`]).
pub fn sample_format_label(f: SampleFormat) -> (r: Option<&'static str>)
    ensures
        match r {
            Some(s) => format_label(f) == Some(s@),
            None => format_label(f) is None,
        },
{
    match f {
        SampleFormat::I16 | SampleFormat::U16 => Some("16-bit"),
        SampleFormat::I24 => Some("24-bit"),
        SampleFormat::I32 => Some("32-bit"),
        SampleFormat::F32 => Some("32-bit float"),
        _ => None,
    }
}

/// A format the engine streams has both a value and a label.
pub proof fn lemma_value_has_label(f: SampleFormat)
    ensures
        format_value(f) is Some <==> format_label(f) is Some,
{
}

// ---------------------------------------------------------------------------
// Finding devices by name
// ---------------------------------------------------------------------------

/// `i` is the first device whose name contains `name`.
pub open spec fn first_containing(devs: Seq<AudioDevice>, name: Seq<char>, i: int) -> bool {
    &&& 0 <= i < devs.len()
    &&& contains_seq(devs[i].name@, name)
    &&& forall|j: int| 0 <= j < i ==> !contains_seq(#[trigger] devs[j].name@, name)
}

/// No device's name contains `name`.
pub open spec fn none_containing(devs: Seq<AudioDevice>, name: Seq<char>) -> bool {
    forall|j: int| 0 <= j < devs.len() ==> !contains_seq(#[trigger] devs[j].name@, name)
}

/// The first device, among `devs`, whose name contains `name`.
pub fn find_containing(devs: &Vec<AudioDevice>, name: &str) -> (r: Option<usize>)
    ensures
        match r {
            Some(i) => first_containing(devs@, name@, i as int),
            None => none_containing(devs@, name@),
        },
{
    let needle = chars_of(name);
    let mut i: usize = 0;
    while i < devs.len()
        invariant
            i <= devs.len(),
            needle@ == name@,
            forall|j: int| 0 <= j < i ==> !contains_seq(#[trigger] devs@[j].name@, name@),
        decreases devs.len() - i,
    {
        let hay = chars_of(devs[i].name.as_str());
        if contains(&hay, &needle) {
            return Some(i);
        }
        i += 1;
    }
    None
}

/// What `find_device` finds for `name`: the first capture device whose name
/// contains it, else the first playback device whose name contains it.
/// `Some((i, true))` is capture device `i`, `Some((i, false))` playback
/// device `i`.
pub open spec fn found_device(host: AudioHost, name: Seq<char>, r: Option<(usize, bool)>) -> bool {
    match r {
        Some((i, true)) => first_containing(host.input_devices@, name, i as int),
        Some((i, false)) => none_containing(host.input_devices@, name) && first_containing(
            host.output_devices@,
            name,
            i as int,
        ),
        None => none_containing(host.input_devices@, name) && none_containing(
            host.output_devices@,
            name,
        ),
    }
}

/// Finds a device by part of its name, capture devices first (see
/// [`found_device`]).
pub fn find_device(host: &AudioHost, name: &str) -> (r: Option<(usize, bool)>)
    ensures
        found_device(*host, name@, r),
{
    match find_containing(&host.input_devices, name) {
        Some(i) => Some((i, true)),
        None => match find_containing(&host.output_devices, name) {
            Some(i) => Some((i, false)),
            None => None,
        },
    }
}

/// Lemma: at most one answer satisfies [`found_device`].
pub proof fn lemma_found_device_unique(
    host: AudioHost,
    name: Seq<char>,
    a: Option<(usize, bool)>,
    b: Option<(usize, bool)>,
)
    requires
        found_device(host, name, a),
        found_device(host, name, b),
    ensures
        a == b,
{
    match a {
        Some((i, x)) => match b {
            Some((j, y)) => {
                if x && y {
                    assert(!(i < j) && !(j < i)) by {
                        if i < j {
                            assert(!contains_seq(host.input_devices@[i as int].name@, name));
                        }
                        if j < i {
                            assert(!contains_seq(host.input_devices@[j as int].name@, name));
                        }
                    }
                } else if !x && !y {
                    assert(!(i < j) && !(j < i)) by {
                        if i < j {
                            assert(!contains_seq(host.output_devices@[i as int].name@, name));
                        }
                        if j < i {
                            assert(!contains_seq(host.output_devices@[j as int].name@, name));
                        }
                    }
                } else if x {
                    assert(!contains_seq(host.input_devices@[i as int].name@, name));
                } else {
                    assert(!contains_seq(host.input_devices@[j as int].name@, name));
                }
            },
            None => {
                if x {
                    assert(!contains_seq(host.input_devices@[i as int].name@, name));
                } else {
                    assert(!contains_seq(host.output_devices@[i as int].name@, name));
                }
            },
        },
        None => match b {
            Some((j, y)) => {
                if y {
                    assert(!contains_seq(host.input_devices@[j as int].name@, name));
                } else {
                    assert(!contains_seq(host.output_devices@[j as int].name@, name));
                }
            },
            None => {},
        },
    }
}

/// The device an answer of [`find_device`] designates.
pub open spec fn device_at(host: AudioHost, found: (usize, bool)) -> AudioDevice {
    if found.1 {
        host.input_devices@[found.0 as int]
    } else {
        host.output_devices@[found.0 as int]
    }
}

/// `i` is the first device whose name is exactly `name`.
pub open spec fn first_named(devs: Seq<AudioDevice>, name: Seq<char>, i: int) -> bool {
    &&& 0 <= i < devs.len()
    &&& devs[i].name@ == name
    &&& forall|j: int| 0 <= j < i ==> #[trigger] devs[j].name@ != name
}

/// No device is named `name`.
pub open spec fn none_named(devs: Seq<AudioDevice>, name: Seq<char>) -> bool {
    forall|j: int| 0 <= j < devs.len() ==> #[trigger] devs[j].name@ != name
}

/// The first device named exactly `name`.
pub fn find_named(devs: &Vec<AudioDevice>, name: &str) -> (r: Option<usize>)
    ensures
        match r {
            Some(i) => first_named(devs@, name@, i as int),
            None => none_named(devs@, name@),
        },
{
    let mut i: usize = 0;
    while i < devs.len()
        invariant
            i <= devs.len(),
            forall|j: int| 0 <= j < i ==> #[trigger] devs@[j].name@ != name@,
        decreases devs.len() - i,
    {
        if str_eq(devs[i].name.as_str(), name) {
            return Some(i);
        }
        i += 1;
    }
    None
}

/// Lemma: at most one device is the first one named `name`.
pub proof fn lemma_first_named_unique(devs: Seq<AudioDevice>, name: Seq<char>, i: int, j: int)
    requires
        first_named(devs, name, i),
        first_named(devs, name, j),
    ensures
        i == j,
{
    if i < j {
        assert(devs[i].name@ != name);
    }
    if j < i {
        assert(devs[j].name@ != name);
    }
}

/// The index of the first device named exactly `name`, if one is.
pub open spec fn named_index(devs: Seq<AudioDevice>, name: Seq<char>) -> Option<int> {
    if exists|i: int| first_named(devs, name, i) {
        Some(choose|i: int| first_named(devs, name, i))
    } else {
        None
    }
}

/// Finds [`named_index`].
pub fn find_named_index(devs: &Vec<AudioDevice>, name: &str) -> (r: Option<usize>)
    ensures
        match r {
            Some(i) => named_index(devs@, name@) == Some(i as int),
            None => named_index(devs@, name@) is None,
        },
{
    let r = find_named(devs, name);
    match r {
        Some(i) => {
            proof {
                let c = choose|k: int| first_named(devs@, name@, k);
                lemma_first_named_unique(devs@, name@, i as int, c);
            }
        },
        None => {
            assert forall|k: int| !first_named(devs@, name@, k) by {
                if 0 <= k < devs@.len() {
                    assert(devs@[k].name@ != name@);
                }
            }
        },
    }
    r
}

/// A virtual loopback cable: the lower-cased name mentions `vb-audio`.
pub open spec fn is_virtual_cable(name: Seq<char>) -> bool {
    contains_seq(unicode_lowercase(name), "vb-audio"@)
}

/// Decides [`is_virtual_cable`].
pub fn is_virtual_cable_device(name: &str) -> (r: bool)
    ensures
        r == is_virtual_cable(name@),
{
    let lower = to_lowercase(name);
    let hay = chars_of(lower.as_str());
    let needle = chars_of("vb-audio");
    contains(&hay, &needle)
}

// ---------------------------------------------------------------------------
// Device name lists
// ---------------------------------------------------------------------------

/// `acc` followed by each of `names` that is not already there, in order:
/// the list built by pushing a name only when it is missing.
pub open spec fn append_new(acc: Seq<Seq<char>>, names: Seq<Seq<char>>) -> Seq<Seq<char>>
    decreases names.len(),
{
    if names.len() == 0 {
        acc
    } else {
        let before = append_new(acc, names.drop_last());
        if before.contains(names.last()) {
            before
        } else {
            before.push(names.last())
        }
    }
}

/// The names of a list of devices.
pub open spec fn names_of(devs: Seq<AudioDevice>) -> Seq<Seq<char>> {
    devs.map_values(|d: AudioDevice| d.name@)
}

/// The views of a list of strings.
pub open spec fn string_views(v: Seq<String>) -> Seq<Seq<char>> {
    v.map_values(|s: String| s@)
}

/// Whether `list` holds a string equal to `name`.
fn holds_name(list: &Vec<String>, name: &str) -> (r: bool)
    ensures
        r == string_views(list@).contains(name@),
{
    let mut i: usize = 0;
    while i < list.len()
        invariant
            i <= list.len(),
            forall|j: int| 0 <= j < i ==> #[trigger] list@[j]@ != name@,
        decreases list.len() - i,
    {
        if str_eq(list[i].as_str(), name) {
            assert(string_views(list@)[i as int] == name@);
            return true;
        }
        i += 1;
    }
    assert forall|j: int| 0 <= j < string_views(list@).len() implies string_views(list@)[j]
        != name@ by {
        assert(string_views(list@)[j] == list@[j]@);
    }
    false
}

/// Appends to `list` the name of each device that `list` does not hold yet.
pub fn push_new_names(list: &mut Vec<String>, devs: &Vec<AudioDevice>)
    ensures
        string_views(final(list)@) == append_new(string_views(old(list)@), names_of(devs@)),
{
    let ghost start = string_views(list@);
    let mut i: usize = 0;
    while i < devs.len()
        invariant
            i <= devs.len(),
            string_views(list@) == append_new(start, names_of(devs@).take(i as int)),
        decreases devs.len() - i,
    {
        proof {
            assert(names_of(devs@).take(i + 1).drop_last() =~= names_of(devs@).take(i as int));
            assert(names_of(devs@).take(i + 1).last() == devs@[i as int].name@);
        }
        let name = devs[i].name.clone();
        if !holds_name(list, name.as_str()) {
            let ghost before = list@;
            list.push(name);
            proof {
                assert(string_views(list@) =~= string_views(before).push(devs@[i as int].name@));
            }
        }
        i += 1;
    }
    assert(names_of(devs@).take(devs.len() as int) =~= names_of(devs@));
}

/// Appends to `list` the name of every device, repeats included.
pub fn push_all_names(list: &mut Vec<String>, devs: &Vec<AudioDevice>)
    ensures
        string_views(final(list)@) == string_views(old(list)@) + names_of(devs@),
{
    let ghost start = string_views(list@);
    let mut i: usize = 0;
    while i < devs.len()
        invariant
            i <= devs.len(),
            string_views(list@) == start + names_of(devs@).take(i as int),
        decreases devs.len() - i,
    {
        let name = devs[i].name.clone();
        let ghost before = list@;
        list.push(name);
        proof {
            assert(string_views(list@) =~= string_views(before).push(devs@[i as int].name@));
            assert(names_of(devs@).take(i + 1) =~= names_of(devs@).take(i as int).push(
                devs@[i as int].name@,
            ));
            assert(start + names_of(devs@).take(i + 1) =~= (start + names_of(devs@).take(
                i as int,
            )).push(devs@[i as int].name@));
        }
        i += 1;
    }
    assert(names_of(devs@).take(devs.len() as int) =~= names_of(devs@));
}

/// Lemma: [`append_new`] adds no repeats to a list without repeats, and keeps
/// exactly the names of both lists.
pub proof fn lemma_append_new(acc: Seq<Seq<char>>, names: Seq<Seq<char>>)
    requires
        acc.no_duplicates(),
    ensures
        append_new(acc, names).no_duplicates(),
        forall|x: Seq<char>| #[trigger] append_new(acc, names).contains(x) <==> (acc.contains(x)
            || names.contains(x)),
    decreases names.len(),
{
    if names.len() > 0 {
        let rest = names.drop_last();
        lemma_append_new(acc, rest);
        let before = append_new(acc, rest);
        assert forall|x: Seq<char>| #[trigger] names.contains(x) <==> (rest.contains(x) || x
            == names.last()) by {
            if names.contains(x) {
                let k = choose|k: int| 0 <= k < names.len() && #[trigger] names[k] == x;
                if k < names.len() - 1 {
                    assert(rest[k] == x);
                }
            }
            if rest.contains(x) {
                let k = choose|k: int| 0 <= k < rest.len() && #[trigger] rest[k] == x;
                assert(names[k] == x);
            }
        }
        if !before.contains(names.last()) {
            let after = before.push(names.last());
            assert forall|x: Seq<char>| #[trigger] after.contains(x) <==> (before.contains(x) || x
                == names.last()) by {
                if after.contains(x) {
                    let k = choose|k: int| 0 <= k < after.len() && #[trigger] after[k] == x;
                    if k < before.len() {
                        assert(before[k] == x);
                    }
                }
                if before.contains(x) {
                    let k = choose|k: int| 0 <= k < before.len() && #[trigger] before[k] == x;
                    assert(after[k] == x);
                }
                if x == names.last() {
                    assert(after[before.len() as int] == x);
                }
            }
        }
    }
}

// ---------------------------------------------------------------------------
// Choosing a configuration among supported ranges
// ---------------------------------------------------------------------------

/// An optional string, read as its characters.
pub open spec fn opt_text(o: Option<&str>) -> Option<Seq<char>> {
    match o {
        Some(s) => Some(s@),
        None => None,
    }
}

/// Whether a range passes a search: a streamable format when `known_only`,
/// the wanted format value when one is given, and a rate between its bounds
/// when a target is given.
pub open spec fn eligible(
    c: ConfigRange,
    known_only: bool,
    wanted: Option<Seq<char>>,
    target: Option<u32>,
) -> bool {
    &&& known_only ==> format_value(c.sample_format) is Some
    &&& wanted matches Some(w) ==> format_value(c.sample_format) == Some(w)
    &&& target matches Some(t) ==> c.min_sample_rate <= t <= c.max_sample_rate
}

/// The rank a search gives a range first: 32-bit integer ranges ahead of the
/// others when `prefer_i32`, all alike otherwise.
pub open spec fn format_rank(c: ConfigRange, prefer_i32: bool) -> int {
    if prefer_i32 && c.sample_format != SampleFormat::I32 {
        1
    } else {
        0
    }
}

/// Range `i` comes no later than range `j` in a search's order: by
/// [`format_rank`], then by highest rate downwards, then in the device's
/// own order.
pub open spec fn comes_first(s: Seq<ConfigRange>, i: int, j: int, prefer_i32: bool) -> bool {
    ||| format_rank(s[i], prefer_i32) < format_rank(s[j], prefer_i32)
    ||| format_rank(s[i], prefer_i32) == format_rank(s[j], prefer_i32) && s[i].max_sample_rate
        > s[j].max_sample_rate
    ||| format_rank(s[i], prefer_i32) == format_rank(s[j], prefer_i32) && s[i].max_sample_rate
        == s[j].max_sample_rate && i <= j
}

/// `i` is the range a search picks: eligible, and first in the search's
/// order among the eligible ranges.
pub open spec fn is_pick(
    s: Seq<ConfigRange>,
    known_only: bool,
    wanted: Option<Seq<char>>,
    target: Option<u32>,
    prefer_i32: bool,
    i: int,
) -> bool {
    &&& 0 <= i < s.len()
    &&& eligible(s[i], known_only, wanted, target)
    &&& forall|j: int|
        0 <= j < s.len() && #[trigger] eligible(s[j], known_only, wanted, target) ==> comes_first(
            s,
            i,
            j,
            prefer_i32,
        )
}

/// The range a search picks, if any range is eligible.
pub open spec fn picked(
    s: Seq<ConfigRange>,
    known_only: bool,
    wanted: Option<Seq<char>>,
    target: Option<u32>,
    prefer_i32: bool,
) -> Option<int> {
    if exists|i: int| is_pick(s, known_only, wanted, target, prefer_i32, i) {
        Some(choose|i: int| is_pick(s, known_only, wanted, target, prefer_i32, i))
    } else {
        None
    }
}

/// Lemma: a search picks at most one range.
pub proof fn lemma_pick_unique(
    s: Seq<ConfigRange>,
    known_only: bool,
    wanted: Option<Seq<char>>,
    target: Option<u32>,
    prefer_i32: bool,
    i: int,
    j: int,
)
    requires
        is_pick(s, known_only, wanted, target, prefer_i32, i),
        is_pick(s, known_only, wanted, target, prefer_i32, j),
    ensures
        i == j,
{
    assert(comes_first(s, i, j, prefer_i32));
    assert(comes_first(s, j, i, prefer_i32));
}

/// Whether range `c` passes a search, decided.
fn passes(c: &ConfigRange, known_only: bool, wanted: Option<&str>, target: Option<u32>) -> (r: bool)
    ensures
        r == eligible(*c, known_only, opt_text(wanted), target),
{
    let value = sample_format_value(c.sample_format);
    if known_only && value.is_none() {
        return false;
    }
    match wanted {
        Some(w) => match value {
            Some(v) => {
                if !str_eq(v, w) {
                    return false;
                }
            },
            None => {
                return false;
            },
        },
        None => {},
    }
    match target {
        Some(t) => c.min_sample_rate <= t && t <= c.max_sample_rate,
        None => true,
    }
}

/// Picks a range (see [`picked`]): the first eligible range once the ranges
/// are ordered by [`comes_first`].
pub fn pick_range(
    ranges: &Vec<ConfigRange>,
    known_only: bool,
    wanted: Option<&str>,
    target: Option<u32>,
    prefer_i32: bool,
) -> (r: Option<usize>)
    ensures
        match r {
            Some(i) => picked(ranges@, known_only, opt_text(wanted), target, prefer_i32) == Some(
                i as int,
            ),
            None => picked(ranges@, known_only, opt_text(wanted), target, prefer_i32) is None,
        },
{
    let ghost w = opt_text(wanted);
    let mut best: Option<usize> = None;
    let mut k: usize = 0;
    while k < ranges.len()
        invariant
            k <= ranges.len(),
            w == opt_text(wanted),
            match best {
                Some(b) => b < k && eligible(ranges@[b as int], known_only, w, target) && forall|
                    j: int,
                |
                    0 <= j < k && #[trigger] eligible(ranges@[j], known_only, w, target)
                        ==> comes_first(ranges@, b as int, j, prefer_i32),
                None => forall|j: int|
                    0 <= j < k ==> !#[trigger] eligible(ranges@[j], known_only, w, target),
            },
        decreases ranges.len() - k,
    {
        let c = ranges[k];
        if passes(&c, known_only, wanted, target) {
            match best {
                None => {
                    best = Some(k);
                },
                Some(b) => {
                    let cb = ranges[b];
                    let rank_b: u8 = if prefer_i32 && !matches!(cb.sample_format, SampleFormat::I32) {
                        1
                    } else {
                        0
                    };
                    let rank_k: u8 = if prefer_i32 && !matches!(c.sample_format, SampleFormat::I32) {
                        1
                    } else {
                        0
                    };
                    if rank_k < rank_b || (rank_k == rank_b && c.max_sample_rate
                        > cb.max_sample_rate) {
                        best = Some(k);
                    }
                },
            }
        }
        k += 1;
    }
    match best {
        Some(b) => {
            proof {
                assert(is_pick(ranges@, known_only, w, target, prefer_i32, b as int));
                let c = choose|i: int| is_pick(ranges@, known_only, w, target, prefer_i32, i);
                lemma_pick_unique(ranges@, known_only, w, target, prefer_i32, b as int, c);
            }
            Some(b)
        },
        None => {
            proof {
                assert forall|i: int| !is_pick(ranges@, known_only, w, target, prefer_i32, i) by {
                    if 0 <= i < ranges@.len() {
                        assert(!eligible(ranges@[i], known_only, w, target));
                    }
                }
            }
            None
        },
    }
}

/// The first range, in the device's own order, whose bounds hold `rate`.
pub open spec fn first_covering(s: Seq<ConfigRange>, rate: u32, i: int) -> bool {
    &&& 0 <= i < s.len()
    &&& s[i].min_sample_rate <= rate <= s[i].max_sample_rate
    &&& forall|j: int|
        0 <= j < i ==> !(#[trigger] s[j].min_sample_rate <= rate <= s[j].max_sample_rate)
}

/// Finds [`first_covering`].
pub fn find_covering(ranges: &Vec<ConfigRange>, rate: u32) -> (r: Option<usize>)
    ensures
        match r {
            Some(i) => first_covering(ranges@, rate, i as int),
            None => forall|j: int|
                0 <= j < ranges@.len() ==> !(#[trigger] ranges@[j].min_sample_rate <= rate
                    <= ranges@[j].max_sample_rate),
        },
{
    let mut i: usize = 0;
    while i < ranges.len()
        invariant
            i <= ranges.len(),
            forall|j: int|
                0 <= j < i ==> !(#[trigger] ranges@[j].min_sample_rate <= rate
                    <= ranges@[j].max_sample_rate),
        decreases ranges.len() - i,
    {
        if ranges[i].min_sample_rate <= rate && rate <= ranges[i].max_sample_rate {
            return Some(i);
        }
        i += 1;
    }
    None
}

/// Lemma: at most one range is the first to hold a rate.
pub proof fn lemma_first_covering_unique(s: Seq<ConfigRange>, rate: u32, i: int, j: int)
    requires
        first_covering(s, rate, i),
        first_covering(s, rate, j),
    ensures
        i == j,
{
    if i < j {
        assert(!(s[i].min_sample_rate <= rate <= s[i].max_sample_rate));
    }
    if j < i {
        assert(!(s[j].min_sample_rate <= rate <= s[j].max_sample_rate));
    }
}

/// The index of the first range that holds `rate`, if one does.
pub open spec fn covering_index(s: Seq<ConfigRange>, rate: u32) -> Option<int> {
    if exists|i: int| first_covering(s, rate, i) {
        Some(choose|i: int| first_covering(s, rate, i))
    } else {
        None
    }
}

/// Finds [`covering_index`].
pub fn find_covering_index(ranges: &Vec<ConfigRange>, rate: u32) -> (r: Option<usize>)
    ensures
        match r {
            Some(i) => covering_index(ranges@, rate) == Some(i as int),
            None => covering_index(ranges@, rate) is None,
        },
{
    let r = find_covering(ranges, rate);
    match r {
        Some(i) => {
            proof {
                let c = choose|k: int| first_covering(ranges@, rate, k);
                lemma_first_covering_unique(ranges@, rate, i as int, c);
            }
        },
        None => {
            assert forall|k: int| !first_covering(ranges@, rate, k) by {
                if 0 <= k < ranges@.len() {
                    assert(!(ranges@[k].min_sample_rate <= rate <= ranges@[k].max_sample_rate));
                }
            }
        },
    }
    r
}

// ---------------------------------------------------------------------------
// Standard sample rates
// ---------------------------------------------------------------------------

/// The sample rates offered to the user, ascending.
pub open spec fn standard_rates() -> Seq<u32> {
    seq![44_100u32, 48_000, 88_200, 96_000, 176_400, 192_000, 352_800, 384_000, 705_600, 768_000]
}

/// Some range holds `rate` between its bounds.
pub open spec fn covered(s: Seq<ConfigRange>, rate: u32) -> bool {
    exists|j: int| 0 <= j < s.len() && #[trigger] s[j].min_sample_rate <= rate <= s[j].max_sample_rate
}

/// Strictly ascending.
pub open spec fn ascending(s: Seq<u32>) -> bool {
    forall|i: int, j: int| 0 <= i < j < s.len() ==> s[i] < s[j]
}

/// The standard rates that some range holds, ascending and without repeats.
pub fn supported_standard_rates(ranges: &Vec<ConfigRange>) -> (r: Vec<u32>)
    ensures
        ascending(r@),
        forall|x: u32| #[trigger] r@.contains(x) <==> (standard_rates().contains(x) && covered(ranges@, x)),
{
    let standard: Vec<u32> = vec![
        44_100u32,
        48_000,
        88_200,
        96_000,
        176_400,
        192_000,
        352_800,
        384_000,
        705_600,
        768_000,
    ];
    assert(standard@ =~= standard_rates());
    assert(ascending(standard@));
    let mut r: Vec<u32> = Vec::new();
    let mut k: usize = 0;
    while k < standard.len()
        invariant
            k <= standard.len(),
            standard@ == standard_rates(),
            ascending(standard@),
            ascending(r@),
            k < standard.len() ==> forall|i: int| 0 <= i < r@.len() ==> #[trigger] r@[i] < standard@[k as int],
            forall|x: u32| #[trigger] r@.contains(x) <==> (standard@.take(k as int).contains(x) && covered(ranges@, x)),
        decreases standard.len() - k,
    {
        let rate = standard[k];
        let found = find_covering(ranges, rate);
        proof {
            assert forall|x: u32| #[trigger] standard@.take(k + 1).contains(x) <==> (standard@.take(
                k as int,
            ).contains(x) || x == rate) by {
                if standard@.take(k + 1).contains(x) {
                    let m = choose|m: int| 0 <= m < k + 1 && #[trigger] standard@.take(k + 1)[m] == x;
                    if m < k {
                        assert(standard@.take(k as int)[m] == x);
                    }
                }
                if standard@.take(k as int).contains(x) {
                    let m = choose|m: int| 0 <= m < k && #[trigger] standard@.take(k as int)[m] == x;
                    assert(standard@.take(k + 1)[m] == x);
                }
                if x == rate {
                    assert(standard@.take(k + 1)[k as int] == x);
                }
            }
            assert(!standard@.take(k as int).contains(rate)) by {
                if standard@.take(k as int).contains(rate) {
                    let m = choose|m: int| 0 <= m < k && #[trigger] standard@.take(k as int)[m] == rate;
                    assert(standard@[m] < standard@[k as int]);
                }
            }
        }
        match found {
            Some(j) => {
                proof {
                    assert(covered(ranges@, rate)) by {
                        assert(ranges@[j as int].min_sample_rate <= rate <= ranges@[j as int].max_sample_rate);
                    }
                }
                let ghost old_r = r@;
                r.push(rate);
                proof {
                    assert forall|i: int, j2: int| 0 <= i < j2 < r@.len() implies r@[i] < r@[j2] by {
                        if j2 == r@.len() - 1 {
                            assert(r@[i] == old_r[i]);
                        }
                    }
                    if k + 1 < standard.len() {
                        assert forall|i: int| 0 <= i < r@.len() implies #[trigger] r@[i] < standard@[k + 1] by {
                            assert(standard@[k as int] < standard@[k + 1]);
                            if i < old_r.len() {
                                assert(r@[i] == old_r[i]);
                            }
                        }
                    }
                    assert forall|x: u32| #[trigger] r@.contains(x) <==> (old_r.contains(x) || x == rate) by {
                        if r@.contains(x) {
                            let m = choose|m: int| 0 <= m < r@.len() && #[trigger] r@[m] == x;
                            if m < old_r.len() {
                                assert(old_r[m] == x);
                            }
                        }
                        if old_r.contains(x) {
                            let m = choose|m: int| 0 <= m < old_r.len() && #[trigger] old_r[m] == x;
                            assert(r@[m] == x);
                        }
                        if x == rate {
                            assert(r@[old_r.len() as int] == x);
                        }
                    }
                }
            },
            None => {
                proof {
                    assert(!covered(ranges@, rate));
                    if k + 1 < standard.len() {
                        assert(standard@[k as int] < standard@[k + 1]);
                    }
                }
            },
        }
        k += 1;
    }
    assert(standard@.take(standard.len() as int) =~= standard@);
    r
}

} // verus!
