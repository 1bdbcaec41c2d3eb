//! Naming rules for files received over the LAN: characters that Windows
//! refuses are replaced, surrounding dots and blanks are stripped, names are
//! bounded in length and reserved device names are escaped.
use vstd::prelude::*;
use crate::text::{
    all_digits, ascii_upper_seq, chars_of, contains_seq, copy_range, has_prefix, is_control, is_digit,
    parse_uint, parse_unsigned, starts_with, string_of, trim, trim_both, trim_pred, upper_ascii,
    TrimSet, control, trim_front, trim_back, same_chars, is_white_space,
};

verus! {

/// Longest file name, in characters, that a received file may keep.
pub const MAX_NAME_CHARS: usize = 180;

/// Characters that Windows does not allow in file names, plus NUL.
pub open spec fn is_forbidden_name_char(c: char) -> bool {
    ||| c == '<'
    ||| c == '>'
    ||| c == ':'
    ||| c == '"'
    ||| c == '/'
    ||| c == '\\'
    ||| c == '|'
    ||| c == '?'
    ||| c == '*'
    ||| c == '\0'
}

/// Every forbidden or control character becomes `'_'`.
pub open spec fn replace_forbidden(s: Seq<char>) -> Seq<char> {
    s.map_values(|c: char| if is_forbidden_name_char(c) || is_control(c) { '_' } else { c })
}

/// The first `n` characters of `s` (all of `s` when it is shorter).
pub open spec fn take_chars(s: Seq<char>, n: nat) -> Seq<char> {
    if s.len() <= n {
        s
    } else {
        s.take(n as int)
    }
}

/// The name `"file"`, used when nothing of the offered name is left.
pub open spec fn fallback_name() -> Seq<char> {
    seq!['f', 'i', 'l', 'e']
}

/// The name before the reserved-name check: replaced, trimmed of white
/// space, then of dots and blanks, and cut to 180 characters.
pub open spec fn name_candidate(s: Seq<char>) -> Seq<char> {
    let t = trim_both(
        trim_both(replace_forbidden(s), trim_pred(TrimSet::WhiteSpace)),
        trim_pred(TrimSet::DotOrSpace),
    );
    if t.len() == 0 {
        fallback_name()
    } else {
        take_chars(t, MAX_NAME_CHARS as nat)
    }
}

/// Index of the last occurrence of `c` in `s`, or -1.
pub open spec fn last_index_of(s: Seq<char>, c: char) -> int
    decreases s.len(),
{
    if s.len() == 0 {
        -1
    } else if s.last() == c {
        s.len() - 1
    } else {
        last_index_of(s.drop_last(), c)
    }
}

/// `Path::file_stem` of a name that holds no path separator: empty for the
/// names `""`, `"."` and `".."` (which have no file name); the whole name
/// when it has no dot, or only a leading one; otherwise the part before the
/// last dot.
pub open spec fn stem_of(name: Seq<char>) -> Seq<char> {
    let k = last_index_of(name, '.');
    if name.len() == 0 || name == seq!['.'] || name == seq!['.', '.'] {
        seq![]
    } else if k <= 0 {
        name
    } else {
        name.take(k)
    }
}

/// `Path::extension` of a name that holds no path separator: the part after
/// the last dot, when there is a dot that is not the first character.
pub open spec fn extension_of(name: Seq<char>) -> Option<Seq<char>> {
    let k = last_index_of(name, '.');
    if name.len() == 0 || name == seq!['.'] || name == seq!['.', '.'] || k <= 0 {
        None
    } else {
        Some(name.skip(k + 1))
    }
}

/// Device names that Windows reserves, tested on the upper-cased stem:
/// `CON`, `PRN`, `AUX`, `NUL`, `CLOCK$`, and `COM`/`LPT` followed by text
/// that parses as a `u8` no larger than 9.
pub open spec fn is_reserved_stem(upper: Seq<char>) -> bool {
    ||| upper == seq!['C', 'O', 'N']
    ||| upper == seq!['P', 'R', 'N']
    ||| upper == seq!['A', 'U', 'X']
    ||| upper == seq!['N', 'U', 'L']
    ||| upper == seq!['C', 'L', 'O', 'C', 'K', '$']
    ||| ((starts_with(upper, seq!['C', 'O', 'M']) || starts_with(upper, seq!['L', 'P', 'T']))
        && match parse_unsigned(upper.skip(3), 255) {
        Some(n) => n <= 9,
        None => false,
    })
}

/// The name under which a received file is stored.
pub open spec fn sanitized_name(s: Seq<char>) -> Seq<char> {
    let candidate = name_candidate(s);
    if is_reserved_stem(ascii_upper_seq(stem_of(candidate))) {
        seq!['_'] + candidate
    } else {
        candidate
    }
}

fn forbidden_name_char(c: char) -> (r: bool)
    ensures
        r == is_forbidden_name_char(c),
{
    c == '<' || c == '>' || c == ':' || c == '"' || c == '/' || c == '\\' || c == '|' || c == '?'
        || c == '*' || c == '\0'
}

fn replace_forbidden_chars(s: &[char]) -> (r: Vec<char>)
    ensures
        r@ == replace_forbidden(s@),
{
    let mut r: Vec<char> = Vec::new();
    let mut i: usize = 0;
    while i < s.len()
        invariant
            i <= s.len(),
            r@ == replace_forbidden(s@.take(i as int)),
        decreases s.len() - i,
    {
        let c = s[i];
        if forbidden_name_char(c) || control(c) {
            r.push('_');
        } else {
            r.push(c);
        }
        assert(s@.take(i + 1) =~= s@.take(i as int).push(c));
        assert(replace_forbidden(s@.take(i + 1)) =~= replace_forbidden(s@.take(i as int)).push(
            r@.last(),
        ));
        i += 1;
    }
    assert(s@.take(s.len() as int) =~= s@);
    r
}

/// Index of the last `c` in `s` (see [`last_index_of`]).
pub fn find_last(s: &[char], c: char) -> (r: Option<usize>)
    ensures
        match r {
            Some(i) => i == last_index_of(s@, c),
            None => last_index_of(s@, c) == -1,
        },
{
    let mut i: usize = s.len();
    assert(s@.take(s.len() as int) =~= s@);
    while i > 0
        invariant
            i <= s.len(),
            last_index_of(s@, c) == last_index_of(s@.take(i as int), c),
        decreases i,
    {
        assert(s@.take(i as int).drop_last() =~= s@.take(i - 1));
        if s[i - 1] == c {
            return Some(i - 1);
        }
        i -= 1;
    }
    None
}

pub proof fn lemma_last_index_bounds(s: Seq<char>, c: char)
    ensures
        -1 <= last_index_of(s, c) < s.len(),
        last_index_of(s, c) >= 0 ==> s[last_index_of(s, c)] == c,
    decreases s.len(),
{
    if s.len() > 0 && s.last() != c {
        lemma_last_index_bounds(s.drop_last(), c);
    }
}

/// The stem of a separator-free name (see [`stem_of`]).
pub fn file_stem(name: &[char]) -> (r: Vec<char>)
    ensures
        r@ == stem_of(name@),
{
    let k = find_last(name, '.');
    proof {
        lemma_last_index_bounds(name@, '.');
    }
    let dot = name.len() == 1 && name[0] == '.';
    let dotdot = name.len() == 2 && name[0] == '.' && name[1] == '.';
    if dot {
        assert(name@ =~= seq!['.']);
    }
    if dotdot {
        assert(name@ =~= seq!['.', '.']);
    }
    if !dot {
        assert(name@ != seq!['.'] || name@.len() != 1);
    }
    if name.len() == 0 || dot || dotdot {
        return Vec::new();
    }
    assert(name@ != seq!['.']) by {
        if name@ == seq!['.'] {
            assert(name@.len() == 1 && name@[0] == '.');
        }
    }
    assert(name@ != seq!['.', '.']) by {
        if name@ == seq!['.', '.'] {
            assert(name@.len() == 2 && name@[0] == '.' && name@[1] == '.');
        }
    }
    match k {
        Some(i) if i > 0 => copy_range(name, 0, i),
        _ => copy_range(name, 0, name.len()),
    }
}

/// Decides [`is_reserved_stem`] on an upper-cased stem.
fn reserved_stem(upper: &[char]) -> (r: bool)
    ensures
        r == is_reserved_stem(upper@),
{
    if same_chars(upper, &['C', 'O', 'N']) || same_chars(upper, &['P', 'R', 'N']) || same_chars(
        upper,
        &['A', 'U', 'X'],
    ) || same_chars(upper, &['N', 'U', 'L']) || same_chars(upper, &['C', 'L', 'O', 'C', 'K', '$']) {
        return true;
    }
    let com = has_prefix(upper, &['C', 'O', 'M']);
    let lpt = has_prefix(upper, &['L', 'P', 'T']);
    if !(com || lpt) {
        return false;
    }
    let rest = copy_range(upper, 3, upper.len());
    assert(rest@ =~= upper@.skip(3));
    match parse_uint(&rest, 255) {
        Some(n) => n <= 9,
        None => false,
    }
}

/// `sanitize_file_name`: the name under which a received file is stored
/// (see [`sanitized_name`]).
pub fn sanitize_file_name(file_name: &str) -> (r: String)
    ensures
        r@ == sanitized_name(file_name@),
{
    let chars = chars_of(file_name);
    let replaced = replace_forbidden_chars(&chars);
    let spaced = trim(&replaced, TrimSet::WhiteSpace);
    let t = trim(&spaced, TrimSet::DotOrSpace);
    let candidate: Vec<char> = if t.len() == 0 {
        vec!['f', 'i', 'l', 'e']
    } else if t.len() <= MAX_NAME_CHARS {
        t
    } else {
        copy_range(&t, 0, MAX_NAME_CHARS)
    };
    assert(candidate@ == name_candidate(file_name@));
    let stem = file_stem(&candidate);
    let upper = upper_ascii(&stem);
    if reserved_stem(&upper) {
        let mut out: Vec<char> = vec!['_'];
        let mut i: usize = 0;
        while i < candidate.len()
            invariant
                i <= candidate.len(),
                out@ == seq!['_'] + candidate@.take(i as int),
            decreases candidate.len() - i,
        {
            out.push(candidate[i]);
            assert(candidate@.take(i + 1) =~= candidate@.take(i as int).push(candidate@[i as int]));
            i += 1;
        }
        assert(candidate@.take(candidate.len() as int) =~= candidate@);
        string_of(&out)
    } else {
        string_of(&candidate)
    }
}


proof fn lemma_trim_front_shape(s: Seq<char>, drop: spec_fn(char) -> bool)
    ensures
        exists|lo: int| 0 <= lo <= s.len() && trim_front(s, drop) == s.subrange(lo, s.len() as int),
        trim_front(s, drop).len() > 0 ==> !drop(trim_front(s, drop)[0]),
    decreases s.len(),
{
    if s.len() > 0 && drop(s[0]) {
        let t = s.drop_first();
        lemma_trim_front_shape(t, drop);
        let lo = choose|lo: int| 0 <= lo <= t.len() && trim_front(t, drop) == t.subrange(lo, t.len() as int);
        assert(t.subrange(lo, t.len() as int) =~= s.subrange(lo + 1, s.len() as int));
    } else {
        assert(s.subrange(0, s.len() as int) =~= s);
    }
}

proof fn lemma_trim_back_shape(s: Seq<char>, drop: spec_fn(char) -> bool)
    ensures
        exists|hi: int| 0 <= hi <= s.len() && trim_back(s, drop) == s.subrange(0, hi),
        s.len() > 0 && !drop(s[0]) ==> trim_back(s, drop).len() > 0 && trim_back(s, drop)[0]
            == s[0],
    decreases s.len(),
{
    if s.len() > 0 && drop(s.last()) {
        let t = s.drop_last();
        lemma_trim_back_shape(t, drop);
        let hi = choose|hi: int| 0 <= hi <= t.len() && trim_back(t, drop) == t.subrange(0, hi);
        assert(t.subrange(0, hi) =~= s.subrange(0, hi));
        if s.len() > 0 && !drop(s[0]) {
            assert(s.len() > 1);
            assert(t[0] == s[0]);
        }
    } else {
        assert(s.subrange(0, s.len() as int) =~= s);
    }
}

/// Every character of a trimmed sequence is a character of the original.
proof fn lemma_trim_both_shape(s: Seq<char>, drop: spec_fn(char) -> bool)
    ensures
        exists|lo: int, hi: int| 0 <= lo <= hi <= s.len() && trim_both(s, drop) == s.subrange(lo, hi),
        trim_both(s, drop).len() > 0 ==> !drop(trim_both(s, drop)[0]),
{
    lemma_trim_front_shape(s, drop);
    let f = trim_front(s, drop);
    let lo = choose|lo: int| 0 <= lo <= s.len() && f == s.subrange(lo, s.len() as int);
    lemma_trim_back_shape(f, drop);
    let hi = choose|hi: int| 0 <= hi <= f.len() && trim_back(f, drop) == f.subrange(0, hi);
    assert(f.subrange(0, hi) =~= s.subrange(lo, lo + hi));
    if trim_both(s, drop).len() > 0 {
        assert(f.len() > 0);
    }
}

/// Whatever name a peer offers, the stored name is between 1 and 181
/// characters long, holds no character that Windows forbids and no control
/// character, and does not begin with a dot.
pub proof fn law_sanitized_name_is_clean(s: Seq<char>)
    ensures
        1 <= sanitized_name(s).len() <= MAX_NAME_CHARS + 1,
        forall|i: int|
            0 <= i < sanitized_name(s).len() ==> !is_forbidden_name_char(#[trigger] sanitized_name(s)[i])
                && !is_control(sanitized_name(s)[i]),
        sanitized_name(s)[0] != '.',
{
    let r = replace_forbidden(s);
    let ws = trim_pred(TrimSet::WhiteSpace);
    let ds = trim_pred(TrimSet::DotOrSpace);
    let a = trim_both(r, ws);
    let t = trim_both(a, ds);
    lemma_trim_both_shape(r, ws);
    lemma_trim_both_shape(a, ds);
    let (lo1, hi1) = choose|lo: int, hi: int| 0 <= lo <= hi <= r.len() && a == r.subrange(lo, hi);
    let (lo2, hi2) = choose|lo: int, hi: int| 0 <= lo <= hi <= a.len() && t == a.subrange(lo, hi);
    assert forall|i: int| 0 <= i < t.len() implies !is_forbidden_name_char(#[trigger] t[i])
        && !is_control(t[i]) by {
        assert(t[i] == a[lo2 + i]);
        assert(a[lo2 + i] == r[lo1 + lo2 + i]);
    }
    let c = name_candidate(s);
    if t.len() > 0 {
        assert(!ds(t[0]));
        assert forall|i: int| 0 <= i < c.len() implies !is_forbidden_name_char(#[trigger] c[i])
            && !is_control(c[i]) by {
            assert(c[i] == t[i]);
        }
        assert(c[0] == t[0]);
    } else {
        assert(c == fallback_name());
        assert forall|i: int| 0 <= i < c.len() implies !is_forbidden_name_char(#[trigger] c[i])
            && !is_control(c[i]) by {
        }
    }
    let out = sanitized_name(s);
    if out != c {
        assert(out == seq!['_'] + c);
        assert forall|i: int| 0 <= i < out.len() implies !is_forbidden_name_char(#[trigger] out[i])
            && !is_control(out[i]) by {
            if i > 0 {
                assert(out[i] == c[i - 1]);
            }
        }
    }
}

/// The last character kept by trimming both ends is not one that is
/// trimmed.
proof fn lemma_trim_back_last(s: Seq<char>, drop: spec_fn(char) -> bool)
    ensures
        trim_back(s, drop).len() > 0 ==> !drop(trim_back(s, drop).last()),
    decreases s.len(),
{
    if s.len() > 0 && drop(s.last()) {
        lemma_trim_back_last(s.drop_last(), drop);
    }
}

/// Trimming leaves a sequence whose ends are kept unchanged.
pub proof fn lemma_trim_both_noop(s: Seq<char>, drop: spec_fn(char) -> bool)
    requires
        s.len() > 0,
        !drop(s[0]),
        !drop(s.last()),
    ensures
        trim_both(s, drop) == s,
{
    assert(trim_front(s, drop) == s);
    assert(trim_back(s, drop) == s);
}

/// White space in `s` is only blanks and control characters: what every
/// ASCII text satisfies.
pub open spec fn plain_white_space(s: Seq<char>) -> bool {
    forall|i: int| 0 <= i < s.len() && is_white_space(#[trigger] s[i]) ==> s[i] == ' ' || is_control(s[i])
}

/// The stored name of a stored name is itself: sanitizing twice gives what
/// sanitizing once gives, for an offered name of at most 179 characters
/// whose white space is only blanks and control characters (every ASCII
/// name qualifies). Longer names can be cut so that a trailing dot is left,
/// which a second pass strips; other Unicode white space can be exposed by
/// stripping dots, and a second pass strips it too.
pub proof fn law_sanitize_twice_is_once(s: Seq<char>)
    requires
        s.len() <= MAX_NAME_CHARS - 1,
        plain_white_space(s),
    ensures
        sanitized_name(sanitized_name(s)) == sanitized_name(s),
{
    let r = replace_forbidden(s);
    let ws = trim_pred(TrimSet::WhiteSpace);
    let ds = trim_pred(TrimSet::DotOrSpace);
    let a = trim_both(r, ws);
    let tt = trim_both(a, ds);
    lemma_trim_both_shape(r, ws);
    lemma_trim_both_shape(a, ds);
    lemma_trim_back_last(trim_front(a, ds), ds);
    let (lo1, hi1) = choose|lo: int, hi: int| 0 <= lo <= hi <= r.len() && a == r.subrange(lo, hi);
    let (lo2, hi2) = choose|lo: int, hi: int| 0 <= lo <= hi <= a.len() && tt == a.subrange(lo, hi);
    // A character of the trimmed text that is white space is a blank.
    assert forall|i: int| 0 <= i < tt.len() && is_white_space(#[trigger] tt[i]) implies tt[i] == ' ' by {
        assert(tt[i] == a[lo2 + i]);
        assert(a[lo2 + i] == r[lo1 + lo2 + i]);
        let j = lo1 + lo2 + i;
        assert(r[j] == (if is_forbidden_name_char(s[j]) || is_control(s[j]) { '_' } else { s[j] }));
    }
    let c = name_candidate(s);
    if tt.len() > 0 {
        assert(c == tt);
        assert(!ds(c[0]) && !ds(c.last()));
        assert(!is_white_space(c[0]) && !is_white_space(c.last())) by {
            if is_white_space(c[0]) {
                assert(c[0] == ' ');
            }
            if is_white_space(c.last()) {
                assert(c[c.len() - 1] == ' ');
            }
        }
    } else {
        assert(c == fallback_name());
    }
    assert(c.len() > 0 && c.len() <= MAX_NAME_CHARS - 1);
    assert(!ws(c.last()) && !ds(c.last()));
    let o = sanitized_name(s);
    law_sanitized_name_is_clean(s);
    assert(o[0] != '.');
    assert(!ws(o[0]) && !ds(o[0]) && !ws(o.last()) && !ds(o.last())) by {
        if o != c {
            assert(o == seq!['_'] + c);
            assert(o.last() == c.last());
        } else {
            assert(!ws(c[0]) && !ds(c[0]));
        }
    }
    // Sanitizing `o` again: nothing is replaced, trimmed or cut.
    assert(replace_forbidden(o) =~= o);
    lemma_trim_both_noop(o, ws);
    lemma_trim_both_noop(o, ds);
    assert(name_candidate(o) == o);
    if o != c {
        // The name was escaped: its stem now begins with `_`, never reserved.
        assert(o == seq!['_'] + c);
        let st = stem_of(o);
        lemma_last_index_bounds(o, '.');
        assert(o != seq!['.'] && o != seq!['.', '.']) by {
            assert(o[0] == '_');
        }
        assert(st.len() > 0 && st[0] == '_');
        let up = ascii_upper_seq(st);
        assert(up[0] == '_');
        assert(!is_reserved_stem(up)) by {
            assert(seq!['C', 'O', 'M'][0] == 'C');
            assert(seq!['L', 'P', 'T'][0] == 'L');
            if starts_with(up, seq!['C', 'O', 'M']) {
                assert(up.subrange(0, 3)[0] == up[0]);
            }
            if starts_with(up, seq!['L', 'P', 'T']) {
                assert(up.subrange(0, 3)[0] == up[0]);
            }
        }
    }
}

/// The Windows device names a stored file may not be called, whatever its
/// extension and letter case.
pub open spec fn windows_device_names() -> Seq<Seq<char>> {
    seq!["CON"@, "PRN"@, "AUX"@, "NUL"@, "CLOCK$"@]
}

/// Reserved device names are escaped: when the upper-cased stem of the
/// candidate name is `CON`, `PRN`, `AUX`, `NUL` or `CLOCK$`, or `COM` /
/// `LPT` followed by a number no larger than 9, the stored name is `_`
/// followed by the candidate; any other candidate is stored as it is.
pub proof fn law_device_names_are_escaped(s: Seq<char>)
    ensures
        ({
            let c = name_candidate(s);
            let up = ascii_upper_seq(stem_of(c));
            let reserved = windows_device_names().contains(up) || ((starts_with(up, "COM"@)
                || starts_with(up, "LPT"@)) && match parse_unsigned(up.skip(3), 255) {
                Some(n) => n <= 9,
                None => false,
            });
            sanitized_name(s) == if reserved {
                seq!['_'] + c
            } else {
                c
            }
        }),
{
    reveal_strlit("CON");
    reveal_strlit("PRN");
    reveal_strlit("AUX");
    reveal_strlit("NUL");
    reveal_strlit("CLOCK$");
    reveal_strlit("COM");
    reveal_strlit("LPT");
    let names = windows_device_names();
    assert(names[0] =~= seq!['C', 'O', 'N']);
    assert(names[1] =~= seq!['P', 'R', 'N']);
    assert(names[2] =~= seq!['A', 'U', 'X']);
    assert(names[3] =~= seq!['N', 'U', 'L']);
    assert(names[4] =~= seq!['C', 'L', 'O', 'C', 'K', '$']);
    assert("COM"@ =~= seq!['C', 'O', 'M']);
    assert("LPT"@ =~= seq!['L', 'P', 'T']);
    let c = name_candidate(s);
    let up = ascii_upper_seq(stem_of(c));
    if names.contains(up) {
        let k = choose|k: int| 0 <= k < names.len() && names[k] == up;
        assert(k == 0 || k == 1 || k == 2 || k == 3 || k == 4);
    }
    if is_reserved_stem(up) {
        if up == seq!['C', 'O', 'N'] {
            assert(names[0] == up);
        } else if up == seq!['P', 'R', 'N'] {
            assert(names[1] == up);
        } else if up == seq!['A', 'U', 'X'] {
            assert(names[2] == up);
        } else if up == seq!['N', 'U', 'L'] {
            assert(names[3] == up);
        } else if up == seq!['C', 'L', 'O', 'C', 'K', '$'] {
            assert(names[4] == up);
        }
    }
}

} // verus!
