//! The section of the Windows hosts file that the gateway manages: one block
//! between two marker lines that maps every routed domain to 127.0.0.1.
use vstd::prelude::*;
use crate::text::{
    chars_of, contains, contains_seq, ends_with, has_suffix, string_of, trim, trim_both, trim_pred,
    TrimSet, same_chars, trim_front, trim_back,
};

verus! {

/// `"\r\n"`.
pub open spec fn crlf() -> Seq<char> {
    seq!['\r', '\n']
}

/// First line of the managed block.
pub open spec fn section_start() -> Seq<char> {
    "# >>> Vesper Gate Domains (Auto-Generated) >>>"@
}

/// Last line of the managed block.
pub open spec fn section_end() -> Seq<char> {
    "# <<< Vesper Gate Domains (Auto-Generated) <<<"@
}

/// Index of the first `c` in `s`, or -1.
pub open spec fn first_index_of(s: Seq<char>, c: char) -> int
    decreases s.len(),
{
    if s.len() == 0 {
        -1
    } else if s[0] == c {
        0
    } else {
        let r = first_index_of(s.drop_first(), c);
        if r < 0 {
            -1
        } else {
            r + 1
        }
    }
}

pub proof fn lemma_first_index_bound(s: Seq<char>, c: char)
    ensures
        -1 <= first_index_of(s, c) < s.len(),
    decreases s.len(),
{
    if s.len() > 0 && s[0] != c {
        lemma_first_index_bound(s.drop_first(), c);
    }
}

/// A line as `str::lines` yields it: a `"\r"` before the `"\n"` is dropped.
pub open spec fn strip_cr(line: Seq<char>) -> Seq<char> {
    if line.len() > 0 && line.last() == '\r' {
        line.drop_last()
    } else {
        line
    }
}

/// `str::lines`: the text split at each `"\n"` (or `"\r\n"`); a final line
/// ending adds no empty line.
pub open spec fn lines_of(s: Seq<char>) -> Seq<Seq<char>>
    decreases s.len(),
{
    if s.len() == 0 {
        seq![]
    } else {
        let k = first_index_of(s, '\n');
        if k < 0 {
            seq![s]
        } else {
            proof {
                lemma_first_index_bound(s, '\n');
            }
            seq![strip_cr(s.take(k))] + lines_of(s.skip(k + 1))
        }
    }
}

/// The lines outside the managed block: a line whose trimmed text is the
/// first marker opens the block, one that is the last marker closes it; the
/// markers and the lines between them are dropped.
pub open spec fn lines_outside(lines: Seq<Seq<char>>, inside: bool) -> Seq<Seq<char>>
    decreases lines.len(),
{
    if lines.len() == 0 {
        seq![]
    } else {
        let t = trim_both(lines[0], trim_pred(TrimSet::WhiteSpace));
        if t == section_start() {
            lines_outside(lines.drop_first(), true)
        } else if t == section_end() {
            lines_outside(lines.drop_first(), false)
        } else if inside {
            lines_outside(lines.drop_first(), inside)
        } else {
            seq![lines[0]] + lines_outside(lines.drop_first(), inside)
        }
    }
}

/// The lines joined with `sep` between them.
pub open spec fn join(lines: Seq<Seq<char>>, sep: Seq<char>) -> Seq<char>
    decreases lines.len(),
{
    if lines.len() == 0 {
        seq![]
    } else if lines.len() == 1 {
        lines[0]
    } else {
        join(lines.drop_last(), sep) + sep + lines.last()
    }
}

/// A domain gets a line unless it already names the local host.
pub open spec fn gets_entry(domain: Seq<char>) -> bool {
    !contains_seq(domain, "127.0.0.1"@) && !contains_seq(domain, "localhost"@)
}

/// The entries of the managed block, one `127.0.0.1 <domain>` line each.
pub open spec fn domain_entries(domains: Seq<Seq<char>>) -> Seq<char>
    decreases domains.len(),
{
    if domains.len() == 0 {
        seq![]
    } else {
        domain_entries(domains.drop_last()) + if gets_entry(domains.last()) {
            "127.0.0.1 "@ + domains.last() + crlf()
        } else {
            seq![]
        }
    }
}

/// The hosts file after synchronisation: the lines outside the old block,
/// joined with `"\r\n"` and ended by one, then a new block when there are
/// domains.
pub open spec fn hosts_content(original: Seq<char>, domains: Seq<Seq<char>>) -> Seq<char> {
    let kept = join(lines_outside(lines_of(original), false), crlf());
    let body = if !ends_with(kept, crlf()) && kept.len() > 0 {
        kept + crlf()
    } else {
        kept
    };
    if domains.len() == 0 {
        body
    } else {
        body + section_start() + crlf() + domain_entries(domains) + section_end() + crlf()
    }
}

/// The domains of a list of strings, as character sequences.
pub open spec fn views_of(v: Seq<String>) -> Seq<Seq<char>> {
    v.map_values(|s: String| s@)
}

pub proof fn lemma_first_index_props(s: Seq<char>, c: char, m: int)
    requires
        0 <= m <= s.len(),
        forall|j: int| 0 <= j < m ==> s[j] != c,
        m == s.len() || s[m] == c,
    ensures
        first_index_of(s, c) == if m == s.len() { -1 } else { m },
    decreases m,
{
    if s.len() > 0 && m > 0 {
        let t = s.drop_first();
        assert forall|j: int| 0 <= j < m - 1 implies t[j] != c by {
            assert(t[j] == s[j + 1]);
        }
        lemma_first_index_props(t, c, m - 1);
    }
}

/// Splits a text into lines (see [`lines_of`]).
pub fn split_lines(s: &[char]) -> (r: Vec<Vec<char>>)
    ensures
        r@.map_values(|l: Vec<char>| l@) == lines_of(s@),
{
    let mut out: Vec<Vec<char>> = Vec::new();
    let mut pos: usize = 0;
    assert(s@.skip(0) =~= s@);
    assert(out@.map_values(|l: Vec<char>| l@) =~= Seq::<Seq<char>>::empty());
    assert(Seq::<Seq<char>>::empty() + lines_of(s@) =~= lines_of(s@));
    while pos < s.len()
        invariant
            pos <= s.len(),
            lines_of(s@) == out@.map_values(|l: Vec<char>| l@) + lines_of(s@.skip(pos as int)),
        decreases s.len() - pos,
    {
        let ghost rest = s@.skip(pos as int);
        let mut k = pos;
        while k < s.len() && s[k] != '\n'
            invariant
                pos <= k <= s.len(),
                forall|j: int| pos <= j < k ==> s@[j] != '\n',
            decreases s.len() - k,
        {
            k += 1;
        }
        proof {
            assert forall|j: int| 0 <= j < k - pos implies rest[j] != '\n' by {
                assert(rest[j] == s@[pos + j]);
            }
            if k < s.len() {
                assert(rest[k - pos] == s@[k as int]);
            }
            lemma_first_index_props(rest, '\n', k - pos);
        }
        let mut line = crate::text::copy_range(s, pos, k);
        assert(line@ == rest.take(k - pos));
        let ghost old_out = out@;
        if k < s.len() {
            if line.len() > 0 && line[line.len() - 1] == '\r' {
                line.pop();
            }
            assert(line@ == strip_cr(rest.take(k - pos)));
            out.push(line);
            assert(rest.skip(k - pos + 1) =~= s@.skip(k + 1));
            assert(out@.map_values(|l: Vec<char>| l@) =~= old_out.map_values(|l: Vec<char>| l@).push(
                strip_cr(rest.take(k - pos)),
            ));
            pos = k + 1;
        } else {
            assert(rest.take(k - pos) =~= rest);
            out.push(line);
            assert(s@.skip(k as int) =~= seq![]);
            assert(out@.map_values(|l: Vec<char>| l@) =~= old_out.map_values(|l: Vec<char>| l@).push(
                rest,
            ));
            pos = k;
        }
    }
    assert(s@.skip(pos as int) =~= seq![]);
    assert(out@.map_values(|l: Vec<char>| l@) + seq![] =~= out@.map_values(|l: Vec<char>| l@));
    out
}

/// Keeps the lines outside the managed block (see [`lines_outside`]).
fn filter_section(lines: &Vec<Vec<char>>) -> (r: Vec<Vec<char>>)
    ensures
        r@.map_values(|l: Vec<char>| l@) == lines_outside(lines@.map_values(|l: Vec<char>| l@), false),
{
    let ghost all = lines@.map_values(|l: Vec<char>| l@);
    let start = chars_of("# >>> Vesper Gate Domains (Auto-Generated) >>>");
    let end = chars_of("# <<< Vesper Gate Domains (Auto-Generated) <<<");
    let mut out: Vec<Vec<char>> = Vec::new();
    let mut inside = false;
    let mut i: usize = 0;
    assert(all.skip(0) =~= all);
    assert(out@.map_values(|l: Vec<char>| l@) =~= Seq::<Seq<char>>::empty());
    assert(Seq::<Seq<char>>::empty() + lines_outside(all, false) =~= lines_outside(all, false));
    while i < lines.len()
        invariant
            i <= lines.len(),
            all == lines@.map_values(|l: Vec<char>| l@),
            start@ == section_start(),
            end@ == section_end(),
            lines_outside(all, false) == out@.map_values(|l: Vec<char>| l@) + lines_outside(
                all.skip(i as int),
                inside,
            ),
        decreases lines.len() - i,
    {
        let ghost rest = all.skip(i as int);
        assert(rest[0] == lines@[i as int]@);
        assert(rest.drop_first() =~= all.skip(i + 1));
        let t = trim(&lines[i], TrimSet::WhiteSpace);
        let ghost old_out = out@;
        if same_chars(&t, &start) {
            inside = true;
        } else if same_chars(&t, &end) {
            inside = false;
        } else if !inside {
            out.push(crate::text::copy_range(&lines[i], 0, lines[i].len()));
            assert(lines@[i as int]@.subrange(0, lines@[i as int]@.len() as int) =~= lines@[i as int]@);
            assert(out@.map_values(|l: Vec<char>| l@) =~= old_out.map_values(|l: Vec<char>| l@).push(
                rest[0],
            ));
            assert(seq![rest[0]] + lines_outside(rest.drop_first(), inside) =~= seq![rest[0]].add(
                lines_outside(rest.drop_first(), inside),
            ));
            assert(old_out.map_values(|l: Vec<char>| l@).push(rest[0]) + lines_outside(
                rest.drop_first(),
                inside,
            ) =~= old_out.map_values(|l: Vec<char>| l@) + (seq![rest[0]] + lines_outside(
                rest.drop_first(),
                inside,
            )));
        }
        i += 1;
    }
    assert(all.skip(i as int) =~= seq![]);
    assert(out@.map_values(|l: Vec<char>| l@) + seq![] =~= out@.map_values(|l: Vec<char>| l@));
    out
}

/// Appends the characters of `src` to `out`.
fn extend(out: &mut Vec<char>, src: &[char])
    ensures
        final(out)@ == old(out)@ + src@,
{
    let ghost start = out@;
    let mut i: usize = 0;
    while i < src.len()
        invariant
            i <= src.len(),
            out@ == start + src@.take(i as int),
        decreases src.len() - i,
    {
        out.push(src[i]);
        assert(src@.take(i + 1) =~= src@.take(i as int).push(src@[i as int]));
        i += 1;
    }
    assert(src@.take(src.len() as int) =~= src@);
}

/// Joins lines with `"\r\n"` (see [`join`]).
fn join_crlf(lines: &Vec<Vec<char>>) -> (r: Vec<char>)
    ensures
        r@ == join(lines@.map_values(|l: Vec<char>| l@), crlf()),
{
    let ghost all = lines@.map_values(|l: Vec<char>| l@);
    let mut out: Vec<char> = Vec::new();
    let mut i: usize = 0;
    while i < lines.len()
        invariant
            i <= lines.len(),
            all == lines@.map_values(|l: Vec<char>| l@),
            out@ == join(all.take(i as int), crlf()),
        decreases lines.len() - i,
    {
        assert(all.take(i + 1).drop_last() =~= all.take(i as int));
        if i > 0 {
            out.push('\r');
            out.push('\n');
        }
        extend(&mut out, &lines[i]);
        if i == 0 {
            assert(out@ =~= join(all.take(1), crlf()));
        } else {
            assert(out@ =~= join(all.take(i as int), crlf()) + crlf() + all[i as int]);
        }
        i += 1;
    }
    assert(all.take(lines.len() as int) =~= all);
    out
}

/// `build_hosts_content`: the hosts file after synchronising `domains` into
/// the managed block of `original`.
pub fn build_hosts_content(original: &str, domains: &[String]) -> (r: String)
    ensures
        r@ == hosts_content(original@, views_of(domains@)),
{
    let text = chars_of(original);
    let lines = split_lines(&text);
    let kept = filter_section(&lines);
    let mut out = join_crlf(&kept);
    let ghost joined = out@;
    if !has_suffix(&out, &['\r', '\n']) && out.len() > 0 {
        out.push('\r');
        out.push('\n');
    }
    assert(['\r', '\n']@ == crlf());
    if domains.len() > 0 {
        extend(&mut out, &chars_of("# >>> Vesper Gate Domains (Auto-Generated) >>>"));
        out.push('\r');
        out.push('\n');
        let ghost before = out@;
        let ghost ds = views_of(domains@);
        let local = chars_of("127.0.0.1");
        let localhost = chars_of("localhost");
        let prefix = chars_of("127.0.0.1 ");
        let mut i: usize = 0;
        while i < domains.len()
            invariant
                i <= domains.len(),
                ds == views_of(domains@),
                local@ == "127.0.0.1"@,
                localhost@ == "localhost"@,
                prefix@ == "127.0.0.1 "@,
                out@ == before + domain_entries(ds.take(i as int)),
            decreases domains.len() - i,
        {
            assert(ds.take(i + 1).drop_last() =~= ds.take(i as int));
            let d = chars_of(domains[i].as_str());
            if !contains(&d, &local) && !contains(&d, &localhost) {
                extend(&mut out, &prefix);
                extend(&mut out, &d);
                out.push('\r');
                out.push('\n');
                assert(out@ =~= before + domain_entries(ds.take(i as int)) + ("127.0.0.1 "@ + ds[i as int] + crlf()));
            } else {
                assert(out@ =~= before + domain_entries(ds.take(i as int)) + seq![]);
            }
            i += 1;
        }
        assert(ds.take(domains.len() as int) =~= ds);
        extend(&mut out, &chars_of("# <<< Vesper Gate Domains (Auto-Generated) <<<"));
        out.push('\r');
        out.push('\n');
    }
    assert(out@ =~= hosts_content(original@, views_of(domains@)));
    string_of(&out)
}

// ---------------------------------------------------------------------------
// Rebuilding a rebuilt file
// ---------------------------------------------------------------------------

/// The lines of `original` that a rebuild keeps: those outside the block.
pub open spec fn kept_lines(original: Seq<char>) -> Seq<Seq<char>> {
    lines_outside(lines_of(original), false)
}

/// The lines of the managed block: none without domains, else the first
/// marker, the entries and the last marker.
pub open spec fn block_lines(domains: Seq<Seq<char>>) -> Seq<Seq<char>> {
    if domains.len() == 0 {
        seq![]
    } else {
        seq![section_start()] + entry_lines(domains) + seq![section_end()]
    }
}

/// The lines of the managed block's entries.
pub open spec fn entry_lines(domains: Seq<Seq<char>>) -> Seq<Seq<char>>
    decreases domains.len(),
{
    if domains.len() == 0 {
        seq![]
    } else {
        entry_lines(domains.drop_last()) + if gets_entry(domains.last()) {
            seq!["127.0.0.1 "@ + domains.last()]
        } else {
            seq![]
        }
    }
}

/// A line whose trimmed text is not a marker.
pub open spec fn plain_line(x: Seq<char>) -> bool {
    let t = trim_both(x, trim_pred(TrimSet::WhiteSpace));
    t != section_start() && t != section_end()
}

pub proof fn lemma_first_index_spec(s: Seq<char>, c: char)
    ensures
        first_index_of(s, c) < 0 ==> forall|j: int| 0 <= j < s.len() ==> s[j] != c,
        first_index_of(s, c) >= 0 ==> first_index_of(s, c) < s.len() && s[first_index_of(s, c)] == c
            && forall|j: int| 0 <= j < first_index_of(s, c) ==> s[j] != c,
    decreases s.len(),
{
    if s.len() > 0 && s[0] != c {
        let t = s.drop_first();
        lemma_first_index_spec(t, c);
        assert forall|j: int| 0 < j < s.len() implies s[j] == t[j - 1] by {}
    }
}

/// No line holds a line break.
proof fn lemma_lines_have_no_break(s: Seq<char>)
    ensures
        forall|i: int| 0 <= i < lines_of(s).len() ==> !(#[trigger] lines_of(s)[i]).contains('\n'),
    decreases s.len(),
{
    if s.len() > 0 {
        let k = first_index_of(s, '\n');
        lemma_first_index_spec(s, '\n');
        if k >= 0 {
            lemma_first_index_bound(s, '\n');
            lemma_lines_have_no_break(s.skip(k + 1));
            let first = strip_cr(s.take(k));
            assert(!first.contains('\n')) by {
                if first.contains('\n') {
                    let j = choose|j: int| 0 <= j < first.len() && first[j] == '\n';
                    assert(s[j] == '\n');
                }
            }
            let rest = lines_of(s.skip(k + 1));
            assert(lines_of(s) == seq![first] + rest);
            assert forall|i: int| 0 <= i < lines_of(s).len() implies !(#[trigger] lines_of(s)[i]).contains('\n') by {
                if i > 0 {
                    assert(lines_of(s)[i] == rest[i - 1]);
                }
            }
        }
    }
}

/// One line, ended by `"\r\n"`, then the rest.
proof fn lemma_lines_of_line(x: Seq<char>, rest: Seq<char>)
    requires
        !x.contains('\n'),
    ensures
        lines_of(x + crlf() + rest) == seq![x] + lines_of(rest),
{
    let s = x + crlf() + rest;
    let m = x.len() as int + 1;
    assert forall|j: int| 0 <= j < m implies s[j] != '\n' by {
        if j < x.len() {
            assert(s[j] == x[j]);
        }
    }
    assert(s[m] == '\n');
    lemma_first_index_props(s, '\n', m);
    assert(s.take(m) =~= x.push('\r'));
    assert(strip_cr(s.take(m)) =~= x);
    assert(s.skip(m + 1) =~= rest);
}

/// Lines joined and ended by `"\r\n"` read back as the same lines.
proof fn lemma_lines_of_join(k: Seq<Seq<char>>, rest: Seq<char>)
    requires
        k.len() > 0,
        forall|i: int| 0 <= i < k.len() ==> !(#[trigger] k[i]).contains('\n'),
    ensures
        lines_of(join(k, crlf()) + crlf() + rest) == k + lines_of(rest),
    decreases k.len(),
{
    if k.len() == 1 {
        lemma_lines_of_line(k[0], rest);
        assert(seq![k[0]] =~= k);
    } else {
        let front = k.drop_last();
        let tail = k.last() + crlf() + rest;
        assert forall|i: int| 0 <= i < front.len() implies !(#[trigger] front[i]).contains('\n') by {
            assert(front[i] == k[i]);
        }
        lemma_lines_of_join(front, tail);
        lemma_lines_of_line(k.last(), rest);
        assert(join(k, crlf()) + crlf() + rest =~= join(front, crlf()) + crlf() + tail);
        assert(front + (seq![k.last()] + lines_of(rest)) =~= k + lines_of(rest));
    }
}

/// The entries of the block read back as their lines.
proof fn lemma_lines_of_entries(domains: Seq<Seq<char>>, rest: Seq<char>)
    requires
        forall|i: int| 0 <= i < domains.len() ==> !(#[trigger] domains[i]).contains('\n'),
    ensures
        lines_of(domain_entries(domains) + rest) == entry_lines(domains) + lines_of(rest),
    decreases domains.len(),
{
    if domains.len() == 0 {
        assert(domain_entries(domains) + rest =~= rest);
        assert(entry_lines(domains) + lines_of(rest) =~= lines_of(rest));
    } else {
        let front = domains.drop_last();
        let d = domains.last();
        assert forall|i: int| 0 <= i < front.len() implies !(#[trigger] front[i]).contains('\n') by {
            assert(front[i] == domains[i]);
        }
        if gets_entry(d) {
            let line = "127.0.0.1 "@ + d;
            reveal_strlit("127.0.0.1 ");
            assert(!line.contains('\n')) by {
                if line.contains('\n') {
                    let j = choose|j: int| 0 <= j < line.len() && line[j] == '\n';
                    if j >= 10 {
                        assert(d[j - 10] == '\n');
                    }
                }
            }
            let tail = line + crlf() + rest;
            lemma_lines_of_entries(front, tail);
            lemma_lines_of_line(line, rest);
            assert(domain_entries(domains) + rest =~= domain_entries(front) + tail);
            assert(entry_lines(front) + (seq![line] + lines_of(rest)) =~= entry_lines(domains) + lines_of(rest));
        } else {
            lemma_lines_of_entries(front, rest);
            assert(domain_entries(domains) =~= domain_entries(front));
            assert(entry_lines(domains) =~= entry_lines(front));
        }
    }
}

/// The lines kept outside the block are plain lines of the input.
proof fn lemma_outside_lines(lines: Seq<Seq<char>>, inside: bool)
    ensures
        forall|i: int| 0 <= i < lines_outside(lines, inside).len() ==> plain_line(
            #[trigger] lines_outside(lines, inside)[i],
        ) && exists|j: int| 0 <= j < lines.len() && lines[j] == lines_outside(lines, inside)[i],
    decreases lines.len(),
{
    if lines.len() > 0 {
        let rest = lines.drop_first();
        lemma_outside_lines(rest, true);
        lemma_outside_lines(rest, false);
        let out = lines_outside(lines, inside);
        assert forall|i: int| 0 <= i < out.len() implies plain_line(#[trigger] out[i]) && exists|j: int|
            0 <= j < lines.len() && lines[j] == out[i] by {
            let t = trim_both(lines[0], trim_pred(TrimSet::WhiteSpace));
            if t == section_start() || t == section_end() || inside {
                let b = if t == section_start() { true } else if t == section_end() { false } else { inside };
                assert(out == lines_outside(rest, b));
                let j = choose|j: int| 0 <= j < rest.len() && rest[j] == out[i];
                assert(lines[j + 1] == rest[j]);
            } else {
                assert(out == seq![lines[0]] + lines_outside(rest, inside));
                if i > 0 {
                    let o2 = lines_outside(rest, inside);
                    assert(out[i] == o2[i - 1]);
                    let j = choose|j: int| 0 <= j < rest.len() && rest[j] == o2[i - 1];
                    assert(lines[j + 1] == rest[j]);
                } else {
                    assert(lines[0] == out[0]);
                }
            }
        }
    }
}

/// Plain lines outside the block stay.
proof fn lemma_outside_keeps(k: Seq<Seq<char>>, rest: Seq<Seq<char>>)
    requires
        forall|i: int| 0 <= i < k.len() ==> plain_line(#[trigger] k[i]),
    ensures
        lines_outside(k + rest, false) == k + lines_outside(rest, false),
    decreases k.len(),
{
    if k.len() == 0 {
        assert(k + rest =~= rest);
        assert(k + lines_outside(rest, false) =~= lines_outside(rest, false));
    } else {
        let front = k.drop_first();
        assert forall|i: int| 0 <= i < front.len() implies plain_line(#[trigger] front[i]) by {
            assert(front[i] == k[i + 1]);
        }
        lemma_outside_keeps(front, rest);
        assert((k + rest).drop_first() =~= front + rest);
        assert((k + rest)[0] == k[0]);
        assert(plain_line(k[0]));
        assert(seq![k[0]] + (front + lines_outside(rest, false)) =~= k + lines_outside(rest, false));
    }
}

/// Plain lines inside the block are dropped.
proof fn lemma_inside_drops(e: Seq<Seq<char>>, rest: Seq<Seq<char>>)
    requires
        forall|i: int| 0 <= i < e.len() ==> plain_line(#[trigger] e[i]),
    ensures
        lines_outside(e + rest, true) == lines_outside(rest, true),
    decreases e.len(),
{
    if e.len() == 0 {
        assert(e + rest =~= rest);
    } else {
        let front = e.drop_first();
        assert forall|i: int| 0 <= i < front.len() implies plain_line(#[trigger] front[i]) by {
            assert(front[i] == e[i + 1]);
        }
        lemma_inside_drops(front, rest);
        assert((e + rest).drop_first() =~= front + rest);
        assert((e + rest)[0] == e[0]);
        assert(plain_line(e[0]));
    }
}

proof fn lemma_trim_back_first(s: Seq<char>, drop: spec_fn(char) -> bool)
    requires
        s.len() > 0,
        !drop(s[0]),
    ensures
        trim_back(s, drop).len() > 0,
        trim_back(s, drop)[0] == s[0],
    decreases s.len(),
{
    if drop(s.last()) {
        assert(s.len() > 1);
        lemma_trim_back_first(s.drop_last(), drop);
    }
}

/// The markers are their own trimmed text, and no entry line trims to a
/// marker.
proof fn lemma_block_lines(domains: Seq<Seq<char>>)
    ensures
        trim_both(section_start(), trim_pred(TrimSet::WhiteSpace)) == section_start(),
        trim_both(section_end(), trim_pred(TrimSet::WhiteSpace)) == section_end(),
        forall|i: int| 0 <= i < entry_lines(domains).len() ==> plain_line(#[trigger] entry_lines(domains)[i]),
    decreases domains.len(),
{
    let ws = trim_pred(TrimSet::WhiteSpace);
    reveal_strlit("# >>> Vesper Gate Domains (Auto-Generated) >>>");
    reveal_strlit("# <<< Vesper Gate Domains (Auto-Generated) <<<");
    reveal_strlit("127.0.0.1 ");
    let a = section_start();
    let b = section_end();
    assert(a[0] == '#' && a.last() == '>' && b[0] == '#' && b.last() == '<');
    assert(trim_front(a, ws) == a);
    assert(trim_back(a, ws) == a);
    assert(trim_front(b, ws) == b);
    assert(trim_back(b, ws) == b);
    if domains.len() > 0 {
        lemma_block_lines(domains.drop_last());
        let front = entry_lines(domains.drop_last());
        let d = domains.last();
        if gets_entry(d) {
            let line = "127.0.0.1 "@ + d;
            assert(line[0] == '1');
            assert(trim_front(line, ws) == line);
            lemma_trim_back_first(line, ws);
            assert(trim_both(line, ws)[0] == '1');
            assert(plain_line(line));
            assert(entry_lines(domains) == front + seq![line]);
            assert forall|i: int| 0 <= i < entry_lines(domains).len() implies plain_line(
                #[trigger] entry_lines(domains)[i],
            ) by {
                if i < front.len() {
                    assert(entry_lines(domains)[i] == front[i]);
                }
            }
        } else {
            assert(entry_lines(domains) =~= front);
        }
    }
}

/// Synchronising a file that was just synchronised with the same domains
/// changes nothing: the kept lines read back as themselves and the block is
/// dropped and written again. This holds when no domain holds a line break,
/// and when the last line kept outside the block is not empty (an empty
/// last line is joined into the final line break and lost on the next
/// pass; a domain with a line break can smuggle in a marker line).
pub proof fn law_hosts_rebuild_is_stable(original: Seq<char>, domains: Seq<Seq<char>>)
    requires
        forall|i: int| 0 <= i < domains.len() ==> !(#[trigger] domains[i]).contains('\n'),
        kept_lines(original).len() == 0 || kept_lines(original).last().len() > 0,
    ensures
        hosts_content(hosts_content(original, domains), domains) == hosts_content(original, domains),
        lines_of(hosts_content(original, domains)) == kept_lines(original) + block_lines(domains),
{
    let k = kept_lines(original);
    let kept = join(k, crlf());
    let h = hosts_content(original, domains);
    let block = section_start() + crlf() + domain_entries(domains) + section_end() + crlf();
    let tail = if domains.len() == 0 { Seq::<char>::empty() } else { block };
    lemma_lines_have_no_break(original);
    lemma_outside_lines(lines_of(original), false);
    assert forall|i: int| 0 <= i < k.len() implies !(#[trigger] k[i]).contains('\n') && plain_line(k[i]) by {
        let j = choose|j: int| 0 <= j < lines_of(original).len() && lines_of(original)[j] == k[i];
        assert(!lines_of(original)[j].contains('\n'));
    }
    lemma_block_lines(domains);
    let el = entry_lines(domains);
    // The lines of the tail.
    let tail_lines = if domains.len() == 0 {
        Seq::<Seq<char>>::empty()
    } else {
        seq![section_start()] + el + seq![section_end()]
    };
    reveal_strlit("# >>> Vesper Gate Domains (Auto-Generated) >>>");
    reveal_strlit("# <<< Vesper Gate Domains (Auto-Generated) <<<");
    assert(!section_start().contains('\n')) by {
        if section_start().contains('\n') {
            let j = choose|j: int| 0 <= j < section_start().len() && section_start()[j] == '\n';
        }
    }
    assert(!section_end().contains('\n')) by {
        if section_end().contains('\n') {
            let j = choose|j: int| 0 <= j < section_end().len() && section_end()[j] == '\n';
        }
    }
    if domains.len() > 0 {
        let e = Seq::<char>::empty();
        lemma_lines_of_line(section_end(), e);
        lemma_lines_of_entries(domains, section_end() + crlf() + e);
        lemma_lines_of_line(section_start(), domain_entries(domains) + section_end() + crlf());
        assert(block =~= section_start() + crlf() + (domain_entries(domains) + (section_end() + crlf() + e)));
        assert(domain_entries(domains) + section_end() + crlf() =~= domain_entries(domains) + (section_end() + crlf() + e));
        assert(lines_of(e) == Seq::<Seq<char>>::empty());
        assert(lines_of(block) =~= tail_lines);
    } else {
        assert(lines_of(tail) == tail_lines);
    }
    // The lines outside the block of the tail: none.
    assert(lines_outside(tail_lines, false) == Seq::<Seq<char>>::empty()) by {
        if domains.len() > 0 {
            let rest = el + seq![section_end()];
            assert(tail_lines =~= seq![section_start()] + rest);
            assert(tail_lines.drop_first() =~= rest);
            lemma_inside_drops(el, seq![section_end()]);
            let last = seq![section_end()];
            assert(last.drop_first() =~= Seq::<Seq<char>>::empty());
            assert(section_start()[2] == '>' && section_end()[2] == '<');
            assert(section_end() != section_start());
            assert(tail_lines[0] == section_start());
            assert(lines_outside(tail_lines, false) == lines_outside(rest, true));
            assert(last[0] == section_end());
            assert(lines_outside(last, true) == lines_outside(last.drop_first(), false));
        }
    }
    if k.len() == 0 {
        assert(kept == Seq::<char>::empty());
        assert(h =~= tail);
        assert(lines_of(h) == tail_lines);
        assert(k + tail_lines =~= tail_lines);
        assert(lines_outside(lines_of(h), false) == k);
    } else {
        // The kept text ends with the last kept line, not with a line break.
        assert(kept.len() > 0 && kept.last() == k.last().last()) by {
            if k.len() > 1 {
                assert(kept == join(k.drop_last(), crlf()) + crlf() + k.last());
            }
        }
        assert(!ends_with(kept, crlf())) by {
            let p = kept.subrange(kept.len() - 2, kept.len() as int);
            if kept.len() >= 2 && p == crlf() {
                assert(p[1] == kept.last());
                assert(k.last().contains('\n'));
            }
        }
        assert(h =~= kept + crlf() + tail);
        lemma_lines_of_join(k, tail);
        lemma_outside_keeps(k, tail_lines);
        assert(k + Seq::<Seq<char>>::empty() =~= k);
        assert(lines_outside(lines_of(h), false) == k);
    }
    assert(kept_lines(h) == k);
}

/// The same, for an original file with no empty line: the kept lines are
/// lines of the original, so the last one is not empty.
pub proof fn law_hosts_rebuild_is_stable_without_empty_lines(original: Seq<char>, domains: Seq<Seq<char>>)
    requires
        forall|i: int| 0 <= i < domains.len() ==> !(#[trigger] domains[i]).contains('\n'),
        forall|i: int| 0 <= i < lines_of(original).len() ==> (#[trigger] lines_of(original)[i]).len() > 0,
    ensures
        hosts_content(hosts_content(original, domains), domains) == hosts_content(original, domains),
{
    let k = kept_lines(original);
    lemma_outside_lines(lines_of(original), false);
    if k.len() > 0 {
        let j = choose|j: int| 0 <= j < lines_of(original).len() && lines_of(original)[j] == k[k.len() - 1];
        assert(lines_of(original)[j].len() > 0);
    }
    law_hosts_rebuild_is_stable(original, domains);
}

/// A domain that already names this machine: it holds `127.0.0.1` or
/// `localhost`.
pub open spec fn names_this_machine(d: Seq<char>) -> bool {
    contains_seq(d, "127.0.0.1"@) || contains_seq(d, "localhost"@)
}

/// `line` is the `127.0.0.1` line of some domain that does not already name
/// this machine.
pub open spec fn points_a_domain_home(line: Seq<char>, domains: Seq<Seq<char>>) -> bool {
    exists|j: int|
        0 <= j < domains.len() && !names_this_machine(#[trigger] domains[j]) && line == "127.0.0.1 "@
            + domains[j]
}

proof fn lemma_entry_lines_shape(domains: Seq<Seq<char>>)
    ensures
        forall|i: int|
            0 <= i < entry_lines(domains).len() ==> points_a_domain_home(
                #[trigger] entry_lines(domains)[i],
                domains,
            ),
        forall|j: int|
            0 <= j < domains.len() && !names_this_machine(#[trigger] domains[j]) ==> entry_lines(
                domains,
            ).contains("127.0.0.1 "@ + domains[j]),
    decreases domains.len(),
{
    if domains.len() > 0 {
        let front = domains.drop_last();
        lemma_entry_lines_shape(front);
        let ef = entry_lines(front);
        let e = entry_lines(domains);
        let d = domains.last();
        assert(gets_entry(d) == !names_this_machine(d));
        assert forall|i: int| 0 <= i < e.len() implies points_a_domain_home(#[trigger] e[i], domains) by {
            if i < ef.len() {
                assert(e[i] == ef[i]);
                assert(points_a_domain_home(ef[i], front));
                let j = choose|j: int|
                    0 <= j < front.len() && !names_this_machine(#[trigger] front[j]) && ef[i] == "127.0.0.1 "@
                        + front[j];
                assert(domains[j] == front[j]);
            } else {
                assert(e[i] == "127.0.0.1 "@ + d);
                assert(domains[domains.len() - 1] == d);
            }
        }
        assert forall|j: int| 0 <= j < domains.len() && !names_this_machine(#[trigger] domains[j]) implies e.contains(
            "127.0.0.1 "@ + domains[j],
        ) by {
            if j < front.len() {
                assert(front[j] == domains[j]);
                let x = "127.0.0.1 "@ + domains[j];
                assert(ef.contains(x));
                let m = choose|m: int| 0 <= m < ef.len() && ef[m] == x;
                assert(e[m] == ef[m]);
            } else {
                assert(e[e.len() - 1] == "127.0.0.1 "@ + d);
            }
        }
    } else {
        assert(entry_lines(domains) =~= Seq::<Seq<char>>::empty());
    }
}

/// What a synchronised hosts file holds, line by line: the lines kept from
/// the original, then, when there are domains, the block's first marker,
/// one `127.0.0.1 <domain>` line for each domain that does not already name
/// this machine (and no other line), and the last marker. (As for
/// [`law_hosts_rebuild_is_stable`]: no domain holds a line break and the
/// last kept line is not empty.)
pub proof fn law_hosts_block_points_domains_home(original: Seq<char>, domains: Seq<Seq<char>>)
    requires
        forall|i: int| 0 <= i < domains.len() ==> !(#[trigger] domains[i]).contains('\n'),
        kept_lines(original).len() == 0 || kept_lines(original).last().len() > 0,
    ensures
        domains.len() == 0 ==> lines_of(hosts_content(original, domains)) == kept_lines(original),
        domains.len() > 0 ==> ({
            let lines = lines_of(hosts_content(original, domains));
            let k = kept_lines(original).len() as int;
            &&& lines.len() >= k + 2
            &&& lines.subrange(0, k) == kept_lines(original)
            &&& lines[k] == "# >>> Vesper Gate Domains (Auto-Generated) >>>"@
            &&& lines.last() == "# <<< Vesper Gate Domains (Auto-Generated) <<<"@
            &&& forall|i: int| k < i < lines.len() - 1 ==> points_a_domain_home(#[trigger] lines[i], domains)
            &&& forall|j: int|
                0 <= j < domains.len() && !names_this_machine(#[trigger] domains[j]) ==> lines.subrange(
                    k + 1,
                    lines.len() - 1,
                ).contains("127.0.0.1 "@ + domains[j])
        }),
{
    law_hosts_rebuild_is_stable(original, domains);
    lemma_entry_lines_shape(domains);
    let kl = kept_lines(original);
    if domains.len() == 0 {
        assert(kl + block_lines(domains) =~= kl);
    } else {
        let lines = lines_of(hosts_content(original, domains));
        let k = kl.len() as int;
        let e = entry_lines(domains);
        assert(lines == kl + seq![section_start()] + e + seq![section_end()]);
        assert(lines.subrange(0, k) =~= kl);
        assert(lines.subrange(k + 1, lines.len() - 1) =~= e);
        assert forall|i: int| k < i < lines.len() - 1 implies points_a_domain_home(#[trigger] lines[i], domains) by {
            assert(lines[i] == e[i - k - 1]);
        }
    }
}

} // verus!
