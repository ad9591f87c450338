//! Text search of the search-files tool: which files are skipped as binary,
//! how a file's text splits into lines, and which lines match a pattern.
//! Walking the directories and reading the files is left to the caller.
use vstd::prelude::*;
use crate::text::{
    owned, str_eq, contains, to_lowercase, lowercase_of, seq_contains, trim, trimmed_of, push_char,
    chars_of,
};

verus! {

/// The extensions of files that the search skips as binary.
pub open spec fn binary_extensions() -> Seq<Seq<char>> {
    seq!["png"@, "jpg"@, "jpeg"@, "gif"@, "bmp"@, "wasm"@, "bin"@, "dll"@, "exe"@]
}

fn binary_extension_list() -> (r: &'static [&'static str])
    ensures
        r@.map_values(|s: &str| s@) == binary_extensions(),
{
    let r: &'static [&'static str] = &["png", "jpg", "jpeg", "gif", "bmp", "wasm", "bin", "dll", "exe"];
    assert(r@.map_values(|s: &str| s@) =~= binary_extensions());
    r
}

/// Whether a file with extension `ext` (exactly as written) is skipped as
/// binary.
pub fn is_binary_extension(ext: &str) -> (b: bool)
    ensures
        b == binary_extensions().contains(ext@),
{
    let list = binary_extension_list();
    let ghost names = list@.map_values(|s: &str| s@);
    let mut i: usize = 0;
    while i < list.len()
        invariant
            i <= list@.len(),
            names == list@.map_values(|s: &str| s@),
            names == binary_extensions(),
            forall|j: int| 0 <= j < i ==> names[j] != ext@,
        decreases list@.len() - i,
    {
        if str_eq(list[i], ext) {
            assert(names[i as int] == ext@);
            return true;
        }
        i = i + 1;
    }
    false
}

/// How many matches a search keeps for a requested maximum: at least one.
pub fn result_cap(max_results: usize) -> (n: usize)
    ensures
        n == (if max_results == 0 { 1 } else { max_results }),
{
    if max_results == 0 { 1 } else { max_results }
}

/// Position of the first line feed in `s`, or -1.
pub open spec fn first_newline(s: Seq<char>) -> int
    decreases s.len(),
{
    if s.len() == 0 {
        -1
    } else if s[0] == '\n' {
        0
    } else {
        let k = first_newline(s.drop_first());
        if k < 0 { -1 } else { k + 1 }
    }
}

/// The first line feed, if any, lies inside the text.
pub proof fn lemma_first_newline_bounds(s: Seq<char>)
    ensures
        -1 <= first_newline(s) < s.len(),
    decreases s.len(),
{
    if s.len() > 0 && s[0] != '\n' {
        lemma_first_newline_bounds(s.drop_first());
    }
}

/// The first line feed of `s` is at `m` when no line feed comes before `m`
/// and `m` holds one, and there is none when `m` is the end.
proof fn lemma_first_newline_at(s: Seq<char>, m: int)
    requires
        0 <= m <= s.len(),
        forall|k: int| 0 <= k < m ==> s[k] != '\n',
        m < s.len() ==> s[m] == '\n',
    ensures
        first_newline(s) == (if m < s.len() { m } else { -1 }),
    decreases s.len(),
{
    if s.len() > 0 && s[0] != '\n' {
        let t = s.drop_first();
        assert forall|k: int| 0 <= k < m - 1 implies t[k] != '\n' by {
            assert(t[k] == s[k + 1]);
        }
        if m < s.len() {
            assert(t[m - 1] == s[m]);
        }
        lemma_first_newline_at(t, m - 1);
    } else if s.len() > 0 {
        if m > 0 {
            assert(s[0] != '\n');
        }
    }
}

/// A line without its line-ending carriage return.
pub open spec fn strip_cr(l: Seq<char>) -> Seq<char> {
    if l.len() > 0 && l.last() == '\r' { l.drop_last() } else { l }
}

/// The lines of `s` as `str::lines` gives them: split at each line feed,
/// with a carriage return just before it dropped; a last line ending
/// without a line feed counts, an empty text has no lines.
pub open spec fn lines_of(s: Seq<char>) -> Seq<Seq<char>>
    decreases s.len(),
{
    if s.len() == 0 {
        seq![]
    } else {
        let j = first_newline(s);
        if j < 0 {
            seq![s]
        } else {
            proof {
                lemma_first_newline_bounds(s);
            }
            seq![strip_cr(s.take(j))] + lines_of(s.skip(j + 1))
        }
    }
}

/// Whether a line matches: it contains the pattern, both lowercased
/// unless the search is case-sensitive.
pub open spec fn line_matches(line: Seq<char>, pattern: Seq<char>, case_sensitive: bool) -> bool {
    if case_sensitive {
        seq_contains(line, pattern)
    } else {
        seq_contains(lowercase_of(line), lowercase_of(pattern))
    }
}

/// The matching lines of `lines`, each with its number (from 1) and its
/// text trimmed, in order.
pub open spec fn spec_matches(lines: Seq<Seq<char>>, pattern: Seq<char>, case_sensitive: bool) -> Seq<(int, Seq<char>)>
    decreases lines.len(),
{
    if lines.len() == 0 {
        seq![]
    } else {
        let prev = spec_matches(lines.drop_last(), pattern, case_sensitive);
        if line_matches(lines.last(), pattern, case_sensitive) {
            prev.push((lines.len() as int, trimmed_of(lines.last())))
        } else {
            prev
        }
    }
}

/// The first `n` elements of `s` (all of them when there are fewer).
pub open spec fn first_at_most<A>(s: Seq<A>, n: nat) -> Seq<A> {
    if s.len() <= n { s } else { s.take(n as int) }
}

/// The matches of a shorter list of lines come first among those of a longer
/// one.
proof fn lemma_matches_prefix(a: Seq<Seq<char>>, b: Seq<Seq<char>>, pattern: Seq<char>, cs: bool)
    ensures
        spec_matches(a, pattern, cs).len() <= spec_matches(a + b, pattern, cs).len(),
        spec_matches(a + b, pattern, cs).take(spec_matches(a, pattern, cs).len() as int)
            == spec_matches(a, pattern, cs),
    decreases b.len(),
{
    if b.len() == 0 {
        assert(a + b =~= a);
    } else {
        let b0 = b.drop_last();
        lemma_matches_prefix(a, b0, pattern, cs);
        assert((a + b).drop_last() =~= a + b0);
        assert((a + b).last() == b.last());
        let p = spec_matches(a + b0, pattern, cs);
        let q = spec_matches(a, pattern, cs);
        if line_matches(b.last(), pattern, cs) {
            assert(p.push((((a + b).len()) as int, trimmed_of(b.last()))).take(q.len() as int) =~= p.take(
                q.len() as int,
            ));
        }
    }
}

/// The lines of `s` are those before position `i` followed by the lines of
/// what follows, when `i` starts a line.
proof fn lemma_lines_step(s: Seq<char>, i: int, j: int)
    requires
        0 <= i < j <= s.len() || (0 <= i == j < s.len()),
        forall|k: int| i <= k < j ==> s[k] != '\n',
        j < s.len() ==> s[j] == '\n',
    ensures
        j < s.len() ==> lines_of(s.skip(i)) == seq![strip_cr(s.subrange(i, j))] + lines_of(s.skip(j + 1)),
        j == s.len() ==> lines_of(s.skip(i)) == seq![s.subrange(i, j)],
{
    let t = s.skip(i);
    assert forall|k: int| 0 <= k < j - i implies t[k] != '\n' by {
        assert(t[k] == s[i + k]);
    }
    if j < s.len() {
        assert(t[j - i] == s[j]);
    }
    lemma_first_newline_at(t, j - i);
    assert(t.len() > 0);
    if j < s.len() {
        assert(t.take(j - i) =~= s.subrange(i, j));
        assert(t.skip(j - i + 1) =~= s.skip(j + 1));
    } else {
        assert(t =~= s.subrange(i, j));
    }
}

/// The matching lines of `content`, each as its line number (from 1) and
/// its trimmed text, in order, keeping the first `limit` of them. A line
/// matches when it contains `pattern`; unless `case_sensitive`, both are
/// lowercased first.
pub fn matching_lines(content: &str, pattern: &str, case_sensitive: bool, limit: usize) -> (v: Vec<(usize, String)>)
    ensures
        v@.map_values(|m: (usize, String)| (m.0 as int, m.1@)) == first_at_most(
            spec_matches(lines_of(content@), pattern@, case_sensitive),
            limit as nat,
        ),
{
    let chars = chars_of(content);
    let n = chars.len();
    let pat = if case_sensitive { owned(pattern) } else { to_lowercase(pattern) };
    let ghost s = content@;
    let ghost pv = pattern@;
    let ghost mut done: Seq<Seq<char>> = seq![];
    let mut out: Vec<(usize, String)> = Vec::new();
    if limit == 0 {
        assert(out@.map_values(|m: (usize, String)| (m.0 as int, m.1@)) =~= first_at_most(
            spec_matches(lines_of(s), pv, case_sensitive),
            0,
        ));
        return out;
    }
    let mut i: usize = 0;
    let mut line_no: usize = 0;
    assert(s.skip(0) =~= s);
    while i < n
        invariant
            chars@ == s,
            n == s.len(),
            i <= n,
            s == content@,
            pv == pattern@,
            pat@ == (if case_sensitive { pv } else { lowercase_of(pv) }),
            line_no == done.len(),
            line_no <= i,
            limit > 0,
            lines_of(s) == done + lines_of(s.skip(i as int)),
            out@.map_values(|m: (usize, String)| (m.0 as int, m.1@)) == spec_matches(done, pv, case_sensitive),
            out@.len() < limit,
        decreases n - i,
    {
        let mut j: usize = i;
        while j < n && chars[j] != '\n'
            invariant
                chars@ == s,
                n == s.len(),
                i <= j <= n,
                forall|k: int| i <= k < j ==> s[k] != '\n',
            decreases n - j,
        {
            j = j + 1;
        }
        let end: usize = if j < n && j > i && chars[j - 1] == '\r' { j - 1 } else { j };
        let mut line = String::new();
        let mut k: usize = i;
        while k < end
            invariant
                chars@ == s,
                i <= k <= end,
                end <= n,
                n == s.len(),
                line@ == s.subrange(i as int, k as int),
            decreases end - k,
        {
            push_char(&mut line, chars[k]);
            assert(s.subrange(i as int, k + 1) =~= s.subrange(i as int, k as int).push(s[k as int]));
            k = k + 1;
        }
        let ghost this_line = line@;
        proof {
            lemma_lines_step(s, i as int, j as int);
            if j < n {
                if j > i && s[j - 1] == '\r' {
                    assert(this_line =~= strip_cr(s.subrange(i as int, j as int)));
                } else {
                    assert(this_line =~= strip_cr(s.subrange(i as int, j as int)));
                }
                assert(lines_of(s) == done.push(this_line) + lines_of(s.skip(j + 1))) by {
                    assert(done + (seq![this_line] + lines_of(s.skip(j + 1))) =~= done.push(this_line) + lines_of(s.skip(j + 1)));
                }
            } else {
                assert(lines_of(s) == done.push(this_line)) by {
                    assert(done + seq![this_line] =~= done.push(this_line));
                }
            }
        }
        line_no = line_no + 1;
        let hit = if case_sensitive {
            contains(line.as_str(), pat.as_str())
        } else {
            let lower = to_lowercase(line.as_str());
            contains(lower.as_str(), pat.as_str())
        };
        let ghost prev_done = done;
        proof {
            done = done.push(this_line);
            assert(done.drop_last() =~= prev_done);
        }
        if hit {
            let t = trim(line.as_str());
            let ghost before = out@.map_values(|m: (usize, String)| (m.0 as int, m.1@));
            out.push((line_no, owned(t)));
            assert(out@.map_values(|m: (usize, String)| (m.0 as int, m.1@)) =~= before.push((line_no as int, trimmed_of(this_line))));
        }
        i = if j < n { j + 1 } else { j };
        proof {
            if j == n {
                assert(s.skip(i as int) =~= Seq::<char>::empty());
                assert(lines_of(s.skip(i as int)) =~= Seq::<Seq<char>>::empty());
                assert(done + lines_of(s.skip(i as int)) =~= done);
            }
        }
        if out.len() >= limit {
            proof {
                lemma_matches_prefix(done, lines_of(s.skip(i as int)), pv, case_sensitive);
                let all = spec_matches(lines_of(s), pv, case_sensitive);
                assert(out@.len() == limit);
                assert(all.take(limit as int) == spec_matches(done, pv, case_sensitive));
            }
            return out;
        }
    }
    proof {
        assert(s.skip(n as int) =~= Seq::<char>::empty());
        assert(lines_of(s.skip(n as int)) =~= Seq::<Seq<char>>::empty());
        assert(done + lines_of(s.skip(n as int)) =~= done);
    }
    out
}

} // verus!
