//! Plain-text helpers: whitespace, line splitting, joining and padding.
//!
//! `spec_lines` mirrors how the standard library's `str::lines` splits text:
//! pieces end at `'\n'`, a `'\r'` just before the `'\n'` is dropped, and a
//! final empty piece after a trailing `'\n'` is not a line.

use vstd::prelude::*;

verus! {

/// The characters that `str::trim` treats as whitespace.
pub open spec fn is_ws_char(c: char) -> bool {
    ||| c == ' '
    ||| c == '\t'
    ||| c == '\n'
    ||| c == '\r'
    ||| c == '\u{0b}'
    ||| c == '\u{0c}'
    ||| c == '\u{85}'
    ||| c == '\u{a0}'
    ||| c == '\u{1680}'
    ||| c == '\u{2000}'
    ||| c == '\u{2001}'
    ||| c == '\u{2002}'
    ||| c == '\u{2003}'
    ||| c == '\u{2004}'
    ||| c == '\u{2005}'
    ||| c == '\u{2006}'
    ||| c == '\u{2007}'
    ||| c == '\u{2008}'
    ||| c == '\u{2009}'
    ||| c == '\u{200a}'
    ||| c == '\u{2028}'
    ||| c == '\u{2029}'
    ||| c == '\u{202f}'
    ||| c == '\u{205f}'
    ||| c == '\u{3000}'
}

/// Whether `c` is whitespace in the sense of `is_ws_char`.
pub fn is_ws(c: char) -> (r: bool)
    ensures
        r == is_ws_char(c),
{
    c == ' ' || c == '\t' || c == '\n' || c == '\r' || c == '\u{0b}' || c == '\u{0c}'
        || c == '\u{85}' || c == '\u{a0}' || c == '\u{1680}' || c == '\u{2000}' || c == '\u{2001}'
        || c == '\u{2002}' || c == '\u{2003}' || c == '\u{2004}' || c == '\u{2005}'
        || c == '\u{2006}' || c == '\u{2007}' || c == '\u{2008}' || c == '\u{2009}'
        || c == '\u{200a}' || c == '\u{2028}' || c == '\u{2029}' || c == '\u{202f}'
        || c == '\u{205f}' || c == '\u{3000}'
}

/// A line is blank when every one of its characters is whitespace;
/// the empty line is blank.
pub open spec fn is_blank(s: Seq<char>) -> bool {
    forall|i: int| 0 <= i < s.len() ==> is_ws_char(s[i])
}

/// Whether every character of `s` is whitespace.
pub fn blank(s: &str) -> (r: bool)
    ensures
        r == is_blank(s@),
{
    let n = s.unicode_len();
    let mut i: usize = 0;
    while i < n
        invariant
            i <= n,
            n == s@.len(),
            forall|j: int| 0 <= j < i ==> is_ws_char(s@[j]),
        decreases n - i,
    {
        if !is_ws(s.get_char(i)) {
            return false;
        }
        i = i + 1;
    }
    true
}

/// `n` space characters.
pub open spec fn spec_spaces(n: nat) -> Seq<char> {
    Seq::new(n, |i: int| ' ')
}

/// Builds a string of `n` spaces.
pub fn spaces(n: usize) -> (r: String)
    ensures
        r@ == spec_spaces(n as nat),
{
    let mut out = String::new();
    let mut i: usize = 0;
    while i < n
        invariant
            i <= n,
            out@ == spec_spaces(i as nat),
        decreases n - i,
    {
        out.append(" ");
        proof {
            reveal_strlit(" ");
            assert(out@ =~= spec_spaces((i + 1) as nat));
        }
        i = i + 1;
    }
    out
}

/// Index of the first `'\n'` in `s`, or `s.len()` when there is none.
pub open spec fn first_nl(s: Seq<char>) -> int
    decreases s.len(),
{
    if s.len() == 0 {
        0
    } else if s[0] == '\n' {
        0
    } else {
        1 + first_nl(s.skip(1))
    }
}

/// `first_nl` is the only index clear of `'\n'` on its left and holding
/// `'\n'` (or the end of `s`) itself.
pub proof fn lemma_first_nl_at(s: Seq<char>, k: int)
    requires
        0 <= k <= s.len(),
        forall|j: int| 0 <= j < k ==> s[j] != '\n',
        k < s.len() ==> s[k] == '\n',
    ensures
        first_nl(s) == k,
    decreases s.len(),
{
    if s.len() == 0 {
    } else if s[0] == '\n' {
        assert(k == 0);
    } else {
        assert(k >= 1);
        assert forall|j: int| 0 <= j < k - 1 implies s.skip(1)[j] != '\n' by {
            assert(s.skip(1)[j] == s[j + 1]);
        }
        assert(k - 1 < s.skip(1).len() ==> s.skip(1)[k - 1] == '\n');
        lemma_first_nl_at(s.skip(1), k - 1);
    }
}

/// Drops a final carriage return, as `str::lines` does just before a `'\n'`.
pub open spec fn strip_cr(s: Seq<char>) -> Seq<char> {
    if s.len() > 0 && s[s.len() - 1] == '\r' {
        s.drop_last()
    } else {
        s
    }
}

/// The lines of `s`, exactly as `str::lines` yields them: split at `'\n'`,
/// a `'\r'` immediately before the split dropped, and no final empty line
/// after a trailing `'\n'`.
pub open spec fn spec_lines(s: Seq<char>) -> Seq<Seq<char>>
    decreases s.len(),
{
    if s.len() == 0 {
        Seq::empty()
    } else {
        let p = first_nl(s);
        if p < 0 || p >= s.len() {
            seq![s]
        } else {
            seq![strip_cr(s.take(p))] + spec_lines(s.skip(p + 1))
        }
    }
}

/// The views of a sequence of owned lines.
pub open spec fn lines_view(ls: Seq<String>) -> Seq<Seq<char>> {
    ls.map_values(|l: String| l@)
}

/// Splits `text` into its lines, exactly as `str::lines` would.
pub fn split_lines(text: &str) -> (r: Vec<String>)
    ensures
        lines_view(r@) == spec_lines(text@),
{
    let n = text.unicode_len();
    let mut out: Vec<String> = Vec::new();
    let mut start: usize = 0;
    let mut i: usize = 0;
    proof {
        assert(text@.skip(0) =~= text@);
        assert(lines_view(out@) + spec_lines(text@) =~= spec_lines(text@));
    }
    while i < n
        invariant
            start <= i <= n,
            n == text@.len(),
            spec_lines(text@) == lines_view(out@) + spec_lines(text@.skip(start as int)),
            forall|j: int| start <= j < i ==> text@[j] != '\n',
        decreases n - i,
    {
        if text.get_char(i) == '\n' {
            let end = if i > start && text.get_char(i - 1) == '\r' {
                i - 1
            } else {
                i
            };
            let line = text.substring_char(start, end).to_owned();
            proof {
                let rest = text@.skip(start as int);
                assert forall|j: int| 0 <= j < i - start implies rest[j] != '\n' by {
                    assert(rest[j] == text@[start + j]);
                }
                assert(rest[i - start] == text@[i as int]);
                lemma_first_nl_at(rest, i - start);
                assert(rest.take(i - start) =~= text@.subrange(start as int, i as int));
                if i > start && text@[i - 1] == '\r' {
                    assert(strip_cr(rest.take(i - start)) =~= text@.subrange(
                        start as int,
                        end as int,
                    ));
                } else {
                    assert(strip_cr(rest.take(i - start)) == rest.take(i - start));
                }
                assert(rest.skip(i - start + 1) =~= text@.skip(i + 1));
                assert(spec_lines(rest) == seq![text@.subrange(start as int, end as int)]
                    + spec_lines(text@.skip(i + 1)));
                assert(lines_view(out@.push(line)) =~= lines_view(out@) + seq![line@]);
                vstd::seq_lib::lemma_concat_associative(
                    lines_view(out@),
                    seq![line@],
                    spec_lines(text@.skip(i + 1)),
                );
            }
            out.push(line);
            start = i + 1;
        }
        i = i + 1;
    }
    if start < n {
        let line = text.substring_char(start, n).to_owned();
        proof {
            let rest = text@.skip(start as int);
            assert forall|j: int| 0 <= j < rest.len() implies rest[j] != '\n' by {
                assert(rest[j] == text@[start + j]);
            }
            lemma_first_nl_at(rest, rest.len() as int);
            assert(spec_lines(rest) == seq![rest]);
            assert(rest =~= text@.subrange(start as int, n as int));
            assert(lines_view(out@.push(line)) =~= lines_view(out@) + seq![line@]);
            Seq::add_empty_right(
                lines_view(out@) + seq![line@],
                Seq::<Seq<char>>::empty(),
            );
        }
        out.push(line);
        proof {
            assert(lines_view(out@) =~= spec_lines(text@));
        }
    } else {
        proof {
            assert(text@.skip(start as int).len() == 0);
            assert(spec_lines(text@.skip(start as int)) == Seq::<Seq<char>>::empty());
            assert(lines_view(out@) =~= spec_lines(text@));
        }
    }
    out
}

/// The pieces of `ls` concatenated with `sep` between each adjacent pair.
pub open spec fn spec_join(ls: Seq<Seq<char>>, sep: Seq<char>) -> Seq<char>
    decreases ls.len(),
{
    if ls.len() == 0 {
        Seq::empty()
    } else if ls.len() == 1 {
        ls[0]
    } else {
        ls[0] + sep + spec_join(ls.skip(1), sep)
    }
}

/// Joining one more piece appends a separator and the piece, unless the
/// join was empty so far.
pub proof fn lemma_join_push(ls: Seq<Seq<char>>, sep: Seq<char>, x: Seq<char>)
    ensures
        ls.len() == 0 ==> spec_join(ls.push(x), sep) == x,
        ls.len() > 0 ==> spec_join(ls.push(x), sep) == spec_join(ls, sep) + sep + x,
    decreases ls.len(),
{
    if ls.len() == 0 {
        assert(spec_join(ls.push(x), sep) == ls.push(x)[0]);
        assert(ls.push(x)[0] == x);
    } else if ls.len() == 1 {
        assert(ls.push(x).skip(1) =~= seq![x]);
        assert(spec_join(seq![x], sep) == seq![x][0]);
        assert(seq![x][0] == x);
        assert(ls.push(x)[0] == ls[0]);
        assert(spec_join(ls.push(x), sep) == ls[0] + sep + x);
        assert(spec_join(ls, sep) == ls[0]);
    } else {
        assert(ls.push(x).skip(1) =~= ls.skip(1).push(x));
        lemma_join_push(ls.skip(1), sep, x);
        assert(spec_join(ls.push(x), sep) == ls[0] + sep + (spec_join(ls.skip(1), sep) + sep
            + x));
        vstd::seq_lib::lemma_concat_associative(
            ls[0] + sep,
            spec_join(ls.skip(1), sep),
            sep + x,
        );
        vstd::seq_lib::lemma_concat_associative(
            (ls[0] + sep) + spec_join(ls.skip(1), sep),
            sep,
            x,
        );
        vstd::seq_lib::lemma_concat_associative(ls[0] + sep, spec_join(ls.skip(1), sep), sep);
        vstd::seq_lib::lemma_concat_associative(ls[0], sep, spec_join(ls.skip(1), sep));
    }
}

/// Joins `lines[from..to]` with `sep` between each adjacent pair.
pub fn join_range(lines: &Vec<String>, from: usize, to: usize, sep: &str) -> (r: String)
    requires
        from <= to <= lines@.len(),
    ensures
        r@ == spec_join(lines_view(lines@).subrange(from as int, to as int), sep@),
{
    let mut out = String::new();
    let mut k: usize = from;
    proof {
        assert(lines_view(lines@).subrange(from as int, from as int)
            =~= Seq::<Seq<char>>::empty());
    }
    while k < to
        invariant
            from <= k <= to <= lines@.len(),
            out@ == spec_join(
                lines_view(lines@).subrange(from as int, k as int),
                sep@,
            ),
        decreases to - k,
    {
        proof {
            let prefix = lines_view(lines@).subrange(from as int, k as int);
            assert(lines_view(lines@).subrange(from as int, k + 1) =~= prefix.push(
                lines_view(lines@)[k as int],
            ));
            lemma_join_push(prefix, sep@, lines_view(lines@)[k as int]);
        }
        if k > from {
            out.append(sep);
        }
        let piece: &String = &lines[k];
        out.append(piece.as_str());
        k = k + 1;
    }
    out
}

/// One line as the indenter leaves it: a blank line becomes empty, any
/// other line gains exactly `n` leading spaces.
pub open spec fn spec_indent_line(l: Seq<char>, n: nat) -> Seq<char> {
    if is_blank(l) {
        Seq::empty()
    } else {
        spec_spaces(n) + l
    }
}

/// Whole-text indentation: each line indented by `n` (blank lines left
/// empty), the lines rejoined with single newlines and no trailing newline.
pub open spec fn spec_indent_text(t: Seq<char>, n: nat) -> Seq<char> {
    spec_join(spec_lines(t).map_values(|l: Seq<char>| spec_indent_line(l, n)), "\n"@)
}

/// `s` with leading whitespace removed.
pub open spec fn spec_trim_start(s: Seq<char>) -> Seq<char>
    decreases s.len(),
{
    if s.len() > 0 && is_ws_char(s[0]) {
        spec_trim_start(s.skip(1))
    } else {
        s
    }
}

/// `s` with trailing whitespace removed.
pub open spec fn spec_trim_end(s: Seq<char>) -> Seq<char>
    decreases s.len(),
{
    if s.len() > 0 && is_ws_char(s[s.len() - 1]) {
        spec_trim_end(s.drop_last())
    } else {
        s
    }
}

/// `s` with surrounding whitespace removed, as `str::trim` leaves it.
pub open spec fn spec_trim(s: Seq<char>) -> Seq<char> {
    spec_trim_end(spec_trim_start(s))
}

/// The bounds of the trimmed middle of `s`: `spec_trim(s@)` is exactly
/// `s@[r.0 .. r.1]`.
#[verifier::rlimit(50)]
pub fn trim_bounds(s: &str) -> (r: (usize, usize))
    ensures
        r.0 <= r.1 <= s@.len(),
        spec_trim(s@) == s@.subrange(r.0 as int, r.1 as int),
{
    let n = s.unicode_len();
    let mut i: usize = 0;
    proof {
        assert(s@.skip(0) =~= s@);
    }
    while i < n && is_ws(s.get_char(i))
        invariant
            i <= n,
            n == s@.len(),
            spec_trim_start(s@) == spec_trim_start(s@.skip(i as int)),
        decreases n - i,
    {
        proof {
            assert(s@.skip(i as int)[0] == s@[i as int]);
            assert(s@.skip(i as int).skip(1) =~= s@.skip(i + 1));
        }
        i = i + 1;
    }
    proof {
        if i < n {
            assert(s@.skip(i as int)[0] == s@[i as int]);
        }
        assert(spec_trim_start(s@) == s@.skip(i as int));
    }
    if i == n {
        proof {
            assert(s@.skip(i as int).len() == 0);
            assert(spec_trim(s@) =~= s@.subrange(i as int, i as int));
        }
        return (i, i);
    }
    let mut j: usize = n;
    proof {
        assert(s@.skip(i as int) =~= s@.subrange(i as int, n as int));
    }
    while j > i && is_ws(s.get_char(j - 1))
        invariant
            i <= j <= n,
            n == s@.len(),
            i < n,
            !is_ws_char(s@[i as int]),
            spec_trim_start(s@) == s@.skip(i as int),
            spec_trim_end(s@.skip(i as int)) == spec_trim_end(
                s@.subrange(i as int, j as int),
            ),
        decreases j,
    {
        proof {
            let cur = s@.subrange(i as int, j as int);
            assert(cur.len() > 0);
            assert(cur[cur.len() - 1] == s@[j - 1]);
            assert(cur.drop_last() =~= s@.subrange(i as int, j - 1));
        }
        j = j - 1;
    }
    proof {
        let cur = s@.subrange(i as int, j as int);
        if j > i {
            assert(cur[cur.len() - 1] == s@[j - 1]);
            assert(spec_trim_end(cur) == cur);
        } else {
            assert(j == i);
            assert(cur.len() == 0);
            assert(spec_trim_end(cur) == cur);
        }
    }
    (i, j)
}

/// Three backticks, the markdown code-fence marker.
pub open spec fn fence_marker() -> Seq<char> {
    seq!['`', '`', '`']
}

/// Whether `l`, once trimmed, starts with the fence marker.
pub open spec fn opens_fence(l: Seq<char>) -> bool {
    spec_trim(l).len() >= 3 && spec_trim(l).subrange(0, 3) == fence_marker()
}

/// Whether `l`, once trimmed, is exactly the fence marker.
pub open spec fn closes_fence(l: Seq<char>) -> bool {
    spec_trim(l) == fence_marker()
}

/// Decides `opens_fence` for a line.
pub fn line_opens_fence(l: &str) -> (r: bool)
    ensures
        r == opens_fence(l@),
{
    let (a, b) = trim_bounds(l);
    if b - a >= 3 {
        let hit = l.get_char(a) == '`' && l.get_char(a + 1) == '`' && l.get_char(a + 2) == '`';
        proof {
            let t = spec_trim(l@);
            assert(t[0] == l@[a as int]);
            assert(t[1] == l@[a + 1]);
            assert(t[2] == l@[a + 2]);
            if hit {
                assert(t.subrange(0, 3) =~= fence_marker());
            } else {
                assert(t.subrange(0, 3)[0] == t[0]);
                assert(t.subrange(0, 3)[1] == t[1]);
                assert(t.subrange(0, 3)[2] == t[2]);
                assert(t.subrange(0, 3) != fence_marker());
            }
        }
        hit
    } else {
        false
    }
}

/// Decides `closes_fence` for a line.
pub fn line_closes_fence(l: &str) -> (r: bool)
    ensures
        r == closes_fence(l@),
{
    let (a, b) = trim_bounds(l);
    if b - a == 3 {
        let hit = l.get_char(a) == '`' && l.get_char(a + 1) == '`' && l.get_char(a + 2) == '`';
        proof {
            let t = spec_trim(l@);
            assert(t[0] == l@[a as int]);
            assert(t[1] == l@[a + 1]);
            assert(t[2] == l@[a + 2]);
            if hit {
                assert(t =~= fence_marker());
            }
        }
        hit
    } else {
        proof {
            assert(spec_trim(l@).len() != 3);
        }
        false
    }
}

} // verus!
