//! Trimming and line normalization of free-form text.
use vstd::prelude::*;
use vstd::string::StrSliceExecFns;
use vstd::string::StringExecFns;

verus! {

/// Unicode's `White_Space` property, which `char::is_whitespace` tests.
pub open spec fn is_white_space(c: char) -> bool {
    let u = c as u32;
    (0x09 <= u && u <= 0x0D) || u == 0x20 || u == 0x85 || u == 0xA0 || u == 0x1680
        || (0x2000 <= u && u <= 0x200A) || u == 0x2028 || u == 0x2029 || u == 0x202F
        || u == 0x205F || u == 0x3000
}

/// Whether `c` has the Unicode `White_Space` property, as `char::is_whitespace`
/// tests.
fn white_space(c: char) -> (r: bool)
    ensures
        r == is_white_space(c),
{
    let u = c as u32;
    (0x09 <= u && u <= 0x0D) || u == 0x20 || u == 0x85 || u == 0xA0 || u == 0x1680
        || (0x2000 <= u && u <= 0x200A) || u == 0x2028 || u == 0x2029 || u == 0x202F
        || u == 0x205F || u == 0x3000
}

/// `s` without its leading white space.
pub open spec fn trim_start(s: Seq<char>) -> Seq<char>
    decreases s.len(),
{
    if s.len() > 0 && is_white_space(s[0]) {
        trim_start(s.drop_first())
    } else {
        s
    }
}

/// `s` without its trailing white space.
pub open spec fn trim_end(s: Seq<char>) -> Seq<char>
    decreases s.len(),
{
    if s.len() > 0 && is_white_space(s.last()) {
        trim_end(s.drop_last())
    } else {
        s
    }
}

/// `s` without white space at either end.
pub open spec fn trimmed(s: Seq<char>) -> Seq<char> {
    trim_end(trim_start(s))
}

/// Appends `line` to the kept lines when it is not empty once trimmed.
pub open spec fn keep_line(kept: Seq<Seq<char>>, line: Seq<char>) -> Seq<Seq<char>> {
    if trimmed(line).len() > 0 {
        kept.push(trimmed(line))
    } else {
        kept
    }
}

/// Reads `s` from the left: the trimmed non-empty lines ended by a newline so
/// far, and the characters of the line still open.
pub open spec fn scan_lines(s: Seq<char>) -> (Seq<Seq<char>>, Seq<char>)
    decreases s.len(),
{
    if s.len() == 0 {
        (Seq::empty(), Seq::empty())
    } else {
        let (kept, open) = scan_lines(s.drop_last());
        if s.last() == '\n' {
            (keep_line(kept, open), Seq::empty())
        } else {
            (kept, open.push(s.last()))
        }
    }
}

/// The lines of `s` that are not blank, each trimmed, in their order.
pub open spec fn command_lines(s: Seq<char>) -> Seq<Seq<char>> {
    keep_line(scan_lines(s).0, scan_lines(s).1)
}

/// The lines joined with one newline between neighbours.
pub open spec fn join_lines(lines: Seq<Seq<char>>) -> Seq<char>
    decreases lines.len(),
{
    if lines.len() == 0 {
        Seq::empty()
    } else if lines.len() == 1 {
        lines[0]
    } else {
        join_lines(lines.drop_last()) + seq!['\n'] + lines.last()
    }
}

/// What `normalize` makes of `s`.
pub open spec fn normalized(s: Seq<char>) -> Seq<char> {
    join_lines(command_lines(s))
}

/// The bounds of `s[from..to]` once white space is cut from both ends.
fn trim_bounds(s: &str, from: usize, to: usize) -> (r: (usize, usize))
    requires
        from <= to <= s@.len(),
    ensures
        from <= r.0 <= r.1 <= to,
        s@.subrange(r.0 as int, r.1 as int) == trimmed(s@.subrange(from as int, to as int)),
{
    let mut a: usize = from;
    while a < to && white_space(s.get_char(a))
        invariant
            from <= a <= to <= s@.len(),
            trim_start(s@.subrange(from as int, to as int)) == trim_start(
                s@.subrange(a as int, to as int),
            ),
        decreases to - a,
    {
        assert(s@.subrange(a as int, to as int).drop_first() =~= s@.subrange(
            a + 1,
            to as int,
        ));
        a = a + 1;
    }
    let mut b: usize = to;
    while b > a && white_space(s.get_char(b - 1))
        invariant
            from <= a <= b <= to <= s@.len(),
            trim_end(s@.subrange(a as int, to as int)) == trim_end(
                s@.subrange(a as int, b as int),
            ),
        decreases b - a,
    {
        assert(s@.subrange(a as int, b as int).drop_last() =~= s@.subrange(
            a as int,
            b - 1,
        ));
        b = b - 1;
    }
    (a, b)
}

/// `s` with white space cut from both ends.
pub fn trim(s: &str) -> (r: String)
    ensures
        r@ == trimmed(s@),
{
    let n = s.unicode_len();
    let (a, b) = trim_bounds(s, 0, n);
    assert(s@.subrange(0, n as int) =~= s@);
    String::from_str(s.substring_char(a, b))
}

proof fn lemma_join_push(lines: Seq<Seq<char>>, line: Seq<char>)
    ensures
        join_lines(lines.push(line)) == if lines.len() == 0 {
            line
        } else {
            join_lines(lines) + seq!['\n'] + line
        },
{
    assert(lines.push(line).drop_last() =~= lines);
}

/// Splits `raw` into lines, trims each, drops those left empty and joins the
/// rest with single newlines, in their order.
pub fn normalize(raw: &str) -> (r: String)
    ensures
        r@ == normalized(raw@),
{
    let n = raw.unicode_len();
    let mut out = String::new();
    let ghost mut kept: Seq<Seq<char>> = Seq::empty();
    let mut start: usize = 0;
    let mut any_kept = false;
    let mut i: usize = 0;
    proof {
        reveal_strlit("\n");
    }
    while i < n
        invariant
            n == raw@.len(),
            start <= i <= n,
            scan_lines(raw@.subrange(0, i as int)) == (kept, raw@.subrange(
                start as int,
                i as int,
            )),
            out@ == join_lines(kept),
            "\n"@ == seq!['\n'],
            any_kept == (kept.len() > 0),
        decreases n - i,
    {
        let c = raw.get_char(i);
        assert(raw@.subrange(0, i + 1).drop_last() =~= raw@.subrange(0, i as int));
        if c == '\n' {
            let (a, b) = trim_bounds(raw, start, i);
            if a < b {
                proof {
                    lemma_join_push(kept, raw@.subrange(a as int, b as int));
                }
                if any_kept {
                    out.append("\n");
                }
                out.append(raw.substring_char(a, b));
                any_kept = true;
            }
            proof {
                kept = keep_line(kept, raw@.subrange(start as int, i as int));
            }
            start = i + 1;
            assert(raw@.subrange(start as int, i + 1) =~= Seq::<char>::empty());
        } else {
            assert(raw@.subrange(start as int, i + 1) =~= raw@.subrange(
                start as int,
                i as int,
            ).push(c));
        }
        i = i + 1;
    }
    assert(raw@.subrange(0, n as int) =~= raw@);
    let (a, b) = trim_bounds(raw, start, n);
    if a < b {
        proof {
            lemma_join_push(kept, raw@.subrange(a as int, b as int));
        }
        if any_kept {
            out.append("\n");
        }
        out.append(raw.substring_char(a, b));
    }
    out
}

/// No newline in `s`.
pub open spec fn one_line(s: Seq<char>) -> bool {
    forall|i: int| 0 <= i < s.len() ==> s[i] != '\n'
}

/// A line that normalization keeps as it is.
pub open spec fn clean_line(s: Seq<char>) -> bool {
    s.len() > 0 && one_line(s) && trimmed(s) == s
}

proof fn lemma_trim_start_suffix(s: Seq<char>)
    ensures
        trim_start(s).len() <= s.len(),
        trim_start(s) == s.subrange(s.len() - trim_start(s).len(), s.len() as int),
        trim_start(s).len() == 0 || !is_white_space(trim_start(s)[0]),
    decreases s.len(),
{
    if s.len() > 0 && is_white_space(s[0]) {
        lemma_trim_start_suffix(s.drop_first());
        assert(s.drop_first().subrange(
            s.drop_first().len() - trim_start(s).len(),
            s.drop_first().len() as int,
        ) =~= s.subrange(s.len() - trim_start(s).len(), s.len() as int));
    } else {
        assert(s.subrange(0, s.len() as int) =~= s);
    }
}

proof fn lemma_trim_end_prefix(s: Seq<char>)
    ensures
        trim_end(s).len() <= s.len(),
        trim_end(s) == s.subrange(0, trim_end(s).len() as int),
        trim_end(s).len() == 0 || !is_white_space(trim_end(s).last()),
    decreases s.len(),
{
    if s.len() > 0 && is_white_space(s.last()) {
        lemma_trim_end_prefix(s.drop_last());
        assert(s.drop_last().subrange(0, trim_end(s).len() as int) =~= s.subrange(
            0,
            trim_end(s).len() as int,
        ));
    } else {
        assert(s.subrange(0, s.len() as int) =~= s);
    }
}

proof fn lemma_trimmed_clean(s: Seq<char>)
    requires
        one_line(s),
    ensures
        one_line(trimmed(s)),
        trimmed(trimmed(s)) == trimmed(s),
{
    let z = trim_start(s);
    let y = trim_end(z);
    lemma_trim_start_suffix(s);
    lemma_trim_end_prefix(z);
    assert(one_line(z)) by {
        assert forall|i: int| 0 <= i < z.len() implies z[i] != '\n' by {
            assert(z[i] == s[s.len() - z.len() + i]);
        }
    }
    assert(one_line(y)) by {
        assert forall|i: int| 0 <= i < y.len() implies y[i] != '\n' by {
            assert(y[i] == z[i]);
        }
    }
    if y.len() > 0 {
        assert(y[0] == z[0]);
        assert(trim_start(y) == y);
        assert(trim_end(y) == y);
    } else {
        assert(trim_start(y) == y);
        assert(trim_end(y) == y);
    }
}

proof fn lemma_scan_plain(a: Seq<char>, b: Seq<char>)
    requires
        one_line(b),
    ensures
        scan_lines(a + b) == (scan_lines(a).0, scan_lines(a).1 + b),
    decreases b.len(),
{
    if b.len() == 0 {
        assert(a + b =~= a);
        assert(scan_lines(a).1 + b =~= scan_lines(a).1);
    } else {
        let b1 = b.drop_last();
        assert(one_line(b1)) by {
            assert forall|i: int| 0 <= i < b1.len() implies b1[i] != '\n' by {
                assert(b1[i] == b[i]);
            }
        }
        lemma_scan_plain(a, b1);
        assert((a + b).drop_last() =~= a + b1);
        assert((a + b).last() == b.last());
        assert((scan_lines(a).1 + b1).push(b.last()) =~= scan_lines(a).1 + b);
    }
}

proof fn lemma_scan_shape(s: Seq<char>)
    ensures
        one_line(scan_lines(s).1),
        forall|i: int|
            0 <= i < scan_lines(s).0.len() ==> clean_line(#[trigger] scan_lines(s).0[i]),
    decreases s.len(),
{
    if s.len() > 0 {
        lemma_scan_shape(s.drop_last());
        let (k, o) = scan_lines(s.drop_last());
        if s.last() == '\n' {
            lemma_trimmed_clean(o);
        } else {
            assert(one_line(o.push(s.last()))) by {
                assert forall|i: int| 0 <= i < o.len() + 1 implies o.push(s.last())[i] != '\n' by {
                    if i < o.len() {
                        assert(o.push(s.last())[i] == o[i]);
                    }
                }
            }
        }
    }
}

proof fn lemma_lines_of_join(lines: Seq<Seq<char>>)
    requires
        forall|i: int| 0 <= i < lines.len() ==> clean_line(#[trigger] lines[i]),
    ensures
        command_lines(join_lines(lines)) == lines,
    decreases lines.len(),
{
    if lines.len() == 0 {
        assert(trimmed(Seq::<char>::empty()) =~= Seq::<char>::empty());
        assert(command_lines(join_lines(lines)) =~= lines);
    } else {
        let last = lines.last();
        assert(clean_line(last));
        if lines.len() == 1 {
            lemma_scan_plain(Seq::empty(), last);
            assert(Seq::<char>::empty() + last =~= last);
            assert(command_lines(join_lines(lines)) =~= lines);
        } else {
            let front = lines.drop_last();
            assert forall|i: int| 0 <= i < front.len() implies clean_line(#[trigger] front[i]) by {
                assert(front[i] == lines[i]);
            }
            lemma_lines_of_join(front);
            let a = join_lines(front);
            lemma_scan_shape(a);
            let (k, o) = scan_lines(a);
            assert(keep_line(k, o) == front);
            assert(a.push('\n').drop_last() =~= a);
            assert(scan_lines(a.push('\n')) == (front, Seq::<char>::empty()));
            lemma_scan_plain(a.push('\n'), last);
            assert(a + seq!['\n'] + last =~= a.push('\n') + last);
            assert(Seq::<char>::empty() + last =~= last);
            assert(front.push(last) =~= lines);
        }
    }
}

/// Normalizing a normalized text changes nothing.
pub proof fn lemma_normalize_idempotent(s: Seq<char>)
    ensures
        normalized(normalized(s)) == normalized(s),
{
    lemma_scan_shape(s);
    let (k, o) = scan_lines(s);
    lemma_trimmed_clean(o);
    let lines = command_lines(s);
    assert forall|i: int| 0 <= i < lines.len() implies clean_line(#[trigger] lines[i]) by {
        if i < k.len() {
            assert(lines[i] == k[i]);
        }
    }
    lemma_lines_of_join(lines);
}

} // verus!
