use vstd::prelude::*;
use vstd::string::*;

verus! {

// ---------------------------------------------------------------------------
// Characters
// ---------------------------------------------------------------------------
/// Whitespace that separates fields inside a line of engine output: the
/// characters with Unicode's White_Space property, exactly the set
/// `str::split_whitespace` separates on.
pub open spec fn spec_is_space(c: char) -> bool {
    ||| c == ' '
    ||| ('\u{9}' <= c && c <= '\u{d}')
    ||| c == '\u{85}'
    ||| c == '\u{a0}'
    ||| c == '\u{1680}'
    ||| ('\u{2000}' <= c && c <= '\u{200a}')
    ||| c == '\u{2028}'
    ||| c == '\u{2029}'
    ||| c == '\u{202f}'
    ||| c == '\u{205f}'
    ||| c == '\u{3000}'
}

pub fn is_space(c: char) -> (r: bool)
    ensures
        r == spec_is_space(c),
{
    c == ' ' || ('\u{9}' <= c && c <= '\u{d}') || c == '\u{85}' || c == '\u{a0}' || c == '\u{1680}'
        || ('\u{2000}' <= c && c <= '\u{200a}') || c == '\u{2028}' || c == '\u{2029}'
        || c == '\u{202f}' || c == '\u{205f}' || c == '\u{3000}'
}

/// Uppercases one ASCII letter and leaves every other character alone.
pub open spec fn ascii_upper(c: char) -> char {
    if 'a' <= c && c <= 'z' {
        ((c as u32) - 32) as char
    } else {
        c
    }
}

pub fn to_ascii_upper(c: char) -> (r: char)
    ensures
        r == ascii_upper(c),
{
    if 'a' <= c && c <= 'z' {
        proof {
            assert(c as u32 >= 97 && c as u32 <= 122);
        }
        let u: u32 = (c as u32) - 32;
        assert(u >= 65 && u <= 90);
        (u as u8) as char
    } else {
        c
    }
}

/// Lowercases one ASCII letter and leaves every other character alone.
pub open spec fn ascii_lower(c: char) -> char {
    if 'A' <= c && c <= 'Z' {
        ((c as u32) + 32) as char
    } else {
        c
    }
}

pub fn to_ascii_lower(c: char) -> (r: char)
    ensures
        r == ascii_lower(c),
{
    if 'A' <= c && c <= 'Z' {
        proof {
            assert(c as u32 >= 65 && c as u32 <= 90);
        }
        let u: u32 = (c as u32) + 32;
        assert(u >= 97 && u <= 122);
        (u as u8) as char
    } else {
        c
    }
}

/// `s` lowercased letter by letter.
pub open spec fn lower_seq(s: Seq<char>) -> Seq<char> {
    s.map_values(|c: char| ascii_lower(c))
}

/// Lowercases `a` character by character and compares the result with `b`.
pub fn eq_ignore_ascii_case(a: &str, b: &str) -> (r: bool)
    ensures
        r == (lower_seq(a@) == b@),
{
    let na = a.unicode_len();
    let nb = b.unicode_len();
    if na != nb {
        proof {
            assert(lower_seq(a@).len() == a@.len());
        }
        return false;
    }
    let mut i: usize = 0;
    while i < na
        invariant
            na == a@.len(),
            na == b@.len(),
            0 <= i <= na,
            forall|j: int| 0 <= j < i ==> lower_seq(a@)[j] == b@[j],
        decreases na - i,
    {
        if to_ascii_lower(a.get_char(i)) != b.get_char(i) {
            proof {
                assert(lower_seq(a@)[i as int] == ascii_lower(a@[i as int]));
            }
            return false;
        }
        proof {
            assert(lower_seq(a@)[i as int] == ascii_lower(a@[i as int]));
        }
        i += 1;
    }
    proof {
        assert(lower_seq(a@) =~= b@);
    }
    true
}

// ---------------------------------------------------------------------------
// Equality and lexicographic order
// ---------------------------------------------------------------------------
/// Character-for-character string equality.
pub fn str_eq(a: &str, b: &str) -> (r: bool)
    ensures
        r == (a@ == b@),
{
    let na = a.unicode_len();
    let nb = b.unicode_len();
    if na != nb {
        return false;
    }
    let mut i: usize = 0;
    while i < na
        invariant
            na == a@.len(),
            na == b@.len(),
            0 <= i <= na,
            forall|j: int| 0 <= j < i ==> a@[j] == b@[j],
        decreases na - i,
    {
        if a.get_char(i) != b.get_char(i) {
            return false;
        }
        i += 1;
    }
    proof {
        assert(a@ =~= b@);
    }
    true
}

/// Strict lexicographic order on character sequences: a proper prefix comes
/// first, otherwise the first differing character decides.
pub open spec fn lex_lt(a: Seq<char>, b: Seq<char>) -> bool
    decreases a.len(),
{
    if b.len() == 0 {
        false
    } else if a.len() == 0 {
        true
    } else if a[0] < b[0] {
        true
    } else if b[0] < a[0] {
        false
    } else {
        lex_lt(a.drop_first(), b.drop_first())
    }
}

/// Of two sequences, at most one precedes the other, and neither exactly when
/// they are equal.
pub proof fn lemma_lex_lt_connected(a: Seq<char>, b: Seq<char>)
    ensures
        lex_lt(a, b) ==> !lex_lt(b, a),
        !lex_lt(a, b) && !lex_lt(b, a) ==> a == b,
    decreases a.len(),
{
    if a.len() == 0 || b.len() == 0 {
        if a.len() == 0 && b.len() == 0 {
            assert(a =~= b);
        }
    } else {
        lemma_lex_lt_connected(a.drop_first(), b.drop_first());
        if !lex_lt(a, b) && !lex_lt(b, a) {
            assert(a[0] == b[0]);
            assert(a.drop_first() == b.drop_first());
            assert forall|i: int| 0 <= i < a.len() implies a[i] == b[i] by {
                if i >= 1 {
                    assert(a[i] == a.drop_first()[i - 1]);
                    assert(b[i] == b.drop_first()[i - 1]);
                }
            }
            assert(a =~= b);
        }
    }
}

/// Lexicographic order is transitive.
pub proof fn lemma_lex_lt_trans(a: Seq<char>, b: Seq<char>, c: Seq<char>)
    requires
        lex_lt(a, b),
        lex_lt(b, c),
    ensures
        lex_lt(a, c),
    decreases a.len(),
{
    if a.len() == 0 {
        assert(b.len() > 0);
        assert(c.len() > 0);
    } else {
        assert(b.len() > 0 && c.len() > 0);
        if a[0] == b[0] && b[0] == c[0] {
            lemma_lex_lt_trans(a.drop_first(), b.drop_first(), c.drop_first());
        }
    }
}

/// Decides `lex_lt` on string slices.
pub fn str_lt(a: &str, b: &str) -> (r: bool)
    ensures
        r == lex_lt(a@, b@),
{
    let na = a.unicode_len();
    let nb = b.unicode_len();
    let mut i: usize = 0;
    proof {
        assert(a@.skip(0) =~= a@);
        assert(b@.skip(0) =~= b@);
    }
    loop
        invariant
            na == a@.len(),
            nb == b@.len(),
            0 <= i <= na,
            0 <= i <= nb,
            lex_lt(a@, b@) == lex_lt(a@.skip(i as int), b@.skip(i as int)),
        decreases na - i,
    {
        if i == nb {
            proof {
                assert(b@.skip(i as int).len() == 0);
            }
            return false;
        }
        if i == na {
            proof {
                assert(a@.skip(i as int).len() == 0);
                assert(b@.skip(i as int).len() > 0);
            }
            return true;
        }
        let ca = a.get_char(i);
        let cb = b.get_char(i);
        proof {
            assert(a@.skip(i as int)[0] == a@[i as int]);
            assert(b@.skip(i as int)[0] == b@[i as int]);
        }
        if ca < cb {
            return true;
        }
        if cb < ca {
            return false;
        }
        proof {
            assert(a@.skip(i as int).drop_first() =~= a@.skip(i as int + 1));
            assert(b@.skip(i as int).drop_first() =~= b@.skip(i as int + 1));
        }
        i += 1;
    }
}

// ---------------------------------------------------------------------------
// Substring containment
// ---------------------------------------------------------------------------
/// `sub` occurs contiguously somewhere inside `s`.
pub open spec fn contains_seq(s: Seq<char>, sub: Seq<char>) -> bool {
    exists|i: int|
        0 <= i && i + sub.len() <= s.len() && #[trigger] s.subrange(i, i + sub.len()) == sub
}

/// Decides `contains_seq` on string slices.
pub fn str_contains(s: &str, sub: &str) -> (r: bool)
    ensures
        r == contains_seq(s@, sub@),
{
    let n = s.unicode_len();
    let m = sub.unicode_len();
    if m == 0 {
        proof {
            assert(s@.subrange(0, 0 + sub@.len() as int) =~= sub@);
            assert(contains_seq(s@, sub@));
        }
        return true;
    }
    if m > n {
        proof {
            assert(!contains_seq(s@, sub@)) by {
                if contains_seq(s@, sub@) {
                    let i = choose|i: int|
                        0 <= i && i + sub@.len() <= s@.len() && #[trigger] s@.subrange(
                            i,
                            i + sub@.len(),
                        ) == sub@;
                    assert(false);
                }
            }
        }
        return false;
    }
    let mut i: usize = 0;
    while i <= n - m
        invariant
            n == s@.len(),
            m == sub@.len(),
            1 <= m <= n,
            0 <= i <= n - m + 1,
            forall|k: int| 0 <= k < i ==> #[trigger] s@.subrange(k, k + sub@.len()) != sub@,
        decreases n + 1 - m - i,
    {
        let mut j: usize = 0;
        let mut matched = true;
        while j < m
            invariant
                n == s@.len(),
                m == sub@.len(),
                0 <= i <= n - m,
                0 <= j <= m,
                matched ==> forall|k: int| 0 <= k < j ==> s@[i + k] == sub@[k],
                !matched ==> s@.subrange(i as int, i + sub@.len()) != sub@,
            decreases m - j,
        {
            if s.get_char(i + j) != sub.get_char(j) {
                proof {
                    assert(s@.subrange(i as int, i + sub@.len())[j as int] != sub@[j as int]);
                }
                matched = false;
                j = m;
            } else {
                j += 1;
            }
        }
        if matched {
            proof {
                assert(s@.subrange(i as int, i + sub@.len()) =~= sub@);
            }
            return true;
        }
        i += 1;
    }
    proof {
        assert(forall|k: int|
            0 <= k && k + sub@.len() <= s@.len() ==> #[trigger] s@.subrange(k, k + sub@.len())
                != sub@);
    }
    false
}

// ---------------------------------------------------------------------------
// Splitting on a separator character
// ---------------------------------------------------------------------------
/// The segments of `s` between occurrences of `sep`. The empty sequence
/// splits into one empty segment, and every occurrence of `sep` ends a
/// segment, so the result always holds one segment more than `s` holds
/// separators.
pub open spec fn split_char(s: Seq<char>, sep: char) -> Seq<Seq<char>>
    decreases s.len(),
{
    if s.len() == 0 {
        seq![Seq::<char>::empty()]
    } else if s[0] == sep {
        seq![Seq::<char>::empty()] + split_char(s.drop_first(), sep)
    } else {
        let rest = split_char(s.drop_first(), sep);
        seq![seq![s[0]] + rest[0]] + rest.drop_first()
    }
}

pub proof fn lemma_split_char_len(s: Seq<char>, sep: char)
    ensures
        split_char(s, sep).len() >= 1,
    decreases s.len(),
{
    if s.len() == 0 {
    } else if s[0] == sep {
        lemma_split_char_len(s.drop_first(), sep);
    } else {
        lemma_split_char_len(s.drop_first(), sep);
    }
}

/// A sequence without the separator splits into the single segment `s`.
pub proof fn lemma_split_char_none(s: Seq<char>, sep: char)
    requires
        forall|j: int| 0 <= j < s.len() ==> s[j] != sep,
    ensures
        split_char(s, sep) == seq![s],
    decreases s.len(),
{
    if s.len() == 0 {
        assert(s =~= Seq::<char>::empty());
        assert(split_char(s, sep) =~= seq![s]);
    } else {
        lemma_split_char_none(s.drop_first(), sep);
        let rest = split_char(s.drop_first(), sep);
        assert(rest == seq![s.drop_first()]);
        assert(seq![s[0]] + rest[0] =~= s);
        assert(rest.drop_first() =~= Seq::<Seq<char>>::empty());
        assert(split_char(s, sep) =~= seq![s]);
    }
}

/// Splitting distributes over concatenation: the last segment of `a` and the
/// first segment of `b` merge.
pub proof fn lemma_split_char_concat(a: Seq<char>, b: Seq<char>, sep: char)
    ensures
        split_char(a + b, sep) == split_char(a, sep).drop_last() + seq![
            split_char(a, sep).last() + split_char(b, sep)[0],
        ] + split_char(b, sep).drop_first(),
    decreases a.len(),
{
    lemma_split_char_len(a, sep);
    lemma_split_char_len(b, sep);
    if a.len() == 0 {
        let sb = split_char(b, sep);
        assert(a + b =~= b);
        assert(split_char(a, sep).drop_last() =~= Seq::<Seq<char>>::empty());
        assert(split_char(a, sep).last() + sb[0] =~= sb[0]);
        assert(split_char(a, sep).drop_last() + seq![split_char(a, sep).last() + sb[0]]
            + sb.drop_first() =~= sb);
    } else if a[0] == sep {
        lemma_split_char_concat(a.drop_first(), b, sep);
        let sa = split_char(a, sep);
        let sar = split_char(a.drop_first(), sep);
        let sb = split_char(b, sep);
        lemma_split_char_len(a.drop_first(), sep);
        assert((a + b).len() > 0 && (a + b)[0] == sep);
        assert((a + b).drop_first() =~= a.drop_first() + b);
        assert(split_char(a + b, sep) == seq![Seq::<char>::empty()] + split_char(
            a.drop_first() + b,
            sep,
        ));
        assert(sa == seq![Seq::<char>::empty()] + sar);
        assert(sa.last() == sar.last());
        assert(sa.drop_last() =~= seq![Seq::<char>::empty()] + sar.drop_last());
        assert(split_char(a + b, sep) =~= sa.drop_last() + seq![sa.last() + sb[0]]
            + sb.drop_first());
    } else {
        lemma_split_char_concat(a.drop_first(), b, sep);
        let sa = split_char(a, sep);
        let sar = split_char(a.drop_first(), sep);
        let sb = split_char(b, sep);
        lemma_split_char_len(a.drop_first(), sep);
        assert((a + b).len() > 0 && (a + b)[0] == a[0]);
        assert((a + b).drop_first() =~= a.drop_first() + b);
        let rest = split_char(a.drop_first() + b, sep);
        assert(split_char(a + b, sep) == seq![seq![a[0]] + rest[0]] + rest.drop_first());
        assert(rest == sar.drop_last() + seq![sar.last() + sb[0]] + sb.drop_first());
        assert(sa == seq![seq![a[0]] + sar[0]] + sar.drop_first());
        if sar.len() == 1 {
            assert(rest[0] == sar[0] + sb[0]);
            assert(seq![a[0]] + rest[0] =~= (seq![a[0]] + sar[0]) + sb[0]);
            assert(sa.last() == seq![a[0]] + sar[0]);
            assert(sa.drop_last() =~= Seq::<Seq<char>>::empty());
            assert(rest.drop_first() =~= sb.drop_first());
            assert(split_char(a + b, sep) =~= sa.drop_last() + seq![sa.last() + sb[0]]
                + sb.drop_first());
        } else {
            assert(rest[0] == sar[0]);
            assert(sa.last() == sar.last());
            assert(sa.drop_last() =~= seq![seq![a[0]] + sar[0]] + sar.drop_last().drop_first());
            assert(rest.drop_first() =~= sar.drop_last().drop_first() + seq![sar.last() + sb[0]]
                + sb.drop_first());
            assert(split_char(a + b, sep) =~= sa.drop_last() + seq![sa.last() + sb[0]]
                + sb.drop_first());
        }
    }
}

// ---------------------------------------------------------------------------
// Lines
// ---------------------------------------------------------------------------
/// Strips one carriage return from the end of a newline-terminated segment.
pub open spec fn strip_cr(l: Seq<char>) -> Seq<char> {
    if l.len() > 0 && l.last() == '\r' {
        l.drop_last()
    } else {
        l
    }
}

/// The lines terminated by a newline in `s`: every segment of `s` before a
/// newline, with one carriage return stripped from its end.
pub open spec fn terminated_lines(s: Seq<char>) -> Seq<Seq<char>> {
    let parts = split_char(s, '\n');
    parts.drop_last().map_values(|l: Seq<char>| strip_cr(l))
}

/// The lines of `s`, exactly as the standard library's `str::lines` yields
/// them: lines are separated by a newline, a carriage return directly before
/// a newline is not part of the line, and a final line ending opens no extra
/// empty line.
pub open spec fn spec_lines(s: Seq<char>) -> Seq<Seq<char>> {
    let parts = split_char(s, '\n');
    if s.len() == 0 {
        Seq::empty()
    } else if parts.last().len() == 0 {
        terminated_lines(s)
    } else {
        terminated_lines(s).push(parts.last())
    }
}

/// Splits `s` into its lines.
pub fn split_lines(s: &str) -> (r: Vec<String>)
    ensures
        r@.map_values(|l: String| l@) == spec_lines(s@),
{
    let n = s.unicode_len();
    let mut out: Vec<String> = Vec::new();
    let mut start: usize = 0;
    let mut i: usize = 0;
    proof {
        assert(s@.take(0) =~= Seq::<char>::empty());
        assert(out@.map_values(|l: String| l@) =~= terminated_lines(s@.take(0)));
    }
    while i < n
        invariant
            n == s@.len(),
            0 <= start <= i <= n,
            forall|j: int| start <= j < i ==> s@[j] != '\n',
            split_char(s@.take(start as int), '\n').last() == Seq::<char>::empty(),
            out@.map_values(|l: String| l@) == terminated_lines(s@.take(start as int)),
        decreases n - i,
    {
        if s.get_char(i) == '\n' {
            let end = if i > start && s.get_char(i - 1) == '\r' {
                i - 1
            } else {
                i
            };
            let line = s.substring_char(start, end).to_owned();
            proof {
                lemma_push_line(s@, start as int, i as int, end as int);
                assert(out@.push(line).map_values(|l: String| l@) =~= out@.map_values(
                    |l: String| l@,
                ).push(line@));
                assert(line@ =~= strip_cr(s@.subrange(start as int, i as int)));
            }
            out.push(line);
            start = i + 1;
        }
        i += 1;
    }
    if start < n {
        let line = s.substring_char(start, n).to_owned();
        proof {
            lemma_last_line(s@, start as int);
            assert(out@.push(line).map_values(|l: String| l@) =~= out@.map_values(
                |l: String| l@,
            ).push(line@));
            assert(s@.take(n as int) =~= s@);
        }
        out.push(line);
    } else {
        proof {
            assert(s@.take(start as int) =~= s@);
            if s@.len() == 0 {
                assert(out@.map_values(|l: String| l@) =~= Seq::<Seq<char>>::empty());
                assert(spec_lines(s@) =~= Seq::<Seq<char>>::empty());
            } else {
                assert(split_char(s@, '\n').last().len() == 0);
            }
        }
    }
    out
}

/// Appending a newline-terminated segment extends the terminated lines by the
/// stripped segment and keeps the boundary at a segment end.
proof fn lemma_push_line(s: Seq<char>, start: int, i: int, end: int)
    requires
        0 <= start <= i < s.len(),
        s[i] == '\n',
        forall|j: int| start <= j < i ==> s[j] != '\n',
        end == if i > start && s[i - 1] == '\r' {
            i - 1
        } else {
            i
        },
        split_char(s.take(start), '\n').last() == Seq::<char>::empty(),
        terminated_lines(s.take(start)).len() >= 0,
    ensures
        terminated_lines(s.take(i + 1)) == terminated_lines(s.take(start)).push(
            s.subrange(start, end),
        ),
        split_char(s.take(i + 1), '\n').last() == Seq::<char>::empty(),
{
    let p = s.take(start);
    let mid = s.subrange(start, i);
    let seg = mid + seq!['\n'];
    assert(s.take(i + 1) =~= p + seg);
    lemma_split_char_none(mid, '\n');
    lemma_split_char_concat(mid, seq!['\n'], '\n');
    let nl = seq!['\n'];
    assert(nl.len() == 1 && nl[0] == '\n');
    assert(nl.drop_first() =~= Seq::<char>::empty());
    assert(split_char(Seq::<char>::empty(), '\n') == seq![Seq::<char>::empty()]);
    assert(split_char(nl, '\n') == seq![Seq::<char>::empty()] + split_char(nl.drop_first(), '\n'));
    assert(split_char(nl, '\n') =~~= seq![Seq::<char>::empty(), Seq::<char>::empty()]);
    assert(split_char(seg, '\n') =~~= seq![mid, Seq::<char>::empty()]);
    lemma_split_char_concat(p, seg, '\n');
    let sp = split_char(p, '\n');
    lemma_split_char_len(p, '\n');
    assert(split_char(seg, '\n')[0] == mid);
    assert(sp.last() + mid =~= mid);
    assert(split_char(s.take(i + 1), '\n') =~= sp.drop_last() + seq![mid] + seq![
        Seq::<char>::empty(),
    ]);
    let parts = split_char(s.take(i + 1), '\n');
    assert(parts.last() == Seq::<char>::empty());
    assert(parts.drop_last() =~= sp.drop_last() + seq![mid]);
    assert(strip_cr(mid) =~= s.subrange(start, end));
    assert(terminated_lines(s.take(i + 1)) =~= terminated_lines(s.take(start)).push(
        strip_cr(mid),
    ));
}

/// An unterminated tail after the last newline is the final line, unstripped.
proof fn lemma_last_line(s: Seq<char>, start: int)
    requires
        0 <= start < s.len(),
        forall|j: int| start <= j < s.len() ==> s[j] != '\n',
        split_char(s.take(start), '\n').last() == Seq::<char>::empty(),
    ensures
        spec_lines(s) == terminated_lines(s.take(start)).push(s.subrange(start, s.len() as int)),
{
    let p = s.take(start);
    let tail = s.subrange(start, s.len() as int);
    assert(s =~= p + tail);
    lemma_split_char_none(tail, '\n');
    lemma_split_char_concat(p, tail, '\n');
    let sp = split_char(p, '\n');
    lemma_split_char_len(p, '\n');
    assert(sp.last() + tail =~= tail);
    assert(split_char(tail, '\n').drop_first() =~= Seq::<Seq<char>>::empty());
    let parts = split_char(s, '\n');
    assert(parts =~= sp.drop_last() + seq![tail]);
    assert(parts.last() == tail);
    assert(tail.len() > 0);
    assert(parts.drop_last() =~= sp.drop_last());
    assert(terminated_lines(s) =~= terminated_lines(p));
}

// ---------------------------------------------------------------------------
// Whitespace tokenization
// ---------------------------------------------------------------------------
/// The maximal runs of non-whitespace characters in `s`, in order; runs of
/// whitespace separate them and leave no empty tokens.
pub open spec fn spec_tokens(s: Seq<char>) -> Seq<Seq<char>>
    decreases s.len(),
{
    if s.len() == 0 {
        Seq::empty()
    } else if spec_is_space(s[0]) {
        spec_tokens(s.drop_first())
    } else if s.len() == 1 || spec_is_space(s[1]) {
        seq![seq![s[0]]] + spec_tokens(s.drop_first())
    } else {
        let rest = spec_tokens(s.drop_first());
        seq![seq![s[0]] + rest[0]] + rest.drop_first()
    }
}

/// Leading whitespace does not change the tokens.
proof fn lemma_tokens_skip_space(s: Seq<char>, i: int)
    requires
        0 <= i < s.len(),
        spec_is_space(s[i]),
    ensures
        spec_tokens(s.skip(i)) == spec_tokens(s.skip(i + 1)),
{
    assert(s.skip(i)[0] == s[i]);
    assert(s.skip(i).drop_first() =~= s.skip(i + 1));
}

/// A maximal non-whitespace run at the front is the first token.
proof fn lemma_tokens_head(s: Seq<char>, k: int)
    requires
        1 <= k <= s.len(),
        forall|j: int| 0 <= j < k ==> !spec_is_space(s[j]),
        k == s.len() || spec_is_space(s[k]),
    ensures
        spec_tokens(s) == seq![s.take(k)] + spec_tokens(s.skip(k)),
    decreases k,
{
    if k == 1 {
        if s.len() == 1 {
            assert(s.skip(1) =~= Seq::<char>::empty());
            assert(spec_tokens(s) == seq![seq![s[0]]] + spec_tokens(s.drop_first()));
            assert(s.take(1) =~= seq![s[0]]);
            assert(s.drop_first() =~= s.skip(1));
        } else {
            assert(spec_is_space(s[1]));
            assert(spec_tokens(s) == seq![seq![s[0]]] + spec_tokens(s.drop_first()));
            assert(s.take(1) =~= seq![s[0]]);
            assert(s.drop_first() =~= s.skip(1));
        }
    } else {
        assert(!spec_is_space(s[1]));
        lemma_tokens_head(s.drop_first(), k - 1);
        let rest = spec_tokens(s.drop_first());
        assert(s.drop_first().take(k - 1) =~= s.take(k).drop_first());
        assert(s.drop_first().skip(k - 1) =~= s.skip(k));
        assert(rest == seq![s.take(k).drop_first()] + spec_tokens(s.skip(k)));
        assert(rest[0] == s.take(k).drop_first());
        assert(seq![s[0]] + rest[0] =~= s.take(k));
        assert(rest.drop_first() =~= spec_tokens(s.skip(k)));
        assert(spec_tokens(s) =~= seq![s.take(k)] + spec_tokens(s.skip(k)));
    }
}

/// Splits `s` into its whitespace-separated tokens.
pub fn split_tokens(s: &str) -> (r: Vec<String>)
    ensures
        r@.map_values(|t: String| t@) == spec_tokens(s@),
{
    let n = s.unicode_len();
    let mut out: Vec<String> = Vec::new();
    let mut i: usize = 0;
    proof {
        assert(s@.skip(0) =~= s@);
        assert(out@.map_values(|t: String| t@) + spec_tokens(s@) =~= spec_tokens(s@));
    }
    while i < n
        invariant
            n == s@.len(),
            0 <= i <= n,
            out@.map_values(|t: String| t@) + spec_tokens(s@.skip(i as int)) == spec_tokens(s@),
        decreases n - i,
    {
        if is_space(s.get_char(i)) {
            proof {
                lemma_tokens_skip_space(s@, i as int);
            }
            i += 1;
        } else {
            let start = i;
            i += 1;
            while i < n && !is_space(s.get_char(i))
                invariant
                    n == s@.len(),
                    0 <= start < i <= n,
                    forall|j: int| start <= j < i ==> !spec_is_space(s@[j]),
                decreases n - i,
            {
                i += 1;
            }
            let tok = s.substring_char(start, i).to_owned();
            proof {
                let sk = s@.skip(start as int);
                lemma_tokens_head(sk, i - start as int);
                assert(sk.take(i - start as int) =~= s@.subrange(start as int, i as int));
                assert(sk.skip(i - start as int) =~= s@.skip(i as int));
                assert(out@.push(tok).map_values(|t: String| t@) =~= out@.map_values(
                    |t: String| t@,
                ).push(tok@));
                assert(out@.push(tok).map_values(|t: String| t@) + spec_tokens(s@.skip(i as int))
                    =~= out@.map_values(|t: String| t@) + spec_tokens(s@.skip(start as int)));
            }
            out.push(tok);
        }
    }
    proof {
        assert(s@.skip(n as int) =~= Seq::<char>::empty());
        assert(spec_tokens(Seq::<char>::empty()) =~= Seq::<Seq<char>>::empty());
        assert(out@.map_values(|t: String| t@) =~= out@.map_values(|t: String| t@) + Seq::<
            Seq<char>,
        >::empty());
    }
    out
}

} // verus!
