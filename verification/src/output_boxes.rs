use crate::command::interpret_process_outcome;
use crate::command::ProcessOutcome;
use crate::error::TessError;
use crate::error::TessResult;
use crate::numeric::int_token_val;
use crate::numeric::is_i32_token;
use crate::numeric::parse_i32_token;
use crate::text::is_space;
use crate::text::spec_is_space;
use crate::text::spec_lines;
use crate::text::spec_tokens;
use crate::text::split_lines;
use crate::text::split_tokens;
use vstd::prelude::*;
use vstd::string::*;

verus! {

/// One parsed line of a bounding-box file: the recognized symbol and its
/// box coordinates plus the page index. The same symbol may recur across a
/// page, so records are kept in order and never merged.
#[derive(Debug, Clone, PartialEq)]
pub struct BoxRecord {
    pub symbol: String,
    pub left: i32,
    pub bottom: i32,
    pub right: i32,
    pub top: i32,
    pub page: i32,
}

/// The view of one box record.
pub ghost struct BoxRecordView {
    pub symbol: Seq<char>,
    pub left: int,
    pub bottom: int,
    pub right: int,
    pub top: int,
    pub page: int,
}

impl View for BoxRecord {
    type V = BoxRecordView;

    open spec fn view(&self) -> BoxRecordView {
        BoxRecordView {
            symbol: self.symbol@,
            left: self.left as int,
            bottom: self.bottom as int,
            right: self.right as int,
            top: self.top as int,
            page: self.page as int,
        }
    }
}

/// A line takes part in parsing only when it holds at least one separator.
pub open spec fn box_line_qualifies(l: Seq<char>) -> bool {
    exists|i: int| 0 <= i < l.len() && spec_is_space(#[trigger] l[i])
}

/// The position of the first separator in a line.
pub open spec fn spec_first_space(l: Seq<char>) -> int
    decreases l.len(),
{
    if l.len() == 0 {
        0
    } else if spec_is_space(l[0]) {
        0
    } else {
        1 + spec_first_space(l.drop_first())
    }
}

proof fn lemma_first_space_at(l: Seq<char>, j: int)
    requires
        0 <= j < l.len(),
        spec_is_space(l[j]),
        forall|k: int| 0 <= k < j ==> !spec_is_space(#[trigger] l[k]),
    ensures
        spec_first_space(l) == j,
    decreases j,
{
    if j == 0 {
    } else {
        assert(!spec_is_space(l[0]));
        lemma_first_space_at(l.drop_first(), j - 1);
    }
}

/// One qualifying line parses when the text after the symbol splits into
/// exactly five integer fields: left, bottom, right and top coordinates plus
/// the page index. The symbol is everything before the first separator.
pub open spec fn parse_box_line(l: Seq<char>) -> Option<BoxRecordView> {
    let i = spec_first_space(l);
    let rest = if i < l.len() {
        l.skip(i + 1)
    } else {
        Seq::<char>::empty()
    };
    let t = spec_tokens(rest);
    if t.len() == 5 && is_i32_token(t[0]) && is_i32_token(t[1]) && is_i32_token(t[2])
        && is_i32_token(t[3]) && is_i32_token(t[4]) {
        Some(
            BoxRecordView {
                symbol: l.take(i),
                left: int_token_val(t[0]),
                bottom: int_token_val(t[1]),
                right: int_token_val(t[2]),
                top: int_token_val(t[3]),
                page: int_token_val(t[4]),
            },
        )
    } else {
        None
    }
}

/// The parse of a whole box output: lines without a separator are noise and
/// are skipped; every qualifying line must parse to a record, in order, or
/// the whole parse fails.
pub open spec fn spec_parse_boxes(text: Seq<char>) -> Option<Seq<BoxRecordView>> {
    let q = spec_lines(text).filter(|l: Seq<char>| box_line_qualifies(l));
    if forall|i: int| 0 <= i < q.len() ==> parse_box_line(#[trigger] q[i]) is Some {
        Some(q.map_values(|l: Seq<char>| parse_box_line(l).unwrap()))
    } else {
        None
    }
}

impl BoxRecord {
    /// Parses one box line: the symbol before the first separator, then the
    /// five integer fields. A line without separators or with any malformed
    /// field yields `None`.
    pub fn parse(line: &str) -> (r: Option<BoxRecord>)
        ensures
            r is Some <==> parse_box_line(line@) is Some,
            r matches Some(b) ==> Some(b@) == parse_box_line(line@),
    {
        let n = line.unicode_len();
        let mut i: usize = 0;
        while i < n && !is_space(line.get_char(i))
            invariant
                n == line@.len(),
                0 <= i <= n,
                forall|k: int| 0 <= k < i ==> !spec_is_space(#[trigger] line@[k]),
            decreases n - i,
        {
            i += 1;
        }
        proof {
            if i < n {
                lemma_first_space_at(line@, i as int);
            } else {
                lemma_first_space_high(line@);
            }
        }
        let rest = if i < n {
            line.substring_char(i + 1, n)
        } else {
            line.substring_char(n, n)
        };
        proof {
            if i < n {
                assert(rest@ =~= line@.skip(i as int + 1));
            } else {
                assert(rest@ =~= Seq::<char>::empty());
                assert(spec_tokens(Seq::<char>::empty()) =~= Seq::<Seq<char>>::empty());
            }
        }
        let toks = split_tokens(rest);
        if toks.len() != 5 {
            return None;
        }
        let left = parse_i32_token(toks[0].as_str());
        let bottom = parse_i32_token(toks[1].as_str());
        let right = parse_i32_token(toks[2].as_str());
        let top = parse_i32_token(toks[3].as_str());
        let page = parse_i32_token(toks[4].as_str());
        proof {
            assert(toks@.map_values(|t: String| t@)[0] == toks@[0]@);
            assert(toks@.map_values(|t: String| t@)[1] == toks@[1]@);
            assert(toks@.map_values(|t: String| t@)[2] == toks@[2]@);
            assert(toks@.map_values(|t: String| t@)[3] == toks@[3]@);
            assert(toks@.map_values(|t: String| t@)[4] == toks@[4]@);
        }
        match (left, bottom, right, top, page) {
            (Some(l), Some(b), Some(r), Some(t), Some(p)) => {
                let symbol = line.substring_char(0, i).to_owned();
                proof {
                    assert(symbol@ =~= line@.take(spec_first_space(line@)));
                }
                Some(BoxRecord { symbol, left: l, bottom: b, right: r, top: t, page: p })
            },
            _ => None,
        }
    }
}

/// Filtering one element more extends the kept lines by it when it passes.
proof fn lemma_filter_step(s: Seq<Seq<char>>, pred: spec_fn(Seq<char>) -> bool, i: int)
    requires
        0 <= i < s.len(),
    ensures
        pred(s[i]) ==> s.take(i + 1).filter(pred) == s.take(i).filter(pred).push(s[i]),
        !pred(s[i]) ==> s.take(i + 1).filter(pred) == s.take(i).filter(pred),
{
    reveal_with_fuel(Seq::<Seq<char>>::filter, 2);
    assert(s.take(i + 1).drop_last() =~= s.take(i));
    assert(s.take(i + 1).last() == s[i]);
    assert(s.take(i + 1).len() == i + 1);
}

/// A line without any separator has its first-separator position at its end.
proof fn lemma_first_space_high(l: Seq<char>)
    requires
        forall|k: int| 0 <= k < l.len() ==> !spec_is_space(#[trigger] l[k]),
    ensures
        spec_first_space(l) == l.len(),
    decreases l.len(),
{
    if l.len() > 0 {
        lemma_first_space_high(l.drop_first());
    }
}

/// Parses a whole box output into records, line by line: noise lines without
/// a separator are skipped, duplicates are preserved in order, and one bad
/// line fails the whole parse with `ParseError`.
pub fn string_to_boxes(output: &str) -> (r: TessResult<Vec<BoxRecord>>)
    ensures
        r is Ok <==> spec_parse_boxes(output@) is Some,
        r matches Ok(v) ==> Some(v@.map_values(|b: BoxRecord| b@)) == spec_parse_boxes(output@),
        r matches Err(e) ==> e is ParseError,
{
    let ghost pred = |l: Seq<char>| box_line_qualifies(l);
    let lines = split_lines(output);
    let ghost ls = spec_lines(output@);
    let mut out: Vec<BoxRecord> = Vec::new();
    let n = lines.len();
    let mut li: usize = 0;
    proof {
        assert(ls.take(0) =~= Seq::<Seq<char>>::empty());
        assert(Seq::<Seq<char>>::empty().filter(pred) =~= Seq::<Seq<char>>::empty());
        assert(out@.map_values(|b: BoxRecord| b@) =~= ls.take(0).filter(pred).map_values(
            |l: Seq<char>| parse_box_line(l).unwrap(),
        ));
    }
    while li < n
        invariant
            n == lines@.len(),
            0 <= li <= n,
            pred == (|l: Seq<char>| box_line_qualifies(l)),
            ls == spec_lines(output@),
            lines@.map_values(|l: String| l@) == ls,
            forall|k: int|
                0 <= k < ls.take(li as int).filter(pred).len() ==> parse_box_line(
                    #[trigger] ls.take(li as int).filter(pred)[k],
                ) is Some,
            out@.map_values(|b: BoxRecord| b@) == ls.take(li as int).filter(pred).map_values(
                |l: Seq<char>| parse_box_line(l).unwrap(),
            ),
        decreases n - li,
    {
        let line = &lines[li];
        let qualifies = has_space(line.as_str());
        proof {
            assert(ls[li as int] == lines@[li as int]@);
            lemma_filter_step(ls, pred, li as int);
        }
        if qualifies {
            match BoxRecord::parse(line.as_str()) {
                Some(rec) => {
                    proof {
                        assert(ls.take(li as int + 1).filter(pred) == ls.take(
                            li as int,
                        ).filter(pred).push(ls[li as int]));
                        assert(out@.push(rec).map_values(|b: BoxRecord| b@) =~= out@.map_values(
                            |b: BoxRecord| b@,
                        ).push(rec@));
                        assert(out@.push(rec).map_values(|b: BoxRecord| b@) =~= ls.take(
                            li as int + 1,
                        ).filter(pred).map_values(|l: Seq<char>| parse_box_line(l).unwrap()));
                    }
                    out.push(rec);
                },
                None => {
                    proof {
                        ls.lemma_filter_contains(pred, li as int);
                        let q = ls.filter(pred);
                        let j = choose|j: int| 0 <= j < q.len() && q[j] == ls[li as int];
                        assert(parse_box_line(q[j]) is None);
                        assert(spec_parse_boxes(output@) is None);
                    }
                    return Err(TessError::ParseError);
                },
            }
        } else {
            proof {
                assert(ls.take(li as int + 1).filter(pred) == ls.take(li as int).filter(pred));
            }
        }
        li += 1;
    }
    proof {
        assert(ls.take(n as int) =~= ls);
        assert(spec_parse_boxes(output@) is Some);
        assert(Some(out@.map_values(|b: BoxRecord| b@)) == spec_parse_boxes(output@));
    }
    Ok(out)
}

/// Every qualifying line yields a record of its own, in line order: a
/// successful parse holds exactly one record per qualifying line, so a symbol
/// that recurs is never merged or deduplicated.
pub proof fn lemma_one_record_per_qualifying_line(text: Seq<char>)
    requires
        spec_parse_boxes(text) is Some,
    ensures
        ({
            let q = spec_lines(text).filter(|l: Seq<char>| box_line_qualifies(l));
            let recs = spec_parse_boxes(text).unwrap();
            recs.len() == q.len() && forall|i: int|
                0 <= i < q.len() ==> Some(#[trigger] recs[i]) == parse_box_line(q[i])
        }),
{
}

/// Whether a line holds at least one separator.
fn has_space(line: &str) -> (r: bool)
    ensures
        r == box_line_qualifies(line@),
{
    let n = line.unicode_len();
    let mut i: usize = 0;
    while i < n
        invariant
            n == line@.len(),
            0 <= i <= n,
            forall|k: int| 0 <= k < i ==> !spec_is_space(#[trigger] line@[k]),
        decreases n - i,
    {
        if is_space(line.get_char(i)) {
            return true;
        }
        i += 1;
    }
    false
}

/// A parsed box invocation: the engine's verbatim output text plus its parsed
/// records, in the engine's own order.
#[derive(Debug, PartialEq)]
pub struct BoxOutput {
    pub output: String,
    pub boxes: Vec<BoxRecord>,
}

/// The box-mode result of a finished invocation: on a zero exit the captured
/// output is parsed into box records; a failed spawn is
/// `TesseractNotFoundError`, a non-zero exit is `VersionError` with the
/// captured standard error, and a bad output line is `ParseError`.
pub fn image_to_boxes(outcome: ProcessOutcome) -> (r: TessResult<BoxOutput>)
    ensures
        outcome is SpawnFailed ==> (r matches Err(e) && e is TesseractNotFoundError),
        (outcome matches ProcessOutcome::Completed { exit_code, stdout, stderr } ==> (if exit_code
            == Some(0i32) {
            match spec_parse_boxes(stdout@) {
                Some(recs) => r matches Ok(o) && o.output@ == stdout@ && o.boxes@.map_values(
                    |b: BoxRecord| b@,
                ) == recs,
                None => r matches Err(e) && e is ParseError,
            }
        } else {
            r matches Err(e) && (e matches TessError::VersionError(t) && t@ == stderr@)
        })),
{
    let text = match interpret_process_outcome(outcome) {
        Ok(t) => t,
        Err(e) => {
            return Err(e);
        },
    };
    let boxes = match string_to_boxes(text.as_str()) {
        Ok(b) => b,
        Err(e) => {
            return Err(e);
        },
    };
    Ok(BoxOutput { output: text, boxes })
}

} // verus!
