use crate::command::interpret_process_outcome;
use crate::command::ProcessOutcome;
use crate::error::TessError;
use crate::error::TessResult;
use crate::numeric::int_token_val;
use crate::numeric::is_float_token;
use crate::numeric::is_float_token_str;
use crate::numeric::is_i32_token;
use crate::numeric::i32_to_string;
use crate::numeric::parse_i32_token;
use crate::numeric::spec_i32_string;
use crate::text::spec_lines;
use crate::text::spec_tokens;
use crate::text::split_lines;
use crate::text::split_tokens;
use vstd::prelude::*;
use vstd::string::*;

verus! {

/// One parsed line of the engine's tab-separated recognition table. The
/// confidence is kept verbatim as the decimal token the engine printed (it is
/// validated to parse as a float; the engine writes -1 for structural rows),
/// and `text` is empty for structural rows that carry no recognized word.
#[derive(Debug, Clone, PartialEq)]
pub struct Data {
    pub level: i32,
    pub page_num: i32,
    pub block_num: i32,
    pub par_num: i32,
    pub line_num: i32,
    pub word_num: i32,
    pub left: i32,
    pub top: i32,
    pub width: i32,
    pub height: i32,
    pub conf: String,
    pub text: String,
}

/// The view of one data record.
pub ghost struct DataView {
    pub level: int,
    pub page_num: int,
    pub block_num: int,
    pub par_num: int,
    pub line_num: int,
    pub word_num: int,
    pub left: int,
    pub top: int,
    pub width: int,
    pub height: int,
    pub conf: Seq<char>,
    pub text: Seq<char>,
}

impl View for Data {
    type V = DataView;

    open spec fn view(&self) -> DataView {
        DataView {
            level: self.level as int,
            page_num: self.page_num as int,
            block_num: self.block_num as int,
            par_num: self.par_num as int,
            line_num: self.line_num as int,
            word_num: self.word_num as int,
            left: self.left as int,
            top: self.top as int,
            width: self.width as int,
            height: self.height as int,
            conf: self.conf@,
            text: self.text@,
        }
    }
}

/// One data line parses when it splits into exactly twelve whitespace-
/// separated fields — or eleven, the trailing text being optional: ten
/// integers, a float confidence, and the text.
pub open spec fn parse_data_line(l: Seq<char>) -> Option<DataView> {
    let t = spec_tokens(l);
    if (t.len() == 11 || t.len() == 12) && (forall|i: int|
        0 <= i < 10 ==> is_i32_token(#[trigger] t[i])) && is_float_token(t[10]) {
        Some(
            DataView {
                level: int_token_val(t[0]),
                page_num: int_token_val(t[1]),
                block_num: int_token_val(t[2]),
                par_num: int_token_val(t[3]),
                line_num: int_token_val(t[4]),
                word_num: int_token_val(t[5]),
                left: int_token_val(t[6]),
                top: int_token_val(t[7]),
                width: int_token_val(t[8]),
                height: int_token_val(t[9]),
                conf: t[10],
                text: if t.len() == 12 {
                    t[11]
                } else {
                    Seq::empty()
                },
            },
        )
    } else {
        None
    }
}

/// The parse of a whole recognition table: the first line is a header and is
/// always skipped, whatever it holds; every later line must parse, in order,
/// or the whole parse fails.
pub open spec fn spec_parse_data(text: Seq<char>) -> Option<Seq<DataView>> {
    let ls = spec_lines(text);
    if ls.len() == 0 {
        Some(Seq::empty())
    } else {
        let body = ls.drop_first();
        if forall|i: int| 0 <= i < body.len() ==> parse_data_line(#[trigger] body[i]) is Some {
            Some(body.map_values(|l: Seq<char>| parse_data_line(l).unwrap()))
        } else {
            None
        }
    }
}

impl Data {
    /// Parses one data line; any missing or malformed mandatory field yields
    /// `None`, and a missing trailing text field yields an empty string.
    pub fn parse(line: &str) -> (r: Option<Data>)
        ensures
            r is Some <==> parse_data_line(line@) is Some,
            r matches Some(d) ==> Some(d@) == parse_data_line(line@),
    {
        let toks = split_tokens(line);
        let nt = toks.len();
        if nt != 11 && nt != 12 {
            return None;
        }
        proof {
            assert forall|i: int| 0 <= i < 11 implies toks@.map_values(|t: String| t@)[i]
                == toks@[i]@ by {}
            if nt == 12 {
                assert(toks@.map_values(|t: String| t@)[11] == toks@[11]@);
            }
        }
        let level = parse_i32_token(toks[0].as_str());
        let page_num = parse_i32_token(toks[1].as_str());
        let block_num = parse_i32_token(toks[2].as_str());
        let par_num = parse_i32_token(toks[3].as_str());
        let line_num = parse_i32_token(toks[4].as_str());
        let word_num = parse_i32_token(toks[5].as_str());
        let left = parse_i32_token(toks[6].as_str());
        let top = parse_i32_token(toks[7].as_str());
        let width = parse_i32_token(toks[8].as_str());
        let height = parse_i32_token(toks[9].as_str());
        if !is_float_token_str(toks[10].as_str()) {
            return None;
        }
        match (level, page_num, block_num, par_num, line_num, word_num, left, top, width, height) {
            (
                Some(v0),
                Some(v1),
                Some(v2),
                Some(v3),
                Some(v4),
                Some(v5),
                Some(v6),
                Some(v7),
                Some(v8),
                Some(v9),
            ) => {
                let conf = toks[10].clone();
                let text = if nt == 12 {
                    toks[11].clone()
                } else {
                    String::new()
                };
                Some(
                    Data {
                        level: v0,
                        page_num: v1,
                        block_num: v2,
                        par_num: v3,
                        line_num: v4,
                        word_num: v5,
                        left: v6,
                        top: v7,
                        width: v8,
                        height: v9,
                        conf,
                        text,
                    },
                )
            },
            _ => None,
        }
    }
}

/// The single-line rendering of a record: its twelve fields in order,
/// separated by single spaces; a structural row ends with a trailing space
/// before its empty text.
pub open spec fn spec_data_line_text(d: DataView) -> Seq<char> {
    spec_i32_string(d.level) + seq![' '] + spec_i32_string(d.page_num) + seq![' ']
        + spec_i32_string(d.block_num) + seq![' '] + spec_i32_string(d.par_num) + seq![' ']
        + spec_i32_string(d.line_num) + seq![' '] + spec_i32_string(d.word_num) + seq![' ']
        + spec_i32_string(d.left) + seq![' '] + spec_i32_string(d.top) + seq![' ']
        + spec_i32_string(d.width) + seq![' '] + spec_i32_string(d.height) + seq![' '] + d.conf
        + seq![' '] + d.text
}

impl Data {
    /// Renders the record as one line, fields separated by single spaces.
    pub fn to_line(&self) -> (r: String)
        ensures
            r@ == spec_data_line_text(self@),
    {
        proof {
            reveal_strlit(" ");
            assert(" "@ =~= seq![' ']);
        }
        let mut r = i32_to_string(self.level);
        r.append(" ");
        r.append(i32_to_string(self.page_num).as_str());
        r.append(" ");
        r.append(i32_to_string(self.block_num).as_str());
        r.append(" ");
        r.append(i32_to_string(self.par_num).as_str());
        r.append(" ");
        r.append(i32_to_string(self.line_num).as_str());
        r.append(" ");
        r.append(i32_to_string(self.word_num).as_str());
        r.append(" ");
        r.append(i32_to_string(self.left).as_str());
        r.append(" ");
        r.append(i32_to_string(self.top).as_str());
        r.append(" ");
        r.append(i32_to_string(self.width).as_str());
        r.append(" ");
        r.append(i32_to_string(self.height).as_str());
        r.append(" ");
        r.append(self.conf.as_str());
        r.append(" ");
        r.append(self.text.as_str());
        proof {
            assert(r@ =~= spec_data_line_text(self@));
        }
        r
    }
}

/// Parses a whole recognition table: skips exactly the first line, then
/// parses every later line in order; a single malformed line fails the whole
/// parse with `ParseError`, so positional records stay aligned with the
/// engine's own row order.
pub fn string_to_data(output: &str) -> (r: TessResult<Vec<Data>>)
    ensures
        r is Ok <==> spec_parse_data(output@) is Some,
        r matches Ok(v) ==> Some(v@.map_values(|d: Data| d@)) == spec_parse_data(output@),
        r matches Err(e) ==> e is ParseError,
{
    let lines = split_lines(output);
    let ghost ls = spec_lines(output@);
    let n = lines.len();
    let mut out: Vec<Data> = Vec::new();
    if n == 0 {
        proof {
            assert(out@.map_values(|d: Data| d@) =~= Seq::<DataView>::empty());
        }
        return Ok(out);
    }
    let ghost body = ls.drop_first();
    let mut li: usize = 1;
    proof {
        assert(body.take(0) =~= Seq::<Seq<char>>::empty());
        assert(out@.map_values(|d: Data| d@) =~= body.take(0).map_values(
            |l: Seq<char>| parse_data_line(l).unwrap(),
        ));
    }
    while li < n
        invariant
            n == lines@.len(),
            n >= 1,
            1 <= li <= n,
            ls == spec_lines(output@),
            lines@.map_values(|l: String| l@) == ls,
            body == ls.drop_first(),
            forall|k: int| 0 <= k < li - 1 ==> parse_data_line(#[trigger] body[k]) is Some,
            out@.map_values(|d: Data| d@) == body.take(li - 1).map_values(
                |l: Seq<char>| parse_data_line(l).unwrap(),
            ),
        decreases n - li,
    {
        let line = &lines[li];
        proof {
            assert(body[li - 1] == lines@[li as int]@);
        }
        match Data::parse(line.as_str()) {
            Some(rec) => {
                proof {
                    assert(body.take(li as int) =~= body.take(li - 1).push(body[li - 1]));
                    assert(out@.push(rec).map_values(|d: Data| d@) =~= out@.map_values(
                        |d: Data| d@,
                    ).push(rec@));
                    assert(out@.push(rec).map_values(|d: Data| d@) =~= body.take(
                        li as int,
                    ).map_values(|l: Seq<char>| parse_data_line(l).unwrap()));
                }
                out.push(rec);
            },
            None => {
                proof {
                    assert(parse_data_line(body[li - 1]) is None);
                    assert(spec_parse_data(output@) is None);
                }
                return Err(TessError::ParseError);
            },
        }
        li += 1;
    }
    proof {
        assert(body.take(n - 1) =~= body);
        assert(spec_parse_data(output@) is Some);
        assert(Some(out@.map_values(|d: Data| d@)) == spec_parse_data(output@));
    }
    Ok(out)
}

/// A parsed tab-separated invocation: the engine's verbatim output text plus
/// its parsed records, in the engine's own row order.
#[derive(Debug, PartialEq)]
pub struct DataOutput {
    pub output: String,
    pub data: Vec<Data>,
}

/// The tab-separated-mode result of a finished invocation: on a zero exit the
/// captured output is parsed into data records; a failed spawn is
/// `TesseractNotFoundError`, a non-zero exit is `VersionError` with the
/// captured standard error, and a bad row is `ParseError`.
pub fn image_to_data(outcome: ProcessOutcome) -> (r: TessResult<DataOutput>)
    ensures
        outcome is SpawnFailed ==> (r matches Err(e) && e is TesseractNotFoundError),
        (outcome matches ProcessOutcome::Completed { exit_code, stdout, stderr } ==> (if exit_code
            == Some(0i32) {
            match spec_parse_data(stdout@) {
                Some(recs) => r matches Ok(o) && o.output@ == stdout@ && o.data@.map_values(
                    |d: Data| d@,
                ) == recs,
                None => r matches Err(e) && e is ParseError,
            }
        } else {
            r matches Err(e) && (e matches TessError::VersionError(t) && t@ == stderr@)
        })),
{
    let text = match interpret_process_outcome(outcome) {
        Ok(t) => t,
        Err(e) => {
            return Err(e);
        },
    };
    let data = match string_to_data(text.as_str()) {
        Ok(d) => d,
        Err(e) => {
            return Err(e);
        },
    };
    Ok(DataOutput { output: text, data })
}

} // verus!
