use vstd::prelude::*;
use crate::error::{fails_with, AppError, ErrorKind};
use crate::text::{lines_of, lower_of, lowercase, message_with, split_at_first, split_lines, text_with_number, trim_of, trim_text};

verus! {

/// What `serde_json::from_str::<Vec<String>>` makes of a text: the strings
/// of a JSON array of strings, or nothing when the text is not one.
pub uninterp spec fn json_strings_of(s: Seq<char>) -> Option<Seq<Seq<char>>>;

/// Relies on `serde_json::from_str` decoding a JSON array of strings; the
/// result depends on the text alone.
#[verifier::external_body]
fn decode_string_array(data: &str) -> (r: Option<Vec<String>>)
    ensures
        match r {
            Some(v) => json_strings_of(data@) == Some(v@.map_values(|x: String| x@)),
            None => json_strings_of(data@) is None,
        },
{
    serde_json::from_str::<Vec<String>>(data).ok()
}

/// Numbered identifiers as (1-based row, identifier) pairs.
pub open spec fn rows_view(r: Seq<(usize, String)>) -> Seq<(int, Seq<char>)> {
    r.map_values(|p: (usize, String)| (p.0 as int, p.1@))
}

/// The first `n` values, trimmed and numbered from 1, blank ones dropped.
pub open spec fn numbered_values(values: Seq<Seq<char>>, n: int) -> Seq<(int, Seq<char>)>
    decreases n,
{
    if n <= 0 {
        Seq::empty()
    } else {
        let prev = numbered_values(values, n - 1);
        let t = trim_of(values[n - 1]);
        if t.len() == 0 {
            prev
        } else {
            prev.push((n, t))
        }
    }
}

/// The text before the first `sep`, or all of it.
pub open spec fn prefix_before(s: Seq<char>, sep: char) -> Seq<char>
    decreases s.len(),
{
    if s.len() == 0 {
        s
    } else if s[0] == sep {
        Seq::empty()
    } else {
        seq![s[0]] + prefix_before(s.drop_first(), sep)
    }
}

proof fn lemma_prefix_before(a: Seq<char>, b: Seq<char>, sep: char)
    requires
        !a.contains(sep),
    ensures
        prefix_before(a + seq![sep] + b, sep) == a,
    decreases a.len(),
{
    let s = a + seq![sep] + b;
    if a.len() == 0 {
        assert(s[0] == sep);
    } else {
        assert(a[0] != sep);
        assert(s.drop_first() =~= a.drop_first() + seq![sep] + b);
        assert(!a.drop_first().contains(sep)) by {
            if a.drop_first().contains(sep) {
                let k = choose|k: int| 0 <= k < a.drop_first().len() && a.drop_first()[k] == sep;
                assert(a[k + 1] == sep);
            }
        }
        lemma_prefix_before(a.drop_first(), b, sep);
        assert(seq![a[0]] + a.drop_first() =~= a);
    }
}

proof fn lemma_prefix_before_whole(a: Seq<char>, sep: char)
    requires
        !a.contains(sep),
    ensures
        prefix_before(a, sep) == a,
    decreases a.len(),
{
    if a.len() > 0 {
        assert(a[0] != sep);
        assert(!a.drop_first().contains(sep)) by {
            if a.drop_first().contains(sep) {
                let k = choose|k: int| 0 <= k < a.drop_first().len() && a.drop_first()[k] == sep;
                assert(a[k + 1] == sep);
            }
        }
        lemma_prefix_before_whole(a.drop_first(), sep);
        assert(seq![a[0]] + a.drop_first() =~= a);
    }
}

/// The identifier of a CSV line: its first column, trimmed.
pub open spec fn csv_field(line: Seq<char>) -> Seq<char> {
    trim_of(prefix_before(trim_of(line), ','))
}

/// Column names that mark a header line.
pub open spec fn is_header_name(s: Seq<char>) -> bool {
    s == "user_id"@ || s == "email"@ || s == "identifier"@
}

/// The identifiers of the first `n` CSV lines, or the number of the first
/// line whose identifier is missing. Blank lines are skipped, and so is a
/// header on line 1.
pub open spec fn csv_rows(lines: Seq<Seq<char>>, n: int) -> Result<Seq<(int, Seq<char>)>, int>
    decreases n,
{
    if n <= 0 {
        Ok(Seq::empty())
    } else {
        match csv_rows(lines, n - 1) {
            Err(e) => Err(e),
            Ok(prev) => {
                let f = csv_field(lines[n - 1]);
                if trim_of(lines[n - 1]).len() == 0 {
                    Ok(prev)
                } else if n == 1 && is_header_name(lower_of(f)) {
                    Ok(prev)
                } else if f.len() == 0 {
                    Err(n)
                } else {
                    Ok(prev.push((n, f)))
                }
            },
        }
    }
}

proof fn lemma_csv_error_stays(lines: Seq<Seq<char>>, n: int, m: int)
    requires
        n <= m,
        csv_rows(lines, n) is Err,
    ensures
        csv_rows(lines, m) == csv_rows(lines, n),
    decreases m - n,
{
    if n < m {
        lemma_csv_error_stays(lines, n, m - 1);
    }
}

/// The message that reports a CSV line without an identifier.
pub open spec fn csv_row_message(line_no: int) -> Seq<char> {
    message_with("invalid csv row "@, line_no as nat, ": missing identifier"@)
}

/// Numbers decoded values from 1, trims them and drops blank ones.
pub fn number_values(values: &Vec<String>) -> (r: Vec<(usize, String)>)
    ensures
        rows_view(r@) == numbered_values(values@.map_values(|x: String| x@), values@.len() as int),
{
    let ghost vs = values@.map_values(|x: String| x@);
    let mut out: Vec<(usize, String)> = Vec::new();
    let mut i: usize = 0;
    while i < values.len()
        invariant
            i <= values@.len(),
            vs == values@.map_values(|x: String| x@),
            rows_view(out@) == numbered_values(vs, i as int),
        decreases values@.len() - i,
    {
        let t = trim_text(values[i].as_str());
        let ghost prev = out@;
        if !t.is_empty() {
            out.push((i + 1, t.to_owned()));
            proof {
                assert(rows_view(out@) =~= rows_view(prev).push(((i + 1) as int, trim_of(vs[i as int]))));
            }
        }
        i = i + 1;
    }
    out
}

/// Reads identifiers from a JSON array of strings.
pub fn parse_json_identifiers(data: &str) -> (r: Result<Vec<(usize, String)>, AppError>)
    ensures
        match json_strings_of(data@) {
            None => fails_with(r, ErrorKind::BadRequest),
            Some(vs) => r matches Ok(rows) && rows_view(rows@) == numbered_values(vs, vs.len() as int),
        },
{
    match decode_string_array(data) {
        Some(values) => Ok(number_values(&values)),
        None => Err(AppError::BadRequest("invalid json, expected string array".to_string())),
    }
}

/// The first column of a line, trimmed.
pub fn first_column(trimmed: &str) -> (r: &str)
    ensures
        r@ == trim_of(prefix_before(trimmed@, ',')),
{
    match split_at_first(trimmed, ',') {
        Some((a, b)) => {
            proof {
                lemma_prefix_before(a@, b@, ',');
            }
            trim_text(a)
        },
        None => {
            proof {
                lemma_prefix_before_whole(trimmed@, ',');
            }
            trim_text(trimmed)
        },
    }
}

/// Whether a (lowercased) column name marks a header line.
pub fn is_header(name: &String) -> (r: bool)
    ensures
        r == is_header_name(name@),
{
    *name == "user_id".to_owned() || *name == "email".to_owned() || *name == "identifier".to_owned()
}

/// Reads identifiers from the first column of CSV lines, numbered by line.
pub fn parse_csv_identifiers(data: &str) -> (r: Result<Vec<(usize, String)>, AppError>)
    ensures
        match csv_rows(lines_of(data@), lines_of(data@).len() as int) {
            Err(n) => r matches Err(AppError::BadRequest(m)) && m@ == csv_row_message(n),
            Ok(rows) => r matches Ok(out) && rows_view(out@) == rows,
        },
{
    let lines = split_lines(data);
    let ghost ls = lines_of(data@);
    let mut out: Vec<(usize, String)> = Vec::new();
    proof {
        assert(rows_view(out@) =~= Seq::empty());
    }
    let mut i: usize = 0;
    while i < lines.len()
        invariant
            i <= lines@.len(),
            ls == lines_of(data@),
            lines@.map_values(|l: &str| l@) == ls,
            csv_rows(ls, i as int) == Ok::<Seq<(int, Seq<char>)>, int>(rows_view(out@)),
        decreases lines@.len() - i,
    {
        let line = lines[i];
        assert(line@ == ls[i as int]);
        let line_no = i + 1;
        let trimmed = trim_text(line);
        let ghost prev = out@;
        if !trimmed.is_empty() {
            let first = first_column(trimmed);
            let skip = line_no == 1 && is_header(&lowercase(first));
            if !skip {
                if first.is_empty() {
                    proof {
                        lemma_csv_error_stays(ls, i + 1, ls.len() as int);
                    }
                    let message = text_with_number("invalid csv row ", line_no as u64, ": missing identifier");
                    return Err(AppError::BadRequest(message));
                }
                out.push((line_no, first.to_owned()));
                proof {
                    assert(rows_view(out@) =~= rows_view(prev).push((line_no as int, csv_field(ls[i as int]))));
                }
            }
        }
        i = i + 1;
    }
    Ok(out)
}

/// Reads identifiers in the named format, `csv` or `json` in any case.
pub fn parse_import_identifiers(format: &str, data: &str) -> (r: Result<Vec<(usize, String)>, AppError>)
    ensures
        lower_of(format@) == "json"@ ==> match json_strings_of(data@) {
            None => fails_with(r, ErrorKind::BadRequest),
            Some(vs) => r matches Ok(rows) && rows_view(rows@) == numbered_values(vs, vs.len() as int),
        },
        lower_of(format@) == "csv"@ ==> match csv_rows(lines_of(data@), lines_of(data@).len() as int) {
            Err(_) => fails_with(r, ErrorKind::BadRequest),
            Ok(rows) => r matches Ok(out) && rows_view(out@) == rows,
        },
        lower_of(format@) != "json"@ && lower_of(format@) != "csv"@ ==> fails_with(r, ErrorKind::BadRequest),
{
    let lower = lowercase(format);
    proof {
        reveal_strlit("json");
        reveal_strlit("csv");
        assert("json"@[0] != "csv"@[0]);
    }
    if lower == "json".to_owned() {
        parse_json_identifiers(data)
    } else if lower == "csv".to_owned() {
        parse_csv_identifiers(data)
    } else {
        Err(AppError::BadRequest("format must be either 'csv' or 'json'".to_string()))
    }
}

} // verus!
