//! The rule-application engine: reading complementary-code rule files,
//! deduplicating the records they yield, attaching each code to its target
//! object, and accumulating a report of everything that had to be skipped.

use vstd::prelude::*;
use vstd::string::StringExecFns;
use vstd::string::StrSliceExecFns;

use crate::collection::{
    Collections, CollectionsModel, CollectionWithId, spec_find_id, lemma_find_id_some,
};
use crate::objects::{
    Codes, ComplementaryCode, ComplementaryCodeView, EntityModel, model_insert, ObjectType,
};
use crate::parse::{
    index_of, spec_index_of, spec_split, spec_trim_cr, split_str, str_eq, strings_view, trim_cr,
};
use crate::report::{Report, ReportType};

verus! {

/// One rule file as handed to the engine: its display name and either its
/// full text or the reason it could not be read.
pub struct RuleFile {
    pub name: String,
    pub content: Result<String, String>,
}

/// The mathematical content of a rule file input.
pub ghost struct RuleFileView {
    pub name: Seq<char>,
    pub content: Result<Seq<char>, Seq<char>>,
}

impl View for RuleFile {
    type V = RuleFileView;

    open spec fn view(&self) -> RuleFileView {
        RuleFileView {
            name: self.name@,
            content: match self.content {
                Ok(ref c) => Ok(c@),
                Err(ref e) => Err(e@),
            },
        }
    }
}

/// The views of a sequence of rule files.
pub open spec fn files_view(s: Seq<RuleFile>) -> Seq<RuleFileView> {
    s.map_values(|f: RuleFile| f@)
}

/// The message recorded when a row of a rule file is rejected.
pub open spec fn spec_read_error_message(name: Seq<char>, err: Seq<char>) -> Seq<char> {
    "Error reading "@ + name + ": "@ + err
}

/// The error returned when a rule file itself cannot be read.
pub open spec fn spec_open_error_message(name: Seq<char>, err: Seq<char>) -> Seq<char> {
    name + ": "@ + err
}

/// The message recorded when a record's target object is not found.
pub open spec fn spec_not_found_message(c: ComplementaryCodeView) -> Seq<char> {
    "Error inserting code: object_codes.txt: object="@ + c.object_type.spec_tag()
        + ",  object_id="@ + c.object_id + " not found"@
}

/// The object kind a tag denotes, if it is one of the four known tags.
pub open spec fn spec_parse_object_type(s: Seq<char>) -> Option<ObjectType> {
    if s == "line"@ {
        Some(ObjectType::Line)
    } else if s == "route"@ {
        Some(ObjectType::Route)
    } else if s == "stop_point"@ {
        Some(ObjectType::StopPoint)
    } else if s == "stop_area"@ {
        Some(ObjectType::StopArea)
    } else {
        None
    }
}

fn parse_object_type(s: &String) -> (r: Option<ObjectType>)
    ensures
        r == spec_parse_object_type(s@),
{
    if str_eq(s.as_str(), "line") {
        Some(ObjectType::Line)
    } else if str_eq(s.as_str(), "route") {
        Some(ObjectType::Route)
    } else if str_eq(s.as_str(), "stop_point") {
        Some(ObjectType::StopPoint)
    } else if str_eq(s.as_str(), "stop_area") {
        Some(ObjectType::StopArea)
    } else {
        None
    }
}

/// The columns of the four required fields in a header, if all four are
/// named there.
pub open spec fn spec_header_cols(fields: Seq<Seq<char>>) -> Option<(int, int, int, int)> {
    match (
        spec_index_of(fields, "object_type"@),
        spec_index_of(fields, "object_id"@),
        spec_index_of(fields, "object_system"@),
        spec_index_of(fields, "object_code"@),
    ) {
        (Some(a), Some(b), Some(c), Some(d)) => Some((a, b, c, d)),
        _ => None,
    }
}

fn header_cols(fields: &Vec<String>) -> (r: Option<(usize, usize, usize, usize)>)
    ensures
        match r {
            Some(c) => spec_header_cols(strings_view(fields@)) == Some(
                (c.0 as int, c.1 as int, c.2 as int, c.3 as int),
            ),
            None => spec_header_cols(strings_view(fields@)) is None,
        },
{
    let a = index_of(fields, "object_type");
    let b = index_of(fields, "object_id");
    let c = index_of(fields, "object_system");
    let d = index_of(fields, "object_code");
    match (a, b, c, d) {
        (Some(a), Some(b), Some(c), Some(d)) => Some((a, b, c, d)),
        _ => None,
    }
}

/// The view of an exec column tuple.
pub open spec fn cols_view(c: Option<(usize, usize, usize, usize)>) -> Option<
    (int, int, int, int),
> {
    match c {
        Some(t) => Some((t.0 as int, t.1 as int, t.2 as int, t.3 as int)),
        None => None,
    }
}

/// The record one row yields, or the message explaining its rejection: the
/// header must name all four required columns, the row must be long enough
/// to hold them, and the kind tag must be one of the four known ones.
pub open spec fn spec_row_result(
    cols: Option<(int, int, int, int)>,
    fields: Seq<Seq<char>>,
) -> Result<ComplementaryCodeView, Seq<char>> {
    match cols {
        None => Err("missing column in header"@),
        Some(c) => {
            if c.0 >= fields.len() || c.1 >= fields.len() || c.2 >= fields.len() || c.3
                >= fields.len() {
                Err("missing field in row"@)
            } else {
                match spec_parse_object_type(fields[c.0]) {
                    None => Err("unknown object_type "@ + fields[c.0]),
                    Some(t) => Ok(
                        ComplementaryCodeView {
                            object_type: t,
                            object_id: fields[c.1],
                            object_system: fields[c.2],
                            object_code: fields[c.3],
                        },
                    ),
                }
            }
        },
    }
}

fn row_result(cols: Option<(usize, usize, usize, usize)>, fields: &Vec<String>) -> (r: Result<
    ComplementaryCode,
    String,
>)
    ensures
        match r {
            Ok(code) => spec_row_result(cols_view(cols), strings_view(fields@)) == Ok::<
                ComplementaryCodeView,
                Seq<char>,
            >(code@),
            Err(m) => spec_row_result(cols_view(cols), strings_view(fields@)) == Err::<
                ComplementaryCodeView,
                Seq<char>,
            >(m@),
        },
{
    let ghost fs = strings_view(fields@);
    match cols {
        None => Err(String::from_str("missing column in header")),
        Some(c) => {
            let n = fields.len();
            if c.0 >= n || c.1 >= n || c.2 >= n || c.3 >= n {
                Err(String::from_str("missing field in row"))
            } else {
                proof {
                    assert(fs[c.0 as int] == fields@[c.0 as int]@);
                    assert(fs[c.1 as int] == fields@[c.1 as int]@);
                    assert(fs[c.2 as int] == fields@[c.2 as int]@);
                    assert(fs[c.3 as int] == fields@[c.3 as int]@);
                }
                match parse_object_type(&fields[c.0]) {
                    None => {
                        let mut m = String::from_str("unknown object_type ");
                        m.append(fields[c.0].as_str());
                        Err(m)
                    },
                    Some(t) => Ok(
                        ComplementaryCode {
                            object_type: t,
                            object_id: fields[c.1].clone(),
                            object_system: fields[c.2].clone(),
                            object_code: fields[c.3].clone(),
                        },
                    ),
                }
            }
        },
    }
}

/// The views of a sequence of rule records.
pub open spec fn recs_view(s: Seq<ComplementaryCode>) -> Seq<ComplementaryCodeView> {
    s.map_values(|c: ComplementaryCode| c@)
}

/// The warning recorded for one rejected row of the named file.
pub open spec fn spec_read_error_warning(name: Seq<char>, m: Seq<char>) -> (
    Seq<char>,
    ReportType,
) {
    (spec_read_error_message(name, m), ReportType::ComplementaryCodeRulesRead)
}

/// The records and warnings the data rows of one file yield, in row order:
/// an empty row is ignored, a well-formed row yields its record, and a
/// rejected row yields one warning.
pub open spec fn spec_parse_rows(
    name: Seq<char>,
    cols: Option<(int, int, int, int)>,
    rows: Seq<Seq<char>>,
) -> (Seq<ComplementaryCodeView>, Seq<(Seq<char>, ReportType)>)
    decreases rows.len(),
{
    if rows.len() == 0 {
        (Seq::empty(), Seq::empty())
    } else {
        let rest = spec_parse_rows(name, cols, rows.drop_first());
        if rows[0].len() == 0 {
            rest
        } else {
            match spec_row_result(cols, spec_split(rows[0], ',')) {
                Ok(r) => (seq![r] + rest.0, rest.1),
                Err(m) => (rest.0, seq![spec_read_error_warning(name, m)] + rest.1),
            }
        }
    }
}

/// The lines of a file, each without its trailing carriage return.
pub open spec fn spec_trimmed_lines(content: Seq<char>) -> Seq<Seq<char>> {
    spec_split(content, '\n').map_values(|l: Seq<char>| spec_trim_cr(l))
}

/// The records and warnings one file yields: its first line names the
/// columns, every later line is a data row.
pub open spec fn spec_parse_file(name: Seq<char>, content: Seq<char>) -> (
    Seq<ComplementaryCodeView>,
    Seq<(Seq<char>, ReportType)>,
) {
    let lines = spec_trimmed_lines(content);
    if lines.len() == 0 {
        (Seq::empty(), Seq::empty())
    } else {
        spec_parse_rows(name, spec_header_cols(spec_split(lines[0], ',')), lines.drop_first())
    }
}

fn read_error_message(name: &String, m: &String) -> (r: String)
    ensures
        r@ == spec_read_error_message(name@, m@),
{
    let mut s = String::from_str("Error reading ");
    s.append(name.as_str());
    s.append(": ");
    s.append(m.as_str());
    s
}

/// Parses one file's rows, appending its records to `out` and its warnings
/// to `report`.
fn parse_file(name: &String, content: &String, report: &mut Report, out: &mut Vec<
    ComplementaryCode,
>)
    ensures
        recs_view(final(out)@) == recs_view(old(out)@) + spec_parse_file(name@, content@).0,
        final(report)@ == old(report)@ + spec_parse_file(name@, content@).1,
{
    let raw_lines = split_str(content.as_str(), '\n');
    let mut lines: Vec<String> = Vec::new();
    let mut i: usize = 0;
    while i < raw_lines.len()
        invariant
            i <= raw_lines@.len(),
            strings_view(raw_lines@) == spec_split(content@, '\n'),
            strings_view(lines@) == spec_trimmed_lines(content@).take(i as int),
        decreases raw_lines@.len() - i,
    {
        let t = trim_cr(&raw_lines[i]);
        proof {
            assert(strings_view(raw_lines@)[i as int] == raw_lines@[i as int]@);
            assert(spec_trimmed_lines(content@)[i as int] == spec_trim_cr(
                strings_view(raw_lines@)[i as int],
            ));
        }
        let ghost pre_lines = strings_view(lines@);
        let ghost tv = t@;
        lines.push(t);
        proof {
            assert(strings_view(lines@) =~= pre_lines.push(tv));
            assert(pre_lines.push(tv) =~= spec_trimmed_lines(content@).take(i as int + 1));
        }
        i += 1;
    }
    proof {
        assert(strings_view(lines@) =~= spec_trimmed_lines(content@));
    }
    let ghost pre_out = recs_view(out@);
    let ghost pre_rep = report@;
    if lines.len() == 0 {
        proof {
            assert(recs_view(out@) =~= pre_out + spec_parse_file(name@, content@).0);
            assert(report@ =~= pre_rep + spec_parse_file(name@, content@).1);
        }
        return ;
    }
    let header_fields = split_str(lines[0].as_str(), ',');
    proof {
        assert(strings_view(lines@)[0] == lines@[0]@);
    }
    let cols = header_cols(&header_fields);
    let ghost rows = spec_trimmed_lines(content@).drop_first();
    let ghost total = spec_parse_rows(name@, cols_view(cols), rows);
    proof {
        assert(total == spec_parse_file(name@, content@));
    }
    let ghost mut done_r: Seq<ComplementaryCodeView> = Seq::empty();
    let ghost mut done_w: Seq<(Seq<char>, ReportType)> = Seq::empty();
    proof {
        assert(rows.skip(0) =~= rows);
        assert(done_r + total.0 =~= total.0);
        assert(done_w + total.1 =~= total.1);
        assert(recs_view(out@) =~= pre_out + done_r);
        assert(report@ =~= pre_rep + done_w);
    }
    let mut k: usize = 1;
    while k < lines.len()
        invariant
            1 <= k <= lines@.len(),
            strings_view(lines@) == spec_trimmed_lines(content@),
            rows == spec_trimmed_lines(content@).drop_first(),
            total == spec_parse_rows(name@, cols_view(cols), rows),
            recs_view(out@) == pre_out + done_r,
            report@ == pre_rep + done_w,
            total.0 == done_r + spec_parse_rows(name@, cols_view(cols), rows.skip(k - 1)).0,
            total.1 == done_w + spec_parse_rows(name@, cols_view(cols), rows.skip(k - 1)).1,
        decreases lines@.len() - k,
    {
        let ghost suffix = rows.skip(k - 1);
        proof {
            assert(strings_view(lines@)[k as int] == lines@[k as int]@);
            assert(rows[k - 1] == spec_trimmed_lines(content@)[k as int]);
            assert(suffix.len() == rows.len() - (k - 1));
            assert(suffix[0] == rows[k - 1]);
            assert(suffix.drop_first() =~= rows.skip(k as int));
        }
        let line = &lines[k];
        if line.as_str().is_empty() {
            proof {
                assert(spec_parse_rows(name@, cols_view(cols), suffix) == spec_parse_rows(
                    name@,
                    cols_view(cols),
                    rows.skip(k as int),
                ));
            }
        } else {
            let fields = split_str(line.as_str(), ',');
            let ghost rest = spec_parse_rows(name@, cols_view(cols), rows.skip(k as int));
            match row_result(cols, &fields) {
                Ok(code) => {
                    let ghost cv = code@;
                    proof {
                        assert(spec_parse_rows(name@, cols_view(cols), suffix).0 == seq![cv]
                            + rest.0);
                        assert(spec_parse_rows(name@, cols_view(cols), suffix).1 == rest.1);
                    }
                    out.push(code);
                    proof {
                        assert(recs_view(out@) =~= (pre_out + done_r).push(cv));
                        assert((pre_out + done_r).push(cv) =~= pre_out + done_r.push(cv));
                        assert(done_r + (seq![cv] + rest.0) =~= done_r.push(cv) + rest.0);
                        done_r = done_r.push(cv);
                    }
                },
                Err(m) => {
                    let msg = read_error_message(name, &m);
                    let ghost wv = (msg@, ReportType::ComplementaryCodeRulesRead);
                    proof {
                        assert(wv == spec_read_error_warning(name@, m@));
                        assert(spec_parse_rows(name@, cols_view(cols), suffix).1 == seq![wv]
                            + rest.1);
                        assert(spec_parse_rows(name@, cols_view(cols), suffix).0 == rest.0);
                    }
                    report.add_warning(msg, ReportType::ComplementaryCodeRulesRead);
                    proof {
                        assert(report@ =~= pre_rep + done_w.push(wv));
                        assert(done_w + (seq![wv] + rest.1) =~= done_w.push(wv) + rest.1);
                        done_w = done_w.push(wv);
                    }
                },
            }
        }
        k += 1;
    }
    proof {
        assert(rows.skip(k - 1) =~= Seq::<Seq<char>>::empty());
        assert(total.0 =~= done_r + Seq::<ComplementaryCodeView>::empty());
        assert(total.0 =~= done_r);
        assert(total.1 =~= done_w + Seq::<(Seq<char>, ReportType)>::empty());
        assert(total.1 =~= done_w);
    }
}

/// First-occurrence deduplication: a record equal to an earlier one is
/// dropped, the order of the kept records is the order of first
/// appearance.
pub open spec fn spec_dedup(s: Seq<ComplementaryCodeView>) -> Seq<ComplementaryCodeView>
    decreases s.len(),
{
    if s.len() == 0 {
        s
    } else {
        let pre = spec_dedup(s.drop_last());
        if s.drop_last().contains(s.last()) {
            pre
        } else {
            pre.push(s.last())
        }
    }
}

proof fn lemma_push_contains(
    p: Seq<ComplementaryCodeView>,
    l: ComplementaryCodeView,
    x: ComplementaryCodeView,
)
    ensures
        p.push(l).contains(x) <==> (p.contains(x) || x == l),
{
    if p.push(l).contains(x) {
        let i = choose|i: int| 0 <= i < p.push(l).len() && p.push(l)[i] == x;
        if i < p.len() {
            assert(p[i] == x);
        }
    }
    if p.contains(x) {
        let i = choose|i: int| 0 <= i < p.len() && p[i] == x;
        assert(p.push(l)[i] == x);
    }
    assert(p.push(l)[p.len() as int] == l);
}

/// Deduplication keeps exactly the records that were there.
pub proof fn lemma_dedup_contains(s: Seq<ComplementaryCodeView>, x: ComplementaryCodeView)
    ensures
        spec_dedup(s).contains(x) <==> s.contains(x),
    decreases s.len(),
{
    if s.len() > 0 {
        let dl = s.drop_last();
        let l = s.last();
        lemma_dedup_contains(dl, x);
        assert(s =~= dl.push(l));
        lemma_push_contains(dl, l, x);
        if !dl.contains(l) {
            lemma_push_contains(spec_dedup(dl), l, x);
        }
    }
}

/// Whether an equal record is already in the list.
fn contains_code(v: &Vec<ComplementaryCode>, c: &ComplementaryCode) -> (r: bool)
    ensures
        r == recs_view(v@).contains(c@),
{
    let mut i: usize = 0;
    while i < v.len()
        invariant
            i <= v@.len(),
            forall|j: int| 0 <= j < i ==> recs_view(v@)[j] != c@,
        decreases v@.len() - i,
    {
        proof {
            assert(recs_view(v@)[i as int] == v@[i as int]@);
        }
        if v[i] == *c {
            return true;
        }
        i += 1;
    }
    false
}

/// Drops every record equal to an earlier one.
fn dedup_codes(all: Vec<ComplementaryCode>) -> (r: Vec<ComplementaryCode>)
    ensures
        recs_view(r@) == spec_dedup(recs_view(all@)),
{
    let ghost orig = recs_view(all@);
    let mut rest = all;
    let mut result: Vec<ComplementaryCode> = Vec::new();
    let ghost mut processed: Seq<ComplementaryCodeView> = Seq::empty();
    proof {
        assert(orig =~= processed + recs_view(rest@));
        assert(recs_view(result@) =~= spec_dedup(processed));
    }
    while rest.len() > 0
        invariant
            orig == processed + recs_view(rest@),
            recs_view(result@) == spec_dedup(processed),
        decreases rest@.len(),
    {
        let ghost pre_rest = recs_view(rest@);
        let c = rest.remove(0);
        let ghost cv = c@;
        proof {
            assert(cv == pre_rest[0]);
            assert(recs_view(rest@) =~= pre_rest.drop_first());
            assert(processed.push(cv) + recs_view(rest@) =~= processed + pre_rest);
            assert(processed.push(cv).drop_last() =~= processed);
            assert(processed.push(cv).last() == cv);
        }
        let dup = contains_code(&result, &c);
        proof {
            lemma_dedup_contains(processed, cv);
        }
        if !dup {
            let ghost pre_result = recs_view(result@);
            result.push(c);
            proof {
                assert(recs_view(result@) =~= pre_result.push(cv));
            }
        }
        proof {
            processed = processed.push(cv);
        }
    }
    proof {
        assert(orig =~= processed);
    }
    result
}

fn open_error_message(name: &String, e: &String) -> (r: String)
    ensures
        r@ == spec_open_error_message(name@, e@),
{
    let mut s = name.clone();
    s.append(": ");
    s.append(e.as_str());
    s
}

/// The records and warnings a list of rule files yields, or the error for
/// the first file that could not be read: files are taken in order, the
/// records are the concatenation of the files' records, the warnings are
/// those recorded up to the failure, if there is one.
pub open spec fn spec_read_files(files: Seq<RuleFileView>) -> (
    Result<Seq<ComplementaryCodeView>, Seq<char>>,
    Seq<(Seq<char>, ReportType)>,
)
    decreases files.len(),
{
    if files.len() == 0 {
        (Ok(Seq::empty()), Seq::empty())
    } else {
        match files[0].content {
            Err(e) => (Err(spec_open_error_message(files[0].name, e)), Seq::empty()),
            Ok(c) => {
                let fr = spec_parse_file(files[0].name, c);
                let rest = spec_read_files(files.drop_first());
                match rest.0 {
                    Err(e2) => (Err(e2), fr.1 + rest.1),
                    Ok(rs) => (Ok(fr.0 + rs), fr.1 + rest.1),
                }
            },
        }
    }
}

/// Reads every rule file in order: a file that cannot be read is fatal,
/// a row that cannot be parsed costs one warning, and the records kept
/// are deduplicated across all files.
pub fn read_complementary_code_rules_files(rule_files: &Vec<RuleFile>, report: &mut Report) -> (r:
    Result<Vec<ComplementaryCode>, String>)
    ensures
        final(report)@ == old(report)@ + spec_read_files(files_view(rule_files@)).1,
        match r {
            Ok(codes) => spec_read_files(files_view(rule_files@)).0 is Ok && recs_view(codes@)
                == spec_dedup(spec_read_files(files_view(rule_files@)).0->Ok_0),
            Err(m) => spec_read_files(files_view(rule_files@)).0 == Err::<
                Seq<ComplementaryCodeView>,
                Seq<char>,
            >(m@),
        },
{
    let ghost fv = files_view(rule_files@);
    let ghost rep0 = report@;
    let mut all: Vec<ComplementaryCode> = Vec::new();
    let ghost mut done_r: Seq<ComplementaryCodeView> = Seq::empty();
    let ghost mut done_w: Seq<(Seq<char>, ReportType)> = Seq::empty();
    proof {
        assert(fv.skip(0) =~= fv);
        assert(recs_view(all@) =~= done_r);
        assert(report@ =~= rep0 + done_w);
    }
    let mut f: usize = 0;
    while f < rule_files.len()
        invariant
            fv == files_view(rule_files@),
            f <= fv.len(),
            fv.len() == rule_files@.len(),
            rep0 == old(report)@,
            report@ == rep0 + done_w,
            recs_view(all@) == done_r,
            (match spec_read_files(fv.skip(f as int)).0 {
                Ok(rs) => spec_read_files(fv).0 == Ok::<Seq<ComplementaryCodeView>, Seq<char>>(
                    done_r + rs,
                ),
                Err(e) => spec_read_files(fv).0 == Err::<Seq<ComplementaryCodeView>, Seq<char>>(e),
            }),
            spec_read_files(fv).1 == done_w + spec_read_files(fv.skip(f as int)).1,
        decreases rule_files@.len() - f,
    {
        let ghost suffix = fv.skip(f as int);
        proof {
            assert(fv[f as int] == rule_files@[f as int]@);
            assert(suffix.len() > 0);
            assert(suffix[0] == fv[f as int]);
            assert(suffix.drop_first() =~= fv.skip(f as int + 1));
        }
        let file = &rule_files[f];
        match &file.content {
            Ok(c) => {
                let ghost fr = spec_parse_file(file.name@, c@);
                let ghost old_done_r = done_r;
                let ghost old_done_w = done_w;
                parse_file(&file.name, c, report, &mut all);
                proof {
                    done_r = old_done_r + fr.0;
                    done_w = old_done_w + fr.1;
                    assert(recs_view(all@) == done_r);
                    assert(report@ =~= rep0 + done_w);
                    let rest = spec_read_files(fv.skip(f as int + 1));
                    assert(spec_read_files(suffix) == (match rest.0 {
                        Err(e2) => (Err::<Seq<ComplementaryCodeView>, Seq<char>>(e2), fr.1 + rest.1),
                        Ok(rs) => (Ok::<Seq<ComplementaryCodeView>, Seq<char>>(fr.0 + rs), fr.1
                            + rest.1),
                    }));
                    match rest.0 {
                        Ok(rs) => {
                            assert(old_done_r + (fr.0 + rs) =~= done_r + rs);
                        },
                        Err(_) => {},
                    }
                    assert(old_done_w + (fr.1 + rest.1) =~= done_w + rest.1);
                }
            },
            Err(e) => {
                let msg = open_error_message(&file.name, e);
                proof {
                    assert(spec_read_files(suffix).0 == Err::<
                        Seq<ComplementaryCodeView>,
                        Seq<char>,
                    >(spec_open_error_message(file.name@, e@)));
                    assert(spec_read_files(suffix).1 =~= Seq::<(Seq<char>, ReportType)>::empty());
                    assert(done_w + spec_read_files(suffix).1 =~= done_w);
                }
                return Err(msg);
            },
        }
        f += 1;
    }
    proof {
        assert(fv.skip(f as int) =~= Seq::<RuleFileView>::empty());
        assert(done_r + Seq::<ComplementaryCodeView>::empty() =~= done_r);
        assert(done_w + Seq::<(Seq<char>, ReportType)>::empty() =~= done_w);
    }
    let result = dedup_codes(all);
    Ok(result)
}

/// The warning recorded when a record's target id is not in its
/// collection, and nothing otherwise.
pub open spec fn spec_not_found_warns(ms: Seq<EntityModel>, c: ComplementaryCodeView) -> Seq<
    (Seq<char>, ReportType),
> {
    if spec_find_id(ms, c.object_id) is None {
        seq![(spec_not_found_message(c), ReportType::ComplementaryObjectNotFound)]
    } else {
        Seq::empty()
    }
}

/// One collection after one record: the first object with the record's id
/// gains the record's code pair; a record without a target changes
/// nothing.
pub open spec fn spec_apply_to(ms: Seq<EntityModel>, c: ComplementaryCodeView) -> Seq<
    EntityModel,
> {
    match spec_find_id(ms, c.object_id) {
        None => ms,
        Some(i) => ms.update(i, model_insert(ms[i], (c.object_system, c.object_code))),
    }
}

/// Attaches one record's code to its target in `collection`; a missing
/// target costs one warning and is never fatal.
pub fn insert_code<T: Codes>(
    collection: &mut CollectionWithId<T>,
    code: ComplementaryCode,
    report: &mut Report,
)
    ensures
        final(collection).models() == spec_apply_to(old(collection).models(), code@),
        final(report)@ == old(report)@ + spec_not_found_warns(old(collection).models(), code@),
{
    let ghost cv = code@;
    match collection.get_idx(&code.object_id) {
        Some(idx) => {
            proof {
                lemma_find_id_some(collection.models(), code.object_id@, idx as int);
            }
            collection.insert_code_at(idx, code.object_system, code.object_code);
            proof {
                assert(final(report)@ =~= old(report)@ + spec_not_found_warns(
                    old(collection).models(),
                    cv,
                ));
            }
        },
        None => {
            let mut msg = String::from_str("Error inserting code: object_codes.txt: object=");
            msg.append(code.object_type.as_str());
            msg.append(",  object_id=");
            msg.append(code.object_id.as_str());
            msg.append(" not found");
            proof {
                assert(msg@ == spec_not_found_message(cv));
            }
            let ghost pre = report@;
            report.add_warning(msg, ReportType::ComplementaryObjectNotFound);
            proof {
                assert(report@ =~= pre + spec_not_found_warns(old(collection).models(), cv));
            }
        },
    }
}

/// The collections after one record, and the warnings it cost: the record
/// is dispatched on its kind to exactly one of the four collections.
pub open spec fn spec_apply_record(m: CollectionsModel, c: ComplementaryCodeView) -> (
    CollectionsModel,
    Seq<(Seq<char>, ReportType)>,
) {
    match c.object_type {
        ObjectType::Line => (
            CollectionsModel {
                lines: spec_apply_to(m.lines, c),
                routes: m.routes,
                stop_points: m.stop_points,
                stop_areas: m.stop_areas,
            },
            spec_not_found_warns(m.lines, c),
        ),
        ObjectType::Route => (
            CollectionsModel {
                lines: m.lines,
                routes: spec_apply_to(m.routes, c),
                stop_points: m.stop_points,
                stop_areas: m.stop_areas,
            },
            spec_not_found_warns(m.routes, c),
        ),
        ObjectType::StopPoint => (
            CollectionsModel {
                lines: m.lines,
                routes: m.routes,
                stop_points: spec_apply_to(m.stop_points, c),
                stop_areas: m.stop_areas,
            },
            spec_not_found_warns(m.stop_points, c),
        ),
        ObjectType::StopArea => (
            CollectionsModel {
                lines: m.lines,
                routes: m.routes,
                stop_points: m.stop_points,
                stop_areas: spec_apply_to(m.stop_areas, c),
            },
            spec_not_found_warns(m.stop_areas, c),
        ),
    }
}

/// The collections after a sequence of records, applied in order, and the
/// warnings they cost.
pub open spec fn spec_apply_records(m: CollectionsModel, rs: Seq<ComplementaryCodeView>) -> (
    CollectionsModel,
    Seq<(Seq<char>, ReportType)>,
)
    decreases rs.len(),
{
    if rs.len() == 0 {
        (m, Seq::empty())
    } else {
        let first = spec_apply_record(m, rs[0]);
        let rest = spec_apply_records(first.0, rs.drop_first());
        (rest.0, first.1 + rest.1)
    }
}

/// A whole run: read and deduplicate the rule files, apply every record,
/// and pair the final collections with the full warning log — or fail on
/// the first unreadable file, in which case nothing is applied.
pub open spec fn spec_apply_rules(m: CollectionsModel, files: Seq<RuleFileView>) -> Result<
    (CollectionsModel, Seq<(Seq<char>, ReportType)>),
    Seq<char>,
> {
    let read = spec_read_files(files);
    match read.0 {
        Err(e) => Err(e),
        Ok(rs) => {
            let applied = spec_apply_records(m, spec_dedup(rs));
            Ok((applied.0, read.1 + applied.1))
        },
    }
}

/// Applies the rule files to the collections and returns the report of
/// everything that was skipped; a file that cannot be read is fatal and
/// leaves the collections as they were.
pub fn apply_rules(collections: &mut Collections, complementary_code_rules_files: &Vec<RuleFile>)
    -> (r: Result<Report, String>)
    ensures
        match r {
            Ok(report) => spec_apply_rules(
                old(collections).model(),
                files_view(complementary_code_rules_files@),
            ) == Ok::<(CollectionsModel, Seq<(Seq<char>, ReportType)>), Seq<char>>(
                (final(collections).model(), report@),
            ),
            Err(m) => spec_apply_rules(
                old(collections).model(),
                files_view(complementary_code_rules_files@),
            ) == Err::<(CollectionsModel, Seq<(Seq<char>, ReportType)>), Seq<char>>(m@)
                && final(collections).model() == old(collections).model(),
        },
{
    let ghost fv = files_view(complementary_code_rules_files@);
    let mut report = Report::new();
    let codes = match read_complementary_code_rules_files(
        complementary_code_rules_files,
        &mut report,
    ) {
        Ok(cs) => cs,
        Err(e) => {
            return Err(e);
        },
    };
    let ghost m0 = collections.model();
    let ghost rs = recs_view(codes@);
    let ghost total = spec_apply_records(m0, rs);
    let ghost rep_read = report@;
    proof {
        assert(rep_read =~= spec_read_files(fv).1);
        assert(rs.skip(0) =~= rs);
    }
    let mut queue = codes;
    let ghost mut k: int = 0;
    let ghost mut done_w: Seq<(Seq<char>, ReportType)> = Seq::empty();
    proof {
        assert(done_w + total.1 =~= total.1);
        assert(rep_read + done_w =~= rep_read);
    }
    while queue.len() > 0
        invariant
            0 <= k <= rs.len(),
            recs_view(queue@) == rs.skip(k),
            report@ == rep_read + done_w,
            total.0 == spec_apply_records(collections.model(), rs.skip(k)).0,
            total.1 == done_w + spec_apply_records(collections.model(), rs.skip(k)).1,
        decreases queue@.len(),
    {
        let ghost pre_queue = recs_view(queue@);
        let ghost prev_m = collections.model();
        let c = queue.remove(0);
        let ghost cv = c@;
        proof {
            assert(cv == pre_queue[0]);
            assert(cv == rs[k]);
            assert(recs_view(queue@) =~= pre_queue.drop_first());
            assert(recs_view(queue@) =~= rs.skip(k + 1));
        }
        let ghost first = spec_apply_record(prev_m, cv);
        let ghost pre_rep = report@;
        match c.object_type {
            ObjectType::Line => insert_code(&mut collections.lines, c, &mut report),
            ObjectType::Route => insert_code(&mut collections.routes, c, &mut report),
            ObjectType::StopPoint => insert_code(&mut collections.stop_points, c, &mut report),
            ObjectType::StopArea => insert_code(&mut collections.stop_areas, c, &mut report),
        }
        proof {
            assert(collections.model() == first.0);
            assert(report@ == pre_rep + first.1);
            let rest = spec_apply_records(collections.model(), rs.skip(k + 1));
            assert(spec_apply_records(prev_m, rs.skip(k)) == (rest.0, first.1 + rest.1));
            assert(rep_read + (done_w + first.1) =~= pre_rep + first.1);
            assert(done_w + (first.1 + rest.1) =~= (done_w + first.1) + rest.1);
            done_w = done_w + first.1;
            k = k + 1;
        }
    }
    proof {
        assert(rs.skip(k) =~= Seq::<ComplementaryCodeView>::empty());
        assert(done_w + Seq::<(Seq<char>, ReportType)>::empty() =~= done_w);
        assert(report@ =~= spec_read_files(fv).1 + total.1);
    }
    Ok(report)
}

} // verus!
