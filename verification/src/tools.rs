//! Records and pure helpers for the surrounding tooling: interpreter and
//! package listings, linter results, and directory listings.
//!
//! The subprocesses that produce this data run in the driver; what lives
//! here is the data model and the text processing of their output.

use vstd::prelude::*;
use crate::protocol::JValue;
use crate::protocol::jfield;
use crate::protocol::jfield_or_null;
use crate::protocol::spec_str_field_or;
use crate::protocol::str_eq;

verus! {

/// Relies on `String::push`: appends the given character to the string.
pub assume_specification[ String::push ](s: &mut String, ch: char)
    ensures
        final(s)@ == old(s)@.push(ch),
;

/// One interpreter the toolchain manager knows of.
#[derive(Clone, Debug)]
pub struct PythonVersion {
    pub version: String,
    pub path: String,
    pub is_installed: bool,
}

/// One installed package.
#[derive(Clone, Debug)]
pub struct Package {
    pub name: String,
    pub version: String,
}

/// A package together with its direct dependencies.
#[derive(Clone, Debug)]
pub struct PackageWithDeps {
    pub name: String,
    pub version: String,
    pub dependencies: Vec<Package>,
    pub depth: u32,
}

/// The dependency listing of a project.
#[derive(Clone, Debug)]
pub struct DependencyTree {
    pub packages: Vec<PackageWithDeps>,
    pub total_count: u32,
}

/// One finding of a lint run.
#[derive(Clone, Debug)]
pub struct RuffDiagnostic {
    pub rule: String,
    pub message: String,
    pub line: u32,
    pub column: u32,
    pub end_line: u32,
    pub end_column: u32,
    pub severity: String,
    pub filename: String,
}

/// The outcome of a lint run.
#[derive(Clone, Debug)]
pub struct RuffCheckResult {
    pub diagnostics: Vec<RuffDiagnostic>,
    pub fixed: u32,
    pub errors: Vec<String>,
}

/// One entry of a directory listing.
#[derive(Clone, Debug)]
pub struct FileItem {
    pub name: String,
    pub path: String,
    pub is_directory: bool,
    pub size: Option<u64>,
}

/// Handle for the file operations the driver performs.
pub struct FileManager;

impl FileManager {
    pub fn new() -> FileManager {
        FileManager
    }
}

/// Handle for the interpreter operations the driver performs on a project.
pub struct PythonManager {
    pub project_path: String,
}

impl PythonManager {
    pub fn new(project_path: String) -> (r: PythonManager)
        ensures
            r.project_path == project_path,
    {
        PythonManager { project_path }
    }
}

/// The string in field `key`, when the field is present and a string.
pub open spec fn str_field(v: JValue, key: Seq<char>) -> Option<Seq<char>> {
    match jfield(v, key) {
        Some(JValue::Str(s)) => Some(s@),
        _ => None,
    }
}

/// The unsigned integer in field `key`, when present and unsigned.
pub open spec fn u64_field(v: JValue, key: Seq<char>) -> Option<u64> {
    match jfield(v, key) {
        Some(JValue::UInt(u)) => Some(u),
        _ => None,
    }
}

fn get_str_opt(v: &JValue, key: &str) -> (r: Option<String>)
    ensures
        match r {
            Some(s) => str_field(*v, key@) == Some(s@),
            None => str_field(*v, key@) is None,
        },
{
    match v.get(key) {
        Some(found) => match found {
            JValue::Str(s) => Some(s.clone()),
            _ => None,
        },
        None => None,
    }
}

fn get_u64_opt(v: &JValue, key: &str) -> (r: Option<u64>)
    ensures
        r == u64_field(*v, key@),
{
    match v.get(key) {
        Some(found) => match found {
            JValue::UInt(u) => Some(*u),
            _ => None,
        },
        None => None,
    }
}

/// One more than `c`, held at the top of the range.
pub open spec fn sat_inc(c: u64) -> u64 {
    if c < u64::MAX {
        (c + 1) as u64
    } else {
        c
    }
}

/// The linter record carries everything a finding requires: a rule code, a
/// message, and a start position.
pub open spec fn diagnostic_record(v: JValue) -> bool {
    &&& str_field(v, "code"@) is Some
    &&& str_field(v, "message"@) is Some
    &&& u64_field(jfield_or_null(v, "location"@), "row"@) is Some
    &&& u64_field(jfield_or_null(v, "location"@), "column"@) is Some
}

/// `d` is the finding read from one linter record: rule, message and start
/// position as given; a missing end position falls back beside the start; a
/// missing file name falls back to `fallback`; severity is fixed.
pub open spec fn is_diagnostic_of(v: JValue, fallback: Seq<char>, d: RuffDiagnostic) -> bool {
    let loc = jfield_or_null(v, "location"@);
    let endloc = jfield_or_null(v, "end_location"@);
    let row = u64_field(loc, "row"@)->Some_0;
    let col = u64_field(loc, "column"@)->Some_0;
    &&& d.rule@ == str_field(v, "code"@)->Some_0
    &&& d.message@ == str_field(v, "message"@)->Some_0
    &&& d.line == row as u32
    &&& d.column == col as u32
    &&& d.end_line == (match u64_field(endloc, "row"@) {
        Some(r) => r,
        None => row,
    }) as u32
    &&& d.end_column == (match u64_field(endloc, "column"@) {
        Some(c) => c,
        None => sat_inc(col),
    }) as u32
    &&& d.severity@ == "warning"@
    &&& d.filename@ == spec_str_field_or(v, "filename"@, fallback)
}

/// `ds` are the findings of `items`, in order: each complete record
/// contributes one, incomplete records contribute none.
pub open spec fn diagnostics_rel(
    items: Seq<JValue>,
    fallback: Seq<char>,
    ds: Seq<RuffDiagnostic>,
) -> bool
    decreases items.len(),
{
    if items.len() == 0 {
        ds.len() == 0
    } else if diagnostic_record(items.last()) {
        &&& ds.len() > 0
        &&& is_diagnostic_of(items.last(), fallback, ds.last())
        &&& diagnostics_rel(items.drop_last(), fallback, ds.drop_last())
    } else {
        diagnostics_rel(items.drop_last(), fallback, ds)
    }
}

/// Read the linter's JSON report: each record of the array that carries a
/// rule, message and start position contributes one finding, in order;
/// incomplete records are skipped, and anything but an array yields none.
pub fn parse_ruff_diagnostics(report: &JValue, fallback_file: &str) -> (r: Vec<RuffDiagnostic>)
    ensures
        (*report) matches JValue::Arr(items) ==> diagnostics_rel(items@, fallback_file@, r@),
        !((*report) is Arr) ==> r@.len() == 0,
{
    let items = match report {
        JValue::Arr(items) => items,
        _ => {
            return Vec::new();
        },
    };
    let ghost iv = items@;
    let mut out: Vec<RuffDiagnostic> = Vec::new();
    proof {
        assert(iv.take(0) =~= Seq::<JValue>::empty());
    }
    let mut i: usize = 0;
    while i < items.len()
        invariant
            i <= iv.len(),
            iv == items@,
            diagnostics_rel(iv.take(i as int), fallback_file@, out@),
        decreases iv.len() - i,
    {
        let v = &items[i];
        let null = JValue::Null;
        let loc = match v.get("location") {
            Some(l) => l,
            None => &null,
        };
        let ghost prev = out@;
        let code = get_str_opt(v, "code");
        let message = get_str_opt(v, "message");
        let row = get_u64_opt(loc, "row");
        let column = get_u64_opt(loc, "column");
        match (code, message, row, column) {
            (Some(rule), Some(message), Some(row), Some(column)) => {
                let endloc = match v.get("end_location") {
                    Some(l) => l,
                    None => &null,
                };
                let end_row = match get_u64_opt(endloc, "row") {
                    Some(r) => r,
                    None => row,
                };
                let end_column = match get_u64_opt(endloc, "column") {
                    Some(c) => c,
                    None => if column < u64::MAX {
                        column + 1
                    } else {
                        column
                    },
                };
                let d = RuffDiagnostic {
                    rule,
                    message,
                    line: #[verifier::truncate] (row as u32),
                    column: #[verifier::truncate] (column as u32),
                    end_line: #[verifier::truncate] (end_row as u32),
                    end_column: #[verifier::truncate] (end_column as u32),
                    severity: "warning".to_owned(),
                    filename: v.get_string_or("filename", fallback_file),
                };
                proof {
                    assert(jfield_or_null(iv[i as int], "location"@) == *loc);
                    assert(jfield_or_null(iv[i as int], "end_location"@) == *endloc);
                    assert(diagnostic_record(iv[i as int]));
                    assert(is_diagnostic_of(iv[i as int], fallback_file@, d));
                }
                out.push(d);
            },
            _ => {
                proof {
                    assert(jfield_or_null(iv[i as int], "location"@) == *loc);
                    assert(!diagnostic_record(iv[i as int]));
                }
            },
        }
        i = i + 1;
        proof {
            let pre = iv.take(i as int);
            assert(pre.drop_last() =~= iv.take(i - 1));
            assert(pre.last() == iv[i - 1]);
            if diagnostic_record(iv[i - 1]) {
                assert(out@.drop_last() =~= prev);
            }
        }
    }
    proof {
        assert(iv.take(iv.len() as int) =~= iv);
    }
    out
}

/// Assemble a lint run's result: the collected diagnostics, the count of
/// fixes applied, and an error list that holds the captured stderr exactly
/// when there was any.
pub fn build_check_result(
    diagnostics: Vec<RuffDiagnostic>,
    fixed: u32,
    stderr_trimmed: String,
) -> (r: RuffCheckResult)
    ensures
        r.diagnostics == diagnostics,
        r.fixed == fixed,
        stderr_trimmed@.len() == 0 ==> r.errors@.len() == 0,
        stderr_trimmed@.len() > 0 ==> r.errors@.len() == 1 && r.errors@[0] == stderr_trimmed,
{
    let mut errors: Vec<String> = Vec::new();
    if !stderr_trimmed.as_str().is_empty() {
        errors.push(stderr_trimmed);
    }
    RuffCheckResult { diagnostics, fixed, errors }
}

/// The characters of a string slice.
pub fn str_chars(s: &str) -> (r: Vec<char>)
    ensures
        r@ == s@,
{
    let n = s.unicode_len();
    let mut v: Vec<char> = Vec::new();
    let mut i: usize = 0;
    while i < n
        invariant
            n == s@.len(),
            i <= n,
            v@ == s@.take(i as int),
        decreases n - i,
    {
        v.push(s.get_char(i));
        i = i + 1;
        proof {
            assert(v@ =~= s@.take(i as int));
        }
    }
    proof {
        assert(s@.take(n as int) =~= s@);
    }
    v
}

/// A character the tree printer draws before a package name.
pub open spec fn is_tree_char(c: char) -> bool {
    c == '\u{251c}' || c == '\u{2514}' || c == '\u{2502}' || c == '\u{2500}' || c == ' '
}

/// First position at or after `i` that is not a tree-drawing character.
pub open spec fn skip_tree_from(s: Seq<char>, i: int) -> int
    decreases s.len() - i,
{
    if i < 0 || i >= s.len() {
        s.len() as int
    } else if is_tree_char(s[i]) {
        skip_tree_from(s, i + 1)
    } else {
        i
    }
}

/// First position at or after `i` where a space is followed by a `v`: the
/// version marker of a listing line.
pub open spec fn first_marker_from(s: Seq<char>, i: int) -> Option<int>
    decreases s.len() - i,
{
    if i < 0 || i + 2 > s.len() {
        None
    } else if s[i] == ' ' && s[i + 1] == 'v' {
        Some(i)
    } else {
        first_marker_from(s, i + 1)
    }
}

pub open spec fn is_blank_char(c: char) -> bool {
    c == ' ' || c == '\t'
}

/// First non-blank position in `[p, e)`, or `e`.
pub open spec fn skip_blank_from(s: Seq<char>, p: int, e: int) -> int
    decreases e - p,
{
    if p >= e {
        e
    } else if is_blank_char(s[p]) {
        skip_blank_from(s, p + 1, e)
    } else {
        p
    }
}

/// End of `[p, e)` with trailing blanks removed.
pub open spec fn drop_blank_back(s: Seq<char>, p: int, e: int) -> int
    decreases e - p,
{
    if e <= p {
        p
    } else if is_blank_char(s[e - 1]) {
        drop_blank_back(s, p, e - 1)
    } else {
        e
    }
}

/// The line carries a version marker after its tree prefix.
pub open spec fn line_has_package(line: Seq<char>) -> bool {
    first_marker_from(line, skip_tree_from(line, 0)) is Some
}

/// `p` is the package read from one listing line: the name between the tree
/// prefix and the ` v` marker, and the version after the marker, trimmed.
pub open spec fn line_package(line: Seq<char>, p: Package) -> bool {
    let k = skip_tree_from(line, 0);
    match first_marker_from(line, k) {
        Some(m) => {
            let n_hi = drop_blank_back(line, k, m);
            let v_lo = skip_blank_from(line, m + 2, line.len() as int);
            let v_hi = drop_blank_back(line, v_lo, line.len() as int);
            &&& p.name@ == line.subrange(k, n_hi)
            &&& p.version@ == line.subrange(v_lo, v_hi)
        },
        None => false,
    }
}

fn skip_tree(line: &Vec<char>, from: usize) -> (r: usize)
    requires
        from <= line@.len(),
    ensures
        r as int == skip_tree_from(line@, from as int),
        from <= r <= line@.len(),
{
    let mut i = from;
    while i < line.len()
        invariant
            from <= i <= line@.len(),
            skip_tree_from(line@, from as int) == skip_tree_from(line@, i as int),
        decreases line@.len() - i,
    {
        let c = line[i];
        if !(c == '\u{251c}' || c == '\u{2514}' || c == '\u{2502}' || c == '\u{2500}' || c == ' ')
        {
            return i;
        }
        i = i + 1;
    }
    i
}

fn find_marker(line: &Vec<char>, from: usize) -> (r: Option<usize>)
    requires
        from <= line@.len(),
    ensures
        match r {
            Some(m) => first_marker_from(line@, from as int) == Some(m as int) && from <= m && m
                + 2 <= line@.len(),
            None => first_marker_from(line@, from as int) is None,
        },
{
    let len = line.len();
    let mut i = from;
    while len >= 2 && i <= len - 2
        invariant
            len == line@.len(),
            from <= i,
            i <= len,
            first_marker_from(line@, from as int) == first_marker_from(line@, i as int),
        decreases len - i,
    {
        if line[i] == ' ' && line[i + 1] == 'v' {
            return Some(i);
        }
        i = i + 1;
    }
    None
}

fn skip_blank(line: &Vec<char>, p: usize, e: usize) -> (r: usize)
    requires
        p <= e <= line@.len(),
    ensures
        r as int == skip_blank_from(line@, p as int, e as int),
        p <= r <= e,
{
    let mut i = p;
    while i < e
        invariant
            p <= i <= e <= line@.len(),
            skip_blank_from(line@, p as int, e as int) == skip_blank_from(line@, i as int, e as int),
        decreases e - i,
    {
        let c = line[i];
        if !(c == ' ' || c == '\t') {
            return i;
        }
        i = i + 1;
    }
    i
}

fn drop_blank(line: &Vec<char>, p: usize, e: usize) -> (r: usize)
    requires
        p <= e <= line@.len(),
    ensures
        r as int == drop_blank_back(line@, p as int, e as int),
        p <= r <= e,
{
    let mut i = e;
    while i > p
        invariant
            p <= i <= e <= line@.len(),
            drop_blank_back(line@, p as int, e as int) == drop_blank_back(line@, p as int, i as int),
        decreases i,
    {
        let c = line[i - 1];
        if !(c == ' ' || c == '\t') {
            return i;
        }
        i = i - 1;
    }
    i
}

/// Read the package of one listing line, if the line carries one.
pub fn parse_tree_line(line: &Vec<char>) -> (r: Option<Package>)
    ensures
        match r {
            Some(p) => line_has_package(line@) && line_package(line@, p),
            None => !line_has_package(line@),
        },
{
    let k = skip_tree(line, 0);
    let m = match find_marker(line, k) {
        Some(m) => m,
        None => {
            return None;
        },
    };
    let len = line.len();
    let n_hi = drop_blank(line, k, m);
    let v_lo = skip_blank(line, m + 2, len);
    let v_hi = drop_blank(line, v_lo, len);
    Some(
        Package {
            name: chars_to_string(line, k, n_hi),
            version: chars_to_string(line, v_lo, v_hi),
        },
    )
}

/// First newline at or after `i`, or the end of the text.
pub open spec fn line_end_from(s: Seq<char>, i: int) -> int
    decreases s.len() - i,
{
    if i < 0 || i >= s.len() {
        s.len() as int
    } else if s[i] == '\n' {
        i
    } else {
        line_end_from(s, i + 1)
    }
}

/// One line's content `[i, e)`, with a trailing carriage return removed.
pub open spec fn line_content(s: Seq<char>, i: int, e: int) -> Seq<char> {
    if i < e && s[e - 1] == '\r' {
        s.subrange(i, e - 1)
    } else {
        s.subrange(i, e)
    }
}

proof fn lemma_line_end_bounds(s: Seq<char>, i: int)
    requires
        0 <= i <= s.len(),
    ensures
        i <= line_end_from(s, i) <= s.len(),
    decreases s.len() - i,
{
    if i < s.len() && s[i] != '\n' {
        lemma_line_end_bounds(s, i + 1);
    }
}

/// The lines of `s`, split at newlines, carriage returns stripped, no
/// trailing empty line for a final newline.
pub open spec fn spec_lines(s: Seq<char>) -> Seq<Seq<char>>
    decreases s.len(),
    via spec_lines_dec
{
    if s.len() == 0 {
        Seq::empty()
    } else {
        let e = line_end_from(s, 0);
        if e == s.len() {
            seq![line_content(s, 0, e)]
        } else {
            seq![line_content(s, 0, e)] + spec_lines(s.skip(e + 1))
        }
    }
}

#[via_fn]
proof fn spec_lines_dec(s: Seq<char>) {
    if s.len() > 0 {
        lemma_line_end_bounds(s, 0);
    }
}

proof fn lemma_line_end_skip(s: Seq<char>, pos: int, i: int)
    requires
        0 <= pos,
        0 <= i,
        pos + i <= s.len(),
    ensures
        line_end_from(s, pos + i) == pos + line_end_from(s.skip(pos), i),
    decreases s.len() - pos - i,
{
    if pos + i < s.len() {
        assert(s.skip(pos)[i] == s[pos + i]);
        if s[pos + i] != '\n' {
            lemma_line_end_skip(s, pos, i + 1);
        }
    }
}

fn find_nl(s: &Vec<char>, from: usize) -> (r: usize)
    requires
        from <= s@.len(),
    ensures
        r as int == line_end_from(s@, from as int),
        from <= r <= s@.len(),
{
    let mut i = from;
    while i < s.len()
        invariant
            from <= i <= s@.len(),
            line_end_from(s@, from as int) == line_end_from(s@, i as int),
        decreases s@.len() - i,
    {
        if s[i] == '\n' {
            return i;
        }
        i = i + 1;
    }
    i
}

/// Split a listing into its lines.
pub fn split_lines(s: &Vec<char>) -> (r: Vec<Vec<char>>)
    ensures
        r@.len() == spec_lines(s@).len(),
        forall|k: int| 0 <= k < r@.len() ==> (#[trigger] r@[k])@ == spec_lines(s@)[k],
{
    let mut out: Vec<Vec<char>> = Vec::new();
    proof {
        assert(s@.skip(0) =~= s@);
        assert(out@.map_values(|v: Vec<char>| v@) =~= Seq::<Seq<char>>::empty());
    }
    let mut pos: usize = 0;
    while pos < s.len()
        invariant
            pos <= s@.len(),
            spec_lines(s@) == out@.map_values(|v: Vec<char>| v@) + spec_lines(s@.skip(pos as int)),
        decreases s@.len() - pos,
    {
        let e = find_nl(s, pos);
        let content_end = if e > pos && s[e - 1] == '\r' {
            e - 1
        } else {
            e
        };
        let line = copy_chars(s, pos, content_end);
        out.push(line);
        proof {
            let t = s@.skip(pos as int);
            lemma_line_end_skip(s@, pos as int, 0);
            assert(line_end_from(t, 0) == e - pos);
            assert(t.subrange(0, e - pos) =~= s@.subrange(pos as int, e as int));
            if e > pos {
                assert(t[e - pos - 1] == s@[e - 1]);
            }
            assert(line_content(t, 0, e - pos) =~= s@.subrange(
                pos as int,
                content_end as int,
            ));
            if (e as int) < s@.len() {
                assert(t.skip(e - pos + 1) =~= s@.skip(e + 1));
            }
            assert(out@.map_values(|v: Vec<char>| v@) =~= out@.drop_last().map_values(
                |v: Vec<char>| v@,
            ).push(line@));
            assert(spec_lines(s@) =~= out@.map_values(|v: Vec<char>| v@) + spec_lines(
                s@.skip(if (e as int) < s@.len() {
                    e + 1
                } else {
                    e as int
                }),
            ));
        }
        if e < s.len() {
            pos = e + 1;
        } else {
            pos = e;
        }
    }
    proof {
        assert(spec_lines(s@.skip(pos as int)) =~= Seq::<Seq<char>>::empty());
        assert(spec_lines(s@) =~= out@.map_values(|v: Vec<char>| v@));
    }
    out
}

fn copy_chars(s: &Vec<char>, lo: usize, hi: usize) -> (r: Vec<char>)
    requires
        lo <= hi <= s@.len(),
    ensures
        r@ == s@.subrange(lo as int, hi as int),
{
    let mut out: Vec<char> = Vec::new();
    let mut i = lo;
    while i < hi
        invariant
            lo <= i <= hi <= s@.len(),
            out@ == s@.subrange(lo as int, i as int),
        decreases hi - i,
    {
        out.push(s[i]);
        i = i + 1;
        proof {
            assert(out@ =~= s@.subrange(lo as int, i as int));
        }
    }
    proof {
        assert(out@ =~= s@.subrange(lo as int, hi as int));
    }
    out
}

/// `ps` are the packages of `lines`, in order: each line carrying a version
/// marker contributes exactly one, the rest contribute none.
pub open spec fn tree_packages_rel(lines: Seq<Seq<char>>, ps: Seq<Package>) -> bool
    decreases lines.len(),
{
    if lines.len() == 0 {
        ps.len() == 0
    } else if line_has_package(lines.last()) {
        &&& ps.len() > 0
        &&& line_package(lines.last(), ps.last())
        &&& tree_packages_rel(lines.drop_last(), ps.drop_last())
    } else {
        tree_packages_rel(lines.drop_last(), ps)
    }
}

/// Parse a package listing: every line with a version marker contributes
/// one package, in listing order.
pub fn parse_uv_tree(output: &str) -> (r: Vec<Package>)
    ensures
        tree_packages_rel(spec_lines(output@), r@),
{
    let cs = str_chars(output);
    let lines = split_lines(&cs);
    let ghost lv = spec_lines(output@);
    let mut out: Vec<Package> = Vec::new();
    let mut i: usize = 0;
    while i < lines.len()
        invariant
            i <= lines@.len(),
            lines@.len() == lv.len(),
            forall|k: int| 0 <= k < lines@.len() ==> (#[trigger] lines@[k])@ == lv[k],
            tree_packages_rel(lv.take(i as int), out@),
        decreases lines@.len() - i,
    {
        let parsed = parse_tree_line(&lines[i]);
        let ghost prev = out@;
        match parsed {
            Some(p) => {
                out.push(p);
            },
            None => {},
        }
        i = i + 1;
        proof {
            let pre = lv.take(i as int);
            assert(pre.drop_last() =~= lv.take(i - 1));
            assert(pre.last() == lv[i - 1]);
            if line_has_package(lv[i - 1]) {
                assert(out@.drop_last() =~= prev);
            }
        }
    }
    proof {
        assert(lv.take(lv.len() as int) =~= lv);
    }
    out
}

/// Count of non-overlapping occurrences of `pat` in `s`, scanning left to
/// right and advancing past each match.
pub open spec fn count_occurrences(s: Seq<char>, pat: Seq<char>) -> nat
    decreases s.len(),
{
    if pat.len() == 0 || s.len() < pat.len() {
        0
    } else if s.take(pat.len() as int) == pat {
        1 + count_occurrences(s.skip(pat.len() as int), pat)
    } else {
        count_occurrences(s.skip(1), pat)
    }
}

/// Count the non-overlapping occurrences of `pat` in `s`, as the lint-fix
/// summary counts applied fixes in the linter's report.
pub fn count_matches(s: &str, pat: &str) -> (r: usize)
    requires
        pat@.len() > 0,
    ensures
        r == count_occurrences(s@, pat@),
{
    let cs = str_chars(s);
    let ps = str_chars(pat);
    let plen = ps.len();
    let slen = cs.len();
    let mut acc: usize = 0;
    let mut i: usize = 0;
    proof {
        assert(cs@.skip(0) =~= cs@);
    }
    while slen >= plen && i <= slen - plen
        invariant
            cs@ == s@,
            ps@ == pat@,
            plen == pat@.len(),
            slen == s@.len(),
            0 < plen,
            i <= slen,
            acc <= i,
            count_occurrences(s@, pat@) == acc + count_occurrences(s@.skip(i as int), pat@),
        decreases slen - i,
    {
        let mut hit = true;
        let mut j: usize = 0;
        while j < plen
            invariant
                cs@ == s@,
                ps@ == pat@,
                plen == pat@.len(),
                slen == s@.len(),
                i + plen <= slen,
                j <= plen,
                hit == (forall|k: int| 0 <= k < j ==> s@[i + k] == pat@[k]),
            decreases plen - j,
        {
            if cs[i + j] != ps[j] {
                hit = false;
                proof {
                    assert(s@[i + j] != pat@[j as int]);
                }
                j = plen;
            } else {
                j = j + 1;
            }
        }
        proof {
            let t = s@.skip(i as int);
            assert(t.len() >= plen);
            assert forall|k: int| 0 <= k < plen implies t.take(plen as int)[k] == s@[i + k] by {}
            if hit {
                assert(t.take(plen as int) =~= pat@);
                assert(t.skip(plen as int) =~= s@.skip(i + plen));
            } else {
                let bad = choose|k: int| 0 <= k < plen && s@[i + k] != pat@[k];
                assert(t.take(plen as int)[bad] != pat@[bad]);
                assert(t.take(plen as int) != pat@);
                assert(t.skip(1) =~= s@.skip(i + 1));
            }
        }
        if hit {
            acc = acc + 1;
            i = i + plen;
        } else {
            i = i + 1;
        }
    }
    proof {
        assert(count_occurrences(s@.skip(i as int), pat@) == 0);
    }
    acc
}

/// What `str::to_lowercase` returns: a function of the characters alone.
pub uninterp spec fn lower_of(s: Seq<char>) -> Seq<char>;

/// Relies on `str::to_lowercase`: the result depends on the characters
/// alone.
#[verifier::external_body]
fn lowercase(s: &str) -> (r: String)
    ensures
        r@ == lower_of(s@),
{
    s.to_lowercase()
}

/// Lexicographic order on character sequences.
pub open spec fn lex_le(a: Seq<char>, b: Seq<char>) -> bool
    decreases a.len(),
{
    if a.len() == 0 {
        true
    } else if b.len() == 0 {
        false
    } else if a[0] == b[0] {
        lex_le(a.drop_first(), b.drop_first())
    } else {
        a[0] < b[0]
    }
}

/// The lexicographic order is total.
pub proof fn lemma_lex_le_total(a: Seq<char>, b: Seq<char>)
    ensures
        lex_le(a, b) || lex_le(b, a),
    decreases a.len(),
{
    if a.len() > 0 && b.len() > 0 && a[0] == b[0] {
        lemma_lex_le_total(a.drop_first(), b.drop_first());
    }
}

/// The listing order: directories before files, then by lowercased name.
pub open spec fn listing_le(a: FileItem, b: FileItem) -> bool {
    if a.is_directory != b.is_directory {
        a.is_directory
    } else {
        lex_le(lower_of(a.name@), lower_of(b.name@))
    }
}

/// The listing order is total.
pub proof fn lemma_listing_le_total(a: FileItem, b: FileItem)
    ensures
        listing_le(a, b) || listing_le(b, a),
{
    if a.is_directory == b.is_directory {
        lemma_lex_le_total(lower_of(a.name@), lower_of(b.name@));
    }
}

/// Compare two character sequences lexicographically.
fn lex_le_chars(a: &Vec<char>, b: &Vec<char>) -> (r: bool)
    ensures
        r == lex_le(a@, b@),
{
    let mut i: usize = 0;
    proof {
        assert(a@.skip(0) =~= a@);
        assert(b@.skip(0) =~= b@);
    }
    while i < a.len() && i < b.len()
        invariant
            i <= a@.len(),
            i <= b@.len(),
            lex_le(a@, b@) == lex_le(a@.skip(i as int), b@.skip(i as int)),
            forall|k: int| 0 <= k < i ==> a@[k] == b@[k],
        decreases a@.len() - i,
    {
        let x = a[i];
        let y = b[i];
        proof {
            assert(a@.skip(i as int)[0] == a@[i as int]);
            assert(b@.skip(i as int)[0] == b@[i as int]);
            assert(a@.skip(i as int).drop_first() =~= a@.skip(i + 1));
            assert(b@.skip(i as int).drop_first() =~= b@.skip(i + 1));
        }
        if x != y {
            return x < y;
        }
        i = i + 1;
    }
    proof {
        if i >= a@.len() {
            assert(a@.skip(i as int).len() == 0);
        } else {
            assert(b@.skip(i as int).len() == 0);
            assert(a@.skip(i as int).len() > 0);
        }
    }
    a.len() <= b.len()
}

/// Decide the listing order of two entries.
pub fn listing_le_exec(a: &FileItem, b: &FileItem) -> (r: bool)
    ensures
        r == listing_le(*a, *b),
{
    if a.is_directory != b.is_directory {
        a.is_directory
    } else {
        let la = lowercase(a.name.as_str());
        let lb = lowercase(b.name.as_str());
        let ca = str_chars(la.as_str());
        let cb = str_chars(lb.as_str());
        lex_le_chars(&ca, &cb)
    }
}

proof fn lemma_insert_multiset(s: Seq<FileItem>, i: int, x: FileItem)
    requires
        0 <= i <= s.len(),
    ensures
        s.insert(i, x).to_multiset() =~= s.to_multiset().insert(x),
{
    broadcast use vstd::seq_lib::group_to_multiset_ensures;

    let t = s.insert(i, x);
    assert(t =~= s.take(i).push(x) + s.skip(i));
    assert(s =~= s.take(i) + s.skip(i));
    vstd::seq_lib::lemma_multiset_commutative(s.take(i).push(x), s.skip(i));
    vstd::seq_lib::lemma_multiset_commutative(s.take(i), s.skip(i));
    assert(s.take(i).push(x).to_multiset() =~= s.take(i).to_multiset().insert(x));
    assert(t.to_multiset() =~= s.to_multiset().insert(x));
}

/// Sort a directory listing into presentation order: directories first,
/// then case-folded names.  The result is a permutation of the input,
/// ordered pairwise by the listing order.
pub fn sort_listing(items: Vec<FileItem>) -> (r: Vec<FileItem>)
    ensures
        r@.len() == items@.len(),
        forall|k: int| 0 <= k < r@.len() - 1 ==> listing_le(#[trigger] r@[k], r@[k + 1]),
        r@.to_multiset() == items@.to_multiset(),
{
    let ghost orig = items@;
    let mut rest = items;
    let mut out: Vec<FileItem> = Vec::new();
    proof {
        broadcast use vstd::seq_lib::group_to_multiset_ensures;

        assert(out@.to_multiset().add(rest@.to_multiset()) =~= orig.to_multiset());
    }
    while rest.len() > 0
        invariant
            out@.len() + rest@.len() == orig.len(),
            forall|k: int| 0 <= k < out@.len() - 1 ==> listing_le(#[trigger] out@[k], out@[k + 1]),
            out@.to_multiset().add(rest@.to_multiset()) == orig.to_multiset(),
        decreases rest@.len(),
    {
        let ghost rest_pre = rest@;
        let item = rest.remove(0);
        let mut j: usize = 0;
        let mut stop = false;
        while !stop && j < out.len()
            invariant
                j <= out@.len(),
                forall|k: int| 0 <= k < j ==> listing_le(#[trigger] out@[k], item),
                stop ==> j < out@.len() && !listing_le(out@[j as int], item),
            decreases out@.len() - j + (if stop {
                0int
            } else {
                1int
            }),
        {
            if listing_le_exec(&out[j], &item) {
                j = j + 1;
            } else {
                stop = true;
            }
        }
        proof {
            if j < out@.len() {
                lemma_listing_le_total(out@[j as int], item);
                assert(listing_le(item, out@[j as int]));
            }
        }
        let ghost out_pre = out@;
        let ghost inserted = item;
        out.insert(j, item);
        proof {
            broadcast use vstd::seq_lib::group_to_multiset_ensures;

            assert(out@ == out_pre.insert(j as int, inserted));
            assert forall|k: int| 0 <= k < out@.len() - 1 implies listing_le(
                #[trigger] out@[k],
                out@[k + 1],
            ) by {
                if k + 1 < j {
                    assert(out@[k] == out_pre[k]);
                    assert(out@[k + 1] == out_pre[k + 1]);
                } else if k + 1 == j {
                    assert(out@[k] == out_pre[k]);
                    assert(out@[k + 1] == inserted);
                } else if k == j {
                    assert(out@[k] == inserted);
                    assert(out@[k + 1] == out_pre[k]);
                } else {
                    assert(out@[k] == out_pre[k - 1]);
                    assert(out@[k + 1] == out_pre[k]);
                }
            }
            lemma_insert_multiset(out_pre, j as int, inserted);
            assert(rest_pre.contains(inserted)) by {
                assert(rest_pre[0] == inserted);
            }
            assert(rest@ == rest_pre.remove(0));
            assert(rest@.to_multiset() =~= rest_pre.to_multiset().remove(inserted));
            assert(out@.to_multiset().add(rest@.to_multiset()) =~= orig.to_multiset());
        }
    }
    proof {
        broadcast use vstd::seq_lib::group_to_multiset_ensures;

        assert(rest@.to_multiset() =~= vstd::multiset::Multiset::<FileItem>::empty());
        assert(out@.to_multiset() =~= orig.to_multiset());
        assert(out@.to_multiset().len() == orig.to_multiset().len());
    }
    out
}

/// The line's tree depth: one level per four prefix characters.
pub open spec fn line_depth(line: Seq<char>) -> int {
    skip_tree_from(line, 0) / 4
}

/// A line that starts a root package entry.
pub open spec fn is_root_line(line: Seq<char>) -> bool {
    line_has_package(line) && line_depth(line) == 0
}

/// Count of root entries among the lines.
pub open spec fn count_roots(lines: Seq<Seq<char>>) -> nat
    decreases lines.len(),
{
    if lines.len() == 0 {
        0
    } else {
        count_roots(lines.drop_last()) + (if is_root_line(lines.last()) {
            1nat
        } else {
            0nat
        })
    }
}

/// `p` carries the name and version of root line `line`, at depth zero.
pub open spec fn root_entry(line: Seq<char>, p: PackageWithDeps) -> bool {
    let k = skip_tree_from(line, 0);
    match first_marker_from(line, k) {
        Some(m) => {
            let n_hi = drop_blank_back(line, k, m);
            let v_lo = skip_blank_from(line, m + 2, line.len() as int);
            let v_hi = drop_blank_back(line, v_lo, line.len() as int);
            &&& p.name@ == line.subrange(k, n_hi)
            &&& p.version@ == line.subrange(v_lo, v_hi)
            &&& p.depth == 0
        },
        None => false,
    }
}

/// `ps` are the root packages of `lines`, in order: each root line
/// contributes one entry, every other line contributes none.
pub open spec fn roots_rel(lines: Seq<Seq<char>>, ps: Seq<PackageWithDeps>) -> bool
    decreases lines.len(),
{
    if lines.len() == 0 {
        ps.len() == 0
    } else if is_root_line(lines.last()) {
        &&& ps.len() > 0
        &&& root_entry(lines.last(), ps.last())
        &&& roots_rel(lines.drop_last(), ps.drop_last())
    } else {
        roots_rel(lines.drop_last(), ps)
    }
}

/// The roots relation only reads a package's name, version and depth, so
/// attaching dependencies to the last entry preserves it.
proof fn lemma_roots_rel_update_last(lines: Seq<Seq<char>>, ps: Seq<PackageWithDeps>, q: PackageWithDeps)
    requires
        roots_rel(lines, ps),
        ps.len() > 0,
        q.name == ps.last().name,
        q.version == ps.last().version,
        q.depth == ps.last().depth,
    ensures
        roots_rel(lines, ps.update(ps.len() - 1, q)),
    decreases lines.len(),
{
    let ps2 = ps.update(ps.len() - 1, q);
    if lines.len() == 0 {
    } else if is_root_line(lines.last()) {
        assert(ps2.last() == q);
        assert(ps2.drop_last() =~= ps.drop_last());
    } else {
        lemma_roots_rel_update_last(lines.drop_last(), ps, q);
    }
}

/// The sequence a pending entry contributes: itself, or nothing.
pub open spec fn pending_seq(c: Option<PackageWithDeps>) -> Seq<PackageWithDeps> {
    match c {
        Some(p) => seq![p],
        None => Seq::empty(),
    }
}

/// Parse a dependency-tree listing and group it: each depth-zero line with
/// a version marker opens a root entry, deeper marked lines attach to the
/// open entry as its dependencies, and the total counts the roots.
pub fn parse_dependency_tree(output: &str) -> (r: DependencyTree)
    ensures
        roots_rel(spec_lines(output@), r.packages@),
        r.total_count == count_roots(spec_lines(output@)) as u32,
{
    let cs = str_chars(output);
    let lines = split_lines(&cs);
    let ghost lv = spec_lines(output@);
    let mut packages: Vec<PackageWithDeps> = Vec::new();
    let mut current: Option<PackageWithDeps> = None;
    let mut total: usize = 0;
    let mut i: usize = 0;
    while i < lines.len()
        invariant
            i <= lines@.len(),
            lines@.len() == lv.len(),
            forall|k: int| 0 <= k < lines@.len() ==> (#[trigger] lines@[k])@ == lv[k],
            roots_rel(lv.take(i as int), packages@ + pending_seq(current)),
            total == count_roots(lv.take(i as int)),
            total <= i,
        decreases lines@.len() - i,
    {
        let line = &lines[i];
        let k = skip_tree(line, 0);
        let parsed = parse_tree_line(line);
        let ghost pre_all = packages@ + pending_seq(current);
        match parsed {
            Some(p) => {
                if k < 4 {
                    match current.take() {
                        Some(done) => packages.push(done),
                        None => {},
                    }
                    current = Some(
                        PackageWithDeps {
                            name: p.name,
                            version: p.version,
                            dependencies: Vec::new(),
                            depth: 0,
                        },
                    );
                    total = total + 1;
                } else {
                    match &mut current {
                        Some(c) => {
                            c.dependencies.push(p);
                        },
                        None => {},
                    }
                }
            },
            None => {},
        }
        i = i + 1;
        proof {
            let pre = lv.take(i as int);
            assert(pre.drop_last() =~= lv.take(i - 1));
            assert(pre.last() == lv[i - 1]);
            let now_all = packages@ + pending_seq(current);
            if is_root_line(lv[i - 1]) {
                assert(now_all.last() == current->Some_0);
                assert(now_all.drop_last() =~= pre_all);
            } else if line_has_package(lv[i - 1]) {
                if current is Some {
                    let c = current->Some_0;
                    assert(now_all =~= pre_all.update(pre_all.len() - 1, c));
                    lemma_roots_rel_update_last(lv.take(i - 1), pre_all, c);
                } else {
                    assert(now_all =~= pre_all);
                }
            } else {
                assert(now_all =~= pre_all);
            }
        }
    }
    let ghost finish_pre = packages@ + pending_seq(current);
    match current {
        Some(done) => packages.push(done),
        None => {},
    }
    proof {
        assert(lv.take(lv.len() as int) =~= lv);
        assert(packages@ =~= finish_pre);
    }
    DependencyTree { packages, total_count: #[verifier::truncate] (total as u32) }
}

/// A character with the Unicode white-space property, as whitespace
/// tokenization defines it.
pub open spec fn is_ws_char(c: char) -> bool {
    ||| c == '\u{9}'
    ||| c == '\u{a}'
    ||| c == '\u{b}'
    ||| c == '\u{c}'
    ||| c == '\u{d}'
    ||| c == ' '
    ||| c == '\u{85}'
    ||| c == '\u{a0}'
    ||| c == '\u{1680}'
    ||| ('\u{2000}' <= c && c <= '\u{200a}')
    ||| c == '\u{2028}'
    ||| c == '\u{2029}'
    ||| c == '\u{202f}'
    ||| c == '\u{205f}'
    ||| c == '\u{3000}'
}

fn is_ws_char_exec(c: char) -> (r: bool)
    ensures
        r == is_ws_char(c),
{
    c == '\u{9}' || c == '\u{a}' || c == '\u{b}' || c == '\u{c}' || c == '\u{d}' || c == ' '
        || c == '\u{85}' || c == '\u{a0}' || c == '\u{1680}' || ('\u{2000}' <= c && c
        <= '\u{200a}') || c == '\u{2028}' || c == '\u{2029}' || c == '\u{202f}' || c == '\u{205f}'
        || c == '\u{3000}'
}

/// First non-white-space position in `[p, e)`, or `e`.
pub open spec fn skip_ws_char_from(s: Seq<char>, p: int, e: int) -> int
    decreases e - p,
{
    if p >= e {
        e
    } else if is_ws_char(s[p]) {
        skip_ws_char_from(s, p + 1, e)
    } else {
        p
    }
}

/// First white-space position in `[p, e)`, or `e`.
pub open spec fn next_ws_from(s: Seq<char>, p: int, e: int) -> int
    decreases e - p,
{
    if p >= e {
        e
    } else if is_ws_char(s[p]) {
        p
    } else {
        next_ws_from(s, p + 1, e)
    }
}

/// The first whitespace-separated token of the line, if any.
pub open spec fn first_token(line: Seq<char>) -> Option<Seq<char>> {
    let lo = skip_ws_char_from(line, 0, line.len() as int);
    if lo >= line.len() {
        None
    } else {
        Some(line.subrange(lo, next_ws_from(line, lo, line.len() as int)))
    }
}

/// The line names the interpreter and has a token to report.
pub open spec fn reports_version(line: Seq<char>) -> bool {
    count_occurrences(line, "python"@) > 0 && first_token(line) is Some
}

/// `vs` are the version labels of `lines`, in order: every line that
/// mentions the interpreter contributes its first token.
pub open spec fn versions_rel(lines: Seq<Seq<char>>, vs: Seq<String>) -> bool
    decreases lines.len(),
{
    if lines.len() == 0 {
        vs.len() == 0
    } else if reports_version(lines.last()) {
        &&& vs.len() > 0
        &&& Some(vs.last()@) == first_token(lines.last())
        &&& versions_rel(lines.drop_last(), vs.drop_last())
    } else {
        versions_rel(lines.drop_last(), vs)
    }
}

/// Parse the toolchain's interpreter listing: each line that mentions the
/// interpreter reports its first whitespace-separated token as the version
/// label.
pub fn parse_python_versions(output: &str) -> (r: Vec<String>)
    ensures
        versions_rel(spec_lines(output@), r@),
{
    proof {
        reveal_strlit("python");
    }
    let cs = str_chars(output);
    let lines = split_lines(&cs);
    let ghost lv = spec_lines(output@);
    let mut out: Vec<String> = Vec::new();
    let mut i: usize = 0;
    while i < lines.len()
        invariant
            i <= lines@.len(),
            lines@.len() == lv.len(),
            forall|k: int| 0 <= k < lines@.len() ==> (#[trigger] lines@[k])@ == lv[k],
            versions_rel(lv.take(i as int), out@),
            "python"@.len() > 0,
        decreases lines@.len() - i,
    {
        let line = &lines[i];
        let text = chars_to_string(line, 0, line.len());
        proof {
            assert(text@ =~= line@);
        }
        let ghost prev = out@;
        if count_matches(text.as_str(), "python") > 0 {
            let len = line.len();
            let mut lo: usize = 0;
            while lo < len && is_ws_char_exec(line[lo])
                invariant
                    lo <= len,
                    len == line@.len(),
                    skip_ws_char_from(line@, 0, len as int) == skip_ws_char_from(
                        line@,
                        lo as int,
                        len as int,
                    ),
                decreases len - lo,
            {
                lo = lo + 1;
            }
            if lo < len {
                let mut hi: usize = lo;
                while hi < len && !is_ws_char_exec(line[hi])
                    invariant
                        lo <= hi <= len,
                        len == line@.len(),
                        next_ws_from(line@, lo as int, len as int) == next_ws_from(
                            line@,
                            hi as int,
                            len as int,
                        ),
                    decreases len - hi,
                {
                    hi = hi + 1;
                }
                out.push(chars_to_string(line, lo, hi));
            }
        }
        i = i + 1;
        proof {
            let pre = lv.take(i as int);
            assert(pre.drop_last() =~= lv.take(i - 1));
            assert(pre.last() == lv[i - 1]);
            if reports_version(lv[i - 1]) {
                assert(out@.drop_last() =~= prev);
            }
        }
    }
    proof {
        assert(lv.take(lv.len() as int) =~= lv);
    }
    out
}

/// The line with leading and trailing blanks removed.
pub open spec fn trimmed(line: Seq<char>) -> Seq<char> {
    let lo = skip_blank_from(line, 0, line.len() as int);
    line.subrange(lo, drop_blank_back(line, lo, line.len() as int))
}

/// First position at or after `lo` in `[lo, hi)` that is not a quote.
pub open spec fn skip_quotes(s: Seq<char>, lo: int, hi: int) -> int
    decreases hi - lo,
{
    if lo >= hi {
        lo
    } else if s[lo] == '"' {
        skip_quotes(s, lo + 1, hi)
    } else {
        lo
    }
}

/// End of `[lo, hi)` with every trailing quote-comma pair removed.
pub open spec fn drop_quote_comma(s: Seq<char>, lo: int, hi: int) -> int
    decreases hi - lo,
{
    if hi - lo >= 2 && s[hi - 2] == '"' && s[hi - 1] == ',' {
        drop_quote_comma(s, lo, hi - 2)
    } else {
        hi
    }
}

/// End of `[lo, hi)` with trailing quotes removed.
pub open spec fn drop_quotes(s: Seq<char>, lo: int, hi: int) -> int
    decreases hi - lo,
{
    if hi > lo && s[hi - 1] == '"' {
        drop_quotes(s, lo, hi - 1)
    } else {
        hi
    }
}

/// First position in `[i, hi - 1)` where `a` is followed by `b`.
pub open spec fn first_pair_from(s: Seq<char>, i: int, hi: int, a: char, b: char) -> Option<int>
    decreases hi - i,
{
    if i < 0 || i + 2 > hi || hi > s.len() {
        None
    } else if s[i] == a && s[i + 1] == b {
        Some(i)
    } else {
        first_pair_from(s, i + 1, hi, a, b)
    }
}

/// A manifest list line holding one quoted dependency: quoted and
/// comma-terminated after trimming.
pub open spec fn is_dep_line(line: Seq<char>) -> bool {
    let t = trimmed(line);
    t.len() > 0 && t[0] == '"' && t[t.len() - 1] == ','
}

/// `p` is the package read from one quoted dependency line: quotes and the
/// trailing comma stripped, then split at the first version constraint.
pub open spec fn dep_entry(line: Seq<char>, p: Package) -> bool {
    let t = trimmed(line);
    let lo = skip_quotes(t, 0, t.len() as int);
    let hi = drop_quotes(t, lo, drop_quote_comma(t, lo, t.len() as int));
    match first_pair_from(t, lo, hi, '>', '=') {
        Some(e) => {
            &&& p.name@ == t.subrange(lo, e)
            &&& p.version@ == t.subrange(e + 2, hi) + " (from pyproject.toml)"@
        },
        None => match first_pair_from(t, lo, hi, '=', '=') {
            Some(e) => {
                &&& p.name@ == t.subrange(lo, e)
                &&& p.version@ == t.subrange(e + 2, hi)
            },
            None => {
                &&& p.name@ == t.subrange(lo, hi)
                &&& p.version@ == "latest (from pyproject.toml)"@
            },
        },
    }
}

/// The line opening the manifest's dependency list.
pub open spec fn is_deps_header(line: Seq<char>) -> bool {
    trimmed(line) == "dependencies = ["@
}

/// The line closing a manifest list.
pub open spec fn is_close_bracket(line: Seq<char>) -> bool {
    trimmed(line) == "]"@
}

/// First header line at or after `i`.
pub open spec fn first_header_from(lines: Seq<Seq<char>>, i: int) -> Option<int>
    decreases lines.len() - i,
{
    if i < 0 || i >= lines.len() {
        None
    } else if is_deps_header(lines[i]) {
        Some(i)
    } else {
        first_header_from(lines, i + 1)
    }
}

/// First closing line at or after `i`, or the end.
pub open spec fn first_close_from(lines: Seq<Seq<char>>, i: int) -> int
    decreases lines.len() - i,
{
    if i < 0 || i >= lines.len() {
        lines.len() as int
    } else if is_close_bracket(lines[i]) {
        i
    } else {
        first_close_from(lines, i + 1)
    }
}

/// `ps` are the packages of the dependency-list lines, in order: each
/// quoted line contributes one, the rest contribute none.
pub open spec fn deps_rel(lines: Seq<Seq<char>>, ps: Seq<Package>) -> bool
    decreases lines.len(),
{
    if lines.len() == 0 {
        ps.len() == 0
    } else if is_dep_line(lines.last()) {
        &&& ps.len() > 0
        &&& dep_entry(lines.last(), ps.last())
        &&& deps_rel(lines.drop_last(), ps.drop_last())
    } else {
        deps_rel(lines.drop_last(), ps)
    }
}

fn trim_bounds(line: &Vec<char>) -> (r: (usize, usize))
    ensures
        r.0 as int == skip_blank_from(line@, 0, line@.len() as int),
        r.1 as int == drop_blank_back(line@, r.0 as int, line@.len() as int),
        r.0 <= r.1 <= line@.len(),
{
    let lo = skip_blank(line, 0, line.len());
    let hi = drop_blank(line, lo, line.len());
    (lo, hi)
}

fn is_header_line(line: &Vec<char>) -> (r: bool)
    ensures
        r == is_deps_header(line@),
{
    let (lo, hi) = trim_bounds(line);
    let t = chars_to_string(line, lo, hi);
    str_eq(t.as_str(), "dependencies = [")
}

fn is_close_line(line: &Vec<char>) -> (r: bool)
    ensures
        r == is_close_bracket(line@),
{
    let (lo, hi) = trim_bounds(line);
    let t = chars_to_string(line, lo, hi);
    str_eq(t.as_str(), "]")
}

fn find_pair(line: &Vec<char>, from: usize, hi: usize, a: char, b: char) -> (r: Option<usize>)
    requires
        from <= line@.len(),
        hi <= line@.len(),
    ensures
        match r {
            Some(e) => first_pair_from(line@, from as int, hi as int, a, b) == Some(e as int)
                && from <= e && e + 2 <= hi,
            None => first_pair_from(line@, from as int, hi as int, a, b) is None,
        },
{
    let mut i = from;
    while hi >= 2 && i <= hi - 2
        invariant
            from <= i,
            i <= line@.len(),
            hi <= line@.len(),
            first_pair_from(line@, from as int, hi as int, a, b) == first_pair_from(
                line@,
                i as int,
                hi as int,
                a,
                b,
            ),
        decreases hi - i,
    {
        if line[i] == a && line[i + 1] == b {
            return Some(i);
        }
        i = i + 1;
    }
    None
}

/// Read the package of one quoted dependency line, if the line is one.
pub fn parse_dep_line(line: &Vec<char>) -> (r: Option<Package>)
    ensures
        match r {
            Some(p) => is_dep_line(line@) && dep_entry(line@, p),
            None => !is_dep_line(line@),
        },
{
    let (t_lo, t_hi) = trim_bounds(line);
    let ghost t = trimmed(line@);
    proof {
        assert(t =~= line@.subrange(t_lo as int, t_hi as int));
    }
    if t_lo == t_hi || !(line[t_lo] == '"') || !(line[t_hi - 1] == ',') {
        proof {
            if t_lo < t_hi {
                assert(t[0] == line@[t_lo as int]);
                assert(t[t.len() - 1] == line@[t_hi - 1]);
            }
        }
        return None;
    }
    proof {
        assert(t[0] == line@[t_lo as int]);
        assert(t[t.len() - 1] == line@[t_hi - 1]);
        assert(is_dep_line(line@));
    }
    // strip leading quotes
    let mut lo = t_lo;
    while lo < t_hi && line[lo] == '"'
        invariant
            t_lo <= lo <= t_hi <= line@.len(),
            t == line@.subrange(t_lo as int, t_hi as int),
            skip_quotes(t, 0, t.len() as int) == skip_quotes(t, lo - t_lo, t.len() as int),
        decreases t_hi - lo,
    {
        proof {
            assert(t[lo - t_lo] == line@[lo as int]);
        }
        lo = lo + 1;
    }
    proof {
        if lo < t_hi {
            assert(t[lo - t_lo] == line@[lo as int]);
        }
        assert(skip_quotes(t, lo - t_lo, t.len() as int) == lo - t_lo);
    }
    // strip trailing quote-comma pairs
    let mut hi = t_hi;
    while hi - lo >= 2 && line[hi - 2] == '"' && line[hi - 1] == ','
        invariant
            t_lo <= lo <= hi <= t_hi <= line@.len(),
            t == line@.subrange(t_lo as int, t_hi as int),
            drop_quote_comma(t, lo - t_lo, t.len() as int) == drop_quote_comma(
                t,
                lo - t_lo,
                hi - t_lo,
            ),
        decreases hi,
    {
        proof {
            assert(t[hi - t_lo - 2] == line@[hi - 2]);
            assert(t[hi - t_lo - 1] == line@[hi - 1]);
        }
        hi = hi - 2;
    }
    proof {
        if hi - lo >= 2 {
            assert(t[hi - t_lo - 2] == line@[hi - 2]);
            assert(t[hi - t_lo - 1] == line@[hi - 1]);
        }
        assert(drop_quote_comma(t, lo - t_lo, hi - t_lo) == hi - t_lo);
    }
    // strip trailing quotes
    while hi > lo && line[hi - 1] == '"'
        invariant
            t_lo <= lo <= hi <= t_hi <= line@.len(),
            t == line@.subrange(t_lo as int, t_hi as int),
            drop_quotes(t, lo - t_lo, drop_quote_comma(t, lo - t_lo, t.len() as int))
                == drop_quotes(t, lo - t_lo, hi - t_lo),
        decreases hi,
    {
        proof {
            assert(t[hi - t_lo - 1] == line@[hi - 1]);
        }
        hi = hi - 1;
    }
    proof {
        if hi > lo {
            assert(t[hi - t_lo - 1] == line@[hi - 1]);
        }
        assert(drop_quotes(t, lo - t_lo, hi - t_lo) == hi - t_lo);
    }
    match find_pair(line, lo, hi, '>', '=') {
        Some(e) => {
            proof {
                lemma_pair_offset(line@, t, t_lo as int, lo as int, hi as int, e as int, '>', '=');
                assert(line@.subrange(lo as int, e as int) =~= t.subrange(lo - t_lo, e - t_lo));
                assert(line@.subrange(e + 2, hi as int) =~= t.subrange(e + 2 - t_lo, hi - t_lo));
            }
            let mut version = chars_to_string(line, e + 2, hi);
            version.append(" (from pyproject.toml)");
            Some(Package { name: chars_to_string(line, lo, e), version })
        },
        None => {
            proof {
                lemma_no_pair_offset(line@, t, t_lo as int, lo as int, hi as int, '>', '=');
            }
            match find_pair(line, lo, hi, '=', '=') {
                Some(e) => {
                    proof {
                        lemma_pair_offset(
                            line@,
                            t,
                            t_lo as int,
                            lo as int,
                            hi as int,
                            e as int,
                            '=',
                            '=',
                        );
                        assert(line@.subrange(lo as int, e as int) =~= t.subrange(
                            lo - t_lo,
                            e - t_lo,
                        ));
                        assert(line@.subrange(e + 2, hi as int) =~= t.subrange(
                            e + 2 - t_lo,
                            hi - t_lo,
                        ));
                    }
                    Some(
                        Package {
                            name: chars_to_string(line, lo, e),
                            version: chars_to_string(line, e + 2, hi),
                        },
                    )
                },
                None => {
                    proof {
                        lemma_no_pair_offset(line@, t, t_lo as int, lo as int, hi as int, '=', '=');
                        assert(line@.subrange(lo as int, hi as int) =~= t.subrange(
                            lo - t_lo,
                            hi - t_lo,
                        ));
                    }
                    Some(
                        Package {
                            name: chars_to_string(line, lo, hi),
                            version: String::from_str("latest (from pyproject.toml)"),
                        },
                    )
                },
            }
        },
    }
}

/// A pair found in the raw line corresponds to the same pair in the trimmed
/// view, shifted by the trim offset.
proof fn lemma_pair_offset(
    raw: Seq<char>,
    t: Seq<char>,
    off: int,
    lo: int,
    hi: int,
    e: int,
    a: char,
    b: char,
)
    requires
        0 <= off <= lo <= hi <= raw.len(),
        off + t.len() >= hi,
        forall|k: int| 0 <= k < t.len() ==> t[k] == raw[off + k],
        first_pair_from(raw, lo, hi, a, b) == Some(e),
    ensures
        first_pair_from(t, lo - off, hi - off, a, b) == Some(e - off),
    decreases hi - lo,
{
    if !(lo < 0 || lo + 2 > hi || hi > raw.len()) {
        if raw[lo] == a && raw[lo + 1] == b {
            assert(t[lo - off] == a && t[lo - off + 1] == b);
        } else {
            assert(!(t[lo - off] == a && t[lo - off + 1] == b));
            lemma_pair_offset(raw, t, off, lo + 1, hi, e, a, b);
        }
    }
}

/// No pair in the raw line range means none in the trimmed view either.
proof fn lemma_no_pair_offset(raw: Seq<char>, t: Seq<char>, off: int, lo: int, hi: int, a: char, b: char)
    requires
        0 <= off <= lo <= hi <= raw.len(),
        off + t.len() >= hi,
        forall|k: int| 0 <= k < t.len() ==> t[k] == raw[off + k],
        first_pair_from(raw, lo, hi, a, b) is None,
        hi - off <= t.len(),
    ensures
        first_pair_from(t, lo - off, hi - off, a, b) is None,
    decreases hi - lo,
{
    if !(lo < 0 || lo + 2 > hi || hi > raw.len()) {
        assert(!(raw[lo] == a && raw[lo + 1] == b));
        assert(!(t[lo - off] == a && t[lo - off + 1] == b));
        lemma_no_pair_offset(raw, t, off, lo + 1, hi, a, b);
    }
}

/// Parse the dependency list of a manifest's text, as the package listing
/// falls back to when the package manager is unavailable: the quoted lines
/// between `dependencies = [` and the closing bracket.
pub fn parse_pyproject_deps(content: &str) -> (r: Vec<Package>)
    ensures
        match first_header_from(spec_lines(content@), 0) {
            None => r@.len() == 0,
            Some(a) => deps_rel(
                spec_lines(content@).subrange(a + 1, first_close_from(spec_lines(content@), a + 1)),
                r@,
            ),
        },
{
    let cs = str_chars(content);
    let lines = split_lines(&cs);
    let ghost lv = spec_lines(content@);
    let mut a: usize = 0;
    let mut found = false;
    while !found && a < lines.len()
        invariant
            a <= lines@.len(),
            lines@.len() == lv.len(),
            forall|k: int| 0 <= k < lines@.len() ==> (#[trigger] lines@[k])@ == lv[k],
            !found ==> first_header_from(lv, 0) == first_header_from(lv, a as int),
            found ==> a < lines@.len() && first_header_from(lv, 0) == Some(a as int),
        decreases lines@.len() - a + (if found {
            0int
        } else {
            1int
        }),
    {
        if is_header_line(&lines[a]) {
            found = true;
        } else {
            a = a + 1;
        }
    }
    if !found {
        return Vec::new();
    }
    let nlines = lines.len();
    proof {
        assert(a < nlines);
    }
    let mut out: Vec<Package> = Vec::new();
    let mut i: usize = a + 1;
    let mut closed = false;
    while !closed && i < lines.len()
        invariant
            a < i <= lines@.len(),
            lines@.len() == lv.len(),
            forall|k: int| 0 <= k < lines@.len() ==> (#[trigger] lines@[k])@ == lv[k],
            !closed ==> first_close_from(lv, a + 1) == first_close_from(lv, i as int),
            closed ==> first_close_from(lv, a + 1) == i as int,
            deps_rel(lv.subrange(a + 1, i as int), out@),
        decreases lines@.len() - i + (if closed {
            0int
        } else {
            1int
        }),
    {
        if is_close_line(&lines[i]) {
            closed = true;
        } else {
            let parsed = parse_dep_line(&lines[i]);
            let ghost prev = out@;
            match parsed {
                Some(p) => {
                    out.push(p);
                },
                None => {},
            }
            i = i + 1;
            proof {
                let pre = lv.subrange(a + 1, i as int);
                assert(pre.drop_last() =~= lv.subrange(a + 1, i - 1));
                assert(pre.last() == lv[i - 1]);
                if is_dep_line(lv[i - 1]) {
                    assert(out@.drop_last() =~= prev);
                }
            }
        }
    }
    proof {
        if !closed {
            assert(first_close_from(lv, i as int) == i);
        }
        assert(lv.subrange(a + 1, first_close_from(lv, a + 1)) =~= lv.subrange(a + 1, i as int));
    }
    out
}

/// Collect the characters `cs[lo..hi]` into a `String`.
pub fn chars_to_string(cs: &Vec<char>, lo: usize, hi: usize) -> (r: String)
    requires
        lo <= hi <= cs@.len(),
    ensures
        r@ == cs@.subrange(lo as int, hi as int),
{
    let mut s = String::new();
    let mut i = lo;
    while i < hi
        invariant
            lo <= i <= hi <= cs@.len(),
            s@ == cs@.subrange(lo as int, i as int),
        decreases hi - i,
    {
        s.push(cs[i]);
        i = i + 1;
        proof {
            assert(s@ =~= cs@.subrange(lo as int, i as int));
        }
    }
    s
}

} // verus!
