//! Line tokenizer.
//!
//! The document is scanned line by line. A line whose text looks tabular
//! opens a table block: the next line is consumed unconditionally as the
//! separator row, and data rows follow until the first line without a pipe,
//! which is left for the outer scan to reprocess. A line starting with `#`
//! becomes a header of level equal to its leading hash count; a line
//! starting with `*` becomes an emphasis line with the markers stripped;
//! every other line is kept verbatim as text.

use crate::text::{
    chars_string, contains_char_vec, contains_sub_vec, join_nl, remove_char_vec, skip_char_from,
    spec_contains, spec_has_char, spec_join_nl, spec_lines, spec_remove_char, spec_split_char,
    spec_trim, spec_trim_char, split_char_vec, split_lines, str_chars, trim_char_vec, trim_vec,
    views_of_strings, views_of_vecs,
};
use crate::ParseError;
use vstd::prelude::*;

verus! {

/// Scanning budget for one tokenizer run; a malformed document that would
/// make the scan run away is cut off with a structural error instead.
pub const MAX_ITERATIONS: usize = 10000;

/// One table row: the raw line and its cell texts.
#[derive(Debug, Clone, PartialEq, Eq)]
pub struct TableRow {
    pub raw: String,
    pub columns: Vec<String>,
}

/// A table block: header row, separator line, data rows.
#[derive(Debug, Clone, PartialEq, Eq)]
pub struct Table {
    pub header: TableRow,
    pub split: String,
    pub rows: Vec<TableRow>,
}

/// A header line: nesting level and title text.
#[derive(Debug, Clone)]
pub struct Header {
    pub level: usize,
    pub content: String,
}

/// A non-header document item.
#[derive(Debug, Clone, PartialEq, Eq)]
pub enum MdContent {
    Text(String),
    Asterisk(String),
    Table(Table),
}

/// One token of the document.
#[derive(Debug, Clone)]
pub enum MdToken {
    Header(Header),
    Content(MdContent),
}

/// Model of a table row.
pub struct RowV {
    pub raw: Seq<char>,
    pub columns: Seq<Seq<char>>,
}

/// Model of a table block.
pub struct TableV {
    pub header: RowV,
    pub split: Seq<char>,
    pub rows: Seq<RowV>,
}

/// Model of a header line.
pub struct HeaderV {
    pub level: int,
    pub text: Seq<char>,
}

/// Model of a non-header item.
pub enum ContentV {
    Text(Seq<char>),
    Asterisk(Seq<char>),
    Table(TableV),
}

/// Model of one token.
pub enum TokenV {
    Header(HeaderV),
    Content(ContentV),
}

impl View for TableRow {
    type V = RowV;

    open spec fn view(&self) -> RowV {
        RowV { raw: self.raw@, columns: views_of_strings(self.columns@) }
    }
}

impl View for Table {
    type V = TableV;

    open spec fn view(&self) -> TableV {
        TableV {
            header: self.header@,
            split: self.split@,
            rows: self.rows@.map_values(|r: TableRow| r@),
        }
    }
}

impl View for Header {
    type V = HeaderV;

    open spec fn view(&self) -> HeaderV {
        HeaderV { level: self.level as int, text: self.content@ }
    }
}

impl View for MdContent {
    type V = ContentV;

    open spec fn view(&self) -> ContentV {
        match self {
            MdContent::Text(t) => ContentV::Text(t@),
            MdContent::Asterisk(t) => ContentV::Asterisk(t@),
            MdContent::Table(t) => ContentV::Table(t@),
        }
    }
}

impl View for MdToken {
    type V = TokenV;

    open spec fn view(&self) -> TokenV {
        match self {
            MdToken::Header(h) => TokenV::Header(h@),
            MdToken::Content(c) => TokenV::Content(c@),
        }
    }
}

/// The models of a sequence of tokens.
pub open spec fn tokens_views(ts: Seq<MdToken>) -> Seq<TokenV> {
    ts.map_values(|t: MdToken| t@)
}

/// The models of a sequence of contents.
pub open spec fn contents_views(cs: Seq<MdContent>) -> Seq<ContentV> {
    cs.map_values(|c: MdContent| c@)
}

/// A line that opens a table block.
pub open spec fn is_table_start_line(l: Seq<char>) -> bool {
    spec_contains(l, " | "@) || spec_contains(l, "-|"@) || spec_contains(l, "|-"@)
}

/// The cells of a row line: inline code markers dropped, split at pipes,
/// each cell trimmed.
pub open spec fn spec_columns(l: Seq<char>) -> Seq<Seq<char>> {
    spec_split_char(spec_remove_char(l, '`'), '|').map_values(|p: Seq<char>| spec_trim(p))
}

/// The model row a raw line yields.
pub open spec fn spec_row(l: Seq<char>) -> RowV {
    RowV { raw: l, columns: spec_columns(l) }
}

/// Header level of a line: the count of its leading hash marks.
pub open spec fn hash_level(l: Seq<char>) -> int {
    skip_char_from(l, '#', 0)
}

/// The model header a `#` line yields: leading and trailing hash marks are
/// stripped symmetrically, then surrounding whitespace.
pub open spec fn spec_header(l: Seq<char>) -> HeaderV {
    HeaderV { level: hash_level(l), text: spec_trim(spec_trim_char(l, '#')) }
}

/// Classification of a line outside any table block.
pub open spec fn line_token(l: Seq<char>) -> TokenV {
    if l.len() > 0 && l[0] == '#' {
        TokenV::Header(spec_header(l))
    } else if l.len() > 0 && l[0] == '*' {
        TokenV::Content(ContentV::Asterisk(spec_trim(spec_trim_char(l, '*'))))
    } else {
        TokenV::Content(ContentV::Text(l))
    }
}

/// Scan for the first line at or after `j` that ends a table block: either
/// the end of the document or a line without a pipe, which is not consumed.
/// Each examined line costs one unit of the scanning budget.
pub open spec fn scan_rows(lines: Seq<Seq<char>>, j: int, fuel: int) -> Result<
    (int, int),
    ParseError,
>
    decreases lines.len() - j,
{
    if j < 0 || j >= lines.len() {
        Ok((j, fuel))
    } else if fuel <= 1 {
        Err(ParseError::IterationLimit)
    } else if !spec_has_char(lines[j], '|') {
        Ok((j, fuel - 1))
    } else {
        scan_rows(lines, j + 1, fuel - 1)
    }
}

/// What `scan_rows` promises of its landing point and remaining budget.
pub proof fn lemma_scan_rows_bounds(lines: Seq<Seq<char>>, j: int, fuel: int)
    requires
        0 <= j <= lines.len(),
    ensures
        match scan_rows(lines, j, fuel) {
            Ok((end, fuel2)) => j <= end <= lines.len() && fuel2 <= fuel,
            Err(_) => true,
        },
    decreases lines.len() - j,
{
    if 0 <= j && j < lines.len() && fuel > 1 && spec_has_char(lines[j], '|') {
        lemma_scan_rows_bounds(lines, j + 1, fuel - 1);
    }
}

/// The table token built from the header line at `i`, the separator line
/// right after it, and the data rows up to `end`.
pub open spec fn table_token(lines: Seq<Seq<char>>, i: int, end: int) -> TokenV {
    TokenV::Content(
        ContentV::Table(
            TableV {
                header: spec_row(lines[i]),
                split: lines[i + 1],
                rows: lines.subrange(i + 2, end).map_values(|l: Seq<char>| spec_row(l)),
            },
        ),
    )
}

/// The token stream of `lines` from position `i` on, given a scanning
/// budget: every line is covered exactly once, in order.
pub open spec fn tokenize_from(lines: Seq<Seq<char>>, i: int, fuel: int) -> Result<
    Seq<TokenV>,
    ParseError,
>
    decreases lines.len() - i,
    via tokenize_from_decreases
{
    if i < 0 || i >= lines.len() {
        Ok(Seq::empty())
    } else if fuel <= 1 {
        Err(ParseError::IterationLimit)
    } else if is_table_start_line(lines[i]) {
        if i + 1 >= lines.len() {
            Err(ParseError::UnterminatedTable)
        } else {
            match scan_rows(lines, i + 2, fuel - 1) {
                Ok((end, fuel2)) => match tokenize_from(lines, end, fuel2) {
                    Ok(rest) => Ok(seq![table_token(lines, i, end)] + rest),
                    Err(e) => Err(e),
                },
                Err(e) => Err(e),
            }
        }
    } else {
        match tokenize_from(lines, i + 1, fuel - 1) {
            Ok(rest) => Ok(seq![line_token(lines[i])] + rest),
            Err(e) => Err(e),
        }
    }
}

#[via_fn]
proof fn tokenize_from_decreases(lines: Seq<Seq<char>>, i: int, fuel: int) {
    if 0 <= i && i < lines.len() && i + 1 < lines.len() {
        lemma_scan_rows_bounds(lines, i + 2, fuel - 1);
    }
}

/// The token stream of the whole document.
pub open spec fn spec_tokenize(s: Seq<char>) -> Result<Seq<TokenV>, ParseError> {
    tokenize_from(spec_lines(s), 0, MAX_ITERATIONS as int)
}

/// A header token always carries a level of at least one.
pub open spec fn wf_token(t: TokenV) -> bool {
    match t {
        TokenV::Header(h) => 1 <= h.level,
        TokenV::Content(_) => true,
    }
}

/// Every token of a successful tokenization is well formed.
pub proof fn lemma_tokenize_wf(lines: Seq<Seq<char>>, i: int, fuel: int)
    ensures
        match tokenize_from(lines, i, fuel) {
            Ok(ts) => forall|k: int| 0 <= k < ts.len() ==> wf_token(#[trigger] ts[k]),
            Err(_) => true,
        },
    decreases lines.len() - i,
{
    if i < 0 || i >= lines.len() || fuel <= 1 {
    } else if is_table_start_line(lines[i]) {
        if i + 1 < lines.len() {
            lemma_scan_rows_bounds(lines, i + 2, fuel - 1);
            match scan_rows(lines, i + 2, fuel - 1) {
                Ok((end, fuel2)) => {
                    lemma_tokenize_wf(lines, end, fuel2);
                },
                Err(_) => {},
            }
        }
    } else {
        lemma_tokenize_wf(lines, i + 1, fuel - 1);
        if lines[i].len() > 0 && lines[i][0] == '#' {
            crate::text::lemma_skip_char_from_bounds(lines[i], '#', 1);
        }
    }
}

/// The text a non-header item carries: emphasis and text lines their own
/// value, a table its rows re-joined with newlines.
pub open spec fn content_text(c: ContentV) -> Seq<char> {
    match c {
        ContentV::Text(t) => t,
        ContentV::Asterisk(t) => t,
        ContentV::Table(t) => table_raw_text(t),
    }
}

/// A table rendered back to its raw lines, newline-joined.
pub open spec fn table_raw_text(t: TableV) -> Seq<char> {
    spec_join_nl(seq![t.header.raw, t.split] + t.rows.map_values(|r: RowV| r.raw))
}

impl Table {
    /// The raw text of the table: header row, separator and data rows,
    /// joined with newlines.
    pub fn raw(&self) -> (r: String)
        ensures
            r@ == table_raw_text(self@),
    {
        let mut items: Vec<String> = Vec::new();
        items.push(self.header.raw.clone());
        items.push(self.split.clone());
        let mut k: usize = 0;
        while k < self.rows.len()
            invariant
                k <= self.rows@.len(),
                items@.len() == k + 2,
                items@[0]@ == self.header.raw@,
                items@[1]@ == self.split@,
                forall|t: int| 2 <= t < k + 2 ==> #[trigger] items@[t]@ == self.rows@[t - 2].raw@,
            decreases self.rows.len() - k,
        {
            items.push(self.rows[k].raw.clone());
            k = k + 1;
        }
        proof {
            assert(views_of_strings(items@) =~= seq![self.header.raw@, self.split@]
                + self.rows@.map_values(|row: TableRow| row@).map_values(|r: RowV| r.raw));
        }
        join_nl(&items)
    }
}

impl MdContent {
    /// The textual value of this item; a table renders back to its raw rows.
    pub fn inner_value_as_string(&self) -> (r: String)
        ensures
            r@ == content_text(self@),
    {
        match self {
            MdContent::Text(text) => text.clone(),
            MdContent::Asterisk(text) => text.clone(),
            MdContent::Table(table) => table.raw(),
        }
    }
}

/// Whether this line opens a table block.
pub fn is_table_start(lv: &Vec<char>) -> (r: bool)
    ensures
        r == is_table_start_line(lv@),
{
    let p1 = str_chars(" | ");
    let p2 = str_chars("-|");
    let p3 = str_chars("|-");
    contains_sub_vec(lv, &p1) || contains_sub_vec(lv, &p2) || contains_sub_vec(lv, &p3)
}

/// Build one table row from a raw line.
fn row_from_line(lv: &Vec<char>) -> (r: TableRow)
    ensures
        r@ == spec_row(lv@),
{
    let cleaned = remove_char_vec(lv, '`');
    let pieces = split_char_vec(&cleaned, '|');
    let mut columns: Vec<String> = Vec::new();
    let mut k: usize = 0;
    while k < pieces.len()
        invariant
            k <= pieces@.len(),
            views_of_vecs(pieces@) == spec_split_char(spec_remove_char(lv@, '`'), '|'),
            columns@.len() == k,
            forall|t: int|
                0 <= t < k ==> #[trigger] columns@[t]@ == spec_trim(views_of_vecs(pieces@)[t]),
        decreases pieces.len() - k,
    {
        let cell = chars_string(&trim_vec(&pieces[k]));
        columns.push(cell);
        k = k + 1;
    }
    proof {
        assert(views_of_strings(columns@) =~= spec_columns(lv@));
    }
    TableRow { raw: chars_string(lv), columns }
}

/// Parse one `#` line into a header token.
pub fn parse_header(line: &str) -> (r: MdToken)
    ensures
        r@ == TokenV::Header(spec_header(line@)),
{
    let lv = str_chars(line);
    let mut level: usize = 0;
    while level < lv.len() && lv[level] == '#'
        invariant
            level <= lv@.len(),
            lv@ == line@,
            skip_char_from(lv@, '#', 0) == skip_char_from(lv@, '#', level as int),
        decreases lv.len() - level,
    {
        level = level + 1;
    }
    let content = chars_string(&trim_vec(&trim_char_vec(&lv, '#')));
    MdToken::Header(Header { level, content })
}

impl MdToken {
    /// Classify one line that stands outside any table block.
    pub fn parse_token(line: &str) -> (r: MdToken)
        ensures
            r@ == line_token(line@),
    {
        let lv = str_chars(line);
        if lv.len() > 0 && lv[0] == '#' {
            parse_header(line)
        } else if lv.len() > 0 && lv[0] == '*' {
            let text = chars_string(&trim_vec(&trim_char_vec(&lv, '*')));
            MdToken::Content(MdContent::Asterisk(text))
        } else {
            MdToken::Content(MdContent::Text(line.to_owned()))
        }
    }
}

/// Budget guard that turns a runaway scan over a malformed document into a
/// deterministic structural error.
#[derive(Debug)]
pub struct MaxIteratorChecker {
    pub max_iterations: usize,
}

impl MaxIteratorChecker {
    /// Spend one unit of budget; reports whether scanning may continue.
    pub fn decrease(&mut self) -> (ok: bool)
        ensures
            ok == (old(self).max_iterations > 1),
            old(self).max_iterations > 1 ==> final(self).max_iterations == (
            old(self).max_iterations - 1) as usize,
            old(self).max_iterations <= 1 ==> final(self).max_iterations == old(
                self,
            ).max_iterations,
    {
        if self.max_iterations > 1 {
            self.max_iterations = self.max_iterations - 1;
            true
        } else {
            false
        }
    }
}

impl Default for MaxIteratorChecker {
    /// A fresh checker with the full scanning budget.
    fn default() -> (r: Self)
        ensures
            r.max_iterations == MAX_ITERATIONS,
    {
        MaxIteratorChecker { max_iterations: MAX_ITERATIONS }
    }
}

impl MdToken {
    /// Tokenize the whole document, covering every line exactly once, in
    /// order; fails on a table opened on the last line or on a scan that
    /// exceeds the line budget.
    pub fn from(content: &str) -> (r: Result<Vec<MdToken>, ParseError>)
        ensures
            match r {
                Ok(ts) => spec_tokenize(content@) == Ok::<Seq<TokenV>, ParseError>(tokens_views(ts@)),
                Err(e) => spec_tokenize(content@) == Err::<Seq<TokenV>, ParseError>(e),
            },
    {
        let lines = split_lines(content);
        let ghost gl = spec_lines(content@);
        let mut checker = MaxIteratorChecker::default();
        let mut out: Vec<MdToken> = Vec::new();
        let mut i: usize = 0;
        while i < lines.len()
            invariant
                gl == spec_lines(content@),
                views_of_strings(lines@) == gl,
                lines@.len() == gl.len(),
                i <= lines@.len(),
                match tokenize_from(gl, i as int, checker.max_iterations as int) {
                    Ok(rest) => tokenize_from(gl, 0, MAX_ITERATIONS as int) == Ok::<
                        Seq<TokenV>,
                        ParseError,
                    >(tokens_views(out@) + rest),
                    Err(e) => tokenize_from(gl, 0, MAX_ITERATIONS as int) == Err::<
                        Seq<TokenV>,
                        ParseError,
                    >(e),
                },
            decreases lines.len() - i,
        {
            let lv = str_chars(lines[i].as_str());
            proof {
                assert(lv@ == gl[i as int]);
            }
            if !checker.decrease() {
                return Err(ParseError::IterationLimit);
            }
            if is_table_start(&lv) {
                if i + 1 >= lines.len() {
                    return Err(ParseError::UnterminatedTable);
                }
                let header = row_from_line(&lv);
                let split = lines[i + 1].clone();
                let mut rows: Vec<TableRow> = Vec::new();
                let ghost fuel_in = checker.max_iterations as int;
                let mut j: usize = i + 2;
                let mut stop = false;
                let mut limit = false;
                while !stop && !limit
                    invariant
                        views_of_strings(lines@) == gl,
                        lines@.len() == gl.len(),
                        i + 2 <= j <= lines@.len(),
                        rows@.len() == j - (i + 2),
                        forall|t: int|
                            0 <= t < rows@.len() ==> #[trigger] rows@[t]@ == spec_row(
                                gl[i + 2 + t],
                            ),
                        !stop && !limit ==> scan_rows(gl, i + 2, fuel_in) == scan_rows(
                            gl,
                            j as int,
                            checker.max_iterations as int,
                        ),
                        stop ==> scan_rows(gl, i + 2, fuel_in) == Ok::<(int, int), ParseError>(
                            (j as int, checker.max_iterations as int),
                        ),
                        limit ==> scan_rows(gl, i + 2, fuel_in) == Err::<(int, int), ParseError>(
                            ParseError::IterationLimit,
                        ),
                    decreases (lines@.len() - j) * 2 + (if stop || limit {
                        0int
                    } else {
                        1int
                    }),
                {
                    if j >= lines.len() {
                        stop = true;
                    } else if !checker.decrease() {
                        limit = true;
                    } else {
                        let rv = str_chars(lines[j].as_str());
                        proof {
                            assert(rv@ == gl[j as int]);
                        }
                        if !contains_char_vec(&rv, '|') {
                            stop = true;
                        } else {
                            rows.push(row_from_line(&rv));
                            j = j + 1;
                        }
                    }
                }
                if limit {
                    return Err(ParseError::IterationLimit);
                }
                let token = MdToken::Content(MdContent::Table(Table { header, split, rows }));
                proof {
                    assert(rows@.map_values(|row: TableRow| row@) =~= gl.subrange(
                        i + 2,
                        j as int,
                    ).map_values(|l: Seq<char>| spec_row(l)));
                    assert(token@ == table_token(gl, i as int, j as int));
                }
                let ghost old_out = out@;
                out.push(token);
                proof {
                    assert(tokens_views(out@) =~= tokens_views(old_out).push(
                        table_token(gl, i as int, j as int),
                    ));
                    match tokenize_from(gl, j as int, checker.max_iterations as int) {
                        Ok(rest) => {
                            assert(tokens_views(out@) + rest =~= tokens_views(old_out) + (seq![
                                table_token(gl, i as int, j as int)] + rest));
                        },
                        Err(_) => {},
                    }
                }
                i = j;
            } else {
                let token = MdToken::parse_token(lines[i].as_str());
                let ghost old_out = out@;
                out.push(token);
                proof {
                    assert(tokens_views(out@) =~= tokens_views(old_out).push(
                        line_token(gl[i as int]),
                    ));
                    match tokenize_from(gl, i + 1, checker.max_iterations as int) {
                        Ok(rest) => {
                            assert(tokens_views(out@) + rest =~= tokens_views(old_out) + (seq![
                                line_token(gl[i as int])] + rest));
                        },
                        Err(_) => {},
                    }
                }
                i = i + 1;
            }
        }
        proof {
            assert(tokens_views(out@) + Seq::<TokenV>::empty() =~= tokens_views(out@));
        }
        Ok(out)
    }
}


impl TableRow {
    /// An owned copy with the same model.
    pub fn duplicate(&self) -> (r: TableRow)
        ensures
            r@ == self@,
    {
        let mut columns: Vec<String> = Vec::new();
        let mut k: usize = 0;
        while k < self.columns.len()
            invariant
                k <= self.columns@.len(),
                columns@.len() == k,
                forall|t: int| 0 <= t < k ==> #[trigger] columns@[t]@ == self.columns@[t]@,
            decreases self.columns.len() - k,
        {
            columns.push(self.columns[k].clone());
            k = k + 1;
        }
        let r = TableRow { raw: self.raw.clone(), columns };
        proof {
            assert(r@.columns =~= self@.columns);
        }
        r
    }
}

impl Table {
    /// An owned copy with the same model.
    pub fn duplicate(&self) -> (r: Table)
        ensures
            r@ == self@,
    {
        let mut rows: Vec<TableRow> = Vec::new();
        let mut k: usize = 0;
        while k < self.rows.len()
            invariant
                k <= self.rows@.len(),
                rows@.len() == k,
                forall|t: int| 0 <= t < k ==> #[trigger] rows@[t]@ == self.rows@[t]@,
            decreases self.rows.len() - k,
        {
            rows.push(self.rows[k].duplicate());
            k = k + 1;
        }
        let r = Table { header: self.header.duplicate(), split: self.split.clone(), rows };
        proof {
            assert(r@.rows =~= self@.rows);
        }
        r
    }
}


/// The lines a token renders back to: a header its hash-stripped title, an
/// emphasis line its marker-stripped text, a text line its text verbatim,
/// a table its raw header, separator and data rows.
pub open spec fn token_to_lines(t: TokenV) -> Seq<Seq<char>> {
    match t {
        TokenV::Header(h) => seq![h.text],
        TokenV::Content(c) => match c {
            ContentV::Text(x) => seq![x],
            ContentV::Asterisk(x) => seq![x],
            ContentV::Table(tb) => seq![tb.header.raw, tb.split] + tb.rows.map_values(
                |r: RowV| r.raw,
            ),
        },
    }
}

/// The lines a token stream renders back to, in order.
pub open spec fn tokens_to_lines(ts: Seq<TokenV>) -> Seq<Seq<char>>
    decreases ts.len(),
{
    if ts.len() == 0 {
        Seq::empty()
    } else {
        token_to_lines(ts[0]) + tokens_to_lines(ts.drop_first())
    }
}

/// A rendered line carries the content of its original line: verbatim, or
/// with the header hash marks, or the emphasis markers, and surrounding
/// whitespace stripped.
pub open spec fn line_matches(rendered: Seq<char>, original: Seq<char>) -> bool {
    ||| rendered == original
    ||| rendered == spec_trim(spec_trim_char(original, '#'))
    ||| rendered == spec_trim(spec_trim_char(original, '*'))
}

/// Round trip: a successful tokenization covers every line exactly once,
/// in original order; re-joined, the tokens reconstruct each line's
/// content up to marker and whitespace stripping.
pub proof fn lemma_tokenize_round_trip(lines: Seq<Seq<char>>, i: int, fuel: int)
    requires
        0 <= i <= lines.len(),
    ensures
        match tokenize_from(lines, i, fuel) {
            Ok(ts) => {
                let rendered = tokens_to_lines(ts);
                rendered.len() == lines.len() - i && (forall|k: int|
                    0 <= k < rendered.len() ==> line_matches(#[trigger] rendered[k], lines[i + k]))
            },
            Err(_) => true,
        },
    decreases lines.len() - i,
{
    if i >= lines.len() || fuel <= 1 {
    } else if is_table_start_line(lines[i]) {
        if i + 1 < lines.len() {
            lemma_scan_rows_bounds(lines, i + 2, fuel - 1);
            match scan_rows(lines, i + 2, fuel - 1) {
                Ok((end, fuel2)) => {
                    lemma_tokenize_round_trip(lines, end, fuel2);
                    match tokenize_from(lines, end, fuel2) {
                        Ok(rest) => {
                            let tok = table_token(lines, i, end);
                            let ts = seq![tok] + rest;
                            assert(ts.drop_first() =~= rest);
                            assert(ts[0] == tok);
                            let front = token_to_lines(tok);
                            let rendered = tokens_to_lines(ts);
                            assert(rendered =~= front + tokens_to_lines(rest));
                            assert(front.len() == end - i);
                            assert forall|k: int| 0 <= k < rendered.len() implies line_matches(
                                #[trigger] rendered[k],
                                lines[i + k],
                            ) by {
                                if k == 0 {
                                    assert(rendered[k] == lines[i]);
                                } else if k == 1 {
                                    assert(rendered[k] == lines[i + 1]);
                                } else if k < front.len() {
                                    assert(front[k] == lines.subrange(i + 2, end).map_values(
                                        |l: Seq<char>| spec_row(l),
                                    ).map_values(|r: RowV| r.raw)[k - 2]);
                                    assert(rendered[k] == lines[i + k]);
                                } else {
                                    assert(rendered[k] == tokens_to_lines(rest)[k - front.len()]);
                                    assert(line_matches(
                                        tokens_to_lines(rest)[k - front.len()],
                                        lines[end + (k - front.len())],
                                    ));
                                }
                            }
                        },
                        Err(_) => {},
                    }
                },
                Err(_) => {},
            }
        }
    } else {
        lemma_tokenize_round_trip(lines, i + 1, fuel - 1);
        match tokenize_from(lines, i + 1, fuel - 1) {
            Ok(rest) => {
                let tok = line_token(lines[i]);
                let ts = seq![tok] + rest;
                assert(ts.drop_first() =~= rest);
                assert(ts[0] == tok);
                let rendered = tokens_to_lines(ts);
                assert(rendered =~= token_to_lines(tok) + tokens_to_lines(rest));
                assert(line_matches(token_to_lines(tok)[0], lines[i]));
                assert forall|k: int| 0 <= k < rendered.len() implies line_matches(
                    #[trigger] rendered[k],
                    lines[i + k],
                ) by {
                    if k > 0 {
                        assert(rendered[k] == tokens_to_lines(rest)[k - 1]);
                        assert(line_matches(tokens_to_lines(rest)[k - 1], lines[i + 1 + (k - 1)]));
                    }
                }
            },
            Err(_) => {},
        }
    }
}

/// Round trip over a whole document: the tokens of a successful run cover
/// every line of the document exactly once, in order, each reconstructing
/// its line up to marker and whitespace stripping.
pub proof fn lemma_document_round_trip(s: Seq<char>)
    ensures
        match spec_tokenize(s) {
            Ok(ts) => {
                let rendered = tokens_to_lines(ts);
                rendered.len() == spec_lines(s).len() && (forall|k: int|
                    0 <= k < rendered.len() ==> line_matches(
                        #[trigger] rendered[k],
                        spec_lines(s)[k],
                    ))
            },
            Err(_) => true,
        },
{
    lemma_tokenize_round_trip(spec_lines(s), 0, MAX_ITERATIONS as int);
}

} // verus!
