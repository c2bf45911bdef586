//! The scan of a file's bytes: chunks snapped to line boundaries, each
//! scanned line by line into a batch of typed columns.

use vstd::prelude::*;
use vstd::utf8::{decode_utf8, valid_utf8};
use vstd::slice::slice_subrange;
use crate::builder::{columns_of, columns_view, type_refs_view, types_view, Column, FieldsBuilder, rows_view};
use crate::engine::{caps_view, captures_each, regex_captures};
use crate::error::Error;
use crate::scanner::{cells_at, cells_at_indices, Scanner};
use crate::text::refs_view;
use crate::types::FieldType;

verus! {

/// What a scan reads from each matching line: the projected fields, their
/// types, the capture index each one reads, and where the two synthetic
/// columns (file path and raw line) stand, if present.
#[derive(Debug, Clone)]
pub struct ScanPlan {
    pub field_names: Vec<String>,
    pub field_types: Vec<FieldType>,
    pub field_indices: Vec<usize>,
    pub add_file_path: bool,
    pub add_raw: bool,
    pub file_path_index: usize,
    pub raw_index: usize,
}

impl ScanPlan {
    /// One type and one index per field; the synthetic columns stand among the fields.
    pub open spec fn wf(&self) -> bool {
        &&& self.field_types@.len() == self.field_indices@.len()
        &&& self.field_names@.len() == self.field_indices@.len()
        &&& self.add_file_path ==> self.file_path_index < self.field_indices@.len()
        &&& self.add_raw ==> self.raw_index < self.field_indices@.len()
    }
}

/// A batch of rows, column by column.
#[derive(Debug, Clone)]
pub struct Batch {
    pub columns: Vec<Column>,
    pub row_count: usize,
}

/// A row: one text per projected field.
pub type Row = Seq<Seq<char>>;

/// Index of the first `\n` in `b[a..z]`.
pub open spec fn nl_in(b: Seq<u8>, a: int, z: int) -> Option<int>
    decreases z - a,
{
    if a < 0 || a >= z || z > b.len() {
        None
    } else if b[a] == 10 {
        Some(a)
    } else {
        nl_in(b, a + 1, z)
    }
}

/// The position just after the first `\n` in `b[start..end]`.
pub open spec fn newline_after(b: Seq<u8>, start: int, end: int) -> Option<int> {
    match nl_in(b, start, end) {
        Some(k) => Some(k + 1),
        None => None,
    }
}

pub proof fn lemma_nl_in(b: Seq<u8>, a: int, z: int)
    requires
        0 <= a,
        z <= b.len(),
    ensures
        match nl_in(b, a, z) {
            Some(k) => a <= k < z && b[k] == 10 && forall|j: int| a <= j < k ==> b[j] != 10,
            None => forall|j: int| a <= j < z ==> b[j] != 10,
        },
    decreases z - a,
{
    if a < z && b[a] != 10 {
        lemma_nl_in(b, a + 1, z);
    }
}

/// Where a newline stands in `b[a..m]`, the first one is the same in `b[a..z]`.
pub proof fn lemma_nl_in_prefix(b: Seq<u8>, a: int, m: int, z: int, p: int)
    requires
        0 <= a <= p < m <= z <= b.len(),
        b[p] == 10,
    ensures
        nl_in(b, a, m) == nl_in(b, a, z),
        nl_in(b, a, z) matches Some(k) && k <= p,
    decreases p - a,
{
    if b[a] != 10 {
        lemma_nl_in_prefix(b, a + 1, m, z, p);
    }
}

/// The position just after the first `\n` at or after `start` and before
/// `end`, if there is one.
pub fn find_next_newline(mmap: &[u8], start: usize, end: usize) -> (r: Option<usize>)
    requires
        start <= end <= mmap@.len(),
    ensures
        r matches Some(k) ==> newline_after(mmap@, start as int, end as int) == Some(k as int),
        r is None ==> newline_after(mmap@, start as int, end as int) is None,
{
    let mut i: usize = start;
    while i < end
        invariant
            start <= i <= end <= mmap@.len(),
            nl_in(mmap@, start as int, end as int) == nl_in(mmap@, i as int, end as int),
        decreases end - i,
    {
        if mmap[i] == 10u8 {
            return Some(i + 1);
        }
        i = i + 1;
    }
    None
}

/// Where the next line starts: after the first `\n` at or after `x`, or at the end.
pub open spec fn next_start(b: Seq<u8>, x: int) -> int {
    match newline_after(b, x, b.len() as int) {
        Some(k) => k,
        None => b.len() as int,
    }
}

/// Where chunk `i` of `c` starts: 0 for the first, else just after the first
/// newline at or after its nominal start `i * (len / c)`.
pub open spec fn chunk_start(b: Seq<u8>, c: int, i: int) -> int {
    if i == 0 {
        0
    } else {
        next_start(b, i * ((b.len() as int) / c))
    }
}

/// Where chunk `i` of `c` ends: the end of the data for the last, else where
/// the next one starts.
pub open spec fn chunk_end(b: Seq<u8>, c: int, i: int) -> int {
    if i == c - 1 {
        b.len() as int
    } else {
        chunk_start(b, c, i + 1)
    }
}

pub proof fn lemma_nominal_offset(len: int, c: int, i: int)
    requires
        c >= 1,
        0 <= i <= c,
        len >= 0,
    ensures
        0 <= i * (len / c) <= len,
{
    vstd::arithmetic::div_mod::lemma_fundamental_div_mod(len, c);
    assert(len / c >= 0) by {
        vstd::arithmetic::div_mod::lemma_div_pos_is_pos(len, c);
    }
    assert(i * (len / c) <= c * (len / c)) by (nonlinear_arith)
        requires
            i <= c,
            len / c >= 0,
    ;
    assert(0 <= i * (len / c)) by (nonlinear_arith)
        requires
            i >= 0,
            len / c >= 0,
    ;
    assert(len % c >= 0);
}

/// The start and end of each of `chunk_count` chunks of `data`.
pub fn chunk_bounds(data: &[u8], chunk_count: usize) -> (r: Vec<(usize, usize)>)
    requires
        chunk_count >= 1,
    ensures
        r@.len() == chunk_count,
        forall|i: int|
            0 <= i < chunk_count ==> (#[trigger] r@[i]).0 == chunk_start(data@, chunk_count as int, i)
                && r@[i].1 == chunk_end(data@, chunk_count as int, i),
{
    let total = data.len();
    let size = total / chunk_count;
    let mut out: Vec<(usize, usize)> = Vec::new();
    let mut i: usize = 0;
    while i < chunk_count
        invariant
            total == data@.len(),
            size == total / chunk_count,
            chunk_count >= 1,
            i <= chunk_count,
            out@.len() == i,
            forall|j: int|
                0 <= j < i ==> (#[trigger] out@[j]).0 == chunk_start(data@, chunk_count as int, j)
                    && out@[j].1 == chunk_end(data@, chunk_count as int, j),
        decreases chunk_count - i,
    {
        proof {
            lemma_nominal_offset(total as int, chunk_count as int, i as int);
            lemma_nominal_offset(total as int, chunk_count as int, i + 1);
        }
        let start = i * size;
        let actual_start = if i == 0 {
            0
        } else {
            match find_next_newline(data, start, total) {
                Some(k) => k,
                None => total,
            }
        };
        let actual_end = if i == chunk_count - 1 {
            total
        } else {
            let nominal_end = (i + 1) * size;
            match find_next_newline(data, nominal_end, total) {
                Some(k) => k,
                None => total,
            }
        };
        out.push((actual_start, actual_end));
        i = i + 1;
    }
    out
}

/// `l` without one trailing carriage return.
pub open spec fn strip_cr(l: Seq<u8>) -> Seq<u8> {
    if l.len() > 0 && l.last() == 13 {
        l.drop_last()
    } else {
        l
    }
}

/// The end of the line that starts at `a` (its `\n` or the range's end).
pub open spec fn line_end(b: Seq<u8>, a: int, z: int) -> int {
    match nl_in(b, a, z) {
        Some(k) => if a <= k < z { k } else { z },
        None => z,
    }
}

/// Where the line after the one that starts at `a` starts.
pub open spec fn line_next(b: Seq<u8>, a: int, z: int) -> int {
    match nl_in(b, a, z) {
        Some(k) => if a <= k < z { k + 1 } else { z },
        None => z,
    }
}

/// The row that a line gives, if the pattern matches it: the text at each
/// planned capture index, then the file path and the line itself in the
/// synthetic columns.
pub open spec fn row_of(pattern: Seq<char>, plan: ScanPlan, file: Seq<char>, text: Seq<char>) -> Option<Row> {
    match regex_captures(pattern, text) {
        None => None,
        Some(caps) => {
            let v0 = cells_at(caps, plan.field_indices@);
            let v1 = if plan.add_file_path { v0.update(plan.file_path_index as int, file) } else { v0 };
            let v2 = if plan.add_raw { v1.update(plan.raw_index as int, text) } else { v1 };
            Some(v2)
        },
    }
}

/// The rows of the lines of `b[a..z]`, in order: lines are split at `\n` and
/// lose a trailing `\r`; a line that the pattern does not match gives no row.
/// `None` where a line is not valid UTF-8.
pub open spec fn rows_in(pattern: Seq<char>, plan: ScanPlan, file: Seq<char>, b: Seq<u8>, a: int, z: int) -> Option<Seq<Row>>
    decreases z - a,
{
    if a < 0 || a >= z || z > b.len() {
        Some(Seq::empty())
    } else {
        let l = strip_cr(b.subrange(a, line_end(b, a, z)));
        if !valid_utf8(l) {
            None
        } else {
            match rows_in(pattern, plan, file, b, line_next(b, a, z), z) {
                None => None,
                Some(rest) => Some(
                    match row_of(pattern, plan, file, decode_utf8(l)) {
                        Some(row) => seq![row] + rest,
                        None => rest,
                    },
                ),
            }
        }
    }
}

/// Both parts' rows, one after the other, if both parts have them.
pub open spec fn join_rows(x: Option<Seq<Row>>, y: Option<Seq<Row>>) -> Option<Seq<Row>> {
    match x {
        Some(p) => match y {
            Some(q) => Some(p + q),
            None => None,
        },
        None => None,
    }
}

/// The rows of chunks `0..k` of `c`, in chunk order.
pub open spec fn chunks_rows(pattern: Seq<char>, plan: ScanPlan, file: Seq<char>, b: Seq<u8>, c: int, k: int) -> Option<Seq<Row>>
    decreases k,
{
    if k <= 0 {
        Some(Seq::empty())
    } else {
        join_rows(
            chunks_rows(pattern, plan, file, b, c, k - 1),
            rows_in(pattern, plan, file, b, chunk_start(b, c, k - 1), chunk_end(b, c, k - 1)),
        )
    }
}

/// The batch that rows make: the column of each field, and the row count.
pub open spec fn batch_matches(batch: Batch, plan: ScanPlan, rows: Seq<Row>) -> bool {
    &&& batch.row_count == rows.len()
    &&& columns_view(batch.columns@) == columns_of(types_view(plan.field_types@), rows)
}

/// Relies on `std::str::from_utf8`: the text of `b` where `b` is valid UTF-8.
#[verifier::external_body]
fn utf8_text(b: &[u8]) -> (r: Option<&str>)
    ensures
        r is Some <==> valid_utf8(b@),
        r matches Some(s) ==> s@ == decode_utf8(b@),
{
    std::str::from_utf8(b).ok()
}

fn type_refs(types: &Vec<FieldType>) -> (r: Vec<&FieldType>)
    ensures
        type_refs_view(r@) == types_view(types@),
{
    let mut out: Vec<&FieldType> = Vec::new();
    let mut i: usize = 0;
    while i < types.len()
        invariant
            i <= types@.len(),
            out@.len() == i,
            forall|j: int| 0 <= j < i ==> (#[trigger] out@[j])@ == types@[j]@,
        decreases types@.len() - i,
    {
        out.push(&types[i]);
        i = i + 1;
    }
    assert(type_refs_view(out@) =~= types_view(types@));
    out
}

/// The rows that the lines `texts` give, in order.
pub open spec fn rows_of_texts(pattern: Seq<char>, plan: ScanPlan, file: Seq<char>, texts: Seq<Seq<char>>) -> Seq<Row>
    decreases texts.len(),
{
    if texts.len() == 0 {
        Seq::empty()
    } else {
        let prev = rows_of_texts(pattern, plan, file, texts.drop_last());
        match row_of(pattern, plan, file, texts.last()) {
            Some(row) => prev.push(row),
            None => prev,
        }
    }
}

/// Splits `data[start..end]` into lines, each without its `\n` and one
/// trailing `\r`, as text; `None` where a line is not valid UTF-8.
fn chunk_lines<'a>(
    pattern: Ghost<Seq<char>>,
    plan: Ghost<ScanPlan>,
    file: Ghost<Seq<char>>,
    data: &'a [u8],
    start: usize,
    end: usize,
) -> (r: Option<Vec<&'a str>>)
    requires
        end <= data@.len(),
    ensures
        r is Some <==> rows_in(pattern@, plan@, file@, data@, start as int, end as int) is Some,
        r matches Some(ts) ==> rows_in(pattern@, plan@, file@, data@, start as int, end as int) == Some(
            rows_of_texts(pattern@, plan@, file@, refs_view(ts@)),
        ),
{
    let mut texts: Vec<&'a str> = Vec::new();
    let mut i: usize = start;
    assert(refs_view(texts@) =~= Seq::<Seq<char>>::empty());
    while i < end
        invariant
            end <= data@.len(),
            rows_in(pattern@, plan@, file@, data@, start as int, end as int) == join_rows(
                Some(rows_of_texts(pattern@, plan@, file@, refs_view(texts@))),
                rows_in(pattern@, plan@, file@, data@, i as int, end as int),
            ),
        decreases end - i,
    {
        proof {
            lemma_nl_in(data@, i as int, end as int);
        }
        let stop = match find_next_newline(data, i, end) {
            Some(k) => k - 1,
            None => end,
        };
        let next = if stop < end { stop + 1 } else { end };
        let mut line = slice_subrange(data, i, stop);
        if line.len() > 0 && line[line.len() - 1] == 13u8 {
            line = slice_subrange(line, 0, line.len() - 1);
        }
        assert(line@ =~= strip_cr(data@.subrange(i as int, line_end(data@, i as int, end as int))));
        let text = match utf8_text(line) {
            Some(t) => t,
            None => {
                return None;
            },
        };
        let ghost prev = refs_view(texts@);
        texts.push(text);
        proof {
            assert(refs_view(texts@) =~= prev.push(text@));
            assert(refs_view(texts@).drop_last() =~= prev);
            assert(line_next(data@, i as int, end as int) == next);
            let before = rows_of_texts(pattern@, plan@, file@, prev);
            match rows_in(pattern@, plan@, file@, data@, next as int, end as int) {
                Some(q) => {
                    match row_of(pattern@, plan@, file@, text@) {
                        Some(rw) => {
                            assert(before + (seq![rw] + q) =~= before.push(rw) + q);
                        },
                        None => {},
                    }
                },
                None => {},
            }
        }
        i = next;
    }
    proof {
        let all = rows_of_texts(pattern@, plan@, file@, refs_view(texts@));
        assert(all + Seq::<Row>::empty() =~= all);
    }
    Some(texts)
}

/// Scans the lines of `data[start..end]` into one batch. An empty range gives
/// a batch with no rows; a line that is not valid UTF-8 fails the chunk.
pub fn scan_chunk(scanner: &Scanner, plan: &ScanPlan, file: &str, data: &[u8], start: usize, end: usize) -> (r: Result<Batch, Error>)
    requires
        plan.wf(),
        end <= data@.len(),
    ensures
        r is Ok <==> rows_in(scanner.regex_text(), *plan, file@, data@, start as int, end as int) is Some,
        r matches Ok(batch) ==> batch_matches(batch, *plan, rows_in(scanner.regex_text(), *plan, file@, data@, start as int, end as int)->0),
        r matches Err(e) ==> e is Utf8,
{
    let ghost pat = scanner.regex_text();
    let texts = match chunk_lines(Ghost(pat), Ghost(*plan), Ghost(file@), data, start, end) {
        Some(t) => t,
        None => {
            return Err(Error::Utf8(String::from_str("invalid utf-8 sequence")));
        },
    };
    let ghost tv = refs_view(texts@);
    let all = captures_each(scanner.pattern.as_str(), &texts);
    let refs = type_refs(&plan.field_types);
    let mut builder = FieldsBuilder::new(refs.as_slice());
    assert(types_view(builder.types@).len() == builder.types@.len());
    assert(types_view(plan.field_types@).len() == plan.field_types@.len());
    let mut values: Vec<&str> = Vec::new();
    let mut row_count: usize = 0;
    let mut k: usize = 0;
    assert(tv.subrange(0, 0) =~= Seq::<Seq<char>>::empty());
    assert(rows_view(builder.rows@) =~= Seq::<Row>::empty());
    while k < texts.len()
        invariant
            plan.wf(),
            pat == scanner.regex_text(),
            tv == refs_view(texts@),
            all@.len() == texts@.len(),
            forall|i: int|
                0 <= i < texts@.len() ==> (#[trigger] all@[i] is Some <==> regex_captures(pat, texts@[i]@) is Some),
            forall|i: int|
                0 <= i < texts@.len() ==> (#[trigger] all@[i] matches Some(v) ==> caps_view(v@)
                    == regex_captures(pat, texts@[i]@)->0),
            k <= texts@.len(),
            builder.wf(),
            types_view(builder.types@) == types_view(plan.field_types@),
            builder.types@.len() == plan.field_types@.len(),
            type_refs_view(refs@) == types_view(plan.field_types@),
            rows_view(builder.rows@) == rows_of_texts(pat, *plan, file@, tv.subrange(0, k as int)),
            row_count == rows_view(builder.rows@).len(),
            row_count <= k,
        decreases texts@.len() - k,
    {
        let ghost prev = rows_view(builder.rows@);
        let text = texts[k];
        assert(tv.subrange(0, k + 1).drop_last() =~= tv.subrange(0, k as int));
        assert(tv.subrange(0, k + 1).last() == text@);
        match &all[k] {
            Some(caps) => {
                cells_at_indices(caps, plan.field_indices.as_slice(), &mut values);
                assert(refs_view(values@).len() == values@.len());
                assert(values@.len() == plan.field_indices@.len());
                if plan.add_file_path {
                    values.set(plan.file_path_index, file);
                }
                if plan.add_raw {
                    values.set(plan.raw_index, text);
                }
                let ghost row = refs_view(values@);
                assert(row_of(pat, *plan, file@, text@) == Some(row)) by {
                    let c0 = cells_at(regex_captures(pat, text@)->0, plan.field_indices@);
                    let c1 = if plan.add_file_path { c0.update(plan.file_path_index as int, file@) } else { c0 };
                    let c2 = if plan.add_raw { c1.update(plan.raw_index as int, text@) } else { c1 };
                    assert(refs_view(values@) =~= c2);
                }
                builder.push(refs.as_slice(), values.as_slice());
                row_count = row_count + 1;
            },
            None => {},
        }
        k = k + 1;
    }
    assert(tv.subrange(0, texts@.len() as int) =~= tv);
    let columns = builder.finish();
    Ok(Batch { columns, row_count })
}

pub proof fn lemma_chunks_rows_none(pattern: Seq<char>, plan: ScanPlan, file: Seq<char>, b: Seq<u8>, c: int, k: int, k2: int)
    requires
        0 <= k <= k2,
        chunks_rows(pattern, plan, file, b, c, k) is None,
    ensures
        chunks_rows(pattern, plan, file, b, c, k2) is None,
    decreases k2 - k,
{
    if k < k2 {
        lemma_chunks_rows_none(pattern, plan, file, b, c, k, k2 - 1);
    }
}

/// Scans `data` as `chunk_count` chunks, snapped to line boundaries; one
/// batch per chunk, in chunk order. A line that is not valid UTF-8 fails the scan.
pub fn scan_file(scanner: &Scanner, plan: &ScanPlan, file: &str, data: &[u8], chunk_count: usize) -> (r: Result<Vec<Batch>, Error>)
    requires
        plan.wf(),
        chunk_count >= 1,
    ensures
        r is Ok <==> chunks_rows(scanner.regex_text(), *plan, file@, data@, chunk_count as int, chunk_count as int) is Some,
        r matches Ok(bs) ==> bs@.len() == chunk_count && forall|i: int| 0 <= i < chunk_count ==> batch_matches(
            #[trigger] bs@[i],
            *plan,
            rows_in(scanner.regex_text(), *plan, file@, data@, chunk_start(data@, chunk_count as int, i), chunk_end(data@, chunk_count as int, i))->0,
        ),
        r matches Err(e) ==> e is Utf8,
{
    let ghost pat = scanner.regex_text();
    let ghost c = chunk_count as int;
    let bounds = chunk_bounds(data, chunk_count);
    let mut out: Vec<Batch> = Vec::new();
    let mut i: usize = 0;
    while i < chunk_count
        invariant
            plan.wf(),
            pat == scanner.regex_text(),
            c == chunk_count,
            bounds@.len() == chunk_count,
            forall|j: int|
                0 <= j < chunk_count ==> (#[trigger] bounds@[j]).0 == chunk_start(data@, c, j)
                    && bounds@[j].1 == chunk_end(data@, c, j),
            i <= chunk_count,
            out@.len() == i,
            chunks_rows(pat, *plan, file@, data@, c, i as int) is Some,
            forall|j: int| 0 <= j < i ==> batch_matches(
                #[trigger] out@[j],
                *plan,
                rows_in(pat, *plan, file@, data@, chunk_start(data@, c, j), chunk_end(data@, c, j))->0,
            ),
        decreases chunk_count - i,
    {
        let (s, e) = bounds[i];
        proof {
            assert(bounds@[i as int].0 == chunk_start(data@, c, i as int));
            assert(bounds@[i as int].1 == chunk_end(data@, c, i as int));
            if i + 1 < chunk_count {
                lemma_nominal_offset(data@.len() as int, c, i + 1);
                lemma_next_start(data@, (i + 1) * (data@.len() as int / c));
            }
        }
        assert(e <= data@.len());
        match scan_chunk(scanner, plan, file, data, s, e) {
            Ok(b) => {
                out.push(b);
            },
            Err(err) => {
                proof {
                    lemma_chunks_rows_none(pat, *plan, file@, data@, c, i + 1, c);
                }
                return Err(err);
            },
        }
        i = i + 1;
    }
    Ok(out)
}

/// Where the next line starts lies between `x` and the end, just after a newline
/// unless it is the end.
pub proof fn lemma_next_start(b: Seq<u8>, x: int)
    requires
        0 <= x <= b.len(),
    ensures
        x <= next_start(b, x) <= b.len(),
        next_start(b, x) == b.len() || (next_start(b, x) >= 1 && b[next_start(b, x) - 1] == 10),
{
    lemma_nl_in(b, x, b.len() as int);
}

pub proof fn lemma_next_start_mono(b: Seq<u8>, x: int, y: int)
    requires
        0 <= x <= y <= b.len(),
    ensures
        next_start(b, x) <= next_start(b, y),
{
    lemma_nl_in(b, x, b.len() as int);
    lemma_nl_in(b, y, b.len() as int);
    lemma_next_start(b, y);
    match nl_in(b, x, b.len() as int) {
        Some(k) => {
            if k >= y {
                match nl_in(b, y, b.len() as int) {
                    Some(k2) => {
                        assert(k2 >= k);
                    },
                    None => {
                        assert(b[k] == 10);
                    },
                }
            }
        },
        None => {
            match nl_in(b, y, b.len() as int) {
                Some(k2) => {
                    assert(b[k2] == 10);
                },
                None => {},
            }
        },
    }
}

/// Splitting a range where a line ends splits its rows.
pub proof fn lemma_rows_split(pattern: Seq<char>, plan: ScanPlan, file: Seq<char>, b: Seq<u8>, a: int, m: int, z: int)
    requires
        0 <= a <= m <= z <= b.len(),
        m == a || m == z || b[m - 1] == 10,
    ensures
        rows_in(pattern, plan, file, b, a, z) == join_rows(
            rows_in(pattern, plan, file, b, a, m),
            rows_in(pattern, plan, file, b, m, z),
        ),
    decreases m - a,
{
    if m == a {
        match rows_in(pattern, plan, file, b, m, z) {
            Some(q) => {
                assert(Seq::<Row>::empty() + q =~= q);
            },
            None => {},
        }
    } else if m == z {
        match rows_in(pattern, plan, file, b, a, m) {
            Some(p) => {
                assert(p + Seq::<Row>::empty() =~= p);
            },
            None => {},
        }
    } else {
        lemma_nl_in_prefix(b, a, m, z, m - 1);
        lemma_nl_in(b, a, z);
        let k = nl_in(b, a, z)->0;
        assert(line_end(b, a, z) == k && line_end(b, a, m) == k);
        assert(line_next(b, a, z) == k + 1 && line_next(b, a, m) == k + 1);
        lemma_rows_split(pattern, plan, file, b, k + 1, m, z);
        let l = strip_cr(b.subrange(a, k));
        if valid_utf8(l) {
            let x = rows_in(pattern, plan, file, b, k + 1, m);
            let y = rows_in(pattern, plan, file, b, m, z);
            match x {
                Some(p) => match y {
                    Some(q) => match row_of(pattern, plan, file, decode_utf8(l)) {
                        Some(rw) => {
                            assert(seq![rw] + (p + q) =~= (seq![rw] + p) + q);
                        },
                        None => {},
                    },
                    None => {},
                },
                None => {},
            }
        }
    }
}

/// The rows that a chunked scan gives, chunk after chunk, are the rows of the
/// whole data scanned as one, whatever the number of chunks: every line lands
/// in exactly one chunk, and in order.
pub proof fn law_chunking_keeps_rows(pattern: Seq<char>, plan: ScanPlan, file: Seq<char>, b: Seq<u8>, c: int)
    requires
        c >= 1,
    ensures
        chunks_rows(pattern, plan, file, b, c, c) == rows_in(pattern, plan, file, b, 0, b.len() as int),
{
    lemma_chunks_prefix(pattern, plan, file, b, c, c);
}

proof fn lemma_chunk_bounds(b: Seq<u8>, c: int, k: int)
    requires
        c >= 1,
        0 <= k < c,
    ensures
        0 <= chunk_start(b, c, k) <= chunk_end(b, c, k) <= b.len(),
        chunk_start(b, c, k) == 0 || chunk_start(b, c, k) == b.len() || b[chunk_start(b, c, k) - 1] == 10,
{
    let len = b.len() as int;
    lemma_nominal_offset(len, c, k);
    lemma_nominal_offset(len, c, k + 1);
    if k > 0 {
        lemma_next_start(b, k * (len / c));
    }
    if k < c - 1 {
        lemma_next_start(b, (k + 1) * (len / c));
        assert(k * (len / c) <= (k + 1) * (len / c)) by (nonlinear_arith)
            requires
                len / c >= 0,
        ;
        if k > 0 {
            lemma_next_start_mono(b, k * (len / c), (k + 1) * (len / c));
        }
    }
}

proof fn lemma_chunks_prefix(pattern: Seq<char>, plan: ScanPlan, file: Seq<char>, b: Seq<u8>, c: int, k: int)
    requires
        1 <= k <= c,
    ensures
        chunks_rows(pattern, plan, file, b, c, k) == rows_in(pattern, plan, file, b, 0, chunk_end(b, c, k - 1)),
    decreases k,
{
    lemma_chunk_bounds(b, c, k - 1);
    if k == 1 {
        match rows_in(pattern, plan, file, b, 0, chunk_end(b, c, 0)) {
            Some(q) => {
                assert(Seq::<Row>::empty() + q =~= q);
            },
            None => {},
        }
    } else {
        lemma_chunks_prefix(pattern, plan, file, b, c, k - 1);
        lemma_chunk_bounds(b, c, k - 2);
        lemma_rows_split(pattern, plan, file, b, 0, chunk_start(b, c, k - 1), chunk_end(b, c, k - 1));
    }
}

/// Scanning the same bytes with the same plan and chunk count twice gives the
/// same batches, in the same order.
pub proof fn law_scan_repeatable(
    pattern: Seq<char>,
    plan: ScanPlan,
    file: Seq<char>,
    b: Seq<u8>,
    c: int,
    first: Seq<Batch>,
    second: Seq<Batch>,
)
    requires
        c >= 1,
        first.len() == c,
        second.len() == c,
        forall|i: int| 0 <= i < c ==> batch_matches(#[trigger] first[i], plan, rows_in(pattern, plan, file, b, chunk_start(b, c, i), chunk_end(b, c, i))->0),
        forall|i: int| 0 <= i < c ==> batch_matches(#[trigger] second[i], plan, rows_in(pattern, plan, file, b, chunk_start(b, c, i), chunk_end(b, c, i))->0),
    ensures
        forall|i: int| 0 <= i < c ==> (#[trigger] first[i]).row_count == second[i].row_count
            && columns_view(first[i].columns@) == columns_view(second[i].columns@),
{
    assert forall|i: int| 0 <= i < c implies (#[trigger] first[i]).row_count == second[i].row_count
        && columns_view(first[i].columns@) == columns_view(second[i].columns@) by {
        assert(batch_matches(first[i], plan, rows_in(pattern, plan, file, b, chunk_start(b, c, i), chunk_end(b, c, i))->0));
        assert(batch_matches(second[i], plan, rows_in(pattern, plan, file, b, chunk_start(b, c, i), chunk_end(b, c, i))->0));
    }
}

} // verus!
