//! The table that a scanner makes of log files: its schema, its projections
//! and the plan of a scan.

use vstd::prelude::*;
use crate::error::Error;
use crate::exec::{batch_matches, chunk_end, chunk_start, chunks_rows, rows_in, scan_file, Batch, ScanPlan};
use crate::expander::{expand_spec, hint_lookup};
use crate::scanner::{built_from, column_index, first_missing_from, Scanner};
use crate::parser::CustomMacroView;
use crate::text::{refs_view, str_eq};
use crate::types::{strs_view, FieldType, FieldTypeView};

verus! {

/// The physical type of a column.
#[derive(Debug, Clone, Copy, PartialEq, Eq, Structural)]
pub enum DataKind {
    Int32,
    Float64,
    Utf8,
}

/// A column of the table's schema; every column is nullable.
#[derive(Debug, Clone)]
pub struct SchemaField {
    pub name: String,
    pub data_type: DataKind,
}

pub open spec fn schema_view(fs: Seq<SchemaField>) -> Seq<(Seq<char>, DataKind)> {
    fs.map_values(|f: SchemaField| (f.name@, f.data_type))
}

/// The column type of a field with hint `h`: integers and floats are numeric,
/// everything else is text.
pub open spec fn data_kind(h: Option<FieldTypeView>) -> DataKind {
    match h {
        Some(FieldTypeView::Int) => DataKind::Int32,
        Some(FieldTypeView::Float) => DataKind::Float64,
        _ => DataKind::Utf8,
    }
}

pub open spec fn file_column() -> Seq<char> {
    "__FILE__"@
}

pub open spec fn raw_column() -> Seq<char> {
    "__RAW__"@
}

/// The schema of a table over `fields`: one column per field, typed by its
/// hint, then `__FILE__` and `__RAW__` where enabled, in that order.
pub open spec fn schema_spec(
    fields: Seq<Seq<char>>,
    hints: Seq<(Seq<char>, FieldTypeView)>,
    add_file_path: bool,
    add_raw: bool,
) -> Seq<(Seq<char>, DataKind)> {
    let base = fields.map_values(|n: Seq<char>| (n, data_kind(hint_lookup(hints, n))));
    let with_file = if add_file_path { base.push((file_column(), DataKind::Utf8)) } else { base };
    if add_raw { with_file.push((raw_column(), DataKind::Utf8)) } else { with_file }
}

/// The type of a projected column: its hint, or text.
pub open spec fn projected_type(hints: Seq<(Seq<char>, FieldTypeView)>, name: Seq<char>) -> FieldTypeView {
    match hint_lookup(hints, name) {
        Some(t) => t,
        None => FieldTypeView::Text,
    }
}

/// A table of log lines: a scanner, the files it reads (a glob), the
/// synthetic columns it offers and the number of chunks it asks for.
#[derive(Debug, Clone)]
pub struct LogTableProvider {
    pub scanner: Scanner,
    pub file_path: String,
    pub add_file_path: bool,
    pub add_raw: bool,
    pub num_threads: Option<usize>,
}

/// How many chunks a file is cut into: the provider's hint, else the value
/// from the environment, else the host's parallelism; at least 1 and at most
/// the host's parallelism.
pub open spec fn chunk_count_spec(hint: Option<usize>, env_threads: Option<usize>, host: usize) -> usize {
    let wanted = match hint {
        Some(h) => h,
        None => match env_threads {
            Some(e) => e,
            None => host,
        },
    };
    if wanted < 1 {
        1
    } else if wanted > host {
        host
    } else {
        wanted
    }
}

/// How many chunks a file is cut into.
pub fn chunk_count(hint: Option<usize>, env_threads: Option<usize>, host: usize) -> (r: usize)
    requires
        host >= 1,
    ensures
        r == chunk_count_spec(hint, env_threads, host),
        1 <= r <= host,
{
    let wanted = match hint {
        Some(h) => h,
        None => match env_threads {
            Some(e) => e,
            None => host,
        },
    };
    if wanted < 1 {
        1
    } else if wanted > host {
        host
    } else {
        wanted
    }
}

/// The files that a glob found, or an error where it found none.
pub fn resolve_files(paths: Vec<String>, file_spec: &str) -> (r: Result<Vec<String>, Error>)
    ensures
        paths@.len() > 0 ==> r == Ok::<Vec<String>, Error>(paths),
        paths@.len() == 0 ==> (r matches Err(e) && e == Error::NoFiles(e->NoFiles_0) && e->NoFiles_0@ == file_spec@),
{
    if paths.len() == 0 {
        Err(Error::NoFiles(String::from_str(file_spec)))
    } else {
        Ok(paths)
    }
}

fn position_of(names: &Vec<String>, name: &str) -> (r: Option<usize>)
    ensures
        r matches Some(k) ==> k < names@.len() && names@[k as int]@ == name@,
        r is None ==> !strs_view(names@).contains(name@),
{
    let mut i: usize = 0;
    while i < names.len()
        invariant
            i <= names@.len(),
            forall|j: int| 0 <= j < i ==> names@[j]@ != name@,
        decreases names@.len() - i,
    {
        if str_eq(names[i].as_str(), name) {
            return Some(i);
        }
        i = i + 1;
    }
    assert(!strs_view(names@).contains(name@)) by {
        if strs_view(names@).contains(name@) {
            let j = choose|j: int| 0 <= j < strs_view(names@).len() && strs_view(names@)[j] == name@;
            assert(names@[j]@ == name@);
        }
    }
    None
}

impl LogTableProvider {
    pub fn new(scanner: Scanner, file_path: String, add_file_path: bool, add_raw: bool, num_threads: Option<usize>) -> (r: LogTableProvider)
        ensures
            r == (LogTableProvider { scanner, file_path, add_file_path, add_raw, num_threads }),
    {
        LogTableProvider { scanner, file_path, add_file_path, add_raw, num_threads }
    }

    /// The table's columns.
    pub fn schema(&self) -> (r: Vec<SchemaField>)
        ensures
            schema_view(r@) == schema_spec(strs_view(self.scanner.field_names@), self.scanner.type_hints@, self.add_file_path, self.add_raw),
    {
        let ghost want = schema_spec(strs_view(self.scanner.field_names@), self.scanner.type_hints@, self.add_file_path, self.add_raw);
        let ghost base = strs_view(self.scanner.field_names@).map_values(
            |n: Seq<char>| (n, data_kind(hint_lookup(self.scanner.type_hints@, n))),
        );
        let mut out: Vec<SchemaField> = Vec::new();
        let mut i: usize = 0;
        while i < self.scanner.field_names.len()
            invariant
                i <= self.scanner.field_names@.len(),
                base == strs_view(self.scanner.field_names@).map_values(
                    |n: Seq<char>| (n, data_kind(hint_lookup(self.scanner.type_hints@, n))),
                ),
                schema_view(out@) == base.subrange(0, i as int),
            decreases self.scanner.field_names@.len() - i,
        {
            let name = &self.scanner.field_names[i];
            let kind = match self.scanner.type_hints.get(name.as_str()) {
                Some(FieldType::Int) => DataKind::Int32,
                Some(FieldType::Float) => DataKind::Float64,
                _ => DataKind::Utf8,
            };
            let ghost prev = out@;
            out.push(SchemaField { name: name.clone(), data_type: kind });
            i = i + 1;
            assert(schema_view(out@) =~= schema_view(prev).push((name@, kind)));
            assert(base.subrange(0, i as int) =~= base.subrange(0, i - 1).push(base[i - 1]));
        }
        assert(base.subrange(0, self.scanner.field_names@.len() as int) =~= base);
        if self.add_file_path {
            let ghost prev = out@;
            out.push(SchemaField { name: String::from_str("__FILE__"), data_type: DataKind::Utf8 });
            assert(schema_view(out@) =~= schema_view(prev).push((file_column(), DataKind::Utf8)));
        }
        if self.add_raw {
            let ghost prev = out@;
            out.push(SchemaField { name: String::from_str("__RAW__"), data_type: DataKind::Utf8 });
            assert(schema_view(out@) =~= schema_view(prev).push((raw_column(), DataKind::Utf8)));
        }
        out
    }

    /// The columns that a projection picks, in its order; no projection picks all.
    pub fn project(&self, projection: Option<&Vec<usize>>) -> (r: Vec<SchemaField>)
        requires
            projection matches Some(p) ==> forall|i: int| 0 <= i < p@.len() ==> (#[trigger] p@[i]) < schema_spec(
                strs_view(self.scanner.field_names@),
                self.scanner.type_hints@,
                self.add_file_path,
                self.add_raw,
            ).len(),
        ensures
            schema_view(r@) == match projection {
                Some(p) => p@.map_values(|i: usize| schema_spec(strs_view(self.scanner.field_names@), self.scanner.type_hints@, self.add_file_path, self.add_raw)[i as int]),
                None => schema_spec(strs_view(self.scanner.field_names@), self.scanner.type_hints@, self.add_file_path, self.add_raw),
            },
    {
        let all = self.schema();
        match projection {
            None => all,
            Some(p) => {
                let ghost sv = schema_view(all@);
                let mut out: Vec<SchemaField> = Vec::new();
                let mut k: usize = 0;
                while k < p.len()
                    invariant
                        sv == schema_view(all@),
                        sv.len() == all@.len(),
                        forall|i: int| 0 <= i < p@.len() ==> (#[trigger] p@[i]) < sv.len(),
                        k <= p@.len(),
                        out@.len() == k,
                        forall|j: int| 0 <= j < k ==> ((#[trigger] out@[j]).name@, out@[j].data_type) == sv[p@[j] as int],
                    decreases p@.len() - k,
                {
                    let f = &all[p[k]];
                    assert(sv[p@[k as int] as int] == (f.name@, f.data_type));
                    out.push(SchemaField { name: f.name.clone(), data_type: f.data_type });
                    k = k + 1;
                }
                assert(schema_view(out@) =~= p@.map_values(|i: usize| sv[i as int]));
                out
            },
        }
    }

    /// What a scan of the projected columns `names` reads: each column's type
    /// (its hint, or text), the capture index it reads, and the places of the
    /// synthetic columns, which count only where the table offers them and the
    /// projection asks for them.
    pub fn plan_scan(&self, names: &Vec<String>) -> (r: Result<ScanPlan, Error>)
        requires
            self.scanner.groups().len() + 2 <= usize::MAX,
        ensures
            r matches Ok(plan) ==> plan.wf(),
            r matches Ok(plan) ==> strs_view(plan.field_names@) == strs_view(names@),
            r matches Ok(plan) ==> plan.add_file_path == (self.add_file_path && strs_view(names@).contains(file_column())),
            r matches Ok(plan) ==> plan.add_raw == (self.add_raw && strs_view(names@).contains(raw_column())),
            r matches Ok(plan) ==> (plan.add_file_path ==> names@[plan.file_path_index as int]@ == file_column()),
            r matches Ok(plan) ==> (plan.add_raw ==> names@[plan.raw_index as int]@ == raw_column()),
            r matches Ok(plan) ==> forall|i: int| 0 <= i < names@.len() ==> (#[trigger] plan.field_types@[i])@ == projected_type(self.scanner.type_hints@, names@[i]@),
            r matches Ok(plan) ==> forall|i: int| 0 <= i < names@.len() ==> column_index(
                    self.scanner.groups(),
                    synthetic_columns(plan.add_file_path, plan.add_raw),
                    names@[i]@,
                ) == Some(#[trigger] plan.field_indices@[i] as int),
            r matches Err(e) ==> e is FieldNotFound && first_missing_from(
                self.scanner.groups(),
                synthetic_columns(
                    self.add_file_path && strs_view(names@).contains(file_column()),
                    self.add_raw && strs_view(names@).contains(raw_column()),
                ),
                strs_view(names@),
                0,
            ) is Some,
    {
        let mut field_types: Vec<FieldType> = Vec::new();
        let mut refs: Vec<&str> = Vec::new();
        let mut i: usize = 0;
        while i < names.len()
            invariant
                i <= names@.len(),
                field_types@.len() == i,
                refs@.len() == i,
                forall|j: int| 0 <= j < i ==> (#[trigger] field_types@[j])@ == projected_type(self.scanner.type_hints@, names@[j]@),
                forall|j: int| 0 <= j < i ==> (#[trigger] refs@[j])@ == names@[j]@,
            decreases names@.len() - i,
        {
            let t = match self.scanner.type_hints.get(names[i].as_str()) {
                Some(t) => t.duplicate(),
                None => FieldType::String,
            };
            field_types.push(t);
            refs.push(names[i].as_str());
            i = i + 1;
        }
        let file_pos = position_of(names, "__FILE__");
        let raw_pos = position_of(names, "__RAW__");
        proof {
            if let Some(k) = file_pos {
                assert(strs_view(names@)[k as int] == file_column());
            }
            if let Some(k) = raw_pos {
                assert(strs_view(names@)[k as int] == raw_column());
            }
        }
        let add_file_path = self.add_file_path && file_pos.is_some();
        let add_raw = self.add_raw && raw_pos.is_some();
        let mut extra: Vec<&str> = Vec::new();
        if add_file_path {
            extra.push("__FILE__");
        }
        if add_raw {
            extra.push("__RAW__");
        }
        assert(refs_view(extra@) =~= synthetic_columns(add_file_path, add_raw));
        assert(refs_view(refs@) =~= strs_view(names@));
        let indices = match self.scanner.prepare_indices(refs.as_slice(), extra.as_slice()) {
            Ok(v) => v,
            Err(e) => {
                return Err(e);
            },
        };
        let file_path_index = match file_pos {
            Some(k) => k,
            None => 0,
        };
        let raw_index = match raw_pos {
            Some(k) => k,
            None => 0,
        };
        let field_names = crate::types::copy_strings(names);
        assert(strs_view(field_names@).len() == field_names@.len());
        assert(strs_view(names@).len() == names@.len());
        assert forall|i: int| 0 <= i < names@.len() implies column_index(
            self.scanner.groups(),
            synthetic_columns(add_file_path, add_raw),
            names@[i]@,
        ) == Some(#[trigger] indices@[i] as int) by {
            assert(refs@[i]@ == names@[i]@);
        }
        Ok(ScanPlan { field_names, field_types, field_indices: indices, add_file_path, add_raw, file_path_index, raw_index })
    }

    /// Scans the bytes of one file (`file` names it in the `__FILE__` column)
    /// as `chunk_count` chunks: one batch per chunk, in order.
    pub fn scan_data(&self, plan: &ScanPlan, file: &str, data: &[u8], chunk_count: usize) -> (r: Result<Vec<Batch>, Error>)
        requires
            plan.wf(),
            chunk_count >= 1,
        ensures
            r is Ok <==> chunks_rows(self.scanner.regex_text(), *plan, file@, data@, chunk_count as int, chunk_count as int) is Some,
            r matches Ok(bs) ==> bs@.len() == chunk_count && forall|i: int| 0 <= i < chunk_count ==> batch_matches(
                #[trigger] bs@[i],
                *plan,
                rows_in(self.scanner.regex_text(), *plan, file@, data@, chunk_start(data@, chunk_count as int, i), chunk_end(data@, chunk_count as int, i))->0,
            ),
            r matches Err(e) ==> e is Utf8,
    {
        scan_file(&self.scanner, plan, file, data, chunk_count)
    }
}

/// The synthetic columns that a scan fills, in order.
pub open spec fn synthetic_columns(add_file_path: bool, add_raw: bool) -> Seq<Seq<char>> {
    let a: Seq<Seq<char>> = if add_file_path { seq![file_column()] } else { Seq::empty() };
    if add_raw { a.push(raw_column()) } else { a }
}

/// The table of a pattern whose macros introduce fields has one column per
/// such field, in the order the pattern introduces them, and after them
/// `__FILE__` and then `__RAW__`, each where enabled.
pub proof fn law_schema_columns(
    pattern: Seq<char>,
    customs: Seq<CustomMacroView>,
    sc: Scanner,
    add_file_path: bool,
    add_raw: bool,
)
    requires
        built_from(sc, pattern, customs),
        expand_spec(pattern, customs) matches Ok(x) && x.fields.len() > 0,
    ensures
        ({
            let x = expand_spec(pattern, customs)->Ok_0;
            let n = x.fields.len();
            let s = schema_spec(strs_view(sc.field_names@), sc.type_hints@, add_file_path, add_raw);
            &&& s.len() == n + (if add_file_path { 1int } else { 0int }) + (if add_raw { 1int } else { 0int })
            &&& forall|i: int| 0 <= i < n ==> (#[trigger] s[i]).0 == x.fields[i]
            &&& add_file_path ==> s[n as int].0 == file_column()
            &&& add_raw ==> s[s.len() - 1].0 == raw_column()
        }),
{
}

} // verus!
