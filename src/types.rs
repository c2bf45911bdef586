//! Field types: the type hint that a macro attaches to the field it introduces.

use vstd::prelude::*;

verus! {

/// The type of a field extracted by a pattern.
#[derive(Debug, Clone, PartialEq, Eq)]
pub enum FieldType {
    String,
    Int,
    Float,
    DateTime(DateTime),
    Enum,
    Json,
}

/// A date-time field, with the formats that its text may follow.
#[derive(Debug, Clone, PartialEq, Eq)]
pub struct DateTime {
    pub formats: Option<Vec<String>>,
}

/// What a `FieldType` is, with its formats as character sequences.
pub enum FieldTypeView {
    Text,
    Int,
    Float,
    DateTime(Option<Seq<Seq<char>>>),
    Enum,
    Json,
}

/// The character sequences of a sequence of strings.
pub open spec fn strs_view(v: Seq<String>) -> Seq<Seq<char>> {
    v.map_values(|s: String| s@)
}

pub open spec fn formats_view(f: Option<Vec<String>>) -> Option<Seq<Seq<char>>> {
    match f {
        Some(v) => Some(strs_view(v@)),
        None => None,
    }
}

impl View for DateTime {
    type V = Option<Seq<Seq<char>>>;

    open spec fn view(&self) -> Option<Seq<Seq<char>>> {
        formats_view(self.formats)
    }
}

impl View for FieldType {
    type V = FieldTypeView;

    open spec fn view(&self) -> FieldTypeView {
        match self {
            FieldType::String => FieldTypeView::Text,
            FieldType::Int => FieldTypeView::Int,
            FieldType::Float => FieldTypeView::Float,
            FieldType::DateTime(d) => FieldTypeView::DateTime(d@),
            FieldType::Enum => FieldTypeView::Enum,
            FieldType::Json => FieldTypeView::Json,
        }
    }
}

/// A copy of `v` with the same strings.
pub fn copy_strings(v: &Vec<String>) -> (r: Vec<String>)
    ensures
        strs_view(r@) == strs_view(v@),
{
    let mut out: Vec<String> = Vec::new();
    let mut i: usize = 0;
    while i < v.len()
        invariant
            i <= v@.len(),
            out@.len() == i,
            strs_view(out@) == strs_view(v@).subrange(0, i as int),
        decreases v@.len() - i,
    {
        let ghost prev = out@;
        let c = v[i].clone();
        out.push(c);
        i = i + 1;
        assert forall|j: int| 0 <= j < i implies strs_view(out@)[j] == strs_view(v@)[j] by {
            if j < i - 1 {
                assert(out@[j] == prev[j]);
                assert(strs_view(prev)[j] == strs_view(v@).subrange(0, i - 1)[j]);
            }
        }
        assert(strs_view(out@) =~= strs_view(v@).subrange(0, i as int));
    }
    assert(strs_view(v@).subrange(0, v@.len() as int) =~= strs_view(v@));
    out
}

/// The number of microseconds since the Unix epoch that `value` denotes when it
/// is read with the strftime-style `format` as a UTC time, if it can be read so.
pub uninterp spec fn utc_micros_of(value: Seq<char>, format: Seq<char>) -> Option<int>;

/// Relies on chrono's `NaiveDateTime::parse_from_str`, with the parsed value taken
/// as UTC and counted by `DateTime::timestamp_micros`.
#[verifier::external_body]
fn parse_utc_micros(value: &str, format: &str) -> (r: Option<i64>)
    ensures
        r matches Some(t) ==> utc_micros_of(value@, format@) == Some(t as int),
        r is None ==> utc_micros_of(value@, format@) is None,
{
    chrono::NaiveDateTime::parse_from_str(value, format).ok().map(|d| d.and_utc().timestamp_micros())
}

/// The first of `formats[i..]` under which `value` reads as a time, and that time.
pub open spec fn first_reading(value: Seq<char>, formats: Seq<Seq<char>>, i: int) -> Option<int>
    decreases formats.len() - i,
{
    if i < 0 || i >= formats.len() {
        None
    } else {
        match utc_micros_of(value, formats[i]) {
            Some(t) => Some(t),
            None => first_reading(value, formats, i + 1),
        }
    }
}

impl DateTime {
    pub fn new(formats: Option<Vec<String>>) -> (r: Self)
        ensures
            r.formats == formats,
    {
        DateTime { formats }
    }

    /// Reads `value` with each format in turn; the first that fits gives the
    /// time in microseconds since the Unix epoch.
    pub fn parse(&self, value: &str) -> (r: Option<i64>)
        ensures
            r matches Some(t) ==> self@ matches Some(f) && first_reading(value@, f, 0) == Some(t as int),
            r is None ==> (self@ matches Some(f) ==> first_reading(value@, f, 0) is None),
    {
        match &self.formats {
            Some(formats) => {
                let mut i: usize = 0;
                while i < formats.len()
                    invariant
                        i <= formats@.len(),
                        self@ == Some(strs_view(formats@)),
                        first_reading(value@, strs_view(formats@), 0)
                            == first_reading(value@, strs_view(formats@), i as int),
                    decreases formats@.len() - i,
                {
                    let r = parse_utc_micros(value, formats[i].as_str());
                    if r.is_some() {
                        return r;
                    }
                    i = i + 1;
                }
                None
            },
            None => None,
        }
    }
}

impl FieldType {
    /// A copy of this type.
    pub fn duplicate(&self) -> (r: FieldType)
        ensures
            r@ == self@,
    {
        match self {
            FieldType::String => FieldType::String,
            FieldType::Int => FieldType::Int,
            FieldType::Float => FieldType::Float,
            FieldType::DateTime(d) => {
                let formats = match &d.formats {
                    Some(v) => Some(copy_strings(v)),
                    None => None,
                };
                FieldType::DateTime(DateTime::new(formats))
            },
            FieldType::Enum => FieldType::Enum,
            FieldType::Json => FieldType::Json,
        }
    }
}

} // verus!
