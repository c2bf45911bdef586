//! Typed column accumulation: one column per projected field.

use vstd::prelude::*;
use crate::expander::{lower, lower_chars};
use crate::parser::opt_string_view;
use crate::text::{all_digits, chars_eq, chars_of, digits_value, is_digit, refs_view};
use crate::types::{strs_view, FieldType, FieldTypeView};

verus! {

/// A finished column. A float column keeps the text of each value that reads
/// as a 64-bit float (the host engine converts it), and null for the others.
#[derive(Debug, Clone)]
pub enum Column {
    Utf8(Vec<String>),
    Int32(Vec<Option<i32>>),
    Float64(Vec<Option<String>>),
}

/// A column as plain values.
pub enum ColumnView {
    Utf8(Seq<Seq<char>>),
    Int32(Seq<Option<i32>>),
    Float64(Seq<Option<Seq<char>>>),
}

impl View for Column {
    type V = ColumnView;

    open spec fn view(&self) -> ColumnView {
        match self {
            Column::Utf8(v) => ColumnView::Utf8(strs_view(v@)),
            Column::Int32(v) => ColumnView::Int32(v@),
            Column::Float64(v) => ColumnView::Float64(v@.map_values(|o: Option<String>| opt_string_view(o))),
        }
    }
}

pub open spec fn columns_view(cols: Seq<Column>) -> Seq<ColumnView> {
    cols.map_values(|c: Column| c@)
}

/// The value of `s` read as a decimal integer: an optional `+` or `-`, then
/// one or more ASCII digits, nothing else.
pub open spec fn decimal_value(s: Seq<char>) -> Option<int> {
    if s.len() == 0 {
        None
    } else if s[0] == '+' || s[0] == '-' {
        let d = s.subrange(1, s.len() as int);
        if d.len() == 0 || !all_digits(d) {
            None
        } else if s[0] == '-' {
            Some(-digits_value(d))
        } else {
            Some(digits_value(d) as int)
        }
    } else if all_digits(s) {
        Some(digits_value(s) as int)
    } else {
        None
    }
}

/// `s` read as a 32-bit signed integer (as `str::parse::<i32>` reads it).
pub open spec fn int32_value(s: Seq<char>) -> Option<i32> {
    match decimal_value(s) {
        Some(v) => if i32::MIN <= v <= i32::MAX {
            Some(v as i32)
        } else {
            None
        },
        None => None,
    }
}

pub proof fn lemma_digits_prefix(s: Seq<char>, k: int)
    requires
        0 <= k <= s.len(),
    ensures
        digits_value(s.subrange(0, k)) <= digits_value(s),
    decreases s.len() - k,
{
    if k < s.len() {
        lemma_digits_prefix(s, k + 1);
        assert(s.subrange(0, k + 1).drop_last() =~= s.subrange(0, k));
    } else {
        assert(s.subrange(0, k) =~= s);
    }
}

/// Reads `s` as a 32-bit signed decimal integer.
pub fn parse_int32(s: &str) -> (r: Option<i32>)
    ensures
        r == int32_value(s@),
{
    let v = chars_of(s);
    let n = v.len();
    if n == 0 {
        return None;
    }
    let neg = v[0] == '-';
    let start: usize = if v[0] == '+' || v[0] == '-' { 1 } else { 0 };
    if start == n {
        return None;
    }
    let ghost d = v@.subrange(start as int, n as int);
    assert(start == 0 ==> d =~= s@);
    assert(v@.subrange(start as int, start as int) =~= Seq::<char>::empty());
    let mut acc: i64 = 0;
    let mut i: usize = start;
    while i < n
        invariant
            v@ == s@,
            n == v@.len(),
            start <= i <= n,
            start < n,
            d == v@.subrange(start as int, n as int),
            all_digits(v@.subrange(start as int, i as int)),
            acc == digits_value(v@.subrange(start as int, i as int)),
            acc <= 2147483648,
            start <= 1,
            (start == 1) == (v@[0] == '+' || v@[0] == '-'),
            neg == (v@[0] == '-'),
            start == 1 ==> d == s@.subrange(1, s@.len() as int),
            start == 0 ==> d == s@,
        decreases n - i,
    {
        let c = v[i];
        if !('0' <= c && c <= '9') {
            proof {
                assert(!is_digit(d[i - start]));
                assert(!all_digits(d));
            }
            return None;
        }
        let dig = (c as u32 - '0' as u32) as i64;
        assert(v@.subrange(start as int, i + 1).drop_last() =~= v@.subrange(start as int, i as int));
        acc = acc * 10 + dig;
        i = i + 1;
        if acc > 2147483648 {
            proof {
                assert(v@.subrange(start as int, i as int) =~= d.subrange(0, i - start));
                lemma_digits_prefix(d, i - start);
                assert forall|j: int| 0 <= j < i - start implies is_digit(#[trigger] d[j]) by {
                    assert(d[j] == v@.subrange(start as int, i as int)[j]);
                }
            }
            assert(digits_value(d) > 2147483648);
            return None;
        }
    }
    assert(v@.subrange(start as int, n as int) =~= d);
    if neg {
        Some((-acc) as i32)
    } else if acc > 2147483647 {
        None
    } else {
        Some(acc as i32)
    }
}

/// End of the run of ASCII digits of `s` that starts at `i`.
pub open spec fn digit_run(s: Seq<char>, i: int) -> int
    decreases s.len() - i,
{
    if 0 <= i < s.len() && is_digit(s[i]) {
        digit_run(s, i + 1)
    } else {
        i
    }
}

/// Whether `s[i..]` is an exponent: `e` or `E`, an optional sign, then one or
/// more digits.
pub open spec fn is_exponent(s: Seq<char>, i: int) -> bool {
    &&& 0 <= i < s.len()
    &&& (s[i] == 'e' || s[i] == 'E')
    &&& {
        let j = if i + 1 < s.len() && (s[i + 1] == '+' || s[i + 1] == '-') { i + 2 } else { i + 1 };
        j < s.len() && digit_run(s, j) == s.len()
    }
}

/// Whether `t` is a decimal number: digits with an optional fractional part,
/// at least one digit in all, then an optional exponent.
pub open spec fn is_decimal_number(t: Seq<char>) -> bool {
    let i1 = digit_run(t, 0);
    let (ndig, k) = if i1 < t.len() && t[i1] == '.' {
        let i2 = digit_run(t, i1 + 1);
        (i1 + (i2 - i1 - 1), i2)
    } else {
        (i1, i1)
    };
    ndig >= 1 && (k == t.len() || is_exponent(t, k))
}

/// Whether `s` reads as a 64-bit float, by the grammar that `f64::from_str`
/// documents: an optional sign, then `inf`, `infinity` or `nan` in any case,
/// or a decimal number.
pub open spec fn is_float_text(s: Seq<char>) -> bool {
    let t = if s.len() > 0 && (s[0] == '+' || s[0] == '-') { s.subrange(1, s.len() as int) } else { s };
    lower(t) == "inf"@ || lower(t) == "infinity"@ || lower(t) == "nan"@ || is_decimal_number(t)
}

/// The cell of a float column: the text where it reads as a float, else null.
pub open spec fn float_cell(s: Seq<char>) -> Option<Seq<char>> {
    if is_float_text(s) {
        Some(s)
    } else {
        None
    }
}

fn digit_run_at(s: &Vec<char>, i: usize) -> (r: usize)
    requires
        i <= s@.len(),
    ensures
        r as int == digit_run(s@, i as int),
        i <= r <= s@.len(),
{
    let mut k: usize = i;
    while k < s.len() && '0' <= s[k] && s[k] <= '9'
        invariant
            i <= k <= s@.len(),
            digit_run(s@, i as int) == digit_run(s@, k as int),
        decreases s@.len() - k,
    {
        k = k + 1;
    }
    k
}

/// Whether `s` reads as a 64-bit float.
pub fn is_float(s: &str) -> (r: bool)
    ensures
        r == is_float_text(s@),
{
    let v = chars_of(s);
    let t = if v.len() > 0 && (v[0] == '+' || v[0] == '-') {
        crate::text::slice_chars(&v, 1, v.len())
    } else {
        v
    };
    let l = lower_chars(&t);
    if chars_eq(&l, &chars_of("inf")) || chars_eq(&l, &chars_of("infinity")) || chars_eq(
        &l,
        &chars_of("nan"),
    ) {
        return true;
    }
    let n = t.len();
    let i1 = digit_run_at(&t, 0);
    let (ndig, k) = if i1 < n && t[i1] == '.' {
        let i2 = digit_run_at(&t, i1 + 1);
        (i1 + (i2 - i1 - 1), i2)
    } else {
        (i1, i1)
    };
    if ndig < 1 {
        return false;
    }
    if k == n {
        return true;
    }
    if !(t[k] == 'e' || t[k] == 'E') {
        return false;
    }
    let j = if k + 1 < n && (t[k + 1] == '+' || t[k + 1] == '-') { k + 2 } else { k + 1 };
    j < n && digit_run_at(&t, j) == n
}

/// The texts that a column of type `t` holds become its values: integers are
/// read as 32-bit decimals and floats are kept where they read as floats
/// (null where they do not read), all else is text.
pub open spec fn column_of(t: FieldTypeView, texts: Seq<Seq<char>>) -> ColumnView {
    match t {
        FieldTypeView::Int => ColumnView::Int32(texts.map_values(|s: Seq<char>| int32_value(s))),
        FieldTypeView::Float => ColumnView::Float64(texts.map_values(|s: Seq<char>| float_cell(s))),
        _ => ColumnView::Utf8(texts),
    }
}

/// Column `j` of the rows.
pub open spec fn column_texts(rows: Seq<Seq<Seq<char>>>, j: int) -> Seq<Seq<char>> {
    rows.map_values(|row: Seq<Seq<char>>| row[j])
}

/// The columns that rows of the given types make.
pub open spec fn columns_of(types: Seq<FieldTypeView>, rows: Seq<Seq<Seq<char>>>) -> Seq<ColumnView> {
    Seq::new(types.len(), |j: int| column_of(types[j], column_texts(rows, j)))
}

pub open spec fn types_view(ts: Seq<FieldType>) -> Seq<FieldTypeView> {
    ts.map_values(|t: FieldType| t@)
}

pub open spec fn type_refs_view(ts: Seq<&FieldType>) -> Seq<FieldTypeView> {
    ts.map_values(|t: &FieldType| t@)
}

pub open spec fn rows_view(rows: Seq<Vec<String>>) -> Seq<Seq<Seq<char>>> {
    rows.map_values(|r: Vec<String>| strs_view(r@))
}

/// Accumulates rows of field texts and turns them into typed columns.
#[derive(Debug, Clone)]
pub struct FieldsBuilder {
    pub types: Vec<FieldType>,
    pub rows: Vec<Vec<String>>,
}

impl FieldsBuilder {
    /// Every row holds one text per column.
    pub open spec fn wf(&self) -> bool {
        forall|i: int| 0 <= i < self.rows@.len() ==> (#[trigger] self.rows@[i])@.len() == self.types@.len()
    }

    /// A builder with one column of each given type, and no row.
    pub fn new(fields: &[&FieldType]) -> (r: FieldsBuilder)
        ensures
            r.wf(),
            types_view(r.types@) == type_refs_view(fields@),
            r.rows@.len() == 0,
    {
        let mut types: Vec<FieldType> = Vec::new();
        let mut i: usize = 0;
        while i < fields.len()
            invariant
                i <= fields@.len(),
                types@.len() == i,
                forall|j: int| 0 <= j < i ==> (#[trigger] types@[j])@ == fields@[j]@,
            decreases fields@.len() - i,
        {
            types.push(fields[i].duplicate());
            i = i + 1;
        }
        assert(types_view(types@) =~= type_refs_view(fields@));
        FieldsBuilder { types, rows: Vec::new() }
    }

    /// Appends one row: the text of each field, in column order.
    pub fn push(&mut self, field_types: &[&FieldType], values: &[&str])
        requires
            old(self).wf(),
            type_refs_view(field_types@) == types_view(old(self).types@),
            values@.len() == old(self).types@.len(),
        ensures
            final(self).wf(),
            final(self).types == old(self).types,
            rows_view(final(self).rows@) == rows_view(old(self).rows@).push(refs_view(values@)),
    {
        let mut row: Vec<String> = Vec::new();
        let mut i: usize = 0;
        while i < values.len()
            invariant
                i <= values@.len(),
                row@.len() == i,
                forall|j: int| 0 <= j < i ==> (#[trigger] row@[j])@ == values@[j]@,
            decreases values@.len() - i,
        {
            row.push(String::from_str(values[i]));
            i = i + 1;
        }
        assert(strs_view(row@) =~= refs_view(values@));
        let ghost prev = self.rows@;
        self.rows.push(row);
        assert(rows_view(self.rows@) =~= rows_view(prev).push(refs_view(values@)));
    }

    /// The columns of the rows pushed so far; the builder is left without rows.
    pub fn finish(&mut self) -> (r: Vec<Column>)
        requires
            old(self).wf(),
        ensures
            final(self).wf(),
            final(self).types == old(self).types,
            final(self).rows@.len() == 0,
            columns_view(r@) == columns_of(types_view(old(self).types@), rows_view(old(self).rows@)),
    {
        let ghost rv = rows_view(self.rows@);
        let ghost tv = types_view(self.types@);
        let mut cols: Vec<Column> = Vec::new();
        let mut j: usize = 0;
        while j < self.types.len()
            invariant
                self.wf(),
                rv == rows_view(self.rows@),
                tv == types_view(self.types@),
                j <= self.types@.len(),
                cols@.len() == j,
                forall|k: int| 0 <= k < j ==> (#[trigger] cols@[k])@ == column_of(tv[k], column_texts(rv, k)),
            decreases self.types@.len() - j,
        {
            let col = self.column(j);
            cols.push(col);
            j = j + 1;
        }
        self.rows = Vec::new();
        assert(columns_view(cols@) =~= columns_of(tv, rv));
        cols
    }

    fn column(&self, j: usize) -> (r: Column)
        requires
            self.wf(),
            j < self.types@.len(),
        ensures
            r@ == column_of(self.types@[j as int]@, column_texts(rows_view(self.rows@), j as int)),
    {
        let ghost texts = column_texts(rows_view(self.rows@), j as int);
        match &self.types[j] {
            FieldType::Int => {
                let mut out: Vec<Option<i32>> = Vec::new();
                let mut i: usize = 0;
                while i < self.rows.len()
                    invariant
                        self.wf(),
                        j < self.types@.len(),
                        texts == column_texts(rows_view(self.rows@), j as int),
                        i <= self.rows@.len(),
                        out@.len() == i,
                        forall|k: int| 0 <= k < i ==> #[trigger] out@[k] == int32_value(texts[k]),
                    decreases self.rows@.len() - i,
                {
                    assert(texts[i as int] == self.rows@[i as int]@[j as int]@);
                    out.push(parse_int32(self.rows[i][j].as_str()));
                    i = i + 1;
                }
                assert(out@ =~= texts.map_values(|s: Seq<char>| int32_value(s)));
                Column::Int32(out)
            },
            FieldType::Float => {
                let mut out: Vec<Option<String>> = Vec::new();
                let mut i: usize = 0;
                while i < self.rows.len()
                    invariant
                        self.wf(),
                        j < self.types@.len(),
                        texts == column_texts(rows_view(self.rows@), j as int),
                        i <= self.rows@.len(),
                        out@.len() == i,
                        forall|k: int| 0 <= k < i ==> opt_string_view(#[trigger] out@[k]) == float_cell(texts[k]),
                    decreases self.rows@.len() - i,
                {
                    assert(texts[i as int] == self.rows@[i as int]@[j as int]@);
                    let cell = if is_float(self.rows[i][j].as_str()) {
                        Some(self.rows[i][j].clone())
                    } else {
                        None
                    };
                    out.push(cell);
                    i = i + 1;
                }
                assert(out@.map_values(|o: Option<String>| opt_string_view(o)) =~= texts.map_values(|s: Seq<char>| float_cell(s)));
                Column::Float64(out)
            },
            t => {
                let mut out: Vec<String> = Vec::new();
                let mut i: usize = 0;
                while i < self.rows.len()
                    invariant
                        self.wf(),
                        j < self.types@.len(),
                        texts == column_texts(rows_view(self.rows@), j as int),
                        i <= self.rows@.len(),
                        out@.len() == i,
                        forall|k: int| 0 <= k < i ==> (#[trigger] out@[k])@ == texts[k],
                    decreases self.rows@.len() - i,
                {
                    assert(texts[i as int] == self.rows@[i as int]@[j as int]@);
                    out.push(self.rows[i][j].clone());
                    i = i + 1;
                }
                assert(strs_view(out@) =~= texts);
                Column::Utf8(out)
            },
        }
    }
}

} // verus!
