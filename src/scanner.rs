//! The scanner: a pattern, expanded and known to compile, matched against lines.
//!
//! The per-line methods compile the pattern on each call; a chunk of lines is
//! matched with one compilation (see `exec::scan_chunk`).

use vstd::prelude::*;
use crate::engine::{caps_view, captures_each, compile_groups, opt_strs_view, regex_captures, regex_groups};
use crate::error::Error;
use crate::expander::{customs_view, expand_macros, expand_spec, ExpandFailure, ExpansionView, TypeHints};
use crate::parser::{CustomMacro, CustomMacroView};
use crate::text::{refs_view, str_eq};
use crate::types::strs_view;

verus! {

/// Matches lines against an expanded pattern and reads out its fields.
#[derive(Debug, Clone)]
pub struct Scanner {
    /// The regular expression, after macro expansion.
    pub pattern: String,
    /// The name of each capture group, group 0 (the whole match) first.
    pub groups: Vec<Option<String>>,
    /// The fields, in the order the pattern introduces them.
    pub field_names: Vec<String>,
    /// The type hint of each hinted field.
    pub type_hints: TypeHints,
}

/// The names of the named groups, in order.
pub open spec fn named_groups(g: Seq<Option<Seq<char>>>) -> Seq<Seq<char>>
    decreases g.len(),
{
    if g.len() == 0 {
        Seq::empty()
    } else {
        named_groups(g.drop_last()) + match g.last() {
            Some(n) => seq![n],
            None => Seq::empty(),
        }
    }
}

/// Index of the first group of `g[i..]` called `name`.
pub open spec fn group_index_from(g: Seq<Option<Seq<char>>>, name: Seq<char>, i: int) -> Option<int>
    decreases g.len() - i,
{
    if i < 0 || i >= g.len() {
        None
    } else if g[i] == Some(name) {
        Some(i)
    } else {
        group_index_from(g, name, i + 1)
    }
}

/// Index of the group called `name`.
pub open spec fn group_index(g: Seq<Option<Seq<char>>>, name: Seq<char>) -> Option<int> {
    group_index_from(g, name, 0)
}

/// Index of the last `name` in `v[..j]`.
pub open spec fn last_index_before(v: Seq<Seq<char>>, name: Seq<char>, j: int) -> Option<int>
    decreases j,
{
    if j <= 0 || j > v.len() {
        None
    } else if v[j - 1] == name {
        Some(j - 1)
    } else {
        last_index_before(v, name, j - 1)
    }
}

/// The index that a projected column reads: the group of that name, or, for
/// an extra column, a position after the last group.
pub open spec fn column_index(g: Seq<Option<Seq<char>>>, extra: Seq<Seq<char>>, name: Seq<char>) -> Option<int> {
    match group_index(g, name) {
        Some(k) => Some(k),
        None => match last_index_before(extra, name, extra.len() as int) {
            Some(t) => Some(g.len() + t),
            None => None,
        },
    }
}

/// Index of the first name of `names[i..]` that has no column.
pub open spec fn first_missing_from(g: Seq<Option<Seq<char>>>, extra: Seq<Seq<char>>, names: Seq<Seq<char>>, i: int) -> Option<int>
    decreases names.len() - i,
{
    if i < 0 || i >= names.len() {
        None
    } else if column_index(g, extra, names[i]) is None {
        Some(i)
    } else {
        first_missing_from(g, extra, names, i + 1)
    }
}

/// The text that group `i` captured, or the empty text where it took no part
/// or does not exist.
pub open spec fn cell(caps: Seq<Option<Seq<char>>>, i: int) -> Seq<char> {
    if 0 <= i < caps.len() && caps[i] is Some {
        caps[i]->0
    } else {
        Seq::empty()
    }
}

/// The text that the group called `name` captured.
pub open spec fn named_cell(g: Seq<Option<Seq<char>>>, caps: Seq<Option<Seq<char>>>, name: Seq<char>) -> Seq<char> {
    match group_index(g, name) {
        Some(k) => cell(caps, k),
        None => Seq::empty(),
    }
}

/// The texts that the groups called `names` captured, in that order.
pub open spec fn named_cells(g: Seq<Option<Seq<char>>>, caps: Seq<Option<Seq<char>>>, names: Seq<Seq<char>>) -> Seq<Seq<char>> {
    names.map_values(|n: Seq<char>| named_cell(g, caps, n))
}

/// The texts at the given capture indices.
pub open spec fn cells_at(caps: Seq<Option<Seq<char>>>, indices: Seq<usize>) -> Seq<Seq<char>> {
    indices.map_values(|i: usize| cell(caps, i as int))
}

/// The fields of a pattern: those its macros introduce, or, where it has no
/// macro, the named groups of the regular expression.
pub open spec fn scanner_fields(x: ExpansionView, groups: Seq<Option<Seq<char>>>) -> Seq<Seq<char>> {
    if x.fields.len() == 0 {
        named_groups(groups)
    } else {
        x.fields
    }
}

/// `sc` is the scanner of `pattern` with the custom macros `customs`: its
/// regular expression is the expansion, its groups are those of that
/// expression, its fields are those of the expansion (or, without macros, the
/// named groups), and its hints are those of the expansion.
pub open spec fn built_from(sc: Scanner, pattern: Seq<char>, customs: Seq<CustomMacroView>) -> bool {
    &&& sc.wf()
    &&& expand_spec(pattern, customs) matches Ok(x)
    &&& sc.regex_text() == x.regex
    &&& strs_view(sc.field_names@) == scanner_fields(x, sc.groups())
    &&& sc.type_hints@ == x.hints
}

/// Why no scanner of `pattern` could be built: the expansion failed (a parse
/// error or an expansion error), or its result is no valid regular expression.
pub open spec fn build_failure(e: Error, pattern: Seq<char>, customs: Seq<CustomMacroView>) -> bool {
    match expand_spec(pattern, customs) {
        Err(ExpandFailure::Parse) => e is MacroParse,
        Err(ExpandFailure::Expand) => e is Macro,
        Ok(x) => regex_groups(x.regex) is None && e is Regex,
    }
}

/// The names of the named groups among `groups`, in order.
pub fn group_names_of(groups: &Vec<Option<String>>) -> (r: Vec<String>)
    ensures
        strs_view(r@) == named_groups(opt_strs_view(groups@)),
{
    let ghost g = opt_strs_view(groups@);
    let mut out: Vec<String> = Vec::new();
    let mut i: usize = 0;
    assert(strs_view(out@) =~= named_groups(g.subrange(0, 0)));
    while i < groups.len()
        invariant
            i <= groups@.len(),
            g == opt_strs_view(groups@),
            strs_view(out@) == named_groups(g.subrange(0, i as int)),
        decreases groups@.len() - i,
    {
        assert(g.subrange(0, i + 1).drop_last() =~= g.subrange(0, i as int));
        match &groups[i] {
            Some(n) => {
                let ghost prev = out@;
                out.push(n.clone());
                assert(strs_view(out@) =~= strs_view(prev).push(n@));
                assert(strs_view(out@) =~= named_groups(g.subrange(0, i + 1)));
            },
            None => {
                assert(strs_view(out@) =~= named_groups(g.subrange(0, i + 1)));
            },
        }
        i = i + 1;
    }
    assert(g.subrange(0, groups@.len() as int) =~= g);
    out
}

fn group_position(groups: &Vec<Option<String>>, name: &str) -> (r: Option<usize>)
    ensures
        r matches Some(k) ==> group_index(opt_strs_view(groups@), name@) == Some(k as int),
        r is None ==> group_index(opt_strs_view(groups@), name@) is None,
{
    let ghost g = opt_strs_view(groups@);
    let mut i: usize = 0;
    while i < groups.len()
        invariant
            i <= groups@.len(),
            g == opt_strs_view(groups@),
            group_index(g, name@) == group_index_from(g, name@, i as int),
        decreases groups@.len() - i,
    {
        match &groups[i] {
            Some(n) => {
                if str_eq(n.as_str(), name) {
                    return Some(i);
                }
            },
            None => {},
        }
        i = i + 1;
    }
    None
}

fn last_position(v: &[&str], name: &str) -> (r: Option<usize>)
    ensures
        r matches Some(t) ==> last_index_before(refs_view(v@), name@, v@.len() as int) == Some(t as int) && t < v@.len(),
        r is None ==> last_index_before(refs_view(v@), name@, v@.len() as int) is None,
{
    let mut j: usize = v.len();
    while j > 0
        invariant
            j <= v@.len(),
            last_index_before(refs_view(v@), name@, v@.len() as int) == last_index_before(refs_view(v@), name@, j as int),
        decreases j,
    {
        if str_eq(v[j - 1], name) {
            return Some(j - 1);
        }
        j = j - 1;
    }
    None
}

/// The texts that the groups of `pattern` capture in its first match in `line`.
fn captures_of_line<'a>(pattern: &str, line: &'a str) -> (r: Option<Vec<Option<&'a str>>>)
    ensures
        r is Some <==> regex_captures(pattern@, line@) is Some,
        r matches Some(v) ==> caps_view(v@) == regex_captures(pattern@, line@)->0,
{
    let mut lines: Vec<&'a str> = Vec::new();
    lines.push(line);
    let mut all = captures_each(pattern, &lines);
    assert(lines@[0] == line);
    assert(all@.len() == 1);
    let ghost first = all@[0];
    match all.pop() {
        Some(x) => {
            assert(x == first);
            x
        },
        None => None,
    }
}

/// Refills `out` with the text that each of `indices` captured in `caps`
/// (empty where that group took no part or does not exist).
pub fn cells_at_indices<'a>(caps: &Vec<Option<&'a str>>, indices: &[usize], out: &mut Vec<&'a str>)
    ensures
        refs_view(final(out)@) == cells_at(caps_view(caps@), indices@),
{
    let ghost cv = caps_view(caps@);
    out.clear();
    let mut i: usize = 0;
    while i < indices.len()
        invariant
            i <= indices@.len(),
            cv == caps_view(caps@),
            out@.len() == i,
            forall|j: int| 0 <= j < i ==> (#[trigger] out@[j])@ == cell(cv, indices@[j] as int),
        decreases indices@.len() - i,
    {
        let k = indices[i];
        let v: &'a str = if k < caps.len() {
            match caps[k] {
                Some(s) => s,
                None => "",
            }
        } else {
            ""
        };
        proof {
            reveal_strlit("");
        }
        out.push(v);
        i = i + 1;
    }
    assert(refs_view(out@) =~= cells_at(cv, indices@));
}

impl Scanner {
    /// The regular expression that this scanner matches.
    pub open spec fn regex_text(&self) -> Seq<char> {
        self.pattern@
    }

    /// The capture groups of the regular expression, group 0 first.
    pub open spec fn groups(&self) -> Seq<Option<Seq<char>>> {
        opt_strs_view(self.groups@)
    }

    /// The groups are those of the regular expression.
    pub open spec fn wf(&self) -> bool {
        regex_groups(self.regex_text()) == Some(self.groups())
    }

    /// A scanner for `pattern`, with the built-in macros only.
    pub fn new(pattern: String) -> (r: Result<Scanner, Error>)
        ensures
            r matches Ok(sc) ==> built_from(sc, pattern@, Seq::empty()),
            r matches Err(e) ==> build_failure(e, pattern@, Seq::empty()),
    {
        Self::with_custom_macros(pattern, None)
    }

    /// A scanner for `pattern`; the custom macros shadow built-ins of the same name.
    pub fn with_custom_macros(pattern: String, custom_macros: Option<&[CustomMacro]>) -> (r: Result<Scanner, Error>)
        ensures
            r matches Ok(sc) ==> built_from(sc, pattern@, customs_view(custom_macros)),
            r matches Err(e) ==> build_failure(e, pattern@, customs_view(custom_macros)),
    {
        let (expanded, fields, type_hints) = match expand_macros(pattern.as_str(), custom_macros) {
            Ok(x) => x,
            Err(e) => {
                return Err(e);
            },
        };
        let groups = match compile_groups(expanded.as_str()) {
            Ok(g) => g,
            Err(msg) => {
                return Err(Error::Regex(msg));
            },
        };
        let field_names = if fields.len() == 0 {
            group_names_of(&groups)
        } else {
            fields
        };
        Ok(Scanner { pattern: expanded, groups, field_names, type_hints })
    }

    /// The regular expression that this scanner matches.
    pub fn pattern(&self) -> (r: &str)
        ensures
            r@ == self.regex_text(),
    {
        self.pattern.as_str()
    }

    /// The number of capture groups, the whole match included.
    pub fn captures_len(&self) -> (r: usize)
        ensures
            r == self.groups().len(),
    {
        self.groups.len()
    }

    /// The capture index of the group called `name`.
    pub fn index_of(&self, name: &str) -> (r: Option<usize>)
        ensures
            r matches Some(k) ==> group_index(self.groups(), name@) == Some(k as int),
            r is None ==> group_index(self.groups(), name@) is None,
    {
        group_position(&self.groups, name)
    }

    /// The capture index that each of `field_names` reads. A name that is no
    /// group but one of `additional_columns` gets an index after the last
    /// group, so that it never collides with one.
    pub fn prepare_indices(&self, field_names: &[&str], additional_columns: &[&str]) -> (r: Result<Vec<usize>, Error>)
        requires
            self.groups().len() + additional_columns@.len() <= usize::MAX,
        ensures
            r matches Ok(v) ==> first_missing_from(self.groups(), refs_view(additional_columns@), refs_view(field_names@), 0) is None
                && v@.len() == field_names@.len()
                && forall|i: int| 0 <= i < v@.len() ==> column_index(self.groups(), refs_view(additional_columns@), field_names@[i]@) == Some(#[trigger] v@[i] as int),
            r matches Err(e) ==> first_missing_from(self.groups(), refs_view(additional_columns@), refs_view(field_names@), 0) matches Some(k)
                && e == Error::FieldNotFound(e->FieldNotFound_0) && e->FieldNotFound_0@ == field_names@[k]@,
    {
        let ghost g = self.groups();
        let ghost extra = refs_view(additional_columns@);
        let ghost names = refs_view(field_names@);
        let count = self.groups.len();
        let mut out: Vec<usize> = Vec::new();
        let mut i: usize = 0;
        while i < field_names.len()
            invariant
                g == self.groups(),
                count == g.len(),
                g.len() + additional_columns@.len() <= usize::MAX,
                extra == refs_view(additional_columns@),
                names == refs_view(field_names@),
                i <= field_names@.len(),
                out@.len() == i,
                first_missing_from(g, extra, names, 0) == first_missing_from(g, extra, names, i as int),
                forall|j: int| 0 <= j < i ==> column_index(g, extra, field_names@[j]@) == Some(#[trigger] out@[j] as int),
            decreases field_names@.len() - i,
        {
            let name = field_names[i];
            assert(names[i as int] == name@);
            match group_position(&self.groups, name) {
                Some(k) => {
                    out.push(k);
                },
                None => match last_position(additional_columns, name) {
                    Some(t) => {
                        out.push(count + t);
                    },
                    None => {
                        return Err(Error::FieldNotFound(String::from_str(name)));
                    },
                },
            }
            i = i + 1;
        }
        Ok(out)
    }

    /// Matches `line`; on a match, `out` is refilled with the text at each of
    /// `field_indices` (empty where that group took no part or does not exist)
    /// and `true` comes back. Without a match `out` is left as it was.
    pub fn scan_direct<'a>(&self, line: &'a str, field_indices: &[usize], out: &mut Vec<&'a str>) -> (r: bool)
        ensures
            r == regex_captures(self.regex_text(), line@) is Some,
            r ==> refs_view(final(out)@) == cells_at(regex_captures(self.regex_text(), line@)->0, field_indices@),
            !r ==> final(out)@ == old(out)@,
    {
        match captures_of_line(self.pattern.as_str(), line) {
            Some(caps) => {
                cells_at_indices(&caps, field_indices, out);
                true
            },
            None => false,
        }
    }

    /// Matches `line` and gives the text of each of the scanner's fields, in order.
    pub fn scan(&self, line: &str) -> (r: Option<Vec<String>>)
        ensures
            r is Some <==> regex_captures(self.regex_text(), line@) is Some,
            r matches Some(v) ==> strs_view(v@) == named_cells(self.groups(), regex_captures(self.regex_text(), line@)->0, strs_view(self.field_names@)),
    {
        let ghost fv = strs_view(self.field_names@);
        match captures_of_line(self.pattern.as_str(), line) {
            Some(caps) => {
                let ghost cv = caps_view(caps@);
                let mut out: Vec<String> = Vec::new();
                let mut i: usize = 0;
                while i < self.field_names.len()
                    invariant
                        i <= self.field_names@.len(),
                        fv == strs_view(self.field_names@),
                        cv == caps_view(caps@),
                        out@.len() == i,
                        forall|j: int| 0 <= j < i ==> (#[trigger] out@[j])@ == named_cell(self.groups(), cv, fv[j]),
                    decreases self.field_names@.len() - i,
                {
                    out.push(self.cell_named(&caps, self.field_names[i].as_str()));
                    i = i + 1;
                }
                assert(strs_view(out@) =~= named_cells(self.groups(), cv, fv));
                Some(out)
            },
            None => None,
        }
    }

    /// Matches `line` and gives the text of each of `field_names`, in that order.
    pub fn scan_with(&self, line: &str, field_names: &[&str]) -> (r: Option<Vec<String>>)
        ensures
            r is Some <==> regex_captures(self.regex_text(), line@) is Some,
            r matches Some(v) ==> strs_view(v@) == named_cells(self.groups(), regex_captures(self.regex_text(), line@)->0, refs_view(field_names@)),
    {
        let ghost fv = refs_view(field_names@);
        match captures_of_line(self.pattern.as_str(), line) {
            Some(caps) => {
                let ghost cv = caps_view(caps@);
                let mut out: Vec<String> = Vec::new();
                let mut i: usize = 0;
                while i < field_names.len()
                    invariant
                        i <= field_names@.len(),
                        fv == refs_view(field_names@),
                        cv == caps_view(caps@),
                        out@.len() == i,
                        forall|j: int| 0 <= j < i ==> (#[trigger] out@[j])@ == named_cell(self.groups(), cv, fv[j]),
                    decreases field_names@.len() - i,
                {
                    out.push(self.cell_named(&caps, field_names[i]));
                    i = i + 1;
                }
                assert(strs_view(out@) =~= named_cells(self.groups(), cv, fv));
                Some(out)
            },
            None => None,
        }
    }

    fn cell_named(&self, caps: &Vec<Option<&str>>, name: &str) -> (r: String)
        ensures
            r@ == named_cell(self.groups(), caps_view(caps@), name@),
    {
        proof {
            reveal_strlit("");
        }
        match group_position(&self.groups, name) {
            Some(k) => {
                if k < caps.len() {
                    match caps[k] {
                        Some(s) => String::from_str(s),
                        None => String::new(),
                    }
                } else {
                    String::new()
                }
            },
            None => String::new(),
        }
    }
}

} // verus!
