//! Expansion of a pattern: each `{{...}}` becomes a named capture group.

use vstd::prelude::*;
use crate::engine::{escape, escape_spec};
use crate::error::Error;
use crate::parser::{
    macro_index, macros_view, parse_invocation_spec, parse_macro_invocation, CustomMacro,
    CustomMacroView, find_macro, hint_view,
};
use crate::text::{
    vecs_view, lemma_vecs_view_push, str_eq,
    all_digits, chars_eq, chars_of, decimal, decimal_chars, find_char, find_first, push_all,
    slice_chars, string_of, trim, trim_chars,
};
use crate::types::{strs_view, copy_strings, DateTime, FieldType, FieldTypeView};

verus! {

// ---------------------------------------------------------------------------
// strftime formats

/// The regular expression for the strftime directive `%d`, if it is one this
/// library knows.
pub open spec fn directive_regex(d: char) -> Option<Seq<char>> {
    if d == 'Y' {
        Some("\\d{4}"@)
    } else if d == 'y' || d == 'm' || d == 'd' || d == 'H' || d == 'M' || d == 'S' {
        Some("\\d{2}"@)
    } else if d == 'f' {
        Some("\\d+"@)
    } else if d == 'z' {
        Some("[+-]\\d{4}"@)
    } else if d == 'Z' {
        Some("[A-Za-z/_+-]+"@)
    } else if d == 'b' || d == 'B' || d == 'a' || d == 'A' {
        Some("[A-Za-z]+"@)
    } else if d == '%' {
        Some("%"@)
    } else {
        None
    }
}

/// The regular expression for the format `f[i..]`, appended to `acc`.
pub open spec fn format_regex_from(f: Seq<char>, i: int, acc: Seq<char>) -> Option<Seq<char>>
    decreases f.len() - i,
{
    if i < 0 || i >= f.len() {
        Some(acc)
    } else if f[i] == '%' {
        if i + 1 >= f.len() {
            None
        } else {
            match directive_regex(f[i + 1]) {
                Some(r) => format_regex_from(f, i + 2, acc + r),
                None => None,
            }
        }
    } else {
        format_regex_from(f, i + 1, acc + escape_spec(seq![f[i]]))
    }
}

/// The regular expression that matches text written with the strftime format
/// `f`; `None` where `f` ends in a lone `%` or uses an unknown directive.
pub open spec fn format_regex(f: Seq<char>) -> Option<Seq<char>> {
    format_regex_from(f, 0, Seq::empty())
}

fn directive_chars(d: char) -> (r: Option<Vec<char>>)
    ensures
        r matches Some(v) ==> directive_regex(d) == Some(v@),
        r is None ==> directive_regex(d) is None,
{
    if d == 'Y' {
        Some(chars_of("\\d{4}"))
    } else if d == 'y' || d == 'm' || d == 'd' || d == 'H' || d == 'M' || d == 'S' {
        Some(chars_of("\\d{2}"))
    } else if d == 'f' {
        Some(chars_of("\\d+"))
    } else if d == 'z' {
        Some(chars_of("[+-]\\d{4}"))
    } else if d == 'Z' {
        Some(chars_of("[A-Za-z/_+-]+"))
    } else if d == 'b' || d == 'B' || d == 'a' || d == 'A' {
        Some(chars_of("[A-Za-z]+"))
    } else if d == '%' {
        Some(chars_of("%"))
    } else {
        None
    }
}

/// The regular expression that matches text written with a strftime format.
pub fn format_to_regex(fmt: &Vec<char>) -> (r: Result<Vec<char>, Error>)
    ensures
        r matches Ok(v) ==> format_regex(fmt@) == Some(v@),
        r matches Err(e) ==> format_regex(fmt@) is None && e is Macro,
{
    let mut out: Vec<char> = Vec::new();
    let mut i: usize = 0;
    while i < fmt.len()
        invariant
            i <= fmt@.len(),
            format_regex(fmt@) == format_regex_from(fmt@, i as int, out@),
        decreases fmt@.len() - i,
    {
        let c = fmt[i];
        if c == '%' {
            if i + 1 >= fmt.len() {
                return Err(
                    Error::Macro(
                        String::from_str("incomplete datetime format string: ends with %"),
                    ),
                );
            }
            match directive_chars(fmt[i + 1]) {
                Some(r) => {
                    push_all(&mut out, &r);
                    i = i + 2;
                },
                None => {
                    let mut msg = String::from_str("unsupported datetime directive: %");
                    let mut d: Vec<char> = Vec::new();
                    d.push(fmt[i + 1]);
                    msg.append(string_of(&d).as_str());
                    return Err(Error::Macro(msg));
                },
            }
        } else {
            let mut one: Vec<char> = Vec::new();
            one.push(c);
            let e = chars_of(escape(string_of(&one).as_str()).as_str());
            assert(one@ =~= seq![fmt@[i as int]]);
            push_all(&mut out, &e);
            i = i + 1;
        }
    }
    Ok(out)
}

// ---------------------------------------------------------------------------
// joining and splitting

/// The parts joined with `sep` between each two.
pub open spec fn join_with(parts: Seq<Seq<char>>, sep: char) -> Seq<char>
    decreases parts.len(),
{
    if parts.len() == 0 {
        Seq::empty()
    } else if parts.len() == 1 {
        parts[0]
    } else {
        join_with(parts.drop_last(), sep).push(sep) + parts.last()
    }
}

/// The pieces of `s` between occurrences of `sep` (one piece where there is none).
pub open spec fn split_on(s: Seq<char>, sep: char) -> Seq<Seq<char>>
    decreases s.len(),
{
    match find_char(s, sep) {
        None => seq![s],
        Some(k) => if 0 <= k < s.len() {
            seq![s.subrange(0, k)] + split_on(s.subrange(k + 1, s.len() as int), sep)
        } else {
            seq![s]
        },
    }
}

pub fn join_chars(parts: &Vec<Vec<char>>, sep: char) -> (r: Vec<char>)
    ensures
        r@ == join_with(vecs_view(parts@), sep),
{
    let ghost ps = vecs_view(parts@);
    let mut out: Vec<char> = Vec::new();
    let mut i: usize = 0;
    while i < parts.len()
        invariant
            i <= parts@.len(),
            ps == vecs_view(parts@),
            out@ == join_with(ps.subrange(0, i as int), sep),
        decreases parts@.len() - i,
    {
        if i > 0 {
            out.push(sep);
        }
        push_all(&mut out, &parts[i]);
        i = i + 1;
        assert(ps.subrange(0, i as int).drop_last() =~= ps.subrange(0, i - 1));
        assert(ps.subrange(0, i as int).last() == ps[i - 1]);
        if i == 1 {
            assert(ps.subrange(0, 1) =~= seq![ps[0]]);
        }
    }
    assert(ps.subrange(0, parts@.len() as int) =~= ps);
    out
}

pub fn split_chars(s: &Vec<char>, sep: char) -> (r: Vec<Vec<char>>)
    ensures
        vecs_view(r@) == split_on(s@, sep),
    decreases s@.len(),
{
    match find_first(s, sep) {
        None => {
            let mut out: Vec<Vec<char>> = Vec::new();
            out.push(s.clone());
            assert(vecs_view(out@) =~= seq![s@]);
            out
        },
        Some(k) => {
            let n = s.len();
            assert(k < n);
            let head = slice_chars(s, 0, k);
            let tail = slice_chars(s, k + 1, n);
            let rest = split_chars(&tail, sep);
            let mut out: Vec<Vec<char>> = Vec::new();
            out.push(head);
            let mut j: usize = 0;
            while j < rest.len()
                invariant
                    j <= rest@.len(),
                    out@.len() == j + 1,
                    out@[0]@ == s@.subrange(0, k as int),
                    forall|t: int| 0 <= t < j ==> #[trigger] out@[t + 1]@ == rest@[t]@,
                decreases rest@.len() - j,
            {
                out.push(rest[j].clone());
                j = j + 1;
            }
            let ghost want = seq![s@.subrange(0, k as int)] + vecs_view(rest@);
            assert forall|t: int| 0 <= t < out@.len() implies #[trigger] vecs_view(out@)[t] == want[t] by {
                if t > 0 {
                    assert(out@[(t - 1) + 1]@ == rest@[t - 1]@);
                }
            }
            assert(vecs_view(out@) =~= want);
            out
        },
    }
}

// ---------------------------------------------------------------------------
// built-in macros

pub open spec fn ascii_lower(c: char) -> char {
    if 'A' <= c && c <= 'Z' {
        ((c as u8) + 32) as char
    } else {
        c
    }
}

/// `s` with ASCII capitals made small: names of built-in macros are compared so.
pub open spec fn lower(s: Seq<char>) -> Seq<char> {
    s.map_values(|c: char| ascii_lower(c))
}

pub fn lower_chars(s: &Vec<char>) -> (r: Vec<char>)
    ensures
        r@ == lower(s@),
{
    let mut out: Vec<char> = Vec::new();
    let mut i: usize = 0;
    while i < s.len()
        invariant
            i <= s@.len(),
            out@ == lower(s@.subrange(0, i as int)),
        decreases s@.len() - i,
    {
        let c = s[i];
        let l = if 'A' <= c && c <= 'Z' {
            ((c as u8) + 32) as char
        } else {
            c
        };
        out.push(l);
        i = i + 1;
        assert(out@ =~= lower(s@.subrange(0, i as int)));
    }
    assert(s@.subrange(0, s@.len() as int) =~= s@);
    out
}

/// The regular expressions of the formats `fs[i..]`, appended to `acc`, or
/// `None` where one of them is not a valid format.
pub open spec fn formats_regex_from(fs: Seq<Seq<char>>, i: int, acc: Seq<Seq<char>>) -> Option<
    Seq<Seq<char>>,
>
    decreases fs.len() - i,
{
    if i < 0 || i >= fs.len() {
        Some(acc)
    } else {
        match format_regex(fs[i]) {
            Some(r) => formats_regex_from(fs, i + 1, acc.push(r)),
            None => None,
        }
    }
}

pub open spec fn float_regex() -> Seq<char> {
    "[-+]?(?:\\d+(?:\\.\\d*)?|\\.\\d+)(?:[eE][-+]?\\d+)?"@
}

pub open spec fn uuid_regex() -> Seq<char> {
    "[0-9a-fA-F]{8}-[0-9a-fA-F]{4}-[0-9a-fA-F]{4}-[0-9a-fA-F]{4}-[0-9a-fA-F]{12}"@
}

pub open spec fn default_datetime_format() -> Seq<char> {
    "%Y-%m-%dT%H:%M:%S%.f"@
}

/// What the built-in macro `name` with `args` expands to: a regular expression
/// and a type. `None` where the name is unknown or the arguments do not fit.
pub open spec fn builtin_fragment(name: Seq<char>, args: Seq<Seq<char>>) -> Option<
    (Seq<char>, FieldTypeView),
> {
    let l = lower(name);
    if l == "number"@ || l == "num"@ {
        if args.len() == 0 {
            Some(("\\d+"@, FieldTypeView::Int))
        } else {
            let a = args[0];
            match find_char(a, '-') {
                Some(p) => Some(
                    (
                        "\\d{"@ + trim(a.subrange(0, p)) + ","@ + trim(
                            a.subrange(p + 1, a.len() as int),
                        ) + "}"@,
                        FieldTypeView::Int,
                    ),
                ),
                None => if all_digits(a) {
                    Some(("\\d{"@ + a + "}"@, FieldTypeView::Int))
                } else {
                    None
                },
            }
        }
    } else if l == "string"@ || l == "str"@ || l == "any"@ {
        Some((".+?"@, FieldTypeView::Text))
    } else if l == "float"@ || l == "double"@ {
        Some((float_regex(), FieldTypeView::Float))
    } else if l == "var_name"@ || l == "ident"@ {
        Some(("[A-Za-z_][A-Za-z0-9_]*"@, FieldTypeView::Text))
    } else if l == "uuid"@ {
        Some((uuid_regex(), FieldTypeView::Text))
    } else if l == "enum"@ {
        if args.len() == 0 {
            None
        } else {
            let items = split_on(join_with(args, ','), ',').map_values(
                |v: Seq<char>| escape_spec(trim(v)),
            );
            Some(("(?:"@ + join_with(items, '|') + ")"@, FieldTypeView::Enum))
        }
    } else if l == "datetime"@ || l == "ts"@ {
        if args.len() == 0 {
            Some(("\\S+"@, FieldTypeView::DateTime(Some(seq![default_datetime_format()]))))
        } else {
            match formats_regex_from(args, 0, Seq::empty()) {
                None => None,
                Some(frags) => Some(
                    (
                        if frags.len() == 1 {
                            frags[0]
                        } else {
                            "(?:"@ + join_with(frags, '|') + ")"@
                        },
                        FieldTypeView::DateTime(Some(args)),
                    ),
                ),
            }
        }
    } else {
        None
    }
}

fn is_name(l: &Vec<char>, s: &str) -> (r: bool)
    ensures
        r == (l@ == s@),
{
    chars_eq(l, &chars_of(s))
}

fn concat3(a: &str, b: &Vec<char>, c: &str) -> (r: Vec<char>)
    ensures
        r@ == a@ + b@ + c@,
{
    let mut out = chars_of(a);
    push_all(&mut out, b);
    push_all(&mut out, &chars_of(c));
    out
}

fn all_digits_exec(a: &Vec<char>) -> (r: bool)
    ensures
        r == all_digits(a@),
{
    let mut i: usize = 0;
    while i < a.len()
        invariant
            i <= a@.len(),
            forall|j: int| 0 <= j < i ==> crate::text::is_digit(#[trigger] a@[j]),
        decreases a@.len() - i,
    {
        if !('0' <= a[i] && a[i] <= '9') {
            return false;
        }
        i = i + 1;
    }
    true
}

/// Expands a built-in macro into a regular expression and a type.
pub fn expand_builtin_macro(name: &str, args: &Vec<String>) -> (r: Result<(String, FieldType), Error>)
    ensures
        r matches Ok((frag, t)) ==> builtin_fragment(name@, strs_view(args@)) == Some((frag@, t@)),
        r matches Err(e) ==> builtin_fragment(name@, strs_view(args@)) is None && e is Macro,
{
    let ghost av = strs_view(args@);
    let l = lower_chars(&chars_of(name));
    if is_name(&l, "number") || is_name(&l, "num") {
        if args.len() == 0 {
            return Ok((String::from_str("\\d+"), FieldType::Int));
        }
        let a = chars_of(args[0].as_str());
        assert(a@ == av[0]);
        match find_first(&a, '-') {
            Some(p) => {
                let alen = a.len();
                assert(p < alen);
                let mut out = chars_of("\\d{");
                push_all(&mut out, &trim_chars(&slice_chars(&a, 0, p)));
                push_all(&mut out, &chars_of(","));
                push_all(&mut out, &trim_chars(&slice_chars(&a, p + 1, alen)));
                push_all(&mut out, &chars_of("}"));
                Ok((string_of(&out), FieldType::Int))
            },
            None => {
                if all_digits_exec(&a) {
                    Ok((string_of(&concat3("\\d{", &a, "}")), FieldType::Int))
                } else {
                    let mut msg = String::from_str("invalid number macro arg: ");
                    msg.append(args[0].as_str());
                    Err(Error::Macro(msg))
                }
            },
        }
    } else if is_name(&l, "string") || is_name(&l, "str") || is_name(&l, "any") {
        Ok((String::from_str(".+?"), FieldType::String))
    } else if is_name(&l, "float") || is_name(&l, "double") {
        Ok(
            (
                String::from_str("[-+]?(?:\\d+(?:\\.\\d*)?|\\.\\d+)(?:[eE][-+]?\\d+)?"),
                FieldType::Float,
            ),
        )
    } else if is_name(&l, "var_name") || is_name(&l, "ident") {
        Ok((String::from_str("[A-Za-z_][A-Za-z0-9_]*"), FieldType::String))
    } else if is_name(&l, "uuid") {
        Ok(
            (
                String::from_str(
                    "[0-9a-fA-F]{8}-[0-9a-fA-F]{4}-[0-9a-fA-F]{4}-[0-9a-fA-F]{4}-[0-9a-fA-F]{12}",
                ),
                FieldType::String,
            ),
        )
    } else if is_name(&l, "enum") {
        if args.len() == 0 {
            return Err(Error::Macro(String::from_str("enum macro requires comma-separated values")));
        }
        let mut parts: Vec<Vec<char>> = Vec::new();
        let mut i: usize = 0;
        proof {
            assert(vecs_view(parts@) =~= Seq::<Seq<char>>::empty());
        }
        while i < args.len()
            invariant
                i <= args@.len(),
                av == strs_view(args@),
                vecs_view(parts@) == av.subrange(0, i as int),
            decreases args@.len() - i,
        {
            let ghost prev = parts@;
            let c = chars_of(args[i].as_str());
            parts.push(c);
            proof {
                lemma_vecs_view_push(prev, c);
            }
            i = i + 1;
            assert(vecs_view(parts@) =~= av.subrange(0, i as int));
        }
        assert(av.subrange(0, args@.len() as int) =~= av);
        let joined = join_chars(&parts, ',');
        let pieces = split_chars(&joined, ',');
        let ghost pv = vecs_view(pieces@);
        let mut items: Vec<Vec<char>> = Vec::new();
        let mut k: usize = 0;
        proof {
            assert(vecs_view(items@) =~= Seq::<Seq<char>>::empty());
        }
        while k < pieces.len()
            invariant
                k <= pieces@.len(),
                pv == vecs_view(pieces@),
                vecs_view(items@) == pv.subrange(0, k as int).map_values(
                    |v: Seq<char>| escape_spec(trim(v)),
                ),
            decreases pieces@.len() - k,
        {
            let t = string_of(&trim_chars(&pieces[k]));
            let ghost prev = items@;
            let e = chars_of(escape(t.as_str()).as_str());
            items.push(e);
            proof {
                lemma_vecs_view_push(prev, e);
                assert(pv[k as int] == pieces@[k as int]@);
            }
            k = k + 1;
            assert(vecs_view(items@) =~= pv.subrange(0, k as int).map_values(
                |v: Seq<char>| escape_spec(trim(v)),
            ));
        }
        assert(pv.subrange(0, pieces@.len() as int) =~= pv);
        let body = join_chars(&items, '|');
        Ok((string_of(&concat3("(?:", &body, ")")), FieldType::Enum))
    } else if is_name(&l, "datetime") || is_name(&l, "ts") {
        if args.len() == 0 {
            let mut fmts: Vec<String> = Vec::new();
            fmts.push(String::from_str("%Y-%m-%dT%H:%M:%S%.f"));
            assert(strs_view(fmts@) =~= seq![default_datetime_format()]);
            return Ok((String::from_str("\\S+"), FieldType::DateTime(DateTime::new(Some(fmts)))));
        }
        let mut frags: Vec<Vec<char>> = Vec::new();
        let mut i: usize = 0;
        proof {
            assert(vecs_view(frags@) =~= Seq::<Seq<char>>::empty());
        }
        while i < args.len()
            invariant
                i <= args@.len(),
                av == strs_view(args@),
                formats_regex_from(av, 0, Seq::empty()) == formats_regex_from(
                    av,
                    i as int,
                    vecs_view(frags@),
                ),
                formats_regex_from(av, 0, Seq::empty()) is None ==> builtin_fragment(name@, av) is None,
            decreases args@.len() - i,
        {
            assert(av[i as int] == args@[i as int]@);
            match format_to_regex(&chars_of(args[i].as_str())) {
                Ok(f) => {
                    let ghost prev = frags@;
                    frags.push(f);
                    proof {
                        lemma_vecs_view_push(prev, f);
                    }
                },
                Err(e) => {
                    assert(formats_regex_from(av, i as int, vecs_view(frags@)) is None);
                    return Err(e);
                },
            }
            i = i + 1;
        }
        let ghost fv = vecs_view(frags@);
        let frag = if frags.len() == 1 {
            frags[0].clone()
        } else {
            concat3("(?:", &join_chars(&frags, '|'), ")")
        };
        Ok((string_of(&frag), FieldType::DateTime(DateTime::new(Some(copy_strings(args))))))
    } else {
        let mut msg = String::from_str("unknown macro '");
        msg.append(name);
        msg.append("'");
        Err(Error::Macro(msg))
    }
}

// ---------------------------------------------------------------------------
// custom macros first, then built-ins

/// What the macro `name` with `args` expands to: the first custom macro of
/// that name gives its pattern and hint as they are; otherwise the built-in.
pub open spec fn macro_fragment(
    name: Seq<char>,
    args: Seq<Seq<char>>,
    customs: Seq<CustomMacroView>,
) -> Option<(Seq<char>, Option<FieldTypeView>)> {
    match macro_index(customs, name) {
        Some(k) => Some((customs[k].pattern, customs[k].type_hint)),
        None => match builtin_fragment(name, args) {
            Some((f, t)) => Some((f, Some(t))),
            None => None,
        },
    }
}

pub open spec fn customs_view(customs: Option<&[CustomMacro]>) -> Seq<CustomMacroView> {
    match customs {
        Some(c) => macros_view(c@),
        None => Seq::empty(),
    }
}

/// Expands one macro: a custom macro of that name if there is one, else a built-in.
pub fn expand_macro(name: &str, args: &Vec<String>, custom_macros: Option<&[CustomMacro]>) -> (r:
    Result<(String, Option<FieldType>), Error>)
    ensures
        r matches Ok((frag, hint)) ==> macro_fragment(
            name@,
            strs_view(args@),
            customs_view(custom_macros),
        ) == Some((frag@, hint_view(hint))),
        r matches Err(e) ==> macro_fragment(name@, strs_view(args@), customs_view(custom_macros))
            is None && e is Macro,
{
    if let Some(customs) = custom_macros {
        match find_macro(customs, name) {
            Some(m) => {
                proof {
                    crate::parser::lemma_macro_index_from(macros_view(customs@), name@, 0);
                }
                let hint = match &m.type_hint {
                    Some(t) => Some(t.duplicate()),
                    None => None,
                };
                return Ok((m.pattern.clone(), hint));
            },
            None => {},
        }
    }
    match expand_builtin_macro(name, args) {
        Ok((frag, t)) => Ok((frag, Some(t))),
        Err(e) => Err(e),
    }
}

// ---------------------------------------------------------------------------
// whole patterns

/// The result of expanding a pattern: the regular expression, the field
/// names in order, and the type hint of each field that has one.
pub struct ExpansionView {
    pub regex: Seq<char>,
    pub fields: Seq<Seq<char>>,
    pub hints: Seq<(Seq<char>, FieldTypeView)>,
}

/// Why an expansion failed: an invocation that does not parse, or one that
/// does not expand (unknown macro, bad arguments, unclosed `{{`, a field name
/// used twice).
pub enum ExpandFailure {
    Parse,
    Expand,
}

/// Index of the first `}}` that starts at or after `j`.
pub open spec fn close_from(p: Seq<char>, j: int) -> Option<int>
    decreases p.len() - j,
{
    if j < 0 || j + 1 >= p.len() {
        None
    } else if p[j] == '}' && p[j + 1] == '}' {
        Some(j)
    } else {
        close_from(p, j + 1)
    }
}

/// The name given to the `n`-th field that an invocation without a field introduces.
pub open spec fn auto_field(n: nat, name: Seq<char>) -> Seq<char> {
    "auto_"@ + decimal(n) + "_"@ + name
}

/// A named capture group.
pub open spec fn capture_group(field: Seq<char>, frag: Seq<char>) -> Seq<char> {
    "(?P<"@ + field + ">"@ + frag + ")"@
}

/// Expansion of `p[i..]`, after `n` fields without a name were introduced,
/// continuing the state `st`.
pub open spec fn expand_from(
    p: Seq<char>,
    i: int,
    n: nat,
    st: ExpansionView,
    customs: Seq<CustomMacroView>,
) -> Result<ExpansionView, ExpandFailure>
    decreases p.len() - i,
{
    if i < 0 || i >= p.len() {
        Ok(st)
    } else if p[i] == '\\' && i + 2 < p.len() && p[i + 1] == '{' && p[i + 2] == '{' {
        expand_from(
            p,
            i + 3,
            n,
            ExpansionView { regex: st.regex + "{{"@, fields: st.fields, hints: st.hints },
            customs,
        )
    } else if p[i] == '{' && i + 1 < p.len() && p[i + 1] == '{' {
        match close_from(p, i + 2) {
            None => Err(ExpandFailure::Expand),
            Some(j) => if j < i + 2 || j + 2 > p.len() {
                Err(ExpandFailure::Expand)
            } else {
                match parse_invocation_spec(p.subrange(i + 2, j)) {
                    None => Err(ExpandFailure::Parse),
                    Some(inv) => match macro_fragment(inv.name, inv.args, customs) {
                        None => Err(ExpandFailure::Expand),
                        Some((frag, hint)) => {
                            let field = match inv.field {
                                Some(f) => f,
                                None => auto_field(n + 1, inv.name),
                            };
                            let n2: nat = if inv.field is Some { n } else { n + 1 };
                            if st.fields.contains(field) {
                                Err(ExpandFailure::Expand)
                            } else {
                                expand_from(
                                    p,
                                    j + 2,
                                    n2,
                                    ExpansionView {
                                        regex: st.regex + capture_group(field, frag),
                                        fields: st.fields.push(field),
                                        hints: match hint {
                                            Some(h) => st.hints.push((field, h)),
                                            None => st.hints,
                                        },
                                    },
                                    customs,
                                )
                            }
                        },
                    },
                }
            },
        }
    } else {
        expand_from(
            p,
            i + 1,
            n,
            ExpansionView { regex: st.regex.push(p[i]), fields: st.fields, hints: st.hints },
            customs,
        )
    }
}

/// What expanding the pattern `p` gives.
pub open spec fn expand_spec(p: Seq<char>, customs: Seq<CustomMacroView>) -> Result<
    ExpansionView,
    ExpandFailure,
> {
    expand_from(
        p,
        0,
        0,
        ExpansionView { regex: Seq::empty(), fields: Seq::empty(), hints: Seq::empty() },
        customs,
    )
}

/// The type hints of the fields of a pattern, one entry per hinted field.
#[derive(Debug, Clone)]
pub struct TypeHints {
    pub names: Vec<String>,
    pub types: Vec<FieldType>,
}

pub open spec fn hint_pairs(names: Seq<String>, types: Seq<FieldType>) -> Seq<(Seq<char>, FieldTypeView)> {
    Seq::new(
        if names.len() <= types.len() { names.len() } else { types.len() },
        |i: int| (names[i]@, types[i]@),
    )
}

impl View for TypeHints {
    type V = Seq<(Seq<char>, FieldTypeView)>;

    open spec fn view(&self) -> Seq<(Seq<char>, FieldTypeView)> {
        hint_pairs(self.names@, self.types@)
    }
}

/// The type of the first entry of `h[i..]` for `name`.
pub open spec fn hint_lookup_from(h: Seq<(Seq<char>, FieldTypeView)>, name: Seq<char>, i: int) -> Option<FieldTypeView>
    decreases h.len() - i,
{
    if i < 0 || i >= h.len() {
        None
    } else if h[i].0 == name {
        Some(h[i].1)
    } else {
        hint_lookup_from(h, name, i + 1)
    }
}

/// The type hinted for `name`.
pub open spec fn hint_lookup(h: Seq<(Seq<char>, FieldTypeView)>, name: Seq<char>) -> Option<FieldTypeView> {
    hint_lookup_from(h, name, 0)
}

impl TypeHints {
    /// The type hinted for the field `name`, if any.
    pub fn get(&self, name: &str) -> (r: Option<&FieldType>)
        ensures
            r matches Some(t) ==> hint_lookup(self@, name@) == Some(t@),
            r is None ==> hint_lookup(self@, name@) is None,
    {
        let n = if self.names.len() <= self.types.len() { self.names.len() } else { self.types.len() };
        let mut i: usize = 0;
        while i < n
            invariant
                n == self@.len(),
                n <= self.names@.len(),
                n <= self.types@.len(),
                i <= n,
                hint_lookup(self@, name@) == hint_lookup_from(self@, name@, i as int),
            decreases n - i,
        {
            if str_eq(self.names[i].as_str(), name) {
                return Some(&self.types[i]);
            }
            i = i + 1;
        }
        None
    }

    /// The number of hinted fields.
    pub fn len(&self) -> (r: usize)
        ensures
            r == self@.len(),
    {
        if self.names.len() <= self.types.len() { self.names.len() } else { self.types.len() }
    }
}

fn contains_name(names: &Vec<String>, field: &Vec<char>) -> (r: bool)
    ensures
        r == strs_view(names@).contains(field@),
{
    let mut i: usize = 0;
    while i < names.len()
        invariant
            i <= names@.len(),
            forall|j: int| 0 <= j < i ==> names@[j]@ != field@,
        decreases names@.len() - i,
    {
        if chars_eq(&chars_of(names[i].as_str()), field) {
            assert(strs_view(names@)[i as int] == field@);
            return true;
        }
        i = i + 1;
    }
    assert(!strs_view(names@).contains(field@)) by {
        if strs_view(names@).contains(field@) {
            let j = choose|j: int| 0 <= j < strs_view(names@).len() && strs_view(names@)[j] == field@;
            assert(names@[j]@ == field@);
        }
    }
    false
}

/// Expands every macro of `pattern` into a named capture group.
///
/// Gives the regular expression, the field names in order, and the type hints.
pub fn expand_macros(pattern: &str, custom_macros: Option<&[CustomMacro]>) -> (r: Result<
    (String, Vec<String>, TypeHints),
    Error,
>)
    ensures
        r matches Ok((re, fields, hints)) ==> expand_spec(pattern@, customs_view(custom_macros))
            == Ok::<ExpansionView, ExpandFailure>(ExpansionView { regex: re@, fields: strs_view(fields@), hints: hints@ }),
        r matches Err(e) ==> match expand_spec(pattern@, customs_view(custom_macros)) {
            Err(ExpandFailure::Parse) => e is MacroParse,
            Err(ExpandFailure::Expand) => e is Macro,
            Ok(_) => false,
        },
{
    let ghost customs = customs_view(custom_macros);
    let p = chars_of(pattern);
    let len = p.len();
    let mut out: Vec<char> = Vec::new();
    let mut fields: Vec<String> = Vec::new();
    let mut hint_names: Vec<String> = Vec::new();
    let mut hint_types: Vec<FieldType> = Vec::new();
    let mut n: usize = 0;
    let mut i: usize = 0;
    assert(strs_view(fields@) =~= Seq::<Seq<char>>::empty());
    assert(hint_pairs(hint_names@, hint_types@) =~= Seq::<(Seq<char>, FieldTypeView)>::empty());
    while i < len
        invariant
            len == p@.len(),
            p@ == pattern@,
            customs == customs_view(custom_macros),
            i <= len,
            n <= i,
            hint_names@.len() == hint_types@.len(),
            expand_spec(pattern@, customs) == expand_from(
                p@,
                i as int,
                n as nat,
                ExpansionView {
                    regex: out@,
                    fields: strs_view(fields@),
                    hints: hint_pairs(hint_names@, hint_types@),
                },
                customs,
            ),
        decreases len - i,
    {
        if p[i] == '\\' && len - i > 2 && p[i + 1] == '{' && p[i + 2] == '{' {
            push_all(&mut out, &chars_of("{{"));
            i = i + 3;
        } else if p[i] == '{' && len - i > 1 && p[i + 1] == '{' {
            let mut j: usize = i + 2;
            let mut found = false;
            while len - j > 1
                invariant_except_break
                    !found,
                invariant
                    len == p@.len(),
                    i + 2 <= j <= len,
                    close_from(p@, i + 2) == close_from(p@, j as int),
                ensures
                    i + 2 <= j <= len,
                    close_from(p@, i + 2) == close_from(p@, j as int),
                    found ==> j + 1 < len && p@[j as int] == '}' && p@[j + 1] == '}',
                    !found ==> j + 1 >= len,
                decreases len - j,
            {
                if p[j] == '}' && p[j + 1] == '}' {
                    found = true;
                    break;
                }
                j = j + 1;
            }
            if !found {
                return Err(Error::Macro(String::from_str("unclosed '{{' in pattern")));
            }
            let ghost out0 = out@;
            let ghost n0 = n;
            assert(close_from(p@, j as int) == Some(j as int));
            let body = string_of(&slice_chars(&p, i + 2, j));
            let inv = match parse_macro_invocation(body.as_str()) {
                Ok(inv) => inv,
                Err(e) => {
                    return Err(e);
                },
            };
            let (frag, hint) = match expand_macro(inv.name.as_str(), &inv.args, custom_macros) {
                Ok(x) => x,
                Err(e) => {
                    return Err(e);
                },
            };
            let field: Vec<char> = match &inv.field {
                Some(f) => chars_of(f.as_str()),
                None => {
                    n = n + 1;
                    let mut a = chars_of("auto_");
                    push_all(&mut a, &decimal_chars(n));
                    push_all(&mut a, &chars_of("_"));
                    push_all(&mut a, &chars_of(inv.name.as_str()));
                    a
                },
            };
            if contains_name(&fields, &field) {
                let mut msg = String::from_str("duplicate field name: ");
                msg.append(string_of(&field).as_str());
                return Err(Error::Macro(msg));
            }
            assert(field@ == match inv@.field {
                Some(f) => f,
                None => auto_field((n0 + 1) as nat, inv@.name),
            });
            push_all(&mut out, &chars_of("(?P<"));
            push_all(&mut out, &field);
            push_all(&mut out, &chars_of(">"));
            push_all(&mut out, &chars_of(frag.as_str()));
            push_all(&mut out, &chars_of(")"));
            assert(out@ =~= out0 + capture_group(field@, frag@));
            let ghost fprev = fields@;
            fields.push(string_of(&field));
            assert(strs_view(fields@) =~= strs_view(fprev).push(field@));
            match hint {
                Some(h) => {
                    let ghost np = hint_names@;
                    let ghost tp = hint_types@;
                    hint_names.push(string_of(&field));
                    hint_types.push(h);
                    assert(hint_pairs(hint_names@, hint_types@) =~= hint_pairs(np, tp).push(
                        (field@, h@),
                    ));
                },
                None => {},
            }
            i = j + 2;
        } else {
            out.push(p[i]);
            i = i + 1;
        }
    }
    Ok((string_of(&out), fields, TypeHints { names: hint_names, types: hint_types }))
}

} // verus!
