//! Parsing of one macro invocation, the text between `{{` and `}}`, and the
//! user-supplied macros and profiles.

use vstd::prelude::*;
use crate::error::Error;
use crate::text::{
    vecs_view,
    chars_of, find_char, find_first, is_digit, slice_chars, string_of, str_eq, trim,
    trim_chars,
};
use crate::types::{strs_view, FieldType, FieldTypeView};

verus! {

/// A parsed macro invocation: `field:name(args)`.
#[derive(Debug, Clone)]
pub struct MacroInvocation {
    pub field: Option<String>,
    pub name: String,
    pub args: Vec<String>,
}

/// A macro invocation as character sequences.
pub struct InvocationView {
    pub field: Option<Seq<char>>,
    pub name: Seq<char>,
    pub args: Seq<Seq<char>>,
}

pub open spec fn opt_string_view(o: Option<String>) -> Option<Seq<char>> {
    match o {
        Some(s) => Some(s@),
        None => None,
    }
}

impl View for MacroInvocation {
    type V = InvocationView;

    open spec fn view(&self) -> InvocationView {
        InvocationView { field: opt_string_view(self.field), name: self.name@, args: strs_view(self.args@) }
    }
}

/// The state of the argument splitter after reading `s[..i]`: the finished
/// arguments, the one being read, and the quote that is open, if any.
pub open spec fn split_from(
    s: Seq<char>,
    i: int,
    args: Seq<Seq<char>>,
    cur: Seq<char>,
    quote: Option<char>,
) -> (Seq<Seq<char>>, Seq<char>)
    decreases s.len() - i,
{
    if i < 0 || i >= s.len() {
        (args, cur)
    } else {
        let c = s[i];
        match quote {
            Some(q) => if c == '\\' {
                if i + 1 < s.len() {
                    split_from(s, i + 2, args, cur.push(s[i + 1]), quote)
                } else {
                    split_from(s, i + 1, args, cur, quote)
                }
            } else if c == q {
                split_from(s, i + 1, args, cur, None)
            } else {
                split_from(s, i + 1, args, cur.push(c), quote)
            },
            None => if c == '\'' || c == '"' {
                split_from(s, i + 1, args, cur, Some(c))
            } else if c == ',' {
                split_from(s, i + 1, args.push(trim(cur)), Seq::empty(), None)
            } else {
                split_from(s, i + 1, args, cur.push(c), None)
            },
        }
    }
}

/// `a` without one layer of matching surrounding quotes.
pub open spec fn unquote(a: Seq<char>) -> Seq<char> {
    if a.len() >= 2 && ((a[0] == '"' && a.last() == '"') || (a[0] == '\'' && a.last() == '\'')) {
        a.subrange(1, a.len() - 1)
    } else {
        a
    }
}

/// The arguments of a comma-separated list: commas inside `'...'` or `"..."`
/// do not split, `\` escapes the next character inside quotes, each argument
/// is trimmed, an empty last argument is dropped, and one layer of matching
/// quotes is removed from each.
pub open spec fn split_args_spec(s: Seq<char>) -> Seq<Seq<char>> {
    let (args, cur) = split_from(s, 0, Seq::empty(), Seq::empty(), None);
    let all = if trim(cur).len() > 0 { args.push(trim(cur)) } else { args };
    all.map_values(|a: Seq<char>| unquote(a))
}

fn unquote_chars(a: Vec<char>) -> (r: Vec<char>)
    ensures
        r@ == unquote(a@),
{
    let n = a.len();
    if n >= 2 && ((a[0] == '"' && a[n - 1] == '"') || (a[0] == '\'' && a[n - 1] == '\'')) {
        slice_chars(&a, 1, n - 1)
    } else {
        a
    }
}

/// Splits a comma-separated argument list, honouring quotes.
pub fn split_args(s: &str) -> (r: Vec<String>)
    ensures
        strs_view(r@) == split_args_spec(s@),
{
    let v = chars_of(s);
    let n = v.len();
    let mut args: Vec<Vec<char>> = Vec::new();
    let mut cur: Vec<char> = Vec::new();
    let mut quote: Option<char> = None;
    let mut i: usize = 0;
    assert(vecs_view(args@) =~= Seq::<Seq<char>>::empty());
    while i < n
        invariant
            n == v@.len(),
            v@ == s@,
            i <= n,
            split_from(s@, 0, Seq::empty(), Seq::empty(), None) == split_from(
                s@,
                i as int,
                vecs_view(args@),
                cur@,
                quote,
            ),
        decreases n - i,
    {
        let c = v[i];
        match quote {
            Some(q) => {
                if c == '\\' {
                    if i + 1 < n {
                        cur.push(v[i + 1]);
                        i = i + 2;
                    } else {
                        i = i + 1;
                    }
                } else if c == q {
                    quote = None;
                    i = i + 1;
                } else {
                    cur.push(c);
                    i = i + 1;
                }
            },
            None => {
                if c == '\'' || c == '"' {
                    quote = Some(c);
                    i = i + 1;
                } else if c == ',' {
                    let t = trim_chars(&cur);
                    let ghost before = vecs_view(args@);
                    args.push(t);
                    assert(vecs_view(args@) =~= before.push(trim(cur@)));
                    cur = Vec::new();
                    i = i + 1;
                } else {
                    cur.push(c);
                    i = i + 1;
                }
            },
        }
    }
    let ghost fin = vecs_view(args@);
    let t = trim_chars(&cur);
    if t.len() > 0 {
        args.push(t);
    }
    let ghost all = vecs_view(args@);
    assert(all =~= (if trim(cur@).len() > 0 { fin.push(trim(cur@)) } else { fin }));
    let mut out: Vec<String> = Vec::new();
    let mut k: usize = 0;
    while k < args.len()
        invariant
            k <= args@.len(),
            all == vecs_view(args@),
            out@.len() == k,
            forall|j: int| 0 <= j < k ==> #[trigger] out@[j]@ == unquote(all[j]),
        decreases args@.len() - k,
    {
        let a = unquote_chars(args[k].clone());
        out.push(string_of(&a));
        k = k + 1;
    }
    assert(strs_view(out@) =~= all.map_values(|a: Seq<char>| unquote(a)));
    out
}

/// Whether `s` holds `c`.
pub open spec fn has_char(s: Seq<char>, c: char) -> bool {
    find_char(s, c) is Some
}

/// What the text between `{{` and `}}` means, or `None` where it is not a
/// well-formed invocation (empty, or a `(` that the last character does not close).
pub open spec fn parse_invocation_spec(text: Seq<char>) -> Option<InvocationView> {
    let s = trim(text);
    if s.len() == 0 {
        None
    } else {
        match find_char(s, '(') {
            Some(p) => {
                let before = s.subrange(0, p);
                let after = s.subrange(p + 1, s.len() as int);
                if after.len() == 0 || after.last() != ')' {
                    None
                } else {
                    let args = split_args_spec(after.subrange(0, after.len() - 1));
                    match find_char(before, ':') {
                        Some(c) => Some(InvocationView {
                            field: Some(trim(before.subrange(0, c))),
                            name: trim(before.subrange(c + 1, before.len() as int)),
                            args,
                        }),
                        None => Some(InvocationView { field: None, name: trim(before), args }),
                    }
                }
            },
            None => match find_char(s, ':') {
                Some(c) => {
                    let left = trim(s.subrange(0, c));
                    let right = trim(s.subrange(c + 1, s.len() as int));
                    if (right.len() > 0 && is_digit(right[0])) || has_char(right, '-') || has_char(
                        right,
                        ',',
                    ) {
                        Some(InvocationView { field: None, name: left, args: seq![right] })
                    } else {
                        Some(InvocationView { field: Some(left), name: right, args: Seq::empty() })
                    }
                },
                None => Some(InvocationView { field: None, name: s, args: Seq::empty() }),
            },
        }
    }
}

/// Parses `field:name(args)`, `name(args)`, `field:name`, `name:shorthand` or `name`.
pub fn parse_macro_invocation(text: &str) -> (r: Result<MacroInvocation, Error>)
    ensures
        r matches Ok(inv) ==> parse_invocation_spec(text@) == Some(inv@),
        r matches Err(e) ==> parse_invocation_spec(text@) is None && e is MacroParse,
{
    let s = trim_chars(&chars_of(text));
    if s.len() == 0 {
        return Err(Error::MacroParse(String::from_str("empty macro token")));
    }
    match find_first(&s, '(') {
        Some(p) => {
            let before = slice_chars(&s, 0, p);
            let after = slice_chars(&s, p + 1, s.len());
            if after.len() == 0 || after[after.len() - 1] != ')' {
                let mut msg = String::from_str("unclosed parenthesis in macro invocation: ");
                msg.append(string_of(&s).as_str());
                return Err(Error::MacroParse(msg));
            }
            let inside = string_of(&slice_chars(&after, 0, after.len() - 1));
            let args = split_args(inside.as_str());
            match find_first(&before, ':') {
                Some(c) => {
                    let field = string_of(&trim_chars(&slice_chars(&before, 0, c)));
                    let name = string_of(&trim_chars(&slice_chars(&before, c + 1, before.len())));
                    Ok(MacroInvocation { field: Some(field), name, args })
                },
                None => {
                    let name = string_of(&trim_chars(&before));
                    Ok(MacroInvocation { field: None, name, args })
                },
            }
        },
        None => match find_first(&s, ':') {
            Some(c) => {
                let left = trim_chars(&slice_chars(&s, 0, c));
                let right = trim_chars(&slice_chars(&s, c + 1, s.len()));
                let starts_digit = right.len() > 0 && '0' <= right[0] && right[0] <= '9';
                if starts_digit || find_first(&right, '-').is_some() || find_first(
                    &right,
                    ',',
                ).is_some() {
                    let mut args: Vec<String> = Vec::new();
                    args.push(string_of(&right));
                    assert(strs_view(args@) =~= seq![right@]);
                    Ok(MacroInvocation { field: None, name: string_of(&left), args })
                } else {
                    let args: Vec<String> = Vec::new();
                    assert(strs_view(args@) =~= Seq::<Seq<char>>::empty());
                    Ok(MacroInvocation { field: Some(string_of(&left)), name: string_of(&right), args })
                }
            },
            None => {
                let args: Vec<String> = Vec::new();
                assert(strs_view(args@) =~= Seq::<Seq<char>>::empty());
                Ok(MacroInvocation { field: None, name: string_of(&s), args })
            },
        },
    }
}

/// A macro supplied by the user; it shadows a built-in macro of the same name.
#[derive(Debug, Clone)]
pub struct CustomMacro {
    pub name: String,
    pub pattern: String,
    pub type_hint: Option<FieldType>,
    pub description: Option<String>,
}

/// A named, reusable pattern with the macros it may use.
#[derive(Debug, Clone)]
pub struct Profile {
    pub name: String,
    pub custom_macros: Vec<CustomMacro>,
    pub pattern: String,
    pub description: Option<String>,
}

/// The contents of a profile configuration: shared macros and named profiles.
#[derive(Debug, Clone)]
pub struct Profiles {
    pub custom_macros: Vec<CustomMacro>,
    pub profiles: Vec<Profile>,
}

/// A custom macro as plain values: name, pattern, type hint and description.
pub struct CustomMacroView {
    pub name: Seq<char>,
    pub pattern: Seq<char>,
    pub type_hint: Option<FieldTypeView>,
    pub description: Option<Seq<char>>,
}

pub open spec fn hint_view(h: Option<FieldType>) -> Option<FieldTypeView> {
    match h {
        Some(t) => Some(t@),
        None => None,
    }
}

impl View for CustomMacro {
    type V = CustomMacroView;

    open spec fn view(&self) -> CustomMacroView {
        CustomMacroView {
            name: self.name@,
            pattern: self.pattern@,
            type_hint: hint_view(self.type_hint),
            description: opt_string_view(self.description),
        }
    }
}

pub open spec fn macros_view(ms: Seq<CustomMacro>) -> Seq<CustomMacroView> {
    ms.map_values(|m: CustomMacro| m@)
}

/// Index of the first macro in `ms[i..]` called `name`.
pub open spec fn macro_index_from(ms: Seq<CustomMacroView>, name: Seq<char>, i: int) -> Option<int>
    decreases ms.len() - i,
{
    if i < 0 || i >= ms.len() {
        None
    } else if ms[i].name == name {
        Some(i)
    } else {
        macro_index_from(ms, name, i + 1)
    }
}

/// Index of the first macro in `ms` called `name`.
pub open spec fn macro_index(ms: Seq<CustomMacroView>, name: Seq<char>) -> Option<int> {
    macro_index_from(ms, name, 0)
}

pub proof fn lemma_macro_index_from(ms: Seq<CustomMacroView>, name: Seq<char>, i: int)
    requires
        0 <= i <= ms.len(),
    ensures
        macro_index_from(ms, name, i) matches Some(k) ==> i <= k < ms.len() && ms[k].name == name,
    decreases ms.len() - i,
{
    if i < ms.len() && ms[i].name != name {
        lemma_macro_index_from(ms, name, i + 1);
    }
}

/// Index of the first profile in `ps[i..]` called `name`.
pub open spec fn profile_index_from(ps: Seq<Profile>, name: Seq<char>, i: int) -> Option<int>
    decreases ps.len() - i,
{
    if i < 0 || i >= ps.len() {
        None
    } else if ps[i].name@ == name {
        Some(i)
    } else {
        profile_index_from(ps, name, i + 1)
    }
}

pub proof fn lemma_profile_index_from(ps: Seq<Profile>, name: Seq<char>, i: int)
    requires
        0 <= i <= ps.len(),
    ensures
        profile_index_from(ps, name, i) matches Some(k) ==> i <= k < ps.len() && ps[k].name@ == name,
    decreases ps.len() - i,
{
    if i < ps.len() && ps[i].name@ != name {
        lemma_profile_index_from(ps, name, i + 1);
    }
}

/// The first macro of `ms` called `name`.
pub fn find_macro<'a>(ms: &'a [CustomMacro], name: &str) -> (r: Option<&'a CustomMacro>)
    ensures
        r matches Some(m) ==> macro_index(macros_view(ms@), name@) matches Some(k) && *m
            == ms@[k],
        r is None ==> macro_index(macros_view(ms@), name@) is None,
{
    proof {
        lemma_macro_index_from(macros_view(ms@), name@, 0);
    }
    let mut i: usize = 0;
    while i < ms.len()
        invariant
            i <= ms@.len(),
            macro_index(macros_view(ms@), name@) == macro_index_from(macros_view(ms@), name@, i as int),
        decreases ms@.len() - i,
    {
        if str_eq(ms[i].name.as_str(), name) {
            return Some(&ms[i]);
        }
        i = i + 1;
    }
    None
}

fn copy_opt_string(o: &Option<String>) -> (r: Option<String>)
    ensures
        opt_string_view(r) == opt_string_view(*o),
{
    match o {
        Some(s) => Some(s.clone()),
        None => None,
    }
}

impl CustomMacro {
    /// A copy of this macro.
    pub fn duplicate(&self) -> (r: CustomMacro)
        ensures
            r@ == self@,
    {
        let type_hint = match &self.type_hint {
            Some(t) => Some(t.duplicate()),
            None => None,
        };
        CustomMacro {
            name: self.name.clone(),
            pattern: self.pattern.clone(),
            type_hint,
            description: copy_opt_string(&self.description),
        }
    }
}

/// `ms` followed by copies of `extra`.
pub fn concat_macros(ms: &Vec<CustomMacro>, extra: &Vec<CustomMacro>) -> (r: Vec<CustomMacro>)
    ensures
        macros_view(r@) == macros_view(ms@) + macros_view(extra@),
{
    let mut out: Vec<CustomMacro> = Vec::new();
    let mut i: usize = 0;
    while i < ms.len()
        invariant
            i <= ms@.len(),
            out@.len() == i,
            forall|j: int| 0 <= j < i ==> #[trigger] out@[j]@ == ms@[j]@,
        decreases ms@.len() - i,
    {
        out.push(ms[i].duplicate());
        i = i + 1;
    }
    let mut k: usize = 0;
    while k < extra.len()
        invariant
            k <= extra@.len(),
            out@.len() == ms@.len() + k,
            forall|j: int| 0 <= j < ms@.len() ==> #[trigger] out@[j]@ == ms@[j]@,
            forall|j: int| 0 <= j < k ==> #[trigger] out@[ms@.len() + j]@ == extra@[j]@,
        decreases extra@.len() - k,
    {
        out.push(extra[k].duplicate());
        k = k + 1;
    }
    assert forall|j: int| 0 <= j < out@.len() implies #[trigger] macros_view(out@)[j] == (
    macros_view(ms@) + macros_view(extra@))[j] by {
        if j >= ms@.len() {
            assert(out@[ms@.len() + (j - ms@.len())]@ == extra@[j - ms@.len()]@);
        }
    }
    assert(macros_view(out@) =~= macros_view(ms@) + macros_view(extra@));
    out
}

impl Profiles {
    /// The macro called `name` among the shared macros.
    pub fn get_macro(&self, name: &str) -> (r: Option<&CustomMacro>)
        ensures
            r matches Some(m) ==> macro_index(macros_view(self.custom_macros@), name@) matches Some(
                k,
            ) && *m == self.custom_macros@[k],
            r is None ==> macro_index(macros_view(self.custom_macros@), name@) is None,
    {
        find_macro(self.custom_macros.as_slice(), name)
    }

    /// The first profile called `name`.
    pub fn get_profile(&self, name: &str) -> (r: Option<&Profile>)
        ensures
            r matches Some(p) ==> profile_index_from(self.profiles@, name@, 0) matches Some(k)
                && *p == self.profiles@[k],
            r is None ==> profile_index_from(self.profiles@, name@, 0) is None,
    {
        proof {
            lemma_profile_index_from(self.profiles@, name@, 0);
        }
        let mut i: usize = 0;
        while i < self.profiles.len()
            invariant
                i <= self.profiles@.len(),
                profile_index_from(self.profiles@, name@, 0) == profile_index_from(
                    self.profiles@,
                    name@,
                    i as int,
                ),
            decreases self.profiles@.len() - i,
        {
            if str_eq(self.profiles[i].name.as_str(), name) {
                return Some(&self.profiles[i]);
            }
            i = i + 1;
        }
        None
    }

    /// The same profiles, each also holding the shared macros after its own.
    pub fn merge_shared_macros(&self) -> (r: Profiles)
        ensures
            macros_view(r.custom_macros@) == macros_view(self.custom_macros@),
            r.profiles@.len() == self.profiles@.len(),
            forall|i: int|
                0 <= i < r.profiles@.len() ==> {
                    let p = #[trigger] r.profiles@[i];
                    let q = self.profiles@[i];
                    &&& p.name@ == q.name@
                    &&& p.pattern@ == q.pattern@
                    &&& opt_string_view(p.description) == opt_string_view(q.description)
                    &&& macros_view(p.custom_macros@) == macros_view(q.custom_macros@)
                        + macros_view(self.custom_macros@)
                },
    {
        let mut profiles: Vec<Profile> = Vec::new();
        let mut i: usize = 0;
        while i < self.profiles.len()
            invariant
                i <= self.profiles@.len(),
                profiles@.len() == i,
                forall|j: int|
                    0 <= j < i ==> {
                        let p = #[trigger] profiles@[j];
                        let q = self.profiles@[j];
                        &&& p.name@ == q.name@
                        &&& p.pattern@ == q.pattern@
                        &&& opt_string_view(p.description) == opt_string_view(q.description)
                        &&& macros_view(p.custom_macros@) == macros_view(q.custom_macros@)
                            + macros_view(self.custom_macros@)
                    },
            decreases self.profiles@.len() - i,
        {
            let q = &self.profiles[i];
            profiles.push(
                Profile {
                    name: q.name.clone(),
                    custom_macros: concat_macros(&q.custom_macros, &self.custom_macros),
                    pattern: q.pattern.clone(),
                    description: copy_opt_string(&q.description),
                },
            );
            i = i + 1;
        }
        let none: Vec<CustomMacro> = Vec::new();
        let shared = concat_macros(&self.custom_macros, &none);
        assert(macros_view(none@) =~= Seq::<CustomMacroView>::empty());
        assert(macros_view(self.custom_macros@) + Seq::<CustomMacroView>::empty() =~= macros_view(self.custom_macros@));
        Profiles { custom_macros: shared, profiles }
    }
}

impl Profile {
    /// The macro called `name` among this profile's macros.
    pub fn get_macro(&self, name: &str) -> (r: Option<&CustomMacro>)
        ensures
            r matches Some(m) ==> macro_index(macros_view(self.custom_macros@), name@) matches Some(
                k,
            ) && *m == self.custom_macros@[k],
            r is None ==> macro_index(macros_view(self.custom_macros@), name@) is None,
    {
        find_macro(self.custom_macros.as_slice(), name)
    }
}

} // verus!
