//! Variable substitution on the read path: `${NAME}` inside a string is
//! replaced by the value of the variable `NAME`, and left as it is where no
//! such variable is set.
use crate::text::{append_chars, chars_of, string_of};
use crate::value::{
    field_views, first_value, lemma_array_view, lemma_object_view, value_views, ConfigValue, JsonView,
};
use vstd::prelude::*;
use vstd::string::StringExecFns;

verus! {

/// A variable of the process environment.
#[derive(Debug, PartialEq)]
pub struct Variable {
    pub name: String,
    pub value: String,
}

/// The variables of the process environment, as the caller read them.
#[derive(Debug, PartialEq)]
pub struct Variables {
    pub entries: Vec<Variable>,
}

/// Model of the variables: pairs of a name and a value.
pub type VariablesView = Seq<(Seq<char>, Seq<char>)>;

impl View for Variables {
    type V = Seq<(Seq<char>, Seq<char>)>;

    open spec fn view(&self) -> Seq<(Seq<char>, Seq<char>)> {
        Seq::new(self.entries@.len(), |i: int| (self.entries@[i].name@, self.entries@[i].value@))
    }
}

/// The value of the variable with this name, if it is set.
pub open spec fn value_of(vars: Seq<(Seq<char>, Seq<char>)>, name: Seq<char>) -> Option<Seq<char>> {
    first_value(vars, name, 0)
}

/// The first index at or after `from` where `${` begins; the length of the
/// text where there is none.
pub open spec fn first_open(t: Seq<char>, from: int) -> int
    decreases t.len() - from,
{
    if from < 0 || from + 1 >= t.len() {
        t.len() as int
    } else if t[from] == '$' && t[from + 1] == '{' {
        from
    } else {
        first_open(t, from + 1)
    }
}

/// The first index at or after `from` that holds `}`; the length of the
/// text where there is none.
pub open spec fn first_close(t: Seq<char>, from: int) -> int
    decreases t.len() - from,
{
    if from < 0 || from >= t.len() {
        t.len() as int
    } else if t[from] == '}' {
        from
    } else {
        first_close(t, from + 1)
    }
}

/// A search for `${` ends at or after its start.
pub proof fn lemma_first_open(t: Seq<char>, from: int)
    requires
        0 <= from <= t.len(),
    ensures
        from <= first_open(t, from) <= t.len(),
        first_open(t, from) < t.len() ==> {
            &&& first_open(t, from) + 1 < t.len()
            &&& t[first_open(t, from)] == '$'
            &&& t[first_open(t, from) + 1] == '{'
            &&& first_open(t, from) + 2 <= first_close(t, first_open(t, from))
        },
    decreases t.len() - from,
{
    if from + 1 < t.len() {
        if t[from] == '$' && t[from + 1] == '{' {
            assert(first_close(t, from) == first_close(t, from + 1));
            assert(first_close(t, from + 1) == first_close(t, from + 2));
            lemma_first_close(t, from + 2);
        } else {
            lemma_first_open(t, from + 1);
        }
    }
}

/// A search for `}` ends at or after its start.
pub proof fn lemma_first_close(t: Seq<char>, from: int)
    requires
        0 <= from <= t.len(),
    ensures
        from <= first_close(t, from) <= t.len(),
    decreases t.len() - from,
{
    if from < t.len() && t[from] != '}' {
        lemma_first_close(t, from + 1);
    }
}

/// The text from index `from` on, with every `${NAME}` replaced by the
/// value of `NAME` where that variable is set. A token begins at the first
/// `${` and ends at the first `}` after it; what replaces a token is not
/// scanned again; a `${` without a `}` after it ends the scan.
pub open spec fn expand(t: Seq<char>, from: int, vars: Seq<(Seq<char>, Seq<char>)>) -> Seq<char>
    decreases t.len() - from,
{
    if from < 0 || from > t.len() {
        Seq::empty()
    } else {
        let start = first_open(t, from);
        let end = first_close(t, start);
        if start >= t.len() || end >= t.len() {
            t.subrange(from, t.len() as int)
        } else {
            proof {
                lemma_first_open(t, from);
                lemma_first_close(t, start);
            }
            let token = match value_of(vars, t.subrange(start + 2, end)) {
                Some(v) => v,
                None => t.subrange(start, end + 1),
            };
            t.subrange(from, start) + token + expand(t, end + 1, vars)
        }
    }
}

/// A text with every `${NAME}` replaced by the value of `NAME` where that
/// variable is set.
pub open spec fn substituted(t: Seq<char>, vars: Seq<(Seq<char>, Seq<char>)>) -> Seq<char> {
    expand(t, 0, vars)
}

/// From any index on, a text in which no token names a variable that is
/// set stays as it is.
pub proof fn lemma_expand_unset(t: Seq<char>, from: int, vars: Seq<(Seq<char>, Seq<char>)>)
    requires
        0 <= from <= t.len(),
        forall|name: Seq<char>| value_of(vars, name) is None,
    ensures
        expand(t, from, vars) == t.subrange(from, t.len() as int),
    decreases t.len() - from,
{
    let start = first_open(t, from);
    let end = first_close(t, start);
    if start < t.len() && end < t.len() {
        lemma_first_open(t, from);
        lemma_first_close(t, start);
        lemma_expand_unset(t, end + 1, vars);
        assert(value_of(vars, t.subrange(start + 2, end)) is None);
        assert(t.subrange(from, start) + t.subrange(start, end + 1) + t.subrange(
            end + 1,
            t.len() as int,
        ) =~= t.subrange(from, t.len() as int));
    }
}

/// Variables that are not set are no error: where no variable is set,
/// every text stays as it is, tokens included.
pub proof fn law_unset_variables_stay(t: Seq<char>)
    ensures
        substituted(t, Seq::empty()) == t,
{
    let none = Seq::<(Seq<char>, Seq<char>)>::empty();
    assert forall|name: Seq<char>| value_of(none, name) is None by {}
    lemma_expand_unset(t, 0, none);
    assert(t.subrange(0, t.len() as int) =~= t);
}

/// A value with the substitution applied to every string inside it: to
/// string leaves, list elements and map values. Map keys, numbers, booleans
/// and null stay as they are.
pub open spec fn resolved(v: JsonView, vars: Seq<(Seq<char>, Seq<char>)>) -> JsonView
    decreases v,
{
    match v {
        JsonView::String(s) => JsonView::String(substituted(s, vars)),
        JsonView::Array(items) => JsonView::Array(
            Seq::new(
                items.len(),
                |i: int|
                    if 0 <= i < items.len() {
                        resolved(items[i], vars)
                    } else {
                        JsonView::Null
                    },
            ),
        ),
        JsonView::Object(fields) => JsonView::Object(
            Seq::new(
                fields.len(),
                |i: int|
                    if 0 <= i < fields.len() {
                        (fields[i].0, resolved(fields[i].1, vars))
                    } else {
                        (Seq::empty(), JsonView::Null)
                    },
            ),
        ),
        other => other,
    }
}

impl Variables {
    /// No variable is set.
    pub fn new() -> (r: Variables)
        ensures
            r@ == Seq::<(Seq<char>, Seq<char>)>::empty(),
    {
        let r = Variables { entries: Vec::new() };
        assert(r@ =~= Seq::empty());
        r
    }

    /// Sets a variable. Of two variables with one name the earlier counts.
    pub fn set(&mut self, name: &str, value: &str)
        ensures
            final(self)@ == old(self)@.push((name@, value@)),
    {
        self.entries.push(Variable { name: name.to_owned(), value: value.to_owned() });
        assert(self@ =~= old(self)@.push((name@, value@)));
    }

    /// The value of the variable with this name, if it is set.
    pub fn get(&self, name: &str) -> (r: Option<&String>)
        ensures
            r is Some <==> value_of(self@, name@) is Some,
            r matches Some(v) ==> Some(v@) == value_of(self@, name@),
    {
        let needle = name.to_owned();
        let mut i: usize = 0;
        while i < self.entries.len()
            invariant
                i <= self.entries.len(),
                needle@ == name@,
                value_of(self@, name@) == first_value(self@, name@, i as int),
            decreases self.entries.len() - i,
        {
            if self.entries[i].name == needle {
                return Some(&self.entries[i].value);
            }
            i += 1;
        }
        None
    }
}

/// The first index at or after `from` where `${` begins.
fn find_open(chars: &Vec<char>, from: usize) -> (r: usize)
    requires
        from <= chars.len(),
    ensures
        r == first_open(chars@, from as int),
        from <= r <= chars.len(),
{
    let mut i: usize = from;
    while i < chars.len() && i + 1 < chars.len()
        invariant
            from <= i <= chars.len(),
            first_open(chars@, from as int) == first_open(chars@, i as int),
        decreases chars.len() - i,
    {
        if chars[i] == '$' && chars[i + 1] == '{' {
            return i;
        }
        i += 1;
    }
    chars.len()
}

/// The first index at or after `from` that holds `}`.
fn find_close(chars: &Vec<char>, from: usize) -> (r: usize)
    requires
        from <= chars.len(),
    ensures
        r == first_close(chars@, from as int),
        from <= r <= chars.len(),
{
    let mut i: usize = from;
    while i < chars.len()
        invariant
            from <= i <= chars.len(),
            first_close(chars@, from as int) == first_close(chars@, i as int),
        decreases chars.len() - i,
    {
        if chars[i] == '}' {
            return i;
        }
        i += 1;
    }
    chars.len()
}

/// Replaces every `${NAME}` in a string by the value of the variable
/// `NAME`; a token whose variable is not set stays as it is.
pub fn substitute_env_in_string(s: &str, vars: &Variables) -> (r: String)
    ensures
        r@ == substituted(s@, vars@),
{
    let chars = chars_of(s);
    let n = chars.len();
    let mut out = String::new();
    let mut from: usize = 0;
    assert(Seq::<char>::empty() + expand(chars@, 0, vars@) =~= expand(chars@, 0, vars@));
    loop
        invariant
            from <= n,
            n == chars.len(),
            chars@ == s@,
            out@ + expand(chars@, from as int, vars@) == substituted(s@, vars@),
        decreases n - from,
    {
        let start = find_open(&chars, from);
        let end = find_close(&chars, start);
        if start >= n || end >= n {
            append_chars(&mut out, &chars, from, n);
            return out;
        }
        proof {
            lemma_first_open(chars@, from as int);
        }
        assert(start + 2 <= end);
        let ghost before = out@;
        let name = string_of(&chars, start + 2, end);
        append_chars(&mut out, &chars, from, start);
        match vars.get(name.as_str()) {
            Some(v) => {
                out.append(v.as_str());
            },
            None => {
                append_chars(&mut out, &chars, start, end + 1);
            },
        }
        proof {
            let token = match value_of(vars@, chars@.subrange(start as int + 2, end as int)) {
                Some(v) => v,
                None => chars@.subrange(start as int, end as int + 1),
            };
            assert(out@ == before + chars@.subrange(from as int, start as int) + token);
            assert(before + (chars@.subrange(from as int, start as int) + token + expand(
                chars@,
                end as int + 1,
                vars@,
            )) =~= out@ + expand(chars@, end as int + 1, vars@));
        }
        from = end + 1;
    }
}

/// The substitution applied to every element of a list.
fn resolve_values(items: &Vec<ConfigValue>, vars: &Variables) -> (r: Vec<ConfigValue>)
    ensures
        r@.len() == items@.len(),
        forall|i: int| 0 <= i < items@.len() ==> (#[trigger] r@[i])@ == resolved(items@[i]@, vars@),
    decreases items,
{
    let mut out: Vec<ConfigValue> = Vec::new();
    let mut i: usize = 0;
    while i < items.len()
        invariant
            i <= items.len(),
            out@.len() == i,
            forall|j: int| 0 <= j < i ==> (#[trigger] out@[j])@ == resolved(items@[j]@, vars@),
        decreases items.len() - i,
    {
        let item = resolve_env_vars(&items[i], vars);
        out.push(item);
        i += 1;
    }
    out
}

/// The substitution applied to every value of a list of map entries.
fn resolve_fields(fields: &Vec<(String, ConfigValue)>, vars: &Variables) -> (r: Vec<
    (String, ConfigValue),
>)
    ensures
        r@.len() == fields@.len(),
        forall|i: int|
            0 <= i < fields@.len() ==> (#[trigger] r@[i]).0@ == fields@[i].0@ && r@[i].1@
                == resolved(fields@[i].1@, vars@),
    decreases fields,
{
    let mut out: Vec<(String, ConfigValue)> = Vec::new();
    let mut i: usize = 0;
    while i < fields.len()
        invariant
            i <= fields.len(),
            out@.len() == i,
            forall|j: int|
                0 <= j < i ==> (#[trigger] out@[j]).0@ == fields@[j].0@ && out@[j].1@ == resolved(
                    fields@[j].1@,
                    vars@,
                ),
        decreases fields.len() - i,
    {
        let name = fields[i].0.clone();
        let value = resolve_env_vars(&fields[i].1, vars);
        out.push((name, value));
        i += 1;
    }
    out
}

/// Applies the substitution to every string inside a value. Numbers,
/// booleans, null and the structure of lists and maps stay as they are.
pub fn resolve_env_vars(value: &ConfigValue, vars: &Variables) -> (r: ConfigValue)
    ensures
        r@ == resolved(value@, vars@),
    decreases value,
{
    match value {
        ConfigValue::String(s) => ConfigValue::String(substitute_env_in_string(s.as_str(), vars)),
        ConfigValue::Array(items) => {
            let out = resolve_values(items, vars);
            proof {
                lemma_array_view(*items);
                lemma_array_view(out);
                assert(value_views(out@) =~= resolved(value@, vars@)->Array_0);
            }
            ConfigValue::Array(out)
        },
        ConfigValue::Object(fields) => {
            let out = resolve_fields(fields, vars);
            proof {
                lemma_object_view(*fields);
                lemma_object_view(out);
                assert(field_views(out@) =~= resolved(value@, vars@)->Object_0);
            }
            ConfigValue::Object(out)
        },
        other => other.clone(),
    }
}

} // verus!
