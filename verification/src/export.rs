//! The resolved configuration as environment variables: names in upper
//! case with an optional prefix, values as text, and the `export` lines of
//! a shell script.
use crate::json::{compact_text, json_compact};
use crate::merge::{upsert, MergedConfig};
use crate::models::{find_item, lift, str_of, ConfigItem, ItemView};
use crate::text::{chars_of, push_char};
use crate::tree::push_lifted;
use crate::value::{ConfigValue, JsonView};
use vstd::prelude::*;
use vstd::string::StringExecFns;

verus! {

/// The text that `str::to_uppercase` of std gives for a text.
pub uninterp spec fn uppercase(text: Seq<char>) -> Seq<char>;

/// `str::to_uppercase` of std: the text in upper case.
#[verifier::external_body]
fn to_upper(s: &str) -> (r: String)
    ensures
        r@ == uppercase(s@),
{
    s.to_uppercase()
}

/// A character of a key as it stands in a variable name: `.` and `-`
/// become `_`.
pub open spec fn plain(c: char) -> char {
    if c == '.' || c == '-' {
        '_'
    } else {
        c
    }
}

/// A key with every `.` and `-` replaced by `_`.
pub open spec fn normalized(key: Seq<char>) -> Seq<char> {
    Seq::new(key.len(), |i: int| plain(key[i]))
}

/// A variable name made of a prefix and a name, both already in upper
/// case: the prefix, `_`, and the name; the name alone without a prefix.
pub open spec fn joined_key(prefix: Option<Seq<char>>, name: Seq<char>) -> Seq<char> {
    match prefix {
        Some(p) => p + "_"@ + name,
        None => name,
    }
}

/// The name of the environment variable for a key: the key with `.` and
/// `-` replaced by `_`, in upper case, after the prefix in upper case and
/// `_` where there is a prefix.
pub open spec fn env_key(key: Seq<char>, prefix: Option<Seq<char>>) -> Seq<char> {
    joined_key(
        match prefix {
            Some(p) => Some(uppercase(p)),
            None => None,
        },
        uppercase(normalized(key)),
    )
}

/// Replaces every `.` and `-` of a key by `_`.
pub fn normalize_key(key: &str) -> (r: String)
    ensures
        r@ == normalized(key@),
{
    let chars = chars_of(key);
    let mut out = String::new();
    let mut i: usize = 0;
    while i < chars.len()
        invariant
            i <= chars.len(),
            chars@ == key@,
            out@ == normalized(key@).take(i as int),
        decreases chars.len() - i,
    {
        let c = chars[i];
        let d = if c == '.' || c == '-' {
            '_'
        } else {
            c
        };
        push_char(&mut out, d);
        assert(normalized(key@).take(i as int + 1) =~= normalized(key@).take(i as int).push(d));
        i += 1;
    }
    assert(normalized(key@).take(chars.len() as int) =~= normalized(key@));
    out
}

/// Joins a prefix and a name, both already in upper case, with `_`.
pub fn join_env_key(prefix: Option<&str>, name: &str) -> (r: String)
    ensures
        r@ == joined_key(str_of(prefix), name@),
{
    match prefix {
        Some(p) => {
            let mut out = String::from_str(p);
            out.append("_");
            out.append(name);
            out
        },
        None => String::from_str(name),
    }
}

/// The name of the environment variable for a key.
pub fn to_env_key(key: &str, prefix: Option<&str>) -> (r: String)
    ensures
        r@ == env_key(key@, str_of(prefix)),
{
    let normal = normalize_key(key);
    let name = to_upper(normal.as_str());
    match prefix {
        Some(p) => {
            let upper = to_upper(p);
            join_env_key(Some(upper.as_str()), name.as_str())
        },
        None => join_env_key(None, name.as_str()),
    }
}

/// The text of a value as an environment variable: a string is itself,
/// null is empty, a boolean is `true` or `false`, and a number, a list or
/// a map is its compact JSON text (empty where it has none).
pub open spec fn env_text(value: JsonView) -> Seq<char> {
    match value {
        JsonView::String(s) => s,
        JsonView::Null => Seq::empty(),
        JsonView::Bool(b) => if b {
            "true"@
        } else {
            "false"@
        },
        _ => match compact_text(value) {
            Some(t) => t,
            None => Seq::empty(),
        },
    }
}

/// The text of a value as an environment variable.
pub fn json_to_env_value(value: &ConfigValue) -> (r: String)
    ensures
        r@ == env_text(value@),
{
    match value {
        ConfigValue::String(s) => s.clone(),
        ConfigValue::Null => String::new(),
        ConfigValue::Bool(b) => if *b {
            String::from_str("true")
        } else {
            String::from_str("false")
        },
        other => match json_compact(other) {
            Some(t) => t,
            None => String::new(),
        },
    }
}

/// Whether a character makes quotes necessary in a shell assignment.
pub open spec fn special(c: char) -> bool {
    c == ' ' || c == '"' || c == '\'' || c == '$' || c == '`' || c == '\\' || c == '\n' || c == '{'
        || c == '}' || c == '[' || c == ']'
}

/// Whether a value must be quoted: it is empty, or holds a space, a quote,
/// `$`, a backquote, a backslash, a line feed, a brace or a bracket.
pub open spec fn must_quote(value: Seq<char>) -> bool {
    value.len() == 0 || exists|i: int| 0 <= i < value.len() && special(#[trigger] value[i])
}

/// Whether a value must be quoted in a shell assignment.
pub fn needs_quoting(value: &str) -> (r: bool)
    ensures
        r == must_quote(value@),
{
    let chars = chars_of(value);
    if chars.len() == 0 {
        return true;
    }
    let mut i: usize = 0;
    while i < chars.len()
        invariant
            i <= chars.len(),
            chars@ == value@,
            forall|j: int| 0 <= j < i ==> !special(#[trigger] value@[j]),
        decreases chars.len() - i,
    {
        let c = chars[i];
        if c == ' ' || c == '"' || c == '\'' || c == '$' || c == '`' || c == '\\' || c == '\n'
            || c == '{' || c == '}' || c == '[' || c == ']' {
            return true;
        }
        i += 1;
    }
    false
}

/// A character inside double quotes: a backslash and a double quote get a
/// backslash before them.
pub open spec fn escaped_char(c: char) -> Seq<char> {
    if c == '\\' || c == '"' {
        seq!['\\', c]
    } else {
        seq![c]
    }
}

/// A text inside double quotes, character by character.
pub open spec fn escaped(text: Seq<char>) -> Seq<char>
    decreases text.len(),
{
    if text.len() == 0 {
        Seq::empty()
    } else {
        escaped(text.drop_last()) + escaped_char(text.last())
    }
}

/// The line that exports a variable: `export NAME=value`, with the value
/// in double quotes and escaped where it must be quoted.
pub open spec fn export_line(name: Seq<char>, value: Seq<char>) -> Seq<char> {
    if must_quote(value) {
        "export "@ + name + "=\""@ + escaped(value) + "\""@
    } else {
        "export "@ + name + "="@ + value
    }
}

/// The line that exports a variable.
pub fn format_export(name: &str, value: &str) -> (r: String)
    ensures
        r@ == export_line(name@, value@),
{
    let mut out = String::from_str("export ");
    out.append(name);
    if needs_quoting(value) {
        out.append("=\"");
        let ghost head = out@;
        let chars = chars_of(value);
        let mut i: usize = 0;
        assert(escaped(value@.take(0)) =~= Seq::empty());
        assert(head + Seq::<char>::empty() =~= head);
        while i < chars.len()
            invariant
                i <= chars.len(),
                chars@ == value@,
                out@ == head + escaped(value@.take(i as int)),
            decreases chars.len() - i,
        {
            let c = chars[i];
            proof {
                assert(value@.take(i as int + 1).drop_last() =~= value@.take(i as int));
                assert(value@.take(i as int + 1).last() == c);
            }
            let ghost before = out@;
            if c == '\\' || c == '"' {
                push_char(&mut out, '\\');
            }
            push_char(&mut out, c);
            assert(out@ =~= before + escaped_char(c));
            assert(head + (escaped(value@.take(i as int)) + escaped_char(c)) =~= before
                + escaped_char(c));
            i += 1;
        }
        assert(value@.take(chars.len() as int) =~= value@);
        out.append("\"");
    } else {
        out.append("=");
        out.append(value);
    }
    out
}

/// The resolved items under the names of their environment variables; of
/// two keys with one name the later takes the place of the earlier.
pub open spec fn env_vars(items: Seq<ItemView>, prefix: Option<Seq<char>>) -> Seq<ItemView>
    decreases items.len(),
{
    if items.len() == 0 {
        Seq::empty()
    } else {
        upsert(
            env_vars(items.drop_last(), prefix),
            ItemView { key: env_key(items.last().key, prefix), value: items.last().value },
        )
    }
}

/// The resolved items under the names of their environment variables.
pub fn to_env_vars(merged: &MergedConfig, prefix: Option<&str>) -> (r: MergedConfig)
    ensures
        r@ == env_vars(merged@, str_of(prefix)),
{
    let ghost all = merged@;
    let mut out: Vec<ConfigItem> = Vec::new();
    let mut i: usize = 0;
    assert(all.take(0) =~= Seq::empty());
    assert(lift(out@) =~= Seq::empty());
    while i < merged.entries.len()
        invariant
            i <= merged.entries.len(),
            all == lift(merged.entries@),
            lift(out@) == env_vars(all.take(i as int), str_of(prefix)),
        decreases merged.entries.len() - i,
    {
        proof {
            assert(all.take(i as int + 1).drop_last() =~= all.take(i as int));
            assert(all.take(i as int + 1).last() == merged.entries@[i as int]@);
        }
        let item = ConfigItem {
            key: to_env_key(merged.entries[i].key.as_str(), prefix),
            value: merged.entries[i].value.clone(),
        };
        match find_item(&out, item.key.as_str()) {
            Some(at) => {
                let ghost before = out@;
                out[at] = item;
                assert(lift(out@) =~= lift(before).update(at as int, item@));
            },
            None => {
                push_lifted(&mut out, item);
            },
        }
        i += 1;
    }
    assert(all.take(merged.entries.len() as int) =~= all);
    MergedConfig { entries: out }
}

/// The order of strings: by the first character in which they differ, and
/// a text before every text that it begins.
pub open spec fn text_le(a: Seq<char>, b: Seq<char>) -> bool
    decreases a.len(),
{
    if a.len() == 0 {
        true
    } else if b.len() == 0 {
        false
    } else if a[0] != b[0] {
        (a[0] as u32) < (b[0] as u32)
    } else {
        text_le(a.drop_first(), b.drop_first())
    }
}

/// Whether a list of texts is in the order of strings.
pub open spec fn in_order(lines: Seq<Seq<char>>) -> bool {
    forall|i: int, j: int| 0 <= i < j < lines.len() ==> text_le(lines[i], lines[j])
}

/// The texts of a list of strings.
pub open spec fn line_views(lines: Seq<String>) -> Seq<Seq<char>> {
    Seq::new(lines.len(), |i: int| lines[i]@)
}

/// `sort` of std on a slice of strings: afterwards the list holds the same
/// strings, each as often as before, in the order of strings.
#[verifier::external_body]
fn sort_lines(lines: &mut Vec<String>)
    ensures
        in_order(line_views(final(lines)@)),
        line_views(final(lines)@).to_multiset() == line_views(old(lines)@).to_multiset(),
{
    lines.sort();
}

/// Texts joined into one, with a line feed between them.
pub open spec fn joined(lines: Seq<Seq<char>>) -> Seq<char>
    decreases lines.len(),
{
    if lines.len() == 0 {
        Seq::empty()
    } else if lines.len() == 1 {
        lines[0]
    } else {
        joined(lines.drop_last()) + "\n"@ + lines.last()
    }
}

/// Joins lines into one text, with a line feed between them.
pub fn join_lines(lines: &Vec<String>) -> (r: String)
    ensures
        r@ == joined(line_views(lines@)),
{
    let ghost all = line_views(lines@);
    let mut out = String::new();
    let mut i: usize = 0;
    assert(all.take(0) =~= Seq::empty());
    while i < lines.len()
        invariant
            i <= lines.len(),
            all == line_views(lines@),
            out@ == joined(all.take(i as int)),
        decreases lines.len() - i,
    {
        proof {
            assert(all.take(i as int + 1).drop_last() =~= all.take(i as int));
            assert(all.take(i as int + 1).last() == lines@[i as int]@);
            if i == 0 {
                assert(all.take(1)[0] == lines@[0]@);
                assert(Seq::<char>::empty() + lines@[0]@ =~= lines@[0]@);
            }
        }
        if i > 0 {
            out.append("\n");
        }
        out.append(lines[i].as_str());
        i += 1;
    }
    assert(all.take(lines.len() as int) =~= all);
    out
}

/// The export lines of a list of variables, in the order of the list.
pub open spec fn export_lines(vars: Seq<ItemView>) -> Seq<Seq<char>> {
    Seq::new(vars.len(), |i: int| export_line(vars[i].key, env_text(vars[i].value)))
}

/// Whether a text is the export script of a list of variables: their
/// export lines, in the order of strings, joined by line feeds.
pub open spec fn is_export_of(text: Seq<char>, vars: Seq<ItemView>) -> bool {
    exists|lines: Seq<Seq<char>>|
        in_order(lines) && lines.to_multiset() == export_lines(vars).to_multiset() && text
            == #[trigger] joined(lines)
}

/// The export script of a list of variables: one `export` line for each,
/// sorted, joined by line feeds.
pub fn export_script(vars: &MergedConfig) -> (r: String)
    ensures
        is_export_of(r@, vars@),
{
    let mut lines: Vec<String> = Vec::new();
    let mut i: usize = 0;
    while i < vars.entries.len()
        invariant
            i <= vars.entries.len(),
            lines@.len() == i,
            forall|j: int|
                0 <= j < i ==> (#[trigger] lines@[j])@ == export_line(
                    vars.entries@[j].key@,
                    env_text(vars.entries@[j].value@),
                ),
        decreases vars.entries.len() - i,
    {
        let value = json_to_env_value(&vars.entries[i].value);
        lines.push(format_export(vars.entries[i].key.as_str(), value.as_str()));
        i += 1;
    }
    assert(line_views(lines@) =~= export_lines(vars@));
    sort_lines(&mut lines);
    let text = join_lines(&lines);
    assert(is_export_of(text@, vars@)) by {
        let sorted = line_views(lines@);
        assert(in_order(sorted) && sorted.to_multiset() == export_lines(vars@).to_multiset()
            && text@ == joined(sorted));
    }
    text
}

} // verus!
