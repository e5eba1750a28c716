//! Strings as sequences of characters.
use vstd::prelude::*;
use vstd::std_specs::iter::IteratorSpec;

verus! {

/// The characters of a string.
pub fn chars_of(s: &str) -> (r: Vec<char>)
    ensures
        r@ == s@,
{
    let mut out: Vec<char> = Vec::new();
    let mut it = s.chars();
    loop
        invariant
            out@ + it.remaining() == s@,
            it.decrease() is Some,
        decreases it.decrease()->0,
    {
        match it.next() {
            Some(c) => {
                out.push(c);
            },
            None => {
                return out;
            },
        }
    }
}

/// `String::push` of std: appends one character to a string.
#[verifier::external_body]
pub(crate) fn push_char(s: &mut String, c: char)
    ensures
        final(s)@ == old(s)@.push(c),
{
    s.push(c);
}

/// Appends the characters `chars[from..to]` to a string.
pub fn append_chars(out: &mut String, chars: &Vec<char>, from: usize, to: usize)
    requires
        from <= to <= chars.len(),
    ensures
        final(out)@ == old(out)@ + chars@.subrange(from as int, to as int),
{
    let mut i: usize = from;
    assert(chars@.subrange(from as int, from as int) =~= Seq::empty());
    assert(out@ + Seq::<char>::empty() =~= out@);
    while i < to
        invariant
            from <= i <= to <= chars.len(),
            out@ == old(out)@ + chars@.subrange(from as int, i as int),
        decreases to - i,
    {
        push_char(out, chars[i]);
        assert(chars@.subrange(from as int, i as int + 1) =~= chars@.subrange(
            from as int,
            i as int,
        ).push(chars@[i as int]));
        assert(old(out)@ + chars@.subrange(from as int, i as int + 1) =~= (old(out)@
            + chars@.subrange(from as int, i as int)).push(chars@[i as int]));
        i += 1;
    }
}

/// The string made of the characters `chars[from..to]`.
pub fn string_of(chars: &Vec<char>, from: usize, to: usize) -> (r: String)
    requires
        from <= to <= chars.len(),
    ensures
        r@ == chars@.subrange(from as int, to as int),
{
    let mut out = String::new();
    append_chars(&mut out, chars, from, to);
    assert(Seq::<char>::empty() + chars@.subrange(from as int, to as int) =~= chars@.subrange(
        from as int,
        to as int,
    ));
    out
}

/// `String::pop` of std: removes the last character of a string, if it has
/// one.
#[verifier::external_body]
pub(crate) fn pop_char(s: &mut String)
    ensures
        old(s)@.len() > 0 ==> final(s)@ == old(s)@.drop_last(),
        old(s)@.len() == 0 ==> final(s)@ == old(s)@,
{
    s.pop();
}

/// Whether a character is white space to `str::trim` of std: whether it
/// has the property `White_Space` of Unicode. Which characters have it is
/// left to the tables of Unicode.
pub uninterp spec fn white_space(c: char) -> bool;

/// The number of white-space characters with which a text begins.
pub open spec fn leading_space(text: Seq<char>) -> nat
    decreases text.len(),
{
    if text.len() == 0 || !white_space(text.first()) {
        0
    } else {
        1 + leading_space(text.drop_first())
    }
}

/// The number of white-space characters with which a text ends.
pub open spec fn trailing_space(text: Seq<char>) -> nat
    decreases text.len(),
{
    if text.len() == 0 || !white_space(text.last()) {
        0
    } else {
        1 + trailing_space(text.drop_last())
    }
}

/// A text without the white space at its ends: what stands from its first
/// to its last character that is not white space, and nothing where every
/// character is white space.
pub open spec fn trimmed(text: Seq<char>) -> Seq<char> {
    if leading_space(text) == text.len() {
        Seq::empty()
    } else {
        text.subrange(leading_space(text) as int, text.len() - trailing_space(text))
    }
}

/// What begins a text is white space up to the first character that is
/// not.
pub proof fn lemma_leading_space(text: Seq<char>)
    ensures
        leading_space(text) <= text.len(),
        forall|i: int| 0 <= i < leading_space(text) ==> white_space(#[trigger] text[i]),
        leading_space(text) < text.len() ==> !white_space(text[leading_space(text) as int]),
    decreases text.len(),
{
    if text.len() > 0 && white_space(text.first()) {
        let rest = text.drop_first();
        lemma_leading_space(rest);
        assert forall|i: int| 0 <= i < leading_space(text) implies white_space(
            #[trigger] text[i],
        ) by {
            if i > 0 {
                assert(text[i] == rest[i - 1]);
            }
        }
        if leading_space(text) < text.len() {
            assert(text[leading_space(text) as int] == rest[leading_space(rest) as int]);
        }
    }
}

/// What ends a text is white space back to the last character that is
/// not.
pub proof fn lemma_trailing_space(text: Seq<char>)
    ensures
        trailing_space(text) <= text.len(),
        forall|i: int|
            text.len() - trailing_space(text) <= i < text.len() ==> white_space(#[trigger] text[i]),
        trailing_space(text) < text.len() ==> !white_space(
            text[text.len() - trailing_space(text) - 1],
        ),
    decreases text.len(),
{
    if text.len() > 0 && white_space(text.last()) {
        let rest = text.drop_last();
        lemma_trailing_space(rest);
        assert forall|i: int|
            text.len() - trailing_space(text) <= i < text.len() implies white_space(
            #[trigger] text[i],
        ) by {
            if i < text.len() - 1 {
                assert(text[i] == rest[i]);
            }
        }
        if trailing_space(text) < text.len() {
            assert(text[text.len() - trailing_space(text) - 1] == rest[rest.len() - trailing_space(
                rest,
            ) - 1]);
        }
    }
}

/// Trimming leaves nothing exactly where every character is white space;
/// what it leaves otherwise is a piece of the text that neither begins nor
/// ends with white space.
pub proof fn law_trimmed(text: Seq<char>)
    ensures
        trimmed(text).len() == 0 <==> forall|i: int|
            0 <= i < text.len() ==> white_space(#[trigger] text[i]),
        trimmed(text).len() > 0 ==> {
            &&& leading_space(text) + trailing_space(text) < text.len()
            &&& !white_space(trimmed(text).first())
            &&& !white_space(trimmed(text).last())
        },
{
    lemma_leading_space(text);
    lemma_trailing_space(text);
    let from = leading_space(text) as int;
    let to = text.len() - trailing_space(text);
    if from < text.len() {
        assert(!white_space(text[from]));
        assert(from < to);
        assert(trimmed(text).first() == text[from]);
        assert(trimmed(text).last() == text[to - 1]);
    }
}

/// `str::trim` of std: the text without the white space at its ends, so
/// that what is left neither begins nor ends with white space.
#[verifier::external_body]
pub(crate) fn trim_text(s: &str) -> (r: String)
    ensures
        r@ == trimmed(s@),
        r@.len() > 0 ==> !white_space(r@.first()) && !white_space(r@.last()),
{
    s.trim().to_string()
}

/// Whether a pattern stands in a text at an index.
pub open spec fn occurs_at(text: Seq<char>, pattern: Seq<char>, at: int) -> bool {
    0 <= at && at + pattern.len() <= text.len() && text.subrange(at, at + pattern.len())
        == pattern
}

/// The first index at or after `from` at which a pattern stands in a
/// text; the length of the text where it stands nowhere.
pub open spec fn first_occurrence(text: Seq<char>, pattern: Seq<char>, from: int) -> int
    decreases text.len() - from,
{
    if from < 0 || from >= text.len() || from + pattern.len() > text.len() {
        text.len() as int
    } else if occurs_at(text, pattern, from) {
        from
    } else {
        first_occurrence(text, pattern, from + 1)
    }
}

/// The part of a text before the first occurrence of a pattern; the whole
/// text where the pattern does not occur.
pub open spec fn before_first(text: Seq<char>, pattern: Seq<char>) -> Seq<char> {
    text.subrange(0, first_occurrence(text, pattern, 0))
}

/// The part of a text after the first occurrence of a pattern, where the
/// pattern occurs.
pub open spec fn after_first(text: Seq<char>, pattern: Seq<char>) -> Option<Seq<char>> {
    if first_occurrence(text, pattern, 0) < text.len() {
        Some(
            text.subrange(
                first_occurrence(text, pattern, 0) + pattern.len(),
                text.len() as int,
            ),
        )
    } else {
        None
    }
}

/// A search for a pattern ends inside the text, or at its end where the
/// pattern does not occur.
pub proof fn lemma_first_occurrence(text: Seq<char>, pattern: Seq<char>, from: int)
    requires
        0 <= from <= text.len(),
    ensures
        from <= first_occurrence(text, pattern, from) <= text.len(),
        first_occurrence(text, pattern, from) < text.len() ==> first_occurrence(
            text,
            pattern,
            from,
        ) + pattern.len() <= text.len(),
    decreases text.len() - from,
{
    if from < text.len() && from + pattern.len() <= text.len() && !occurs_at(text, pattern, from) {
        lemma_first_occurrence(text, pattern, from + 1);
    }
}

/// Whether a pattern stands in a text at an index.
fn matches_at(text: &Vec<char>, pattern: &Vec<char>, at: usize) -> (r: bool)
    requires
        at + pattern.len() <= text.len(),
    ensures
        r == occurs_at(text@, pattern@, at as int),
{
    let mut k: usize = 0;
    while k < pattern.len()
        invariant
            k <= pattern.len(),
            at + pattern.len() <= text.len(),
            forall|j: int| 0 <= j < k ==> text@[at + j] == pattern@[j],
        decreases pattern.len() - k,
    {
        if text[at + k] != pattern[k] {
            assert(text@.subrange(at as int, at + pattern.len())[k as int] != pattern@[k as int]);
            return false;
        }
        k += 1;
    }
    assert(text@.subrange(at as int, at + pattern.len()) =~= pattern@);
    true
}

/// The first index at which a pattern stands in a text.
pub fn find_text(text: &Vec<char>, pattern: &Vec<char>) -> (r: usize)
    ensures
        r == first_occurrence(text@, pattern@, 0),
        r <= text.len(),
        r < text.len() ==> r + pattern.len() <= text.len(),
{
    proof {
        lemma_first_occurrence(text@, pattern@, 0);
    }
    let mut i: usize = 0;
    while i < text.len() && pattern.len() <= text.len() - i
        invariant
            i <= text.len(),
            first_occurrence(text@, pattern@, 0) == first_occurrence(text@, pattern@, i as int),
        decreases text.len() - i,
    {
        if matches_at(text, pattern, i) {
            return i;
        }
        i += 1;
    }
    text.len()
}

/// The part of a text before the first occurrence of a pattern; the whole
/// text where the pattern does not occur.
pub fn text_before(text: &str, pattern: &str) -> (r: String)
    ensures
        r@ == before_first(text@, pattern@),
{
    let chars = chars_of(text);
    let at = find_text(&chars, &chars_of(pattern));
    string_of(&chars, 0, at)
}

/// The part of a text after the first occurrence of a pattern; `None`
/// where the pattern does not occur.
pub fn text_after(text: &str, pattern: &str) -> (r: Option<String>)
    ensures
        crate::models::text_of(r) == after_first(text@, pattern@),
{
    let chars = chars_of(text);
    let sought = chars_of(pattern);
    let at = find_text(&chars, &sought);
    if at < chars.len() {
        Some(string_of(&chars, at + sought.len(), chars.len()))
    } else {
        None
    }
}

/// Whether two strings hold the same characters.
pub fn same_text(a: &str, b: &str) -> (r: bool)
    ensures
        r == (a@ == b@),
{
    let x = a.to_owned();
    let y = b.to_owned();
    x == y
}

} // verus!
