//! Tests on text that the rules of the store need.

use vstd::prelude::*;
use vstd::std_specs::iter::IteratorSpec;

verus! {

/// Whether `c` is white space: one of the characters that Unicode gives the
/// property White_Space.
pub open spec fn is_white_space(c: char) -> bool {
    let n = c as u32;
    ||| 0x09 <= n <= 0x0d
    ||| n == 0x20
    ||| n == 0x85
    ||| n == 0xa0
    ||| n == 0x1680
    ||| 0x2000 <= n <= 0x200a
    ||| n == 0x2028
    ||| n == 0x2029
    ||| n == 0x202f
    ||| n == 0x205f
    ||| n == 0x3000
}

/// `text` without the white space at its start.
pub open spec fn trimmed_start(text: Seq<char>) -> Seq<char>
    decreases text.len(),
{
    if text.len() > 0 && is_white_space(text[0]) {
        trimmed_start(text.drop_first())
    } else {
        text
    }
}

/// `text` without the white space at its end.
pub open spec fn trimmed_end(text: Seq<char>) -> Seq<char>
    decreases text.len(),
{
    if text.len() > 0 && is_white_space(text.last()) {
        trimmed_end(text.drop_last())
    } else {
        text
    }
}

/// `text` without the white space at its two ends.
pub open spec fn trimmed_text(text: Seq<char>) -> Seq<char> {
    trimmed_end(trimmed_start(text))
}

/// Whether `text` holds nothing but white space.
pub open spec fn blank(text: Seq<char>) -> bool {
    trimmed_text(text).len() == 0
}

/// Whether `name` holds a path separator of either kind.
pub open spec fn has_separator(name: Seq<char>) -> bool {
    name.contains('/') || name.contains('\\')
}

/// Cutting white space off the start leaves nothing exactly if all is white
/// space, and else leaves a text that starts with another character.
pub proof fn lemma_trimmed_start(text: Seq<char>)
    ensures
        trimmed_start(text).len() == 0 <==> forall|i: int|
            0 <= i < text.len() ==> is_white_space(#[trigger] text[i]),
        trimmed_start(text).len() > 0 ==> !is_white_space(trimmed_start(text)[0]),
    decreases text.len(),
{
    if text.len() > 0 && is_white_space(text[0]) {
        let rest = text.drop_first();
        lemma_trimmed_start(rest);
        if trimmed_start(rest).len() == 0 {
            assert forall|i: int| 0 <= i < text.len() implies is_white_space(
                #[trigger] text[i],
            ) by {
                if i > 0 {
                    assert(text[i] == rest[i - 1]);
                }
            }
        } else {
            if forall|i: int| 0 <= i < text.len() ==> is_white_space(#[trigger] text[i]) {
                assert forall|i: int| 0 <= i < rest.len() implies is_white_space(
                    #[trigger] rest[i],
                ) by {
                    assert(rest[i] == text[i + 1]);
                }
            }
        }
    }
}

/// Cutting white space off the end of a text that starts with another
/// character leaves that character.
pub proof fn lemma_trimmed_end(text: Seq<char>)
    requires
        text.len() > 0,
        !is_white_space(text[0]),
    ensures
        trimmed_end(text).len() > 0,
    decreases text.len(),
{
    if is_white_space(text.last()) {
        assert(text.len() > 1);
        assert(text.drop_last()[0] == text[0]);
        lemma_trimmed_end(text.drop_last());
    }
}

/// `str::trim`: the text without leading and trailing white space, where
/// white space is what Unicode gives the property White_Space.
#[verifier::external_body]
fn trimmed(text: &str) -> (t: &str)
    ensures
        t@ == trimmed_text(text@),
{
    text.trim()
}

/// Whether the character `c` occurs in `text`.
fn contains_char(text: &str, c: char) -> (found: bool)
    ensures
        found == text@.contains(c),
{
    let mut chars = text.chars();
    loop
        invariant
            chars.obeys_prophetic_iter_laws(),
            chars.decrease() is Some,
            chars.remaining().len() <= text@.len(),
            chars.remaining() == text@.subrange(
                text@.len() - chars.remaining().len(),
                text@.len() as int,
            ),
            forall|k: int| 0 <= k < text@.len() - chars.remaining().len() ==> text@[k] != c,
        decreases chars.decrease()->0,
    {
        let ghost before = chars.remaining();
        match chars.next() {
            Some(x) => {
                assert(before[0] == text@[text@.len() - before.len()]);
                if x == c {
                    return true;
                }
                assert(chars.remaining() =~= text@.subrange(
                    text@.len() - chars.remaining().len(),
                    text@.len() as int,
                ));
            },
            None => {
                return false;
            },
        }
    }
}

/// Whether `text` holds nothing but white space.
pub fn is_blank(text: &str) -> (b: bool)
    ensures
        b == blank(text@),
{
    trimmed(text).is_empty()
}

/// Whether `name` holds `/` or `\`.
pub fn name_has_separator(name: &str) -> (found: bool)
    ensures
        found == has_separator(name@),
{
    contains_char(name, '/') || contains_char(name, '\\')
}

} // verus!
