use vstd::prelude::*;

verus! {

/// What `char::to_uppercase` yields for one character.
pub uninterp spec fn uppercase_of(c: char) -> Seq<char>;

/// The normalized form of a name: its first character upper-cased, the rest
/// as it stands.
pub open spec fn upper_spec(text: Seq<char>) -> Seq<char> {
    if text.len() == 0 {
        Seq::empty()
    } else {
        uppercase_of(text[0]) + text.subrange(1, text.len() as int)
    }
}

/// Relies on `char::to_uppercase`: the upper-case mapping of one character,
/// which depends on that character alone.
#[verifier::external_body]
fn char_to_uppercase(c: char) -> (r: String)
    ensures
        r@ == uppercase_of(c),
{
    c.to_uppercase().collect::<String>()
}

/// Upper-cases the first character of `text` and keeps the rest.
pub fn upper(text: &str) -> (r: String)
    ensures
        r@ == upper_spec(text@),
{
    let len = text.unicode_len();
    if len == 0 {
        String::new()
    } else {
        let first = text.get_char(0);
        let rest = text.substring_char(1, len);
        let mut out = char_to_uppercase(first);
        out.append(rest);
        out
    }
}

} // verus!

verus! {

/// A copy of an optional text, field for field.
pub fn copy_text(text: &Option<String>) -> (r: Option<String>)
    ensures
        r == *text,
{
    match text {
        Some(s) => Some(s.clone()),
        None => None,
    }
}

} // verus!
