//! JSON, as the `serde_json` crate reads and writes it.
use vstd::prelude::*;

use crate::text::hex_digit;

verus! {

/// A character as it stands in a JSON string.
pub open spec fn json_char(c: char) -> Seq<char> {
    if c == '"' {
        seq!['\\', '"']
    } else if c == '\\' {
        seq!['\\', '\\']
    } else if c == '\u{8}' {
        seq!['\\', 'b']
    } else if c == '\u{9}' {
        seq!['\\', 't']
    } else if c == '\u{a}' {
        seq!['\\', 'n']
    } else if c == '\u{c}' {
        seq!['\\', 'f']
    } else if c == '\u{d}' {
        seq!['\\', 'r']
    } else if ' ' > c {
        seq!['\\', 'u', '0', '0', hex_digit(c as int / 16), hex_digit(c as int % 16)]
    } else {
        seq![c]
    }
}

/// Characters as they stand in a JSON string.
pub open spec fn json_chars(s: Seq<char>) -> Seq<char>
    decreases s.len(),
{
    if s.len() == 0 {
        Seq::empty()
    } else {
        json_chars(s.drop_last()) + json_char(s.last())
    }
}

/// A string in JSON.
pub open spec fn json_string(s: Seq<char>) -> Seq<char> {
    seq!['"'] + json_chars(s) + seq!['"']
}

/// Write a string in JSON (`Display` of `serde_json::Value::String`): quotes,
/// backslashes and control characters are escaped, everything else stays.
#[verifier::external_body]
pub(crate) fn quote_json(s: &str) -> (r: String)
    ensures
        r@ == json_string(s@),
{
    serde_json::Value::String(s.to_owned()).to_string()
}

/// What a JSON text holds under a key, if it is an object that has a string
/// there; or what is wrong with the text.
pub uninterp spec fn json_text_field(text: Seq<char>, key: Seq<char>) -> Result<
    Option<Seq<char>>,
    Seq<char>,
>;

/// A result as text.
pub open spec fn field_text(r: Result<Option<String>, String>) -> Result<
    Option<Seq<char>>,
    Seq<char>,
> {
    match r {
        Ok(Some(s)) => Ok(Some(s@)),
        Ok(None) => Ok(None),
        Err(e) => Err(e@),
    }
}

/// Read a JSON text (`serde_json::from_str` to a `Value`) and take the string
/// under a key out of it (`Value::get`, `Value::as_str`).  Claimed of the
/// result: it is a function of the text and the key.
#[verifier::external_body]
pub(crate) fn json_field(text: &str, key: &str) -> (r: Result<Option<String>, String>)
    ensures
        field_text(r) == json_text_field(text@, key@),
{
    match serde_json::from_str::<serde_json::Value>(text) {
        Ok(value) => Ok(value.get(key).and_then(|v| v.as_str()).map(|s| s.to_owned())),
        Err(e) => Err(e.to_string()),
    }
}

/// What a string looks like in JSON is printed on one line and cannot end the
/// string early: it holds no control characters, and a quote only behind a
/// backslash.
pub proof fn law_json_string_is_closed(s: Seq<char>)
    ensures
        forall|i: int| 0 <= i < json_chars(s).len() ==> #[trigger] json_chars(s)[i] >= ' ',
        forall|i: int|
            0 <= i < json_chars(s).len() && #[trigger] json_chars(s)[i] == '"' ==> i > 0
                && json_chars(s)[i - 1] == '\\',
    decreases s.len(),
{
    if s.len() > 0 {
        let init = json_chars(s.drop_last());
        law_json_string_is_closed(s.drop_last());
        let all = json_chars(s);
        let last = json_char(s.last());
        assert forall|i: int| 0 <= i < all.len() implies #[trigger] all[i] >= ' ' by {
            if i < init.len() {
                assert(all[i] == init[i]);
            } else {
                assert(all[i] == last[i - init.len()]);
            }
        }
        assert forall|i: int| 0 <= i < all.len() && #[trigger] all[i] == '"' implies i > 0 && all[i
            - 1] == '\\' by {
            if i < init.len() {
                assert(all[i] == init[i]);
                assert(all[i - 1] == init[i - 1]);
            } else {
                assert(all[i] == last[i - init.len()]);
                if i > init.len() {
                    assert(all[i - 1] == last[i - 1 - init.len()]);
                }
            }
        }
    }
}

} // verus!
