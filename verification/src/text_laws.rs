//! What the words and numbers of the protocols are, character by character.
use vstd::prelude::*;

use crate::bytes::{
    ascii_lower, bytes_eq, eq_ignore_ascii_case, eq_no_case, find_byte, lemma_find, trim_end,
    trim_start, trimmed,
};
use crate::ext::whitespace;
use crate::text::{
    all_hex, decimal, decimal_string, digits_value, hex_digits_value, hex_value, is_digit,
    parse_hex, parse_number, str_eq, trim, trim_back, trim_front,
};

verus! {

/// A number in decimal: a number below ten is its digit, and a larger one is a
/// tenth of it followed by its last digit.
pub proof fn law_decimal_digits(n: u64, r: String)
    requires
        call_ensures(decimal_string, (n,), r),
    ensures
        r@ == decimal(n as nat),
        n < 10 ==> r@.len() == 1 && r@[0] as u32 == '0' as u32 + n,
        n >= 10 ==> r@.len() > 1 && r@.drop_last() == decimal((n / 10) as nat) && r@.last() as u32
            == '0' as u32 + n % 10,
{
    if n >= 10 {
        assert(r@.drop_last() =~= decimal((n / 10) as nat));
        assert(decimal((n / 10) as nat).len() > 0);
    }
}

/// A number is read digit by digit: another digit makes it ten times as large
/// and adds to it.  What holds anything but digits is no number, nor is nothing.
pub proof fn law_numbers_are_read(s: Seq<char>, max: nat, n: nat, d: nat, c: char)
    requires
        s.len() > 0,
        s[0] != '+',
    ensures
        d < 10 && c as u32 == '0' as u32 + d && parse_number(s, max) == Some(n) && n * 10 + d <= max
            ==> parse_number(s.push(c), max) == Some(n * 10 + d),
        d < 10 && c as u32 == '0' as u32 + d && d <= max ==> parse_number(seq![c], max) == Some(d),
        !('0' <= c <= '9') ==> parse_number(s.push(c), max) is None,
        parse_number(Seq::<char>::empty(), max) is None,
        parse_number(s, max) matches Some(v) ==> v <= max,
{
    let t = s.push(c);
    assert(t.drop_last() =~= s);
    let one = seq![c];
    assert(one.drop_last() =~= Seq::<char>::empty());
    assert(digits_value(one.drop_last()) == 0);
    if !('0' <= c <= '9') {
        assert(t[s.len() as int] == c);
        assert(!is_digit(t[s.len() as int]));
    }
    if parse_number(s, max) == Some(n) && '0' <= c <= '9' {
        assert forall|i: int| 0 <= i < t.len() implies is_digit(#[trigger] t[i]) by {
            if i < s.len() {
                assert(is_digit(s[i]));
            }
        }
    }
}

/// Whitespace around a word is dropped, and nothing else.
pub proof fn law_trim(front: Seq<char>, word: Seq<char>, back: Seq<char>)
    requires
        forall|i: int| 0 <= i < front.len() ==> whitespace(#[trigger] front[i]),
        forall|i: int| 0 <= i < back.len() ==> whitespace(#[trigger] back[i]),
        word.len() > 0,
        !whitespace(word[0]),
        !whitespace(word.last()),
    ensures
        trim(front + word + back) == word,
{
    lemma_trim_front(front, word + back);
    assert(front + (word + back) =~= front + word + back);
    lemma_trim_back(word, back);
}

proof fn lemma_trim_front(front: Seq<char>, rest: Seq<char>)
    requires
        forall|i: int| 0 <= i < front.len() ==> whitespace(#[trigger] front[i]),
        rest.len() > 0,
        !whitespace(rest[0]),
    ensures
        trim_front(front + rest) == rest,
    decreases front.len(),
{
    if front.len() == 0 {
        assert(front + rest =~= rest);
    } else {
        assert((front + rest)[0] == front[0]);
        assert((front + rest).skip(1) =~= front.skip(1) + rest);
        assert forall|i: int| 0 <= i < front.skip(1).len() implies whitespace(
            #[trigger] front.skip(1)[i],
        ) by {
            assert(front.skip(1)[i] == front[i + 1]);
        }
        lemma_trim_front(front.skip(1), rest);
    }
}

proof fn lemma_trim_back(word: Seq<char>, back: Seq<char>)
    requires
        forall|i: int| 0 <= i < back.len() ==> whitespace(#[trigger] back[i]),
        word.len() > 0,
        !whitespace(word.last()),
    ensures
        trim_back(word + back) == word,
    decreases back.len(),
{
    if back.len() == 0 {
        assert(word + back =~= word);
    } else {
        assert((word + back).last() == back[back.len() - 1]);
        assert((word + back).drop_last() =~= word + back.drop_last());
        assert forall|i: int| 0 <= i < back.drop_last().len() implies whitespace(
            #[trigger] back.drop_last()[i],
        ) by {
            assert(back.drop_last()[i] == back[i]);
        }
        lemma_trim_back(word, back.drop_last());
    }
}

/// The characters of ASCII that are whitespace: tab, line feed, vertical tab,
/// form feed, carriage return and space.
pub proof fn law_whitespace(c: char)
    requires
        c <= '\u{7f}',
    ensures
        whitespace(c) <==> c == ' ' || c == '\t' || c == '\n' || c == '\r' || c == '\u{b}' || c
            == '\u{c}',
{
}

/// Bytes are compared without regard to the case of ASCII letters, and of
/// nothing else.
pub proof fn law_case_does_not_count(a: &[u8], b: &[u8], r: bool)
    requires
        call_ensures(eq_ignore_ascii_case, (a, b), r),
    ensures
        r <==> a@.len() == b@.len() && forall|i: int|
            0 <= i < a@.len() ==> {
                ||| #[trigger] a@[i] == b@[i]
                ||| 65 <= a@[i] <= 90 && b@[i] == a@[i] + 32
                ||| 65 <= b@[i] <= 90 && a@[i] == b@[i] + 32
            },
        r == eq_no_case(a@, b@),
{
    if a@.len() == b@.len() && forall|i: int|
        0 <= i < a@.len() ==> {
            ||| #[trigger] a@[i] == b@[i]
            ||| 65 <= a@[i] <= 90 && b@[i] == a@[i] + 32
            ||| 65 <= b@[i] <= 90 && a@[i] == b@[i] + 32
        } {
        assert(eq_no_case(a@, b@));
    }
    if eq_no_case(a@, b@) {
        assert forall|i: int| 0 <= i < a@.len() implies {
            ||| #[trigger] a@[i] == b@[i]
            ||| 65 <= a@[i] <= 90 && b@[i] == a@[i] + 32
            ||| 65 <= b@[i] <= 90 && a@[i] == b@[i] + 32
        } by {
            assert(ascii_lower(a@[i]) == ascii_lower(b@[i]));
        }
    }
}

/// Spaces, tabs and line ends around a value are dropped, and nothing else.
pub proof fn law_trimmed(front: Seq<u8>, value: Seq<u8>, back: Seq<u8>)
    requires
        forall|i: int|
            0 <= i < front.len() ==> #[trigger] front[i] == 32 || front[i] == 9 || front[i] == 10
                || front[i] == 12 || front[i] == 13,
        forall|i: int|
            0 <= i < back.len() ==> #[trigger] back[i] == 32 || back[i] == 9 || back[i] == 10
                || back[i] == 12 || back[i] == 13,
        value.len() > 0,
        value[0] > 32,
        value.last() > 32,
    ensures
        trimmed(front + value + back) == value,
{
    lemma_trim_start(front, value + back);
    assert(front + (value + back) =~= front + value + back);
    lemma_trim_end(value, back);
}

proof fn lemma_trim_start(front: Seq<u8>, rest: Seq<u8>)
    requires
        forall|i: int|
            0 <= i < front.len() ==> #[trigger] front[i] == 32 || front[i] == 9 || front[i] == 10
                || front[i] == 12 || front[i] == 13,
        rest.len() > 0,
        rest[0] > 32,
    ensures
        trim_start(front + rest) == rest,
    decreases front.len(),
{
    if front.len() == 0 {
        assert(front + rest =~= rest);
    } else {
        assert((front + rest)[0] == front[0]);
        assert((front + rest).skip(1) =~= front.skip(1) + rest);
        assert forall|i: int| 0 <= i < front.skip(1).len() implies {
            let b = #[trigger] front.skip(1)[i];
            b == 32 || b == 9 || b == 10 || b == 12 || b == 13
        } by {
            assert(front.skip(1)[i] == front[i + 1]);
        }
        lemma_trim_start(front.skip(1), rest);
    }
}

proof fn lemma_trim_end(value: Seq<u8>, back: Seq<u8>)
    requires
        forall|i: int|
            0 <= i < back.len() ==> #[trigger] back[i] == 32 || back[i] == 9 || back[i] == 10
                || back[i] == 12 || back[i] == 13,
        value.len() > 0,
        value.last() > 32,
    ensures
        trim_end(value + back) == value,
    decreases back.len(),
{
    if back.len() == 0 {
        assert(value + back =~= value);
    } else {
        assert((value + back).last() == back[back.len() - 1]);
        assert((value + back).drop_last() =~= value + back.drop_last());
        assert forall|i: int| 0 <= i < back.drop_last().len() implies {
            let b = #[trigger] back.drop_last()[i];
            b == 32 || b == 9 || b == 10 || b == 12 || b == 13
        } by {
            assert(back.drop_last()[i] == back[i]);
        }
        lemma_trim_end(value, back.drop_last());
    }
}

/// The first occurrence of a byte: it is there, and nowhere before.
pub proof fn law_first_byte(s: &[u8], b: u8, from: usize, i: usize)
    requires
        call_ensures(find_byte, (s, b, from), i),
        from <= s@.len(),
    ensures
        from <= i <= s@.len(),
        i < s@.len() ==> s@[i as int] == b,
        forall|k: int| from <= k < i ==> s@[k] != b,
{
    let rest = s@.skip(from as int);
    lemma_find(rest, b);
    assert(forall|k: int| 0 <= k < rest.len() ==> rest[k] == s@[from + k]);
    assert forall|k: int| from <= k < i implies s@[k] != b by {
        assert(rest[k - from] == s@[k]);
    }
}

/// Strings and byte strings are equal if they hold the same, and only then.
pub proof fn law_equality(a: &str, b: &str, r: bool, x: &[u8], y: &[u8], q: bool)
    requires
        call_ensures(str_eq, (a, b), r),
        call_ensures(bytes_eq, (x, y), q),
    ensures
        r <==> a@.len() == b@.len() && forall|i: int| 0 <= i < a@.len() ==> a@[i] == b@[i],
        q <==> x@.len() == y@.len() && forall|i: int| 0 <= i < x@.len() ==> x@[i] == y@[i],
{
    if a@.len() == b@.len() && forall|i: int| 0 <= i < a@.len() ==> a@[i] == b@[i] {
        assert(a@ =~= b@);
    }
    if x@.len() == y@.len() && forall|i: int| 0 <= i < x@.len() ==> x@[i] == y@[i] {
        assert(x@ =~= y@);
    }
}

/// Hexadecimal digits, in either case: another digit makes the number sixteen
/// times as large and adds to it.
pub proof fn law_hexadecimal_is_read(s: Seq<char>, max: nat, n: nat, d: nat, c: char)
    requires
        s.len() > 0,
        s[0] != '+',
        d < 16,
        d < 10 ==> c as u32 == '0' as u32 + d,
        d >= 10 ==> c as u32 == 'a' as u32 + d - 10 || c as u32 == 'A' as u32 + d - 10,
    ensures
        d <= max ==> parse_hex(seq![c], max) == Some(d),
        parse_hex(s, max) == Some(n) && n * 16 + d <= max ==> parse_hex(s.push(c), max) == Some(
            n * 16 + d,
        ),
        parse_hex(s.push('g'), max) is None,
        parse_hex(Seq::<char>::empty(), max) is None,
{
    let one = seq![c];
    assert(one.drop_last() =~= Seq::<char>::empty());
    assert(hex_digits_value(one.drop_last()) == 0);
    assert(hex_value(c) == d);
    assert(all_hex(one));
    let t = s.push(c);
    assert(t.drop_last() =~= s);
    if parse_hex(s, max) == Some(n) {
        assert forall|i: int| 0 <= i < t.len() implies hex_value(#[trigger] t[i]) < 16 by {
            if i < s.len() {
                assert(hex_value(s[i]) < 16);
            }
        }
    }
    let u = s.push('g');
    assert(u[s.len() as int] == 'g');
    assert(hex_value('g') == 16);
}

} // verus!
