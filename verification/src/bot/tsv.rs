//! Escaping for tab-separated files.
use vstd::prelude::*;

use crate::text::{chars_of, decimal, is_digit, law_decimal_round_trip};

verus! {

/// A character as it stands in a field.
pub open spec fn tsv_char(c: char) -> Seq<char> {
    if c == '\\' {
        seq!['\\', '\\']
    } else if c == '\t' {
        seq!['\\', 't']
    } else if c == '\n' {
        seq!['\\', 'n']
    } else if c == '\r' {
        seq!['\\', 'r']
    } else {
        seq![c]
    }
}

/// Text as it stands in a field.
pub open spec fn tsv_escaped(s: Seq<char>) -> Seq<char>
    decreases s.len(),
{
    if s.len() == 0 {
        Seq::empty()
    } else {
        tsv_escaped(s.drop_last()) + tsv_char(s.last())
    }
}

/// What the character behind a backslash stands for.  An escape that is not
/// known stands for itself, backslash included.
pub open spec fn tsv_unescape_char(c: char) -> Seq<char> {
    if c == '\\' {
        seq!['\\']
    } else if c == 't' {
        seq!['\t']
    } else if c == 'n' {
        seq!['\n']
    } else if c == 'r' {
        seq!['\r']
    } else {
        seq!['\\', c]
    }
}

/// The text that a field stands for.
pub open spec fn tsv_unescaped(s: Seq<char>) -> Seq<char>
    decreases s.len(),
{
    if s.len() == 0 {
        Seq::empty()
    } else if s[0] == '\\' && s.len() >= 2 {
        tsv_unescape_char(s[1]) + tsv_unescaped(s.skip(2))
    } else {
        seq![s[0]] + tsv_unescaped(s.skip(1))
    }
}

/// Escape a string for TSV: backslash, tab, newline, carriage return.
pub fn escape_tsv(s: &str) -> (r: String)
    ensures
        r@ == tsv_escaped(s@),
{
    let chars = chars_of(s);
    let mut out = String::new();
    let mut i: usize = 0;
    while i < chars.len()
        invariant
            chars@ == s@,
            i <= chars@.len(),
            out@ == tsv_escaped(chars@.take(i as int)),
        decreases chars@.len() - i,
    {
        let c: char = chars[i];
        let ghost before = out@;
        if c == '\\' {
            out.push('\\');
            out.push('\\');
        } else if c == '\t' {
            out.push('\\');
            out.push('t');
        } else if c == '\n' {
            out.push('\\');
            out.push('n');
        } else if c == '\r' {
            out.push('\\');
            out.push('r');
        } else {
            out.push(c);
        }
        i = i + 1;
        proof {
            let done = chars@.take(i as int);
            assert(done.drop_last() =~= chars@.take(i - 1));
            assert(out@ =~= before + tsv_char(c));
        }
    }
    assert(chars@.take(i as int) =~= chars@);
    out
}

/// Inverse of [`escape_tsv`].
///
/// Unknown escape sequences (e.g. `\x`) are passed through unchanged as
/// backslash and character, and a lone trailing backslash is preserved.
/// Escaping never produces those, so round trips are lossless.
pub fn unescape_tsv(s: &str) -> (r: String)
    ensures
        r@ == tsv_unescaped(s@),
{
    let chars = chars_of(s);
    let mut out = String::new();
    let mut i: usize = 0;
    assert(chars@.skip(0) =~= chars@);
    assert(out@ + tsv_unescaped(chars@) =~= tsv_unescaped(s@));
    while i < chars.len()
        invariant
            chars@ == s@,
            i <= chars@.len(),
            out@ + tsv_unescaped(chars@.skip(i as int)) == tsv_unescaped(s@),
        decreases chars@.len() - i,
    {
        let c: char = chars[i];
        let ghost before = out@;
        let ghost rest = chars@.skip(i as int);
        if c == '\\' && i + 1 < chars.len() {
            let next: char = chars[i + 1];
            if next == '\\' {
                out.push('\\');
            } else if next == 't' {
                out.push('\t');
            } else if next == 'n' {
                out.push('\n');
            } else if next == 'r' {
                out.push('\r');
            } else {
                out.push('\\');
                out.push(next);
            }
            i = i + 2;
            proof {
                assert(rest.skip(2) =~= chars@.skip(i as int));
                assert(out@ =~= before + tsv_unescape_char(next));
                assert(before + tsv_unescaped(rest) =~= out@ + tsv_unescaped(chars@.skip(i as int)));
            }
        } else {
            out.push(c);
            i = i + 1;
            proof {
                assert(rest.skip(1) =~= chars@.skip(i as int));
                assert(before + tsv_unescaped(rest) =~= out@ + tsv_unescaped(chars@.skip(i as int)));
            }
        }
    }
    assert(out@ + tsv_unescaped(chars@.skip(i as int)) =~= out@);
    out
}

proof fn lemma_escaped_front(s: Seq<char>)
    requires
        s.len() > 0,
    ensures
        tsv_escaped(s) == tsv_char(s[0]) + tsv_escaped(s.skip(1)),
    decreases s.len(),
{
    if s.len() == 1 {
        assert(s.drop_last() =~= Seq::<char>::empty());
        assert(s.skip(1) =~= Seq::<char>::empty());
        assert(tsv_escaped(s.drop_last()) =~= Seq::<char>::empty());
        assert(tsv_escaped(s) =~= tsv_char(s[0]));
        assert(tsv_char(s[0]) + tsv_escaped(s.skip(1)) =~= tsv_char(s[0]));
    } else {
        lemma_escaped_front(s.drop_last());
        assert(s.drop_last().skip(1) =~= s.skip(1).drop_last());
        assert(tsv_escaped(s) =~= tsv_char(s[0]) + tsv_escaped(s.skip(1)));
    }
}

/// Escaping loses nothing.
pub proof fn law_tsv_round_trip(s: Seq<char>)
    ensures
        tsv_unescaped(tsv_escaped(s)) == s,
    decreases s.len(),
{
    if s.len() > 0 {
        lemma_escaped_front(s);
        law_tsv_round_trip(s.skip(1));
        let first = tsv_char(s[0]);
        let all = tsv_escaped(s);
        assert(all.skip(first.len() as int) =~= tsv_escaped(s.skip(1)));
        assert(all[0] == first[0]);
        if first.len() == 2 {
            assert(all[1] == first[1]);
        }
        assert(tsv_unescaped(all) =~= s);
    }
}

/// An escaped field holds no tab, newline or carriage return, so that it
/// neither ends early nor breaks the line.
pub proof fn law_tsv_field_is_closed(s: Seq<char>)
    ensures
        forall|i: int|
            0 <= i < tsv_escaped(s).len() ==> {
                let c = #[trigger] tsv_escaped(s)[i];
                c != '\t' && c != '\n' && c != '\r'
            },
    decreases s.len(),
{
    if s.len() > 0 {
        law_tsv_field_is_closed(s.drop_last());
        let init = tsv_escaped(s.drop_last());
        let last = tsv_char(s.last());
        let all = tsv_escaped(s);
        assert forall|i: int| 0 <= i < all.len() implies {
            let c = #[trigger] all[i];
            c != '\t' && c != '\n' && c != '\r'
        } by {
            if i < init.len() {
                assert(all[i] == init[i]);
            } else {
                assert(all[i] == last[i - init.len()]);
            }
        }
    }
}

/// Holds no newline.
pub open spec fn no_newline(s: Seq<char>) -> bool {
    forall|i: int| 0 <= i < s.len() ==> #[trigger] s[i] != '\n'
}

pub proof fn lemma_no_newline_join(a: Seq<char>, b: Seq<char>)
    requires
        no_newline(a),
        no_newline(b),
    ensures
        no_newline(a + b),
{
    let s = a + b;
    assert forall|i: int| 0 <= i < s.len() implies #[trigger] s[i] != '\n' by {
        if i < a.len() {
            assert(s[i] == a[i]);
        } else {
            assert(s[i] == b[i - a.len()]);
        }
    }
}

pub proof fn lemma_name_no_newline(name: Seq<char>)
    ensures
        no_newline(tsv_escaped(name)),
{
    law_tsv_field_is_closed(name);
}

pub proof fn lemma_decimal_no_newline(n: nat)
    ensures
        no_newline(decimal(n)),
{
    law_decimal_round_trip(n, n);
    let s = decimal(n);
    assert forall|i: int| 0 <= i < s.len() implies #[trigger] s[i] != '\n' by {
        assert(is_digit(s[i]));
    }
}

} // verus!
