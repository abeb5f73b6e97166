//! Greets whoever greets.
use vstd::prelude::*;

use crate::bot::host::{queued, same_thing, Bot, Host, HostModel};
use crate::bot::types::{ActionModel, Event};
use crate::ext::{alphanumeric, lowercase, to_lowercase, whitespace};
use crate::text::{chars_of, str_eq, string_of_range, trim_front};

verus! {

pub struct Greeter {}

/// How long the word at the front of `s` is.
pub open spec fn word_len(s: Seq<char>) -> nat
    decreases s.len(),
{
    if s.len() == 0 || whitespace(s[0]) {
        0
    } else {
        1 + word_len(s.skip(1))
    }
}

/// A word without what is neither letter nor number at its front.
pub open spec fn bare_front(s: Seq<char>) -> Seq<char>
    decreases s.len(),
{
    if s.len() > 0 && !alphanumeric(s[0]) {
        bare_front(s.skip(1))
    } else {
        s
    }
}

/// A word without what is neither letter nor number at its back.
pub open spec fn bare_back(s: Seq<char>) -> Seq<char>
    decreases s.len(),
{
    if s.len() > 0 && !alphanumeric(s.last()) {
        bare_back(s.drop_last())
    } else {
        s
    }
}

/// A bare word in lower case is a greeting.
pub open spec fn greeting_word(w: Seq<char>) -> bool {
    w == "hello"@ || w == "hi"@ || w == "hey"@
}

/// A word is a greeting, whatever its case and the punctuation around it.
pub open spec fn is_greeting(word: Seq<char>) -> bool {
    greeting_word(lowercase(bare_back(bare_front(word))))
}

/// Some word is a greeting.
pub open spec fn has_greeting(s: Seq<char>) -> bool
    decreases s.len(),
    via has_greeting_decreases
{
    let rest = trim_front(s);
    if rest.len() == 0 {
        false
    } else {
        is_greeting(rest.take(word_len(rest) as int)) || has_greeting(
            rest.skip(word_len(rest) as int),
        )
    }
}

#[via_fn]
proof fn has_greeting_decreases(s: Seq<char>) {
    lemma_trim_front(s);
    lemma_word_len(trim_front(s));
}

proof fn lemma_trim_front(s: Seq<char>)
    ensures
        trim_front(s).len() <= s.len(),
        trim_front(s).len() > 0 ==> !whitespace(trim_front(s)[0]),
    decreases s.len(),
{
    if s.len() > 0 && whitespace(s[0]) {
        lemma_trim_front(s.skip(1));
    }
}

proof fn lemma_word_len(s: Seq<char>)
    ensures
        word_len(s) <= s.len(),
        s.len() > 0 && !whitespace(s[0]) ==> word_len(s) > 0,
    decreases s.len(),
{
    if s.len() > 0 && !whitespace(s[0]) {
        lemma_word_len(s.skip(1));
    }
}

/// Whether a word is a greeting.
fn word_greets(s: &[char], from: usize, to: usize) -> (r: bool)
    requires
        from <= to <= s@.len(),
    ensures
        r == is_greeting(s@.subrange(from as int, to as int)),
{
    let ghost word = s@.subrange(from as int, to as int);
    let mut i: usize = from;
    while i < to && !s[i].is_alphanumeric()
        invariant
            from <= i <= to <= s@.len(),
            bare_front(s@.subrange(i as int, to as int)) == bare_front(word),
        decreases to - i,
    {
        assert(s@.subrange(i as int, to as int).skip(1) =~= s@.subrange(i + 1, to as int));
        i = i + 1;
    }
    let mut j: usize = to;
    while j > i && !s[j - 1].is_alphanumeric()
        invariant
            i <= j <= to <= s@.len(),
            bare_back(s@.subrange(i as int, j as int)) == bare_back(bare_front(word)),
        decreases j,
    {
        assert(s@.subrange(i as int, j as int).drop_last() =~= s@.subrange(i as int, j - 1));
        j = j - 1;
    }
    let bare = string_of_range(s, i, j);
    let low = to_lowercase(bare.as_str());
    lowered_word_greets(low.as_str())
}

/// Whether a bare word, in lower case, is a greeting.
pub fn lowered_word_greets(word: &str) -> (r: bool)
    ensures
        r == greeting_word(word@),
{
    str_eq(word, "hello") || str_eq(word, "hi") || str_eq(word, "hey")
}

/// Whether some word is a greeting.
pub fn greets(s: &str) -> (r: bool)
    ensures
        r == has_greeting(s@),
{
    let chars = chars_of(s);
    let mut i: usize = 0;
    assert(chars@.skip(0) =~= chars@);
    loop
        invariant
            chars@ == s@,
            i <= chars@.len(),
            has_greeting(chars@.skip(i as int)) == has_greeting(s@),
        decreases chars@.len() - i,
    {
        let ghost all = chars@.skip(i as int);
        let ghost at = i as int;
        while i < chars.len() && chars[i].is_whitespace()
            invariant
                at <= i <= chars@.len(),
                all == chars@.skip(at),
                trim_front(chars@.skip(i as int)) == trim_front(all),
            decreases chars@.len() - i,
        {
            assert(chars@.skip(i as int).skip(1) =~= chars@.skip(i + 1));
            i = i + 1;
        }
        let ghost rest = chars@.skip(i as int);
        assert(trim_front(all) == rest);
        if i >= chars.len() {
            return false;
        }
        let start: usize = i;
        assert(rest.skip(0) =~= rest);
        while i < chars.len() && !chars[i].is_whitespace()
            invariant
                start <= i <= chars@.len(),
                rest == chars@.skip(start as int),
                word_len(rest) == (i - start) + word_len(chars@.skip(i as int)),
            decreases chars@.len() - i,
        {
            assert(chars@.skip(i as int).skip(1) =~= chars@.skip(i + 1));
            i = i + 1;
        }
        proof {
            lemma_word_len(rest);
            assert(word_len(rest) == i - start);
            assert(rest.take(i - start) =~= chars@.subrange(start as int, i as int));
            assert(rest.skip(i - start) =~= chars@.skip(i as int));
        }
        if word_greets(chars.as_slice(), start, i) {
            return true;
        }
    }
}

impl Bot for Greeter {
    open spec fn wf(&self) -> bool {
        true
    }

    open spec fn responds(
        &self,
        event: Event,
        before: HostModel,
        after: HostModel,
        r: Result<(), String>,
    ) -> bool {
        &&& r is Ok
        &&& after == (HostModel {
            queue: match event {
                Event::MessageCreate { message_id, channel, author, author_name, content } =>
                    if !same_thing(before.user, author, before.names) && has_greeting(
                        content@,
                    ) {
                        queued(
                            before.queue,
                            ActionModel::SendMessage {
                                channel,
                                content: "Hey there, "@ + author_name@ + "!"@,
                            },
                        )
                    } else {
                        before.queue
                    },
                _ => before.queue,
            },
            ..before
        })
    }

    fn handle_event(&self, event: &Event, host: &mut Host) -> (r: Result<(), String>) {
        if let Event::MessageCreate { channel, author, author_name, content, .. } = event {
            if host.eq(host.bot_user(), *author) {
                return Ok(());
            }
            if greets(content.as_str()) {
                let mut text = "Hey there, ".to_string();
                text.append(author_name.as_str());
                text.append("!");
                host.send_message(*channel, text.as_str());
            }
        }
        Ok(())
    }
}

} // verus!
