//! The decisions of the interactive chat session: which model a selection picks,
//! when the session ends, and what a line of input becomes.
use crate::models::{CompletionChunk, CompletionResponse, Message};
use crate::text::{chars_of, str_eq, trim, trim_str};
use vstd::prelude::*;
use vstd::string::StringExecFns;

verus! {

/// An ASCII decimal digit.
pub open spec fn is_digit(c: char) -> bool {
    '0' <= c <= '9'
}

/// Every character of `s` is an ASCII decimal digit.
pub open spec fn all_digits(s: Seq<char>) -> bool {
    forall|i: int| 0 <= i < s.len() ==> is_digit(#[trigger] s[i])
}

/// The number the decimal digits `s` write, most significant first.
pub open spec fn digits_value(s: Seq<char>) -> int
    decreases s.len(),
{
    if s.len() == 0 {
        0
    } else {
        digits_value(s.drop_last()) * 10 + (s.last() as int - '0' as int)
    }
}

/// The digits of a number text: what follows one leading `+`, if there is one.
pub open spec fn unsigned_digits(text: Seq<char>) -> Seq<char> {
    if text.len() > 0 && text[0] == '+' {
        text.drop_first()
    } else {
        text
    }
}

/// The number `str::parse::<usize>` reads from a text: an optional `+` followed
/// by one or more ASCII decimal digits whose value fits in a `usize`; anything
/// else (no digits, another character, a value too large) reads as nothing.
pub open spec fn parsed_usize(text: Seq<char>) -> Option<usize> {
    let digits = unsigned_digits(text);
    if digits.len() > 0 && all_digits(digits) && digits_value(digits) <= usize::MAX {
        Some(digits_value(digits) as usize)
    } else {
        None
    }
}

/// Digits never write a negative number.
proof fn lemma_digits_value_nonneg(s: Seq<char>)
    requires
        all_digits(s),
    ensures
        digits_value(s) >= 0,
    decreases s.len(),
{
    if s.len() > 0 {
        assert(is_digit(s[s.len() - 1]));
        lemma_digits_value_nonneg(s.drop_last());
    }
}

/// Adding digits never makes the number smaller: every prefix writes at most
/// what the whole writes.
proof fn lemma_digits_value_prefix(s: Seq<char>, k: int)
    requires
        all_digits(s),
        0 <= k <= s.len(),
    ensures
        digits_value(s.take(k)) <= digits_value(s),
    decreases s.len(),
{
    if k < s.len() {
        assert(is_digit(s[s.len() - 1]));
        lemma_digits_value_nonneg(s.drop_last());
        lemma_digits_value_prefix(s.drop_last(), k);
        assert(s.drop_last().take(k) =~= s.take(k));
    } else {
        assert(s.take(k) =~= s);
    }
}

/// Reads a number as `str::parse::<usize>` does.
pub fn parse_usize(text: &str) -> (n: Option<usize>)
    ensures
        n == parsed_usize(text@),
{
    let cs = chars_of(text);
    let ghost digits = unsigned_digits(text@);
    let start: usize = if cs.len() > 0 && cs[0] == '+' {
        1
    } else {
        0
    };
    proof {
        assert(digits =~= cs@.skip(start as int));
    }
    if start >= cs.len() {
        return None;
    }
    let mut value: usize = 0;
    let mut i: usize = start;
    while i < cs.len()
        invariant
            start <= i <= cs.len(),
            cs@ == text@,
            digits == cs@.skip(start as int),
            digits == unsigned_digits(text@),
            all_digits(digits.take(i - start)),
            value == digits_value(digits.take(i - start)),
        decreases cs.len() - i,
    {
        let c = cs[i];
        let ghost k = (i - start) as int;
        proof {
            assert(digits[k] == c);
            assert(digits.take(k + 1).drop_last() =~= digits.take(k));
            assert(digits.take(k + 1).last() == c);
        }
        if !('0' <= c && c <= '9') {
            proof {
                assert(!all_digits(digits)) by {
                    assert(!is_digit(digits[k]));
                }
            }
            return None;
        }
        let d = ((c as u32) - ('0' as u32)) as usize;
        let next = match value.checked_mul(10) {
            Some(v) => v.checked_add(d),
            None => None,
        };
        match next {
            Some(v) => {
                value = v;
                proof {
                    assert forall|j: int| 0 <= j < k + 1 implies is_digit(
                        #[trigger] digits.take(k + 1)[j],
                    ) by {
                        if j < k {
                            assert(digits.take(k + 1)[j] == digits.take(k)[j]);
                        }
                    }
                }
            },
            None => {
                proof {
                    if all_digits(digits) {
                        assert(all_digits(digits.take(k + 1))) by {
                            assert forall|j: int| 0 <= j < k + 1 implies is_digit(
                                #[trigger] digits.take(k + 1)[j],
                            ) by {
                                assert(digits.take(k + 1)[j] == digits[j]);
                            }
                        }
                        lemma_digits_value_prefix(digits, k + 1);
                    }
                }
                return None;
            },
        }
        i = i + 1;
    }
    proof {
        assert(digits.take(i - start) =~= digits);
    }
    Some(value)
}

/// The index into the model list that a selection picks: selections count from
/// one, and a selection outside `1..=count` picks nothing.
pub open spec fn selected_index(selection: Option<usize>, count: usize) -> Option<usize> {
    match selection {
        Some(n) => if 1 <= n <= count {
            Some((n - 1) as usize)
        } else {
            None
        },
        None => None,
    }
}

/// The index into the model list that a selection picks.
pub fn model_index(selection: Option<usize>, count: usize) -> (index: Option<usize>)
    ensures
        index == selected_index(selection, count),
{
    match selection {
        Some(n) => if 1 <= n && n <= count {
            Some(n - 1)
        } else {
            None
        },
        None => None,
    }
}

/// The index of the model a line of input selects: the line, without surrounding
/// whitespace, read as a number counting from one.
pub fn select_model(input: &str, count: usize) -> (index: Option<usize>)
    ensures
        index == selected_index(parsed_usize(trim(input@)), count),
{
    let trimmed = trim_str(input);
    model_index(parse_usize(trimmed.as_str()), count)
}

/// Whether a line of input ends the session: it is `q`, surrounding whitespace aside.
pub fn is_quit(input: &str) -> (quit: bool)
    ensures
        quit == (trim(input@) == "q"@),
{
    let trimmed = trim_str(input);
    str_eq(trimmed.as_str(), "q")
}

/// The message a line of input becomes: a user message with the text, surrounding
/// whitespace removed.
pub fn user_message(input: &str) -> (message: Message)
    ensures
        message matches Message::User { content } && content@ == trim(input@),
{
    Message::User { content: trim_str(input) }
}

/// The text a chunk adds to a streamed reply: its text, or nothing.
pub open spec fn chunk_text(chunk: CompletionChunk) -> Seq<char> {
    match chunk.text {
        Some(t) => t@,
        None => Seq::empty(),
    }
}

/// A chunk adds its text to a streamed reply and nothing else: a chunk without
/// text adds nothing, whatever reasoning it carries.
pub proof fn law_only_text_is_accumulated(chunk: CompletionChunk)
    ensures
        chunk.text is None ==> chunk_text(chunk) == Seq::<char>::empty(),
        chunk.text matches Some(t) ==> chunk_text(chunk) == t@,
{
}

/// Adds the text of the next chunk of a streamed reply to the reply so far.
pub fn append_chunk_text(content: &mut String, chunk: &CompletionChunk)
    ensures
        final(content)@ == old(content)@ + chunk_text(*chunk),
        chunk.text is None ==> final(content)@ == old(content)@,
        chunk.text matches Some(t) ==> final(content)@ == old(content)@ + t@,
{
    match &chunk.text {
        Some(text) => {
            content.append(text.as_str());
        },
        None => {
            proof {
                assert(old(content)@ + Seq::<char>::empty() =~= old(content)@);
            }
        },
    }
}

/// Records a completed reply in the conversation: an assistant message with
/// its text, its tool calls and its reasoning is appended.
pub fn record_reply(messages: &mut Vec<Message>, response: CompletionResponse)
    ensures
        final(messages)@ == old(messages)@.push(
            Message::Assistant {
                content: response.text,
                tool_calls: response.tool_calls,
                reasoning: response.reasoning,
            },
        ),
{
    let CompletionResponse { model: _, text, reasoning, tool_calls } = response;
    messages.push(Message::Assistant { content: text, tool_calls, reasoning });
}

/// Records a streamed reply in the conversation: an assistant message with the
/// text received, no tool calls and no reasoning is appended.
pub fn record_streamed_reply(messages: &mut Vec<Message>, content: String)
    ensures
        final(messages)@.len() == old(messages)@.len() + 1,
        final(messages)@.take(old(messages)@.len() as int) == old(messages)@,
        final(messages)@.last() matches Message::Assistant { content: Some(text), tool_calls, reasoning }
            && text == content && tool_calls@.len() == 0 && reasoning is None,
{
    messages.push(Message::Assistant { content: Some(content), tool_calls: Vec::new(), reasoning: None });
    proof {
        assert(messages@.take(old(messages)@.len() as int) =~= old(messages)@);
    }
}

} // verus!
