//! Laws of the text shown to users: escaped kernel strings are one safe
//! token and lose nothing, and wrapping loses no character.
use vstd::prelude::*;

use super::format::{lemma_fitting_prefix_bounds, lemma_semantic_split_bounds, wrapped, wrapped_rest};
use super::format::{fitting_prefix, semantic_split, display_width_of};
use super::records::{denial_fields, elapsed_text, DenialKind};
use super::text::{decimal_digit, decimal_text, escaped_byte, escaped_text, hex_digit, is_plain_byte};
use crate::event::EventView;

verus! {

broadcast use vstd::seq_lib::group_seq_properties;

/// Whether a character may stand in escaped text: an ASCII letter or digit,
/// `_`, `-`, `.`, `/`, or the backslash that starts an escape.
pub open spec fn is_token_char(c: char) -> bool {
    ||| '0' <= c <= '9'
    ||| 'A' <= c <= 'Z'
    ||| 'a' <= c <= 'z'
    ||| c == '_'
    ||| c == '-'
    ||| c == '.'
    ||| c == '/'
    ||| c == '\\'
}

/// The value of a lower-case hexadecimal digit.
pub open spec fn hex_value(c: char) -> int {
    if '0' <= c <= '9' {
        c as int - 48
    } else {
        c as int - 87
    }
}

/// The bytes that escaped text stands for: `\x` and two hexadecimal digits
/// stand for one byte, every other character for its own code.
pub open spec fn unescaped(text: Seq<char>) -> Seq<u8>
    decreases text.len(),
{
    if text.len() == 0 {
        Seq::empty()
    } else if text[0] == '\\' && text.len() >= 4 {
        seq![(hex_value(text[2]) * 16 + hex_value(text[3])) as u8] + unescaped(text.skip(4))
    } else {
        seq![text[0] as u8] + unescaped(text.skip(1))
    }
}

proof fn lemma_hex_digit_value(digit: nat)
    requires
        digit < 16,
    ensures
        hex_value(hex_digit(digit)) == digit,
        is_token_char(hex_digit(digit)),
        hex_digit(digit) != '\\',
{
}

/// Escaping a concatenation escapes each part.
proof fn lemma_escaped_text_append(a: Seq<u8>, b: Seq<u8>)
    ensures
        escaped_text(a + b) == escaped_text(a) + escaped_text(b),
    decreases b.len(),
{
    if b.len() == 0 {
        assert(a + b =~= a);
    } else {
        lemma_escaped_text_append(a, b.drop_last());
        assert((a + b).drop_last() =~= a + b.drop_last());
    }
}

/// Escaped text is one token of safe characters: no space, separator,
/// protocol punctuation or control character of the bytes survives, so a
/// record cannot be split and no terminal control sequence injected.
pub proof fn lemma_escaped_text_is_one_token(bytes: Seq<u8>)
    ensures
        forall|i: int|
            0 <= i < escaped_text(bytes).len() ==> is_token_char(#[trigger] escaped_text(bytes)[i]),
    decreases bytes.len(),
{
    if bytes.len() > 0 {
        lemma_escaped_text_is_one_token(bytes.drop_last());
        let byte = bytes.last();
        if !is_plain_byte(byte) {
            lemma_hex_digit_value(byte as nat / 16);
            lemma_hex_digit_value(byte as nat % 16);
        }
        let head = escaped_text(bytes.drop_last());
        assert forall|i: int| 0 <= i < escaped_text(bytes).len() implies is_token_char(
            #[trigger] escaped_text(bytes)[i],
        ) by {
            if i >= head.len() {
                assert(escaped_text(bytes)[i] == escaped_byte(byte)[i - head.len()]);
            }
        }
    }
}

/// Escaping loses nothing: the escaped text stands for exactly the bytes
/// that were escaped.
pub proof fn lemma_escape_is_reversible(bytes: Seq<u8>)
    ensures
        unescaped(escaped_text(bytes)) == bytes,
    decreases bytes.len(),
{
    if bytes.len() > 0 {
        let first = bytes[0];
        let rest = bytes.drop_first();
        assert(bytes =~= seq![first] + rest);
        lemma_escaped_text_append(seq![first], rest);
        assert(seq![first].drop_last() =~= Seq::<u8>::empty());
        assert(escaped_text(Seq::<u8>::empty()) == Seq::<char>::empty());
        assert(escaped_text(seq![first]) =~= escaped_byte(first));
        lemma_escape_is_reversible(rest);
        let text = escaped_byte(first) + escaped_text(rest);
        assert(escaped_text(bytes) == text);
        if is_plain_byte(first) {
            assert(text[0] == first as char);
            assert(text.skip(1) =~= escaped_text(rest));
            assert((first as char) as u8 == first);
        } else {
            lemma_hex_digit_value(first as nat / 16);
            lemma_hex_digit_value(first as nat % 16);
            assert(text[0] == '\\');
            assert(text.skip(4) =~= escaped_text(rest));
            assert(hex_value(text[2]) * 16 + hex_value(text[3]) == first);
        }
        assert(unescaped(text) =~= seq![first] + rest);
    }
}

/// Different bytes never escape to the same text.
pub proof fn lemma_escape_is_injective(a: Seq<u8>, b: Seq<u8>)
    requires
        escaped_text(a) == escaped_text(b),
    ensures
        a == b,
{
    lemma_escape_is_reversible(a);
    lemma_escape_is_reversible(b);
}

/// The lines joined back together.
pub open spec fn joined_lines(lines: Seq<Seq<char>>) -> Seq<char>
    decreases lines.len(),
{
    if lines.len() == 0 {
        Seq::empty()
    } else {
        lines[0] + joined_lines(lines.drop_first())
    }
}

proof fn lemma_wrapped_rest_joins(rest: Seq<char>, width: nat, continuation: nat)
    requires
        width >= 1,
        continuation >= 1,
    ensures
        joined_lines(wrapped_rest(rest, width, continuation)) == rest,
    decreases rest.len(),
{
    if rest.len() == 0 || display_width_of(rest) as nat <= width {
        assert(wrapped_rest(rest, width, continuation) == seq![rest]);
        assert(seq![rest].drop_first() =~= Seq::<Seq<char>>::empty());
        assert(joined_lines(Seq::<Seq<char>>::empty()) == Seq::<char>::empty());
        assert(rest + Seq::<char>::empty() =~= rest);
    } else {
        let limit = fitting_prefix(rest, width, 0, 0);
        lemma_fitting_prefix_bounds(rest, width, 0, 0);
        let split = semantic_split(rest, limit as int);
        lemma_semantic_split_bounds(rest, limit as int);
        lemma_wrapped_rest_joins(rest.skip(split), continuation, continuation);
        let lines = wrapped_rest(rest, width, continuation);
        assert(lines == seq![rest.take(split)] + wrapped_rest(rest.skip(split), continuation, continuation));
        assert(lines.drop_first() =~= wrapped_rest(rest.skip(split), continuation, continuation));
        assert(rest.take(split) + rest.skip(split) =~= rest);
    }
}

/// Wrapping loses no character: the wrapped lines joined back together are
/// the text.
pub proof fn lemma_wrap_loses_nothing(text: Seq<char>, first_width: nat, continuation_width: nat)
    ensures
        joined_lines(wrapped(text, first_width, continuation_width)) == text,
{
    if text.len() == 0 {
        assert(joined_lines(seq![Seq::<char>::empty()]) =~= text) by {
            assert(seq![Seq::<char>::empty()].drop_first() =~= Seq::<Seq<char>>::empty());
            assert(joined_lines(Seq::<Seq<char>>::empty()) == Seq::<char>::empty());
        }
    } else {
        lemma_wrapped_rest_joins(
            text,
            if first_width < 1 { 1 } else { first_width },
            if continuation_width < 1 { 1 } else { continuation_width },
        );
    }
}

/// Whether a character may stand in a target summary: a character of
/// escaped text, or the `:` and `,` that separate its parts.
pub open spec fn is_summary_char(c: char) -> bool {
    is_token_char(c) || c == ':' || c == ','
}

/// Whether every character of `text` may stand in a target summary.
pub open spec fn is_summary_token(text: Seq<char>) -> bool {
    forall|i: int| 0 <= i < text.len() ==> is_summary_char(#[trigger] text[i])
}

proof fn lemma_summary_token_concat(a: Seq<char>, b: Seq<char>)
    requires
        is_summary_token(a),
        is_summary_token(b),
    ensures
        is_summary_token(a + b),
{
    assert forall|i: int| 0 <= i < (a + b).len() implies is_summary_char(#[trigger] (a + b)[i]) by {
        if i >= a.len() {
            assert((a + b)[i] == b[i - a.len()]);
        }
    }
}

proof fn lemma_decimal_text_is_token(value: nat)
    ensures
        is_summary_token(decimal_text(value)),
    decreases value,
{
    if value >= 10 {
        lemma_decimal_text_is_token(value / 10);
        lemma_summary_token_concat(decimal_text(value / 10), seq![decimal_digit(value % 10)]);
        assert(decimal_text(value) == decimal_text(value / 10) + seq![decimal_digit(value % 10)]);
    }
}

proof fn lemma_escaped_text_is_summary_token(bytes: Seq<u8>)
    ensures
        is_summary_token(escaped_text(bytes)),
{
    lemma_escaped_text_is_one_token(bytes);
}

/// Every target summary of a denial record is one token: escaped text,
/// decimal numbers and the literal parts around them, with no space, so a
/// record's fields stay apart.
pub proof fn lemma_target_summary_is_one_token(event: EventView)
    requires
        DenialKind::of_event(event) is Some,
    ensures
        is_summary_token(denial_fields(event).2),
{
    reveal_strlit("sport:");
    reveal_strlit("dport:");
    reveal_strlit(",");
    reveal_strlit("pid:");
    reveal_strlit(":");
    reveal_strlit("peer:");
    let target = denial_fields(event).2;
    match event {
        EventView::DenyAccessFs(e) => {
            lemma_escaped_text_is_summary_token(e.pathname.bytes);
        },
        EventView::DenyAccessNet(e) => {
            let source = decimal_text(e.source_port as nat);
            let destination = decimal_text(e.destination_port as nat);
            lemma_decimal_text_is_token(e.source_port as nat);
            lemma_decimal_text_is_token(e.destination_port as nat);
            assert(is_summary_token("sport:"@));
            assert(is_summary_token("dport:"@));
            assert(is_summary_token(","@));
            lemma_summary_token_concat("sport:"@, source);
            lemma_summary_token_concat("dport:"@, destination);
            lemma_summary_token_concat("sport:"@ + source, ","@);
            lemma_summary_token_concat("sport:"@ + source + ","@, "dport:"@);
            lemma_summary_token_concat("sport:"@ + source + ","@ + "dport:"@, destination);
        },
        EventView::DenyPtrace(e) => {
            let pid = decimal_text(e.tracee_pid as nat);
            lemma_decimal_text_is_token(e.tracee_pid as nat);
            lemma_escaped_text_is_summary_token(e.tracee_comm.bytes);
            assert(is_summary_token("pid:"@));
            assert(is_summary_token(":"@));
            lemma_summary_token_concat("pid:"@, pid);
            lemma_summary_token_concat("pid:"@ + pid, ":"@);
            lemma_summary_token_concat("pid:"@ + pid + ":"@, escaped_text(e.tracee_comm.bytes));
        },
        EventView::DenyScopeSignal(e) => {
            let pid = decimal_text(e.target_pid as nat);
            lemma_decimal_text_is_token(e.target_pid as nat);
            lemma_escaped_text_is_summary_token(e.target_comm.bytes);
            assert(is_summary_token("pid:"@));
            assert(is_summary_token(":"@));
            lemma_summary_token_concat("pid:"@, pid);
            lemma_summary_token_concat("pid:"@ + pid, ":"@);
            lemma_summary_token_concat("pid:"@ + pid + ":"@, escaped_text(e.target_comm.bytes));
        },
        EventView::DenyScopeAbstractUnixSocket(e) => {
            lemma_decimal_text_is_token(e.peer_pid as nat);
            assert(is_summary_token("peer:"@));
            lemma_summary_token_concat("peer:"@, decimal_text(e.peer_pid as nat));
        },
        _ => {},
    }
}

/// The age of an aggregated denial splits the whole elapsed seconds into
/// units: under a minute it is the seconds and `s`; under an hour the
/// minutes, `m`, the remaining seconds (below 60) and `s`; beyond that the
/// hours, `h`, the remaining minutes (below 60) and `m`. Here `seconds` is
/// the number of whole seconds from `first_ns` to `latest_ns`; a latest
/// timestamp before the first one shows `0s`.
pub proof fn lemma_elapsed_text_splits_units(first_ns: u64, latest_ns: u64, seconds: nat)
    requires
        first_ns <= latest_ns,
        seconds * 1_000_000_000 <= latest_ns - first_ns < seconds * 1_000_000_000 + 1_000_000_000,
    ensures
        seconds < 60 ==> elapsed_text(first_ns, latest_ns) == decimal_text(seconds) + "s"@,
        60 <= seconds < 3600 ==> exists|minutes: nat, rest: nat|
            #![trigger decimal_text(minutes), decimal_text(rest)]
            rest < 60 && seconds == 60 * minutes + rest && elapsed_text(first_ns, latest_ns)
                == decimal_text(minutes) + "m"@ + decimal_text(rest) + "s"@,
        3600 <= seconds ==> exists|hours: nat, minutes: nat|
            #![trigger decimal_text(hours), decimal_text(minutes)]
            minutes < 60 && 3600 * hours + 60 * minutes <= seconds < 3600 * hours + 60 * minutes + 60
                && elapsed_text(first_ns, latest_ns) == decimal_text(hours) + "h"@ + decimal_text(
                minutes,
            ) + "m"@,
{
    let elapsed: int = latest_ns - first_ns;
    assert(elapsed / 1_000_000_000 == seconds) by (nonlinear_arith)
        requires
            seconds * 1_000_000_000 <= elapsed < seconds * 1_000_000_000 + 1_000_000_000,
            seconds >= 0,
    ;
    if 60 <= seconds < 3600 {
        let minutes: nat = seconds / 60;
        let rest: nat = seconds % 60;
        assert(decimal_text(minutes) == decimal_text(minutes) && decimal_text(rest) == decimal_text(rest));
    }
    if 3600 <= seconds {
        let hours: nat = seconds / 3600;
        let minutes: nat = (seconds % 3600) / 60;
        assert(decimal_text(hours) == decimal_text(hours) && decimal_text(minutes) == decimal_text(minutes));
    }
}

/// A latest timestamp before the first one shows an age of `0s`.
pub proof fn lemma_elapsed_text_of_reordered_timestamps(first_ns: u64, latest_ns: u64)
    requires
        latest_ns < first_ns,
    ensures
        elapsed_text(first_ns, latest_ns) == decimal_text(0) + "s"@,
{
}

} // verus!
