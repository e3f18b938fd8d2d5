//! Text of the interactive view: escaped kernel strings, access rights,
//! timestamps, and wrapping to a display width.
use vstd::prelude::*;

use super::records::{
    filesystem_names, joined, name_chars, names_only, network_names, part_texts,
    push_joined, scope_names, str_texts,
};
use super::text::{
    decimal_text, escaped_text, hex_text, push_decimal, push_escaped, push_hex, push_str,
    string_from_chars,
};
use crate::event::{
    known_names_of, AccessFamily, CapturedString, FilesystemAccess, KernelTimestamp,
    NetworkAccess, ScopeAccess,
};

verus! {

/// A ruleset identity with its version, or `?` when the version is unknown.
pub open spec fn ruleset_label_text(id: u64, version: Option<u32>) -> Seq<char> {
    hex_text(id as nat) + "."@ + match version {
        Some(version) => decimal_text(version as nat),
        None => "?"@,
    }
}

/// Returns a ruleset identity with its version, or `?` when the version is
/// unknown.
pub fn ruleset(id: u64, version: Option<u32>) -> (text: String)
    ensures
        text@ == ruleset_label_text(id, version),
{
    let mut out: Vec<char> = Vec::new();
    push_hex(&mut out, id);
    push_str(&mut out, ".");
    match version {
        Some(version) => push_decimal(&mut out, version as u64),
        None => push_str(&mut out, "?"),
    }
    assert(out@ =~= ruleset_label_text(id, version));
    string_from_chars(out)
}

/// The captured bytes, escaped, followed by an ellipsis when the capture was
/// truncated.
pub open spec fn display_escaped_text(bytes: Seq<u8>, truncated: bool) -> Seq<char> {
    escaped_text(bytes) + if truncated {
        seq!['…']
    } else {
        Seq::empty()
    }
}

pub(crate) fn push_display_escaped(out: &mut Vec<char>, value: &CapturedString)
    ensures
        final(out)@ == old(out)@ + display_escaped_text(value@.bytes, value@.truncated),
{
    push_escaped(out, value.as_bytes());
    if value.is_truncated() {
        out.push('…');
    }
    assert(final(out)@ =~= old(out)@ + display_escaped_text(value@.bytes, value@.truncated));
}

/// Returns the captured bytes, escaped, followed by an ellipsis when the
/// capture was truncated.
pub fn escape(value: &CapturedString) -> (text: String)
    ensures
        text@ == display_escaped_text(value@.bytes, value@.truncated),
{
    let mut out: Vec<char> = Vec::new();
    push_display_escaped(&mut out, value);
    assert(out@ =~= display_escaped_text(value@.bytes, value@.truncated));
    string_from_chars(out)
}

/// Access rights: the known names followed by the unknown bits in
/// hexadecimal, separated by a comma and a space; `0x0` when no bit is set.
pub open spec fn access_text(names: Seq<Seq<char>>, unknown: u32) -> Seq<char> {
    let parts = if unknown != 0 {
        names.push("0x"@ + hex_text(unknown as nat))
    } else {
        names
    };
    if parts.len() == 0 {
        "0x0"@
    } else {
        joined(parts, ", "@)
    }
}

pub(crate) fn push_access(out: &mut Vec<char>, names: &Vec<&'static str>, unknown: u32)
    ensures
        final(out)@ == old(out)@ + access_text(str_texts(names@), unknown),
{
    let mut parts = name_chars(names);
    let ghost known = part_texts(parts@);
    if unknown != 0 {
        let mut part: Vec<char> = Vec::new();
        push_str(&mut part, "0x");
        push_hex(&mut part, unknown as u64);
        parts.push(part);
        assert(part_texts(parts@) =~= known.push("0x"@ + hex_text(unknown as nat)));
    }
    if parts.len() == 0 {
        push_str(out, "0x0");
    } else {
        push_joined(out, &parts, ", ");
    }
    assert(final(out)@ =~= old(out)@ + access_text(str_texts(names@), unknown));
}

/// Returns access rights: the known names followed by the unknown bits,
/// separated by a comma and a space; `0x0` when no bit is set.
pub fn access(names: &Vec<&'static str>, unknown: u32) -> (text: String)
    ensures
        text@ == access_text(str_texts(names@), unknown),
{
    let mut out: Vec<char> = Vec::new();
    push_access(&mut out, names, unknown);
    assert(out@ =~= access_text(str_texts(names@), unknown));
    string_from_chars(out)
}

/// The filesystem rights of a mask.
pub open spec fn filesystem_rights_text(bits: u32) -> Seq<char> {
    access_text(
        names_only(known_names_of(AccessFamily::Filesystem, bits)),
        bits & !crate::event::known_mask(AccessFamily::Filesystem),
    )
}

/// The network rights of a mask.
pub open spec fn network_rights_text(bits: u32) -> Seq<char> {
    access_text(
        names_only(known_names_of(AccessFamily::Network, bits)),
        bits & !crate::event::known_mask(AccessFamily::Network),
    )
}

/// The scope rights of a mask.
pub open spec fn scope_rights_text(bits: u32) -> Seq<char> {
    access_text(
        names_only(known_names_of(AccessFamily::Scope, bits)),
        bits & !crate::event::known_mask(AccessFamily::Scope),
    )
}

/// Returns the filesystem rights of a mask.
pub fn filesystem_rights(value: FilesystemAccess) -> (text: String)
    ensures
        text@ == filesystem_rights_text(value@),
{
    access(&filesystem_names(value), value.unknown_bits())
}

/// Returns the network rights of a mask.
pub fn network_rights(value: NetworkAccess) -> (text: String)
    ensures
        text@ == network_rights_text(value@),
{
    access(&network_names(value), value.unknown_bits())
}

/// Returns the scope rights of a mask.
pub fn scope_rights(value: ScopeAccess) -> (text: String)
    ensures
        text@ == scope_rights_text(value@),
{
    access(&scope_names(value), value.unknown_bits())
}

/// Returns the filesystem rights of a mask after the `FS: ` family prefix.
pub fn filesystem(value: FilesystemAccess) -> (text: String)
    ensures
        text@ == "FS: "@ + filesystem_rights_text(value@),
{
    let mut out: Vec<char> = Vec::new();
    push_str(&mut out, "FS: ");
    push_access(&mut out, &filesystem_names(value), value.unknown_bits());
    assert(out@ =~= "FS: "@ + filesystem_rights_text(value@));
    string_from_chars(out)
}

/// Returns the network rights of a mask after the `Net: ` family prefix.
pub fn network(value: NetworkAccess) -> (text: String)
    ensures
        text@ == "Net: "@ + network_rights_text(value@),
{
    let mut out: Vec<char> = Vec::new();
    push_str(&mut out, "Net: ");
    push_access(&mut out, &network_names(value), value.unknown_bits());
    assert(out@ =~= "Net: "@ + network_rights_text(value@));
    string_from_chars(out)
}

/// Returns the scope rights of a mask after the `Scope: ` family prefix.
pub fn scope(value: ScopeAccess) -> (text: String)
    ensures
        text@ == "Scope: "@ + scope_rights_text(value@),
{
    let mut out: Vec<char> = Vec::new();
    push_str(&mut out, "Scope: ");
    push_access(&mut out, &scope_names(value), value.unknown_bits());
    assert(out@ =~= "Scope: "@ + scope_rights_text(value@));
    string_from_chars(out)
}

/// A timestamp in nanoseconds, or `?` when unknown.
pub open spec fn timestamp_text(value: Option<KernelTimestamp>) -> Seq<char> {
    match value {
        Some(value) => decimal_text(value@ as nat) + "ns"@,
        None => "?"@,
    }
}

/// Returns a timestamp in nanoseconds, or `?` when unknown.
pub fn timestamp(value: Option<KernelTimestamp>) -> (text: String)
    ensures
        text@ == timestamp_text(value),
{
    let mut out: Vec<char> = Vec::new();
    match value {
        Some(value) => {
            push_decimal(&mut out, value.as_nanoseconds());
            push_str(&mut out, "ns");
        },
        None => push_str(&mut out, "?"),
    }
    assert(out@ =~= timestamp_text(value));
    string_from_chars(out)
}

/// The number of terminal columns that ratatui measures for `text`.
pub uninterp spec fn display_width_of(text: Seq<char>) -> usize;

/// Calls `ratatui::text::Span::width` on a raw span of `text`, which measures
/// the text's terminal columns with `unicode-width`. What it returns depends
/// on the text alone and is named [`display_width_of`]; nothing more of it is
/// stated here.
#[verifier::external_body]
pub(crate) fn display_width(text: &str) -> (width: usize)
    ensures
        width == display_width_of(text@),
{
    ratatui::text::Span::raw(text).width()
}

/// The width of a single character.
pub open spec fn char_width(c: char) -> nat {
    display_width_of(seq![c]) as nat
}

/// How many leading characters of `text` fit in `width` columns, measuring
/// one character at a time from `position` with `used` columns taken; a first
/// character that alone overflows still counts.
pub open spec fn fitting_prefix(text: Seq<char>, width: nat, position: nat, used: nat) -> nat
    decreases text.len() - position,
{
    if position >= text.len() {
        position
    } else if used + char_width(text[position as int]) > width {
        if position == 0 {
            1
        } else {
            position
        }
    } else {
        fitting_prefix(text, width, position + 1, used + char_width(text[position as int]))
    }
}

/// A nonempty text has a fitting prefix of at least one character and at most
/// all of them.
pub proof fn lemma_fitting_prefix_bounds(text: Seq<char>, width: nat, position: nat, used: nat)
    requires
        text.len() > 0,
        position <= text.len(),
    ensures
        1 <= fitting_prefix(text, width, position, used) <= text.len(),
        position > 0 ==> position <= fitting_prefix(text, width, position, used),
    decreases text.len() - position,
{
    if position < text.len() && used + char_width(text[position as int]) <= width {
        lemma_fitting_prefix_bounds(text, width, position + 1, used + char_width(text[position as int]));
    }
}

/// The start of the last `first` immediately followed by `second` within the
/// first `end` characters.
pub open spec fn last_pair(text: Seq<char>, first: char, second: char, end: int) -> Option<int>
    decreases end,
{
    if end < 2 {
        None
    } else if text[end - 2] == first && text[end - 1] == second {
        Some(end - 2)
    } else {
        last_pair(text, first, second, end - 1)
    }
}

/// The position of the last `c` within the first `end` characters.
pub open spec fn last_char(text: Seq<char>, c: char, end: int) -> Option<int>
    decreases end,
{
    if end < 1 {
        None
    } else if text[end - 1] == c {
        Some(end - 1)
    } else {
        last_char(text, c, end - 1)
    }
}

/// Where a line of the first `limit` characters of `text` ends: after its last
/// `", "`, else after its last `/`, else after its last space, else at the
/// limit.
pub open spec fn semantic_split(text: Seq<char>, limit: int) -> int {
    match last_pair(text, ',', ' ', limit) {
        Some(start) => start + 2,
        None => match last_char(text, '/', limit) {
            Some(position) => position + 1,
            None => match last_char(text, ' ', limit) {
                Some(position) => position + 1,
                None => limit,
            },
        },
    }
}

/// A found pair lies within the searched characters.
pub proof fn lemma_last_pair_bounds(text: Seq<char>, first: char, second: char, end: int)
    ensures
        last_pair(text, first, second, end) matches Some(start) ==> 0 <= start && start + 2 <= end,
    decreases end,
{
    if end >= 2 && !(text[end - 2] == first && text[end - 1] == second) {
        lemma_last_pair_bounds(text, first, second, end - 1);
    }
}

/// A found character lies within the searched characters.
pub proof fn lemma_last_char_bounds(text: Seq<char>, c: char, end: int)
    ensures
        last_char(text, c, end) matches Some(position) ==> 0 <= position && position + 1 <= end,
    decreases end,
{
    if end >= 1 && text[end - 1] != c {
        lemma_last_char_bounds(text, c, end - 1);
    }
}

/// A line holds at least one character and at most the fitting ones.
pub proof fn lemma_semantic_split_bounds(text: Seq<char>, limit: int)
    requires
        limit >= 1,
    ensures
        1 <= semantic_split(text, limit) <= limit,
{
    lemma_last_pair_bounds(text, ',', ' ', limit);
    lemma_last_char_bounds(text, '/', limit);
    lemma_last_char_bounds(text, ' ', limit);
}

/// The lines of `rest` wrapped to `width` columns for the first line and
/// `continuation` columns for the others.
pub open spec fn wrapped_rest(rest: Seq<char>, width: nat, continuation: nat) -> Seq<Seq<char>>
    decreases rest.len(),
{
    if rest.len() == 0 || display_width_of(rest) as nat <= width {
        seq![rest]
    } else {
        let limit = fitting_prefix(rest, width, 0, 0);
        let split = semantic_split(rest, limit as int);
        proof {
            lemma_fitting_prefix_bounds(rest, width, 0, 0);
            lemma_semantic_split_bounds(rest, limit as int);
        }
        seq![rest.take(split)] + wrapped_rest(rest.skip(split), continuation, continuation)
    }
}

/// `text` wrapped to `first_width` columns for its first line and
/// `continuation_width` columns for the others, each at least one column;
/// empty text is one empty line.
pub open spec fn wrapped(text: Seq<char>, first_width: nat, continuation_width: nat) -> Seq<
    Seq<char>,
> {
    if text.len() == 0 {
        seq![Seq::empty()]
    } else {
        wrapped_rest(
            text,
            if first_width < 1 {
                1
            } else {
                first_width
            },
            if continuation_width < 1 {
                1
            } else {
                continuation_width
            },
        )
    }
}

/// The characters of `chars` from `start` to `end`.
fn slice_chars(chars: &Vec<char>, start: usize, end: usize) -> (slice: Vec<char>)
    requires
        start <= end <= chars@.len(),
    ensures
        slice@ == chars@.subrange(start as int, end as int),
{
    let mut slice: Vec<char> = Vec::new();
    let mut index = start;
    while index < end
        invariant
            start <= index <= end,
            end <= chars@.len(),
            slice@ == chars@.subrange(start as int, index as int),
        decreases end - index,
    {
        slice.push(chars[index]);
        proof {
            assert(chars@.subrange(start as int, index + 1) =~= chars@.subrange(
                start as int,
                index as int,
            ).push(chars@[index as int]));
        }
        index = index + 1;
    }
    slice
}

/// Returns the width of the characters in `chars`.
fn chars_width(chars: &Vec<char>) -> (width: usize)
    ensures
        width == display_width_of(chars@),
{
    let copy = slice_chars(chars, 0, chars.len());
    assert(copy@ =~= chars@);
    let text = string_from_chars(copy);
    display_width(text.as_str())
}

/// Returns how many leading characters of `text` fit in `width` columns.
fn fitting_prefix_length(text: &Vec<char>, width: usize) -> (limit: usize)
    requires
        text@.len() > 0,
    ensures
        limit == fitting_prefix(text@, width as nat, 0, 0),
{
    let mut used: usize = 0;
    let mut position: usize = 0;
    while position < text.len()
        invariant
            position <= text@.len(),
            used <= width,
            fitting_prefix(text@, width as nat, position as nat, used as nat) == fitting_prefix(
                text@,
                width as nat,
                0,
                0,
            ),
        decreases text@.len() - position,
    {
        let single = string_from_chars(vec![text[position]]);
        assert(single@ =~= seq![text@[position as int]]);
        let character_width = display_width(single.as_str());
        if character_width > width - used {
            if position == 0 {
                return 1;
            }
            return position;
        }
        used = used + character_width;
        position = position + 1;
    }
    position
}

/// Returns the position of the last `first` immediately followed by
/// `second` within the first `end` characters.
fn find_last_pair(text: &Vec<char>, first: char, second: char, end: usize) -> (found: Option<usize>)
    requires
        end <= text@.len(),
    ensures
        match last_pair(text@, first, second, end as int) {
            Some(start) => found == Some(start as usize),
            None => found is None,
        },
{
    let mut position = end;
    while position >= 2
        invariant
            position <= end,
            end <= text@.len(),
            last_pair(text@, first, second, position as int) == last_pair(
                text@,
                first,
                second,
                end as int,
            ),
        decreases position,
    {
        if text[position - 2] == first && text[position - 1] == second {
            return Some(position - 2);
        }
        position = position - 1;
    }
    None
}

/// Returns the position of the last `c` within the first `end` characters.
fn find_last_char(text: &Vec<char>, c: char, end: usize) -> (found: Option<usize>)
    requires
        end <= text@.len(),
    ensures
        match last_char(text@, c, end as int) {
            Some(position) => found == Some(position as usize),
            None => found is None,
        },
{
    let mut position = end;
    while position >= 1
        invariant
            position <= end,
            end <= text@.len(),
            last_char(text@, c, position as int) == last_char(text@, c, end as int),
        decreases position,
    {
        if text[position - 1] == c {
            return Some(position - 1);
        }
        position = position - 1;
    }
    None
}

/// Returns where a line of the first `limit` characters of `text` ends.
fn semantic_split_position(text: &Vec<char>, limit: usize) -> (split: usize)
    requires
        1 <= limit <= text@.len(),
    ensures
        split == semantic_split(text@, limit as int),
{
    proof {
        lemma_last_pair_bounds(text@, ',', ' ', limit as int);
        lemma_last_char_bounds(text@, '/', limit as int);
        lemma_last_char_bounds(text@, ' ', limit as int);
    }
    match find_last_pair(text, ',', ' ', limit) {
        Some(start) => start + 2,
        None => match find_last_char(text, '/', limit) {
            Some(position) => position + 1,
            None => match find_last_char(text, ' ', limit) {
                Some(position) => position + 1,
                None => limit,
            },
        },
    }
}

/// Returns `text` wrapped to `first_width` columns for its first line and
/// `continuation_width` columns for the others.
///
/// A line ends after the last `", "`, `/` or space that fits, in that order
/// of preference, else at the last character that fits; a character wider
/// than the line still takes a line of its own, so no character is split.
pub fn wrap(text: &str, first_width: usize, continuation_width: usize) -> (lines: Vec<String>)
    ensures
        super::batch::string_texts(lines@) == wrapped(
            text@,
            first_width as nat,
            continuation_width as nat,
        ),
{
    let mut chars: Vec<char> = Vec::new();
    push_str(&mut chars, text);
    assert(chars@ =~= text@);
    let mut lines: Vec<String> = Vec::new();
    if chars.len() == 0 {
        lines.push(String::new());
        assert(super::batch::string_texts(lines@) =~= seq![Seq::<char>::empty()]);
        return lines;
    }
    let continuation = if continuation_width < 1 {
        1
    } else {
        continuation_width
    };
    let mut width = if first_width < 1 {
        1
    } else {
        first_width
    };
    let mut rest = chars;
    while rest.len() > 0 && chars_width(&rest) > width
        invariant
            width >= 1,
            continuation >= 1,
            continuation == (if continuation_width < 1 { 1 } else { continuation_width }),
            super::batch::string_texts(lines@) + wrapped_rest(rest@, width as nat, continuation as nat)
                == wrapped(text@, first_width as nat, continuation_width as nat),
        decreases rest@.len(),
    {
        let limit = fitting_prefix_length(&rest, width);
        proof {
            lemma_fitting_prefix_bounds(rest@, width as nat, 0, 0);
        }
        let split = semantic_split_position(&rest, limit);
        proof {
            lemma_semantic_split_bounds(rest@, limit as int);
        }
        let line = slice_chars(&rest, 0, split);
        let remaining = slice_chars(&rest, split, rest.len());
        let ghost before = super::batch::string_texts(lines@);
        let ghost whole = rest@;
        lines.push(string_from_chars(line));
        proof {
            assert(whole.take(split as int) =~= whole.subrange(0, split as int));
            assert(whole.skip(split as int) =~= remaining@);
            assert(super::batch::string_texts(lines@) =~= before.push(whole.take(split as int)));
            assert(wrapped_rest(whole, width as nat, continuation as nat) == seq![whole.take(split as int)]
                + wrapped_rest(remaining@, continuation as nat, continuation as nat));
            assert(super::batch::string_texts(lines@) + wrapped_rest(remaining@, continuation as nat, continuation as nat)
                =~= before + wrapped_rest(whole, width as nat, continuation as nat));
        }
        rest = remaining;
        width = continuation;
    }
    let ghost before = super::batch::string_texts(lines@);
    let last = string_from_chars(rest);
    proof {
        assert(wrapped_rest(last@, width as nat, continuation as nat) == seq![last@]);
    }
    lines.push(last);
    assert(super::batch::string_texts(lines@) =~= before + seq![last@]);
    lines
}

} // verus!
