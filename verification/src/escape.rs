//! Escape sequences in a rendered line, and the text that a terminal shows
//! once it has consumed them.

use vstd::prelude::*;
use crate::duration::{duration_text, ttl_text, two_digits};
use crate::palette::{fg_reset, fg_start};
use crate::text::{decimal, lemma_decimal_is_digits, pad_left};

verus! {

/// The character that starts every escape sequence.
pub const ESC: char = '\x1b';

/// `text` holds no escape character, hence no escape sequence.
pub open spec fn no_escape(text: Seq<char>) -> bool {
    forall|i: int| 0 <= i < text.len() ==> #[trigger] text[i] != ESC
}

/// A character that ends a control sequence: `@` to `~`.
pub open spec fn is_final_byte(c: char) -> bool {
    '@' <= c && c <= '~'
}

/// Where a terminal stands while it reads a line.
pub enum ScanState {
    /// In ordinary text.
    Text,
    /// Just behind an escape character.
    Escape,
    /// Inside a control sequence, before its final byte.
    Parameters,
}

/// What a terminal in `state` shows of `text`. An escape character followed
/// by `[` opens a control sequence, which runs up to its final byte; an escape
/// character followed by anything else hides that one character.
pub open spec fn scan(text: Seq<char>, state: ScanState) -> Seq<char>
    decreases text.len(),
{
    if text.len() == 0 {
        Seq::empty()
    } else {
        let c = text[0];
        let rest = text.skip(1);
        match state {
            ScanState::Text => if c == ESC {
                scan(rest, ScanState::Escape)
            } else {
                seq![c] + scan(rest, ScanState::Text)
            },
            ScanState::Escape => if c == '[' {
                scan(rest, ScanState::Parameters)
            } else {
                scan(rest, ScanState::Text)
            },
            ScanState::Parameters => if is_final_byte(c) {
                scan(rest, ScanState::Text)
            } else {
                scan(rest, ScanState::Parameters)
            },
        }
    }
}

/// The visible characters of `text`: what is left once the escape sequences
/// are taken out.
pub open spec fn visible_text(text: Seq<char>) -> Seq<char> {
    scan(text, ScanState::Text)
}

/// Text without an escape character is shown as it is, and what follows it is
/// read as ordinary text again.
pub proof fn lemma_scan_plain_prefix(prefix: Seq<char>, rest: Seq<char>)
    requires
        no_escape(prefix),
    ensures
        scan(prefix + rest, ScanState::Text) == prefix + scan(rest, ScanState::Text),
    decreases prefix.len(),
{
    if prefix.len() == 0 {
        assert(prefix + rest =~= rest);
        assert(prefix + scan(rest, ScanState::Text) =~= scan(rest, ScanState::Text));
    } else {
        let whole = prefix + rest;
        let tail = prefix.skip(1);
        assert(whole[0] == prefix[0]);
        assert(whole.skip(1) =~= tail + rest);
        assert(no_escape(tail)) by {
            assert forall|i: int| 0 <= i < tail.len() implies #[trigger] tail[i] != ESC by {
                assert(tail[i] == prefix[i + 1]);
            }
        }
        lemma_scan_plain_prefix(tail, rest);
        assert(seq![prefix[0]] + (tail + scan(rest, ScanState::Text)) =~= prefix + scan(
            rest,
            ScanState::Text,
        ));
    }
}

/// Inside a control sequence nothing is shown up to its final byte.
pub proof fn lemma_scan_parameters(parameters: Seq<char>, rest: Seq<char>)
    requires
        forall|i: int| 0 <= i < parameters.len() ==> !is_final_byte(#[trigger] parameters[i]),
    ensures
        scan(parameters + rest, ScanState::Parameters) == scan(rest, ScanState::Parameters),
    decreases parameters.len(),
{
    if parameters.len() == 0 {
        assert(parameters + rest =~= rest);
    } else {
        let whole = parameters + rest;
        let tail = parameters.skip(1);
        assert(whole[0] == parameters[0]);
        assert(whole.skip(1) =~= tail + rest);
        assert forall|i: int| 0 <= i < tail.len() implies !is_final_byte(#[trigger] tail[i]) by {
            assert(tail[i] == parameters[i + 1]);
        }
        lemma_scan_parameters(tail, rest);
    }
}

/// The sequence that selects a foreground color shows nothing.
pub proof fn lemma_scan_fg_start(index: u8, rest: Seq<char>)
    ensures
        visible_text(fg_start(index) + rest) == visible_text(rest),
{
    let digits = decimal(index as nat);
    let parameters = seq!['3', '8', ';', '5', ';'] + digits;
    let closing = seq!['m'] + rest;
    let whole = fg_start(index) + rest;
    lemma_decimal_is_digits(index as nat);
    assert(whole =~= seq!['\x1b', '['] + (parameters + closing));
    let behind_escape = whole.skip(1);
    assert(whole[0] == ESC);
    assert(behind_escape[0] == '[');
    assert(behind_escape.skip(1) =~= parameters + closing);
    assert(scan(whole, ScanState::Text) == scan(behind_escape, ScanState::Escape));
    assert(scan(behind_escape, ScanState::Escape) == scan(
        parameters + closing,
        ScanState::Parameters,
    ));
    assert forall|i: int| 0 <= i < parameters.len() implies !is_final_byte(
        #[trigger] parameters[i],
    ) by {
        if i >= 5 {
            assert(parameters[i] == digits[i - 5]);
        }
    }
    lemma_scan_parameters(parameters, closing);
    assert(closing[0] == 'm');
    assert(closing.skip(1) =~= rest);
}

/// The sequence that restores the foreground color shows nothing.
pub proof fn lemma_scan_fg_reset(rest: Seq<char>)
    ensures
        visible_text(fg_reset() + rest) == visible_text(rest),
{
    let whole = fg_reset() + rest;
    let parameters = seq!['3', '9'];
    let closing = seq!['m'] + rest;
    assert(whole =~= seq!['\x1b', '['] + (parameters + closing));
    let behind_escape = whole.skip(1);
    assert(whole[0] == ESC);
    assert(behind_escape[0] == '[');
    assert(behind_escape.skip(1) =~= parameters + closing);
    assert(scan(whole, ScanState::Text) == scan(behind_escape, ScanState::Escape));
    assert(scan(behind_escape, ScanState::Escape) == scan(
        parameters + closing,
        ScanState::Parameters,
    ));
    lemma_scan_parameters(parameters, closing);
    assert(closing[0] == 'm');
    assert(closing.skip(1) =~= rest);
}

/// Text without an escape character is all visible.
pub proof fn lemma_plain_text_is_visible(text: Seq<char>)
    requires
        no_escape(text),
    ensures
        visible_text(text) == text,
{
    lemma_scan_plain_prefix(text, Seq::empty());
    assert(text + Seq::<char>::empty() =~= text);
}

/// Padding adds no escape character.
pub proof fn lemma_pad_left_no_escape(text: Seq<char>, width: nat, fill: char)
    requires
        no_escape(text),
        fill != ESC,
    ensures
        no_escape(pad_left(text, width, fill)),
{
}

/// The time-to-live field never holds an escape character.
pub proof fn lemma_ttl_text_no_escape(seconds: nat, format_seconds: bool)
    ensures
        no_escape(ttl_text(seconds, format_seconds)),
{
    lemma_decimal_is_digits(seconds);
    lemma_decimal_is_digits(seconds / 60);
    lemma_decimal_is_digits(seconds / 3600);
    lemma_decimal_is_digits(seconds / 86400);
    lemma_decimal_is_digits((seconds % 86400) / 3600);
    lemma_decimal_is_digits((seconds % 3600) / 60);
    lemma_decimal_is_digits(seconds % 60);
    assert(no_escape(decimal(seconds)));
    assert(no_escape(decimal(seconds / 60)));
    assert(no_escape(decimal(seconds / 3600)));
    assert(no_escape(decimal(seconds / 86400)));
    assert(no_escape(decimal((seconds % 86400) / 3600)));
    assert(no_escape(decimal((seconds % 3600) / 60)));
    assert(no_escape(decimal(seconds % 60)));
    lemma_pad_left_no_escape(decimal((seconds % 3600) / 60), 2, '0');
    lemma_pad_left_no_escape(decimal(seconds % 60), 2, '0');
    assert(no_escape(two_digits((seconds % 3600) / 60)));
    assert(no_escape(two_digits(seconds % 60)));
    assert(no_escape(duration_text(seconds)));
}

} // verus!
