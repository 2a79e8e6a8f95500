//! One resource record as one line of text.

use vstd::prelude::*;
use crate::config::OutputConfig;
use crate::duration::{render_duration, render_seconds, ttl_text};
use crate::escape::{
    lemma_pad_left_no_escape, lemma_scan_fg_reset, lemma_scan_fg_start, lemma_scan_plain_prefix,
    lemma_plain_text_is_visible, lemma_ttl_text_no_escape, no_escape, visible_text, ESC,
};
use crate::palette::{
    fg_reset, fg_reset_sequence, fg_start, fg_start_sequence, palette_index, record_color,
    NAME_COLOR,
};
use crate::record::{is_ascii_alphanumeric, record_type_text, type_mnemonic, ResourceRecord};
use crate::text::{field_width, lemma_pad_left_right_aligns, pad_left, push_padded};

verus! {

/// Least width of the record type field.
pub const TYPE_WIDTH: usize = 5;

/// Least width of the time-to-live field.
pub const TTL_WIDTH: usize = 12;

/// The line without colors: the type right-aligned, the name, the time to
/// live right-aligned, the payload, with one space between fields.
pub open spec fn plain_line(
    type_text: Seq<char>,
    name: Seq<char>,
    ttl: Seq<char>,
    payload: Seq<char>,
) -> Seq<char> {
    pad_left(type_text, TYPE_WIDTH as nat, ' ') + seq![' '] + name + seq![' '] + pad_left(
        ttl,
        TTL_WIDTH as nat,
        ' ',
    ) + seq![' '] + payload
}

/// The line with colors: as `plain_line`, with the padded type field between
/// the escape for palette entry `color` and a reset, and the name between the
/// escape for the name color and a reset.
pub open spec fn colored_line(
    type_text: Seq<char>,
    name: Seq<char>,
    ttl: Seq<char>,
    payload: Seq<char>,
    color: u8,
) -> Seq<char> {
    fg_start(color) + pad_left(type_text, TYPE_WIDTH as nat, ' ') + fg_reset() + seq![' ']
        + fg_start(NAME_COLOR) + name + fg_reset() + seq![' '] + pad_left(
        ttl,
        TTL_WIDTH as nat,
        ' ',
    ) + seq![' '] + payload
}

/// The line that shows `record` under `config`.
pub open spec fn line_text(record: ResourceRecord, config: OutputConfig) -> Seq<char> {
    let type_text = type_mnemonic(record.record_type);
    let ttl = ttl_text(record.ttl as nat, config.spec_format_seconds());
    if config.spec_ansi() {
        colored_line(
            type_text,
            record.name@,
            ttl,
            record.payload_text(),
            palette_index(record.record_type),
        )
    } else {
        plain_line(type_text, record.name@, ttl, record.payload_text())
    }
}

/// The length of a line without colors: the four fields, the first and the
/// third widened to their least widths, and the three spaces between them.
pub proof fn lemma_plain_line_length(
    type_text: Seq<char>,
    name: Seq<char>,
    ttl: Seq<char>,
    payload: Seq<char>,
)
    ensures
        plain_line(type_text, name, ttl, payload).len() == field_width(
            type_text.len(),
            TYPE_WIDTH as nat,
        ) + 1 + name.len() + 1 + field_width(ttl.len(), TTL_WIDTH as nat) + 1 + payload.len(),
{
    lemma_pad_left_right_aligns(type_text, TYPE_WIDTH as nat, ' ');
    lemma_pad_left_right_aligns(ttl, TTL_WIDTH as nat, ' ');
}

/// A line without colors holds no escape character unless one of the
/// record's own texts brings it.
pub proof fn lemma_plain_line_no_escape(
    type_text: Seq<char>,
    name: Seq<char>,
    seconds: nat,
    format_seconds: bool,
    payload: Seq<char>,
)
    requires
        no_escape(type_text),
        no_escape(name),
        no_escape(payload),
    ensures
        no_escape(plain_line(type_text, name, ttl_text(seconds, format_seconds), payload)),
{
    let ttl = ttl_text(seconds, format_seconds);
    lemma_ttl_text_no_escape(seconds, format_seconds);
    lemma_pad_left_no_escape(type_text, TYPE_WIDTH as nat, ' ');
    lemma_pad_left_no_escape(ttl, TTL_WIDTH as nat, ' ');
}

/// A text between a color escape and a reset shows as the text alone, and
/// what follows the reset is read as ordinary text.
pub proof fn lemma_colored_text_is_visible(color: u8, text: Seq<char>, rest: Seq<char>)
    requires
        no_escape(text),
    ensures
        visible_text(fg_start(color) + text + fg_reset() + rest) == text + visible_text(rest),
{
    let behind_text = fg_reset() + rest;
    let at_text = text + behind_text;
    assert(fg_start(color) + text + fg_reset() + rest =~= fg_start(color) + at_text);
    lemma_scan_fg_start(color, at_text);
    lemma_scan_plain_prefix(text, behind_text);
    lemma_scan_fg_reset(rest);
}

/// What is visible of a line with colors is the line without colors, for a
/// record whose own texts hold no escape character.
pub proof fn lemma_colored_line_shows_plain_line(
    type_text: Seq<char>,
    name: Seq<char>,
    seconds: nat,
    format_seconds: bool,
    payload: Seq<char>,
    color: u8,
)
    requires
        no_escape(type_text),
        no_escape(name),
        no_escape(payload),
    ensures
        visible_text(
            colored_line(type_text, name, ttl_text(seconds, format_seconds), payload, color),
        ) == plain_line(type_text, name, ttl_text(seconds, format_seconds), payload),
{
    let ttl = ttl_text(seconds, format_seconds);
    let type_field = pad_left(type_text, TYPE_WIDTH as nat, ' ');
    let ttl_field = pad_left(ttl, TTL_WIDTH as nat, ' ');
    let tail = seq![' '] + ttl_field + seq![' '] + payload;
    let from_name = fg_start(NAME_COLOR) + name + fg_reset() + tail;
    let from_gap = seq![' '] + from_name;
    assert(no_escape(type_field)) by {
        lemma_pad_left_no_escape(type_text, TYPE_WIDTH as nat, ' ');
    }
    assert(no_escape(tail)) by {
        lemma_ttl_text_no_escape(seconds, format_seconds);
        lemma_pad_left_no_escape(ttl, TTL_WIDTH as nat, ' ');
    }
    assert(visible_text(tail) == tail) by {
        lemma_plain_text_is_visible(tail);
    }
    assert(visible_text(from_name) == name + tail) by {
        lemma_colored_text_is_visible(NAME_COLOR, name, tail);
    }
    assert(visible_text(from_gap) == seq![' '] + (name + tail)) by {
        lemma_scan_plain_prefix(seq![' '], from_name);
    }
    let whole = colored_line(type_text, name, ttl, payload, color);
    assert(whole =~= fg_start(color) + type_field + fg_reset() + from_gap);
    assert(visible_text(whole) == type_field + (seq![' '] + (name + tail))) by {
        lemma_colored_text_is_visible(color, type_field, from_gap);
    }
    assert(type_field + (seq![' '] + (name + tail)) =~= plain_line(type_text, name, ttl, payload));
}

/// The line is decided by the record's fields and the two choices of the
/// configuration alone: equal inputs give the same line, every time.
pub proof fn lemma_line_is_determined_by_its_inputs(
    first: ResourceRecord,
    first_config: OutputConfig,
    second: ResourceRecord,
    second_config: OutputConfig,
)
    requires
        first.record_type == second.record_type,
        first.name@ == second.name@,
        first.ttl == second.ttl,
        first.payload_text() == second.payload_text(),
        first_config.spec_format_seconds() == second_config.spec_format_seconds(),
        first_config.spec_ansi() == second_config.spec_ansi(),
    ensures
        line_text(first, first_config) == line_text(second, second_config),
{
}

/// Puts the four fields of a line together: with colors where `color` gives
/// the palette entry for the type field, without any where it gives none.
pub fn compose_line(
    type_text: &str,
    name: &str,
    ttl: &str,
    payload: &str,
    color: Option<u8>,
) -> (line: String)
    ensures
        line@ == match color {
            Some(index) => colored_line(type_text@, name@, ttl@, payload@, index),
            None => plain_line(type_text@, name@, ttl@, payload@),
        },
{
    let mut line = String::new();
    match color {
        None => {
            push_padded(&mut line, type_text, TYPE_WIDTH, ' ');
            line.push(' ');
            line.append(name);
            line.push(' ');
            push_padded(&mut line, ttl, TTL_WIDTH, ' ');
            line.push(' ');
            line.append(payload);
            assert(line@ =~= plain_line(type_text@, name@, ttl@, payload@));
        },
        Some(index) => {
            let type_start = fg_start_sequence(index);
            let name_start = fg_start_sequence(NAME_COLOR);
            let reset = fg_reset_sequence();
            line.append(type_start.as_str());
            push_padded(&mut line, type_text, TYPE_WIDTH, ' ');
            line.append(reset);
            line.push(' ');
            line.append(name_start.as_str());
            line.append(name);
            line.append(reset);
            line.push(' ');
            push_padded(&mut line, ttl, TTL_WIDTH, ' ');
            line.push(' ');
            line.append(payload);
            assert(line@ =~= colored_line(type_text@, name@, ttl@, payload@, index));
        },
    }
    line
}

/// Renders one record under one configuration.
pub struct RecordFormatter<'a> {
    result: ResourceRecord,
    config: &'a OutputConfig,
}

impl<'a> RecordFormatter<'a> {
    /// The record that this formatter renders.
    pub closed spec fn record(&self) -> ResourceRecord {
        self.result
    }

    /// The configuration that this formatter renders under.
    pub closed spec fn settings(&self) -> OutputConfig {
        *self.config
    }

    pub fn new(result: ResourceRecord, config: &'a OutputConfig) -> (formatter: Self)
        ensures
            formatter.record() == result,
            formatter.settings() == *config,
    {
        Self { result, config }
    }

    /// The whole line. Unless the record's name or payload brings an escape
    /// character of its own, a line without colors holds none, and what is
    /// visible of a line with colors is the line without them.
    pub fn format(&self) -> (line: String)
        ensures
            line@ == line_text(self.record(), self.settings()),
            no_escape(self.record().name@) && no_escape(self.record().payload_text()) ==> {
                &&& visible_text(line@) == plain_line(
                    type_mnemonic(self.record().record_type),
                    self.record().name@,
                    ttl_text(self.record().ttl as nat, self.settings().spec_format_seconds()),
                    self.record().payload_text(),
                )
                &&& !self.settings().spec_ansi() ==> no_escape(line@)
            },
    {
        let type_text = self.format_record_type();
        let name = self.format_name();
        let ttl = self.format_duration();
        let payload = self.format_payload();
        let color = if self.config.ansi() {
            Some(self.get_record_color())
        } else {
            None
        };
        let line = compose_line(
            type_text.as_str(),
            name.as_str(),
            ttl.as_str(),
            payload.as_str(),
            color,
        );
        proof {
            if no_escape(name@) && no_escape(payload@) {
                let seconds = self.result.ttl as nat;
                let format_seconds = self.config.spec_format_seconds();
                match color {
                    Some(index) => {
                        lemma_colored_line_shows_plain_line(
                            type_text@,
                            name@,
                            seconds,
                            format_seconds,
                            payload@,
                            index,
                        );
                    },
                    None => {
                        lemma_plain_line_no_escape(
                            type_text@,
                            name@,
                            seconds,
                            format_seconds,
                            payload@,
                        );
                        lemma_plain_text_is_visible(line@);
                    },
                }
            }
        }
        line
    }

    /// The mnemonic of the record's type, which holds no escape character.
    pub fn format_record_type(&self) -> (text: String)
        ensures
            text@ == type_mnemonic(self.record().record_type),
            no_escape(text@),
    {
        let text = record_type_text(self.result.record_type);
        assert forall|i: int| 0 <= i < text@.len() implies #[trigger] text@[i] != ESC by {
            assert(is_ascii_alphanumeric(text@[i]));
        }
        text
    }

    /// The record's name.
    pub fn format_name(&self) -> (text: String)
        ensures
            text@ == self.record().name@,
    {
        self.result.name.clone()
    }

    /// The record data as text; nothing where the record has none.
    pub fn format_payload(&self) -> (text: String)
        ensures
            text@ == self.record().payload_text(),
    {
        match &self.result.payload {
            Some(data) => data.clone(),
            None => String::new(),
        }
    }

    /// The time to live: a compact duration where the configuration asks for
    /// one, else the count of seconds in decimal.
    pub fn format_duration(&self) -> (text: String)
        ensures
            text@ == ttl_text(self.record().ttl as nat, self.settings().spec_format_seconds()),
    {
        let seconds = self.result.ttl;
        if !self.config.format_seconds() {
            return render_seconds(seconds);
        }
        render_duration(seconds)
    }

    /// The palette entry for the record's type.
    pub fn get_record_color(&self) -> (index: u8)
        ensures
            index == palette_index(self.record().record_type),
    {
        record_color(self.result.record_type)
    }
}

} // verus!
