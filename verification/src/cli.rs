//! The command line, once its arguments are split: which record types to ask
//! for, which name, and how to render the answers.

use std::str::FromStr;
use vstd::prelude::*;
use hickory_client::proto::error::ProtoError;
use hickory_client::rr::{Name, RecordType};
use crate::config::OutputConfig;
use crate::error::{AppError, ConnectionType};

verus! {

/// A parsed domain name of the DNS library.
#[verifier::external_type_specification]
#[verifier::external_body]
pub struct ExName(Name);

/// The DNS library's parse error.
#[verifier::external_type_specification]
#[verifier::external_body]
pub struct ExProtoError(ProtoError);

/// The arguments of one invocation.
#[derive(Clone, Debug)]
pub struct Cli {
    /// The domain name to resolve.
    pub name: String,
    /// The mnemonics of the record types to ask for.
    pub record_types: Vec<String>,
    /// The address of the DNS server.
    pub server: String,
    /// Colors are switched off.
    pub no_ansi: bool,
    /// The time to live is shown in bare seconds.
    pub seconds: bool,
    /// The transport to reach the server by.
    pub connection: ConnectionType,
}

/// An ASCII lower-case letter stands somewhere in `text`.
pub open spec fn has_lowercase(text: Seq<char>) -> bool {
    exists|i: int| 0 <= i < text.len() && 'a' <= #[trigger] text[i] && text[i] <= 'z'
}

/// The type code that the DNS library gives for a mnemonic written without
/// lower-case letters; `None` where it knows no such mnemonic.
pub uninterp spec fn mnemonic_code(text: Seq<char>) -> Option<u16>;

/// The type code that a record type argument stands for. Mnemonics are
/// written in upper case: a text with a lower-case letter stands for none.
pub open spec fn type_code_of(text: Seq<char>) -> Option<u16> {
    if has_lowercase(text) {
        None
    } else {
        mnemonic_code(text)
    }
}

/// The views of a list of strings.
pub open spec fn texts(items: Seq<String>) -> Seq<Seq<char>> {
    Seq::new(items.len(), |i: int| items[i]@)
}

/// `items` without repetitions: of equal entries only the first stays, and
/// the entries that stay keep their order.
pub open spec fn distinct_in_order(items: Seq<Seq<char>>) -> Seq<Seq<char>>
    decreases items.len(),
{
    if items.len() == 0 {
        Seq::empty()
    } else {
        let front = distinct_in_order(items.drop_last());
        if items.drop_last().contains(items.last()) {
            front
        } else {
            front.push(items.last())
        }
    }
}

/// Every entry of `items` stands for a record type.
pub open spec fn all_known(items: Seq<Seq<char>>) -> bool {
    forall|i: int| 0 <= i < items.len() ==> (#[trigger] type_code_of(items[i])) is Some
}

/// `index` is the place of the first entry of `items` that stands for no
/// record type.
pub open spec fn is_first_unknown(items: Seq<Seq<char>>, index: int) -> bool {
    &&& 0 <= index < items.len()
    &&& type_code_of(items[index]) is None
    &&& all_known(items.take(index))
}

/// A record type argument together with the type code it was found to stand
/// for, if any.
pub type Lookup = (Seq<char>, Option<u16>);

/// The views of a list of arguments with their type codes.
pub open spec fn lookups(entries: Seq<(String, Option<u16>)>) -> Seq<Lookup> {
    Seq::new(entries.len(), |i: int| (entries[i].0@, entries[i].1))
}

/// Each argument of `items` with the type code that it stands for.
pub open spec fn looked_up(items: Seq<Seq<char>>) -> Seq<Lookup> {
    Seq::new(items.len(), |i: int| (items[i], type_code_of(items[i])))
}

/// The argument `text` stands among `entries`.
pub open spec fn occurs(entries: Seq<Lookup>, text: Seq<char>) -> bool {
    exists|j: int| 0 <= j < entries.len() && (#[trigger] entries[j]).0 == text
}

/// The type codes of `entries` in their order, each argument counted where
/// it first occurs and never again.
pub open spec fn selected_codes(entries: Seq<Lookup>) -> Seq<u16>
    decreases entries.len(),
{
    if entries.len() == 0 {
        Seq::empty()
    } else {
        let front = selected_codes(entries.drop_last());
        match entries.last().1 {
            Some(code) if !occurs(entries.drop_last(), entries.last().0) => front.push(code),
            _ => front,
        }
    }
}

/// Every entry has a type code.
pub open spec fn all_found(entries: Seq<Lookup>) -> bool {
    forall|i: int| 0 <= i < entries.len() ==> (#[trigger] entries[i]).1 is Some
}

/// `index` is the place of the first entry without a type code.
pub open spec fn is_first_missing(entries: Seq<Lookup>, index: int) -> bool {
    &&& 0 <= index < entries.len()
    &&& entries[index].1 is None
    &&& all_found(entries.take(index))
}

/// `RecordType::from_str`, with the type it finds turned into its type code
/// by `u16::from`. The library matches the text against its mnemonics; in a
/// debug build it asserts first that the text has no lower-case letter.
#[verifier::external_body]
fn lookup_mnemonic(text: &str) -> (code: Option<u16>)
    requires
        !has_lowercase(text@),
    ensures
        code == mnemonic_code(text@),
{
    RecordType::from_str(text).ok().map(u16::from)
}

/// Whether the DNS library takes `text` for a domain name.
pub uninterp spec fn is_domain_name(text: Seq<char>) -> bool;

/// `Name::from_str`: the text parsed as a domain name, or the library's
/// account of why it is none. Which of the two comes back is decided by the
/// text alone.
#[verifier::external_body]
fn name_from_text(text: &str) -> (parsed: Result<Name, ProtoError>)
    ensures
        parsed is Ok <==> is_domain_name(text@),
{
    Name::from_str(text)
}

/// Whether an ASCII lower-case letter stands in `text`.
pub fn contains_lowercase(text: &str) -> (found: bool)
    ensures
        found == has_lowercase(text@),
{
    let len: usize = text.unicode_len();
    let mut i: usize = 0;
    while i < len
        invariant
            len == text@.len(),
            i <= len,
            forall|k: int| 0 <= k < i ==> !('a' <= #[trigger] text@[k] && text@[k] <= 'z'),
        decreases len - i,
    {
        let c = text.get_char(i);
        if 'a' <= c && c <= 'z' {
            return true;
        }
        i += 1;
    }
    false
}

/// The type code that one record type argument stands for.
pub fn parse_record_type(text: &str) -> (code: Option<u16>)
    ensures
        code == type_code_of(text@),
{
    if contains_lowercase(text) {
        None
    } else {
        lookup_mnemonic(text)
    }
}

/// What a parsed name, or the failure to parse `raw`, means to the caller:
/// the name itself, or the error that names the text.
pub fn domain_name_outcome(raw: &str, parsed: Result<Name, ProtoError>) -> (outcome: Result<
    Name,
    AppError,
>)
    ensures
        match parsed {
            Ok(name) => outcome == Ok::<Name, AppError>(name),
            Err(_) => outcome matches Err(AppError::InvalidDomainName(text)) && text@ == raw@,
        },
{
    match parsed {
        Ok(name) => Ok(name),
        Err(_) => Err(AppError::InvalidDomainName(raw.to_owned())),
    }
}

/// The type codes to ask for, given each record type argument with the type
/// code it stands for: one code for each distinct argument, in the order in
/// which the arguments first occur. Where an argument has no type code, the
/// error names the first such argument.
pub fn select_record_types(entries: &Vec<(String, Option<u16>)>) -> (outcome: Result<
    Vec<u16>,
    AppError,
>)
    ensures
        match outcome {
            Ok(codes) => all_found(lookups(entries@)) && codes@ == selected_codes(
                lookups(entries@),
            ),
            Err(error) => exists|index: int|
                {
                    &&& #[trigger] is_first_missing(lookups(entries@), index)
                    &&& error matches AppError::UnknownRecordType(text)
                    &&& text@ == entries@[index].0@
                },
        },
{
    let ghost all = lookups(entries@);
    let mut codes: Vec<u16> = Vec::new();
    let mut i: usize = 0;
    while i < entries.len()
        invariant
            all == lookups(entries@),
            i <= entries.len(),
            all_found(all.take(i as int)),
            codes@ == selected_codes(all.take(i as int)),
        decreases entries.len() - i,
    {
        let ghost before = all.take(i as int);
        let ghost upto = all.take(i + 1);
        proof {
            assert(upto.drop_last() =~= before);
            assert(upto.last() == all[i as int]);
        }
        let code = match entries[i].1 {
            Some(code) => code,
            None => {
                proof {
                    assert(is_first_missing(all, i as int));
                }
                return Err(AppError::UnknownRecordType(entries[i].0.clone()));
            },
        };
        let repeated = occurs_before(entries, i);
        proof {
            assert(repeated == occurs(before, all[i as int].0)) by {
                if repeated {
                    let j = choose|j: int| 0 <= j < i && (#[trigger] entries@[j]).0@ == entries@[i as int].0@;
                    assert(before[j].0 == all[i as int].0);
                }
                if occurs(before, all[i as int].0) {
                    let j = choose|j: int|
                        0 <= j < before.len() && (#[trigger] before[j]).0 == all[i as int].0;
                    assert(entries@[j].0@ == entries@[i as int].0@);
                }
            }
            assert forall|k: int| 0 <= k < upto.len() implies (#[trigger] upto[k]).1 is Some by {
                if k < i {
                    assert(upto[k] == before[k]);
                }
            }
        }
        if !repeated {
            codes.push(code);
        }
        i += 1;
    }
    proof {
        assert(all.take(i as int) =~= all);
    }
    Ok(codes)
}

/// Whether the argument at `index` repeats an earlier one.
fn occurs_before(entries: &Vec<(String, Option<u16>)>, index: usize) -> (found: bool)
    requires
        index < entries@.len(),
    ensures
        found == exists|j: int|
            0 <= j < index && (#[trigger] entries@[j]).0@ == entries@[index as int].0@,
{
    let mut j: usize = 0;
    while j < index
        invariant
            j <= index,
            index < entries@.len(),
            forall|k: int| 0 <= k < j ==> (#[trigger] entries@[k]).0@ != entries@[index as int].0@,
        decreases index - j,
    {
        if entries[j].0 == entries[index].0 {
            return true;
        }
        j += 1;
    }
    false
}

/// The entries of the deduplicated list are those of the list itself.
pub proof fn lemma_distinct_keeps_every_entry(items: Seq<Seq<char>>)
    ensures
        forall|text: Seq<char>| #[trigger]
            distinct_in_order(items).contains(text) <==> items.contains(text),
    decreases items.len(),
{
    if items.len() > 0 {
        let shorter = items.drop_last();
        let front = distinct_in_order(shorter);
        lemma_distinct_keeps_every_entry(shorter);
        let whole = distinct_in_order(items);
        assert forall|text: Seq<char>| #[trigger] whole.contains(text) <==> items.contains(
            text,
        ) by {
            if whole.contains(text) {
                let k = choose|k: int| 0 <= k < whole.len() && whole[k] == text;
                if k < front.len() {
                    assert(front[k] == text);
                    assert(front.contains(text));
                    assert(shorter.contains(text));
                    let j = choose|j: int| 0 <= j < shorter.len() && shorter[j] == text;
                    assert(items[j] == text);
                } else {
                    assert(text == items.last());
                    assert(items[items.len() - 1] == text);
                }
            }
            if items.contains(text) {
                let j = choose|j: int| 0 <= j < items.len() && items[j] == text;
                if j < shorter.len() {
                    assert(shorter[j] == text);
                    assert(shorter.contains(text));
                    assert(front.contains(text));
                    let k = choose|k: int| 0 <= k < front.len() && front[k] == text;
                    assert(whole[k] == text);
                } else {
                    assert(text == items.last());
                    if shorter.contains(text) {
                        assert(front.contains(text));
                        let k = choose|k: int| 0 <= k < front.len() && front[k] == text;
                        assert(whole[k] == text);
                    } else {
                        assert(whole[whole.len() - 1] == text);
                    }
                }
            }
        }
    }
}

/// No entry occurs twice in the deduplicated list.
pub proof fn lemma_distinct_has_no_repetition(items: Seq<Seq<char>>)
    ensures
        forall|i: int, j: int|
            0 <= i < j < distinct_in_order(items).len() ==> distinct_in_order(items)[i]
                != distinct_in_order(items)[j],
    decreases items.len(),
{
    if items.len() > 0 {
        let front = distinct_in_order(items.drop_last());
        lemma_distinct_has_no_repetition(items.drop_last());
        lemma_distinct_keeps_every_entry(items.drop_last());
        let whole = distinct_in_order(items);
        assert forall|i: int, j: int| 0 <= i < j < whole.len() implies whole[i] != whole[j] by {
            if j < front.len() {
                assert(whole[i] == front[i] && whole[j] == front[j]);
            } else {
                assert(whole[i] == front[i]);
                assert(front.contains(front[i]));
            }
        }
    }
}

/// Where every argument stands for a record type, the selected type codes
/// are those of the distinct arguments, one for one and in their order.
pub proof fn lemma_selected_codes_follow_distinct_arguments(items: Seq<Seq<char>>)
    requires
        all_known(items),
    ensures
        selected_codes(looked_up(items)).len() == distinct_in_order(items).len(),
        forall|k: int|
            0 <= k < distinct_in_order(items).len() ==> type_code_of(
                #[trigger] distinct_in_order(items)[k],
            ) == Some(selected_codes(looked_up(items))[k]),
    decreases items.len(),
{
    if items.len() > 0 {
        let shorter = items.drop_last();
        let entries = looked_up(items);
        assert(entries.drop_last() =~= looked_up(shorter));
        assert(all_known(shorter)) by {
            assert forall|i: int| 0 <= i < shorter.len() implies (#[trigger] type_code_of(
                shorter[i],
            )) is Some by {
                assert(shorter[i] == items[i]);
                assert(type_code_of(items[i]) is Some);
            }
        }
        lemma_selected_codes_follow_distinct_arguments(shorter);
        let last = items.last();
        assert(entries.last() == (last, type_code_of(last)));
        assert(type_code_of(items[items.len() - 1]) is Some);
        assert(occurs(looked_up(shorter), last) == shorter.contains(last)) by {
            if occurs(looked_up(shorter), last) {
                let j = choose|j: int|
                    0 <= j < looked_up(shorter).len() && (#[trigger] looked_up(shorter)[j]).0
                        == last;
                assert(shorter[j] == last);
            }
            if shorter.contains(last) {
                let j = choose|j: int| 0 <= j < shorter.len() && shorter[j] == last;
                assert(looked_up(shorter)[j].0 == last);
            }
        }
    }
}

impl Cli {
    /// The type codes to ask for, one for each distinct record type argument,
    /// in the order in which the arguments first occur. Where an argument
    /// stands for no record type, the error names the first such argument.
    pub fn parse_record_types(&self) -> (outcome: Result<Vec<u16>, AppError>)
        ensures
            match outcome {
                Ok(codes) => {
                    &&& all_known(texts(self.record_types@))
                    &&& codes@ == selected_codes(looked_up(texts(self.record_types@)))
                    &&& codes@.len() == distinct_in_order(texts(self.record_types@)).len()
                    &&& forall|k: int|
                        0 <= k < codes@.len() ==> type_code_of(
                            #[trigger] distinct_in_order(texts(self.record_types@))[k],
                        ) == Some(codes@[k])
                },
                Err(error) => exists|index: int|
                    {
                        &&& #[trigger] is_first_unknown(texts(self.record_types@), index)
                        &&& error matches AppError::UnknownRecordType(text)
                        &&& text@ == self.record_types@[index]@
                    },
            },
    {
        let ghost items = texts(self.record_types@);
        let mut entries: Vec<(String, Option<u16>)> = Vec::new();
        let mut i: usize = 0;
        while i < self.record_types.len()
            invariant
                items == texts(self.record_types@),
                i <= self.record_types.len(),
                entries@.len() == i,
                lookups(entries@) == looked_up(items.take(i as int)),
            decreases self.record_types.len() - i,
        {
            let value = &self.record_types[i];
            let code = parse_record_type(value.as_str());
            let ghost before = entries@;
            let ghost shorter = items.take(i as int);
            entries.push((value.clone(), code));
            i += 1;
            proof {
                let longer = items.take(i as int);
                assert forall|k: int| 0 <= k < entries@.len() implies lookups(entries@)[k]
                    == looked_up(longer)[k] by {
                    if k < before.len() {
                        assert(entries@[k] == before[k]);
                        assert(lookups(before)[k] == looked_up(shorter)[k]);
                        assert(longer[k] == shorter[k]);
                    } else {
                        assert(longer[k] == value@);
                    }
                }
                assert(lookups(entries@) =~= looked_up(longer));
            }
        }
        proof {
            assert(items.take(i as int) =~= items);
        }
        let outcome = select_record_types(&entries);
        proof {
            let found = looked_up(items);
            match &outcome {
                Ok(codes) => {
                    assert forall|k: int| 0 <= k < items.len() implies (#[trigger] type_code_of(
                        items[k],
                    )) is Some by {
                        assert(found[k].1 is Some);
                    }
                    lemma_selected_codes_follow_distinct_arguments(items);
                },
                Err(error) => {
                    let index = choose|index: int|
                        {
                            &&& #[trigger] is_first_missing(found, index)
                            &&& error matches AppError::UnknownRecordType(text)
                            &&& text@ == entries@[index].0@
                        };
                    assert(found[index].1 is None);
                    assert forall|k: int| 0 <= k < index implies (#[trigger] type_code_of(
                        items.take(index)[k],
                    )) is Some by {
                        assert(found.take(index)[k].1 is Some);
                    }
                    assert(lookups(entries@)[index].0 == items[index]);
                    assert(is_first_unknown(items, index));
                },
            }
        }
        outcome
    }

    /// The domain name to resolve: a name exactly where the DNS library takes
    /// the text for one, and else the error that holds the text.
    pub fn parse_domain_name(&self) -> (outcome: Result<Name, AppError>)
        ensures
            match outcome {
                Ok(_) => is_domain_name(self.name@),
                Err(error) => {
                    &&& !is_domain_name(self.name@)
                    &&& error matches AppError::InvalidDomainName(text)
                    &&& text@ == self.name@
                },
            },
    {
        let parsed = name_from_text(self.name.as_str());
        domain_name_outcome(self.name.as_str(), parsed)
    }

    /// The rendering that the flags ask for: durations unless bare seconds
    /// were asked for, colors unless they were switched off.
    pub fn parse_output_config(&self) -> (config: OutputConfig)
        ensures
            config.spec_format_seconds() == !self.seconds,
            config.spec_ansi() == !self.no_ansi,
    {
        OutputConfig::new(!self.seconds, !self.no_ansi)
    }
}

} // verus!
