//! Timestamp strings to epoch seconds, a whole batch or nothing.

use vstd::prelude::*;

verus! {

/// The format of a source timestamp: date, `T`, time of day, and a signed
/// offset from UTC whose minutes may be left out, as in
/// `2020-01-01T00:00:00+00`.
pub const TIMESTAMP_FORMAT: &'static str = "%Y-%m-%dT%T%#z";

/// Why a batch of timestamps was not converted.
#[derive(Clone, Copy, Debug, PartialEq, Eq)]
pub enum ConversionError {
    /// Only `got` of the `expected` strings could be read.
    Lossy { expected: usize, got: usize },
}

/// What `chrono::DateTime::parse_from_str` makes of `text` under `format`,
/// as epoch seconds: `None` where it reports an error.
pub uninterp spec fn parsed_epoch(text: Seq<char>, format: Seq<char>) -> Option<i64>;

/// Reads one timestamp with `chrono::DateTime::parse_from_str` and takes the
/// epoch seconds of the moment with `chrono::DateTime::timestamp`.
///
/// Trusted: the outcome depends on `text` and `format` alone (the format
/// items are not localized, and the offset comes from the text), and under
/// [`TIMESTAMP_FORMAT`] the parser reports every text that it cannot read
/// as an error. Other formats are left out: some of their items, such as
/// the ISO week date, reach arithmetic that can overflow on extreme years.
#[verifier::external_body]
fn parse_epoch(text: &str, format: &str) -> (epoch: Option<i64>)
    requires
        format@ == TIMESTAMP_FORMAT@,
    ensures
        epoch == parsed_epoch(text@, format@),
{
    match chrono::DateTime::parse_from_str(text, format) {
        Ok(moment) => Some(moment.timestamp()),
        Err(_) => None,
    }
}

/// How many entries of `parsed` hold a value.
pub open spec fn count_some(parsed: Seq<Option<i64>>) -> nat
    decreases parsed.len(),
{
    if parsed.len() == 0 {
        0
    } else {
        count_some(parsed.drop_last()) + if parsed.last() is Some { 1nat } else { 0nat }
    }
}

/// Every entry of `parsed` holds a value.
pub open spec fn all_some(parsed: Seq<Option<i64>>) -> bool {
    forall|i: int| 0 <= i < parsed.len() ==> (#[trigger] parsed[i]) is Some
}

/// The values of `parsed`, entry by entry.
pub open spec fn unwrapped(parsed: Seq<Option<i64>>) -> Seq<i64> {
    Seq::new(parsed.len(), |i: int| parsed[i]->Some_0)
}

/// The outcome of reading each of `strings` under `format`, in order.
pub open spec fn parse_all(strings: Seq<String>, format: Seq<char>) -> Seq<Option<i64>> {
    Seq::new(strings.len(), |i: int| parsed_epoch(strings[i]@, format))
}

/// No more entries hold a value than there are entries, and all do exactly
/// when the count reaches the length.
pub proof fn lemma_count_some(parsed: Seq<Option<i64>>)
    ensures
        count_some(parsed) <= parsed.len(),
        count_some(parsed) == parsed.len() <==> all_some(parsed),
    decreases parsed.len(),
{
    if parsed.len() > 0 {
        let front = parsed.drop_last();
        lemma_count_some(front);
        if all_some(parsed) {
            assert forall|i: int| 0 <= i < front.len() implies (#[trigger] front[i]) is Some by {
                assert(parsed[i] is Some);
            }
            assert(parsed.last() is Some);
        }
        if count_some(parsed) == parsed.len() {
            assert forall|i: int| 0 <= i < parsed.len() implies (#[trigger] parsed[i]) is Some by {
                if i < front.len() {
                    assert(front[i] is Some);
                }
            }
        }
    }
}

/// Turns the outcomes of reading a batch into its epoch seconds: all of
/// them, in order, where every entry was read, and otherwise the error that
/// tells how many were expected and how many were read.
pub fn collect_batch(parsed: &Vec<Option<i64>>) -> (result: Result<Vec<i64>, ConversionError>)
    ensures
        match result {
            Ok(epochs) => all_some(parsed@) && epochs@ == unwrapped(parsed@),
            Err(ConversionError::Lossy { expected, got }) => {
                &&& !all_some(parsed@)
                &&& expected == parsed.len()
                &&& got == count_some(parsed@)
            },
        },
{
    let mut epochs: Vec<i64> = Vec::new();
    let mut i: usize = 0;
    while i < parsed.len()
        invariant
            i <= parsed.len(),
            epochs.len() == count_some(parsed@.subrange(0, i as int)),
            epochs.len() <= i,
            epochs.len() == i ==> epochs@ == unwrapped(parsed@.subrange(0, i as int)),
        decreases parsed.len() - i,
    {
        proof {
            assert(parsed@.subrange(0, i + 1).drop_last() == parsed@.subrange(0, i as int));
            lemma_count_some(parsed@.subrange(0, i as int));
        }
        match parsed[i] {
            Some(epoch) => {
                epochs.push(epoch);
            },
            None => {},
        }
        i = i + 1;
    }
    proof {
        assert(parsed@.subrange(0, i as int) == parsed@);
        lemma_count_some(parsed@);
    }
    if epochs.len() == parsed.len() {
        Ok(epochs)
    } else {
        Err(ConversionError::Lossy { expected: parsed.len(), got: epochs.len() })
    }
}

/// Converts a batch of timestamp strings to epoch seconds, in input order.
///
/// The batch converts only as a whole: where any string cannot be read
/// under `format`, the result is the error that tells how many strings there
/// were and how many of them could be read. The format is the one fixed
/// format of source timestamps, [`TIMESTAMP_FORMAT`].
pub fn convert(strings: &Vec<String>, format: &str) -> (result: Result<Vec<i64>, ConversionError>)
    requires
        format@ == TIMESTAMP_FORMAT@,
    ensures
        match result {
            Ok(epochs) => {
                &&& all_some(parse_all(strings@, format@))
                &&& epochs@ == unwrapped(parse_all(strings@, format@))
            },
            Err(ConversionError::Lossy { expected, got }) => {
                &&& !all_some(parse_all(strings@, format@))
                &&& expected == strings.len()
                &&& got == count_some(parse_all(strings@, format@))
            },
        },
{
    let mut parsed: Vec<Option<i64>> = Vec::new();
    let mut i: usize = 0;
    while i < strings.len()
        invariant
            i <= strings.len(),
            format@ == TIMESTAMP_FORMAT@,
            parsed@ == parse_all(strings@.subrange(0, i as int), format@),
        decreases strings.len() - i,
    {
        let epoch = parse_epoch(strings[i].as_str(), format);
        parsed.push(epoch);
        i = i + 1;
    }
    assert(strings@.subrange(0, i as int) == strings@);
    collect_batch(&parsed)
}

} // verus!
