//! Writing values for a reader of messages, field by field.

use vstd::prelude::*;

verus! {

/// `std::fmt::Formatter`: where a value is written for a reader, and how.
#[verifier::external_type_specification]
#[verifier::external_body]
pub struct ExFormatter<'a>(std::fmt::Formatter<'a>);

/// `std::fmt::Error`: that something could not be written.
#[verifier::external_type_specification]
#[verifier::external_body]
pub struct ExFormatError(std::fmt::Error);

/// `std::fmt::DebugStruct`: a structure that is being written to a formatter.
#[verifier::external_type_specification]
#[verifier::external_body]
pub struct ExDebugStruct<'a, 'b: 'a>(std::fmt::DebugStruct<'a, 'b>);

/// Whether a structure of the given name may be begun on a formatter as the given one.
/// What a formatter writes to may fail at any time, so several outcomes are possible.
pub uninterp spec fn may_begin(
    formatter: std::fmt::Formatter<'_>,
    name: Seq<char>,
    begun: std::fmt::DebugStruct<'_, '_>,
) -> bool;

/// Whether a structure to which a number is written as a field may become the given one.
pub uninterp spec fn may_gain_field(
    before: std::fmt::DebugStruct<'_, '_>,
    field: Seq<char>,
    value: nat,
    after: std::fmt::DebugStruct<'_, '_>,
) -> bool;

/// Whether ending a structure may have the given result.
pub uninterp spec fn may_end(
    before: std::fmt::DebugStruct<'_, '_>,
    result: Result<(), std::fmt::Error>,
) -> bool;

/// Begins a structure, by `Formatter::debug_struct`. What is handed to it is stated; what
/// comes of it depends on where the formatter writes to.
#[verifier::external_body]
pub(crate) fn begin_struct<'a, 'b>(f: &'a mut std::fmt::Formatter<'b>, name: &str) -> (r:
    std::fmt::DebugStruct<'a, 'b>)
    ensures
        may_begin(*old(f), name@, r),
{
    f.debug_struct(name)
}

/// Writes a number as a field, by `DebugStruct::field`. What is handed to it is stated;
/// what comes of it depends on where the structure is written to.
#[verifier::external_body]
pub(crate) fn write_field(begun: &mut std::fmt::DebugStruct<'_, '_>, field: &str, value: usize)
    ensures
        may_gain_field(*old(begun), field@, value as nat, *final(begun)),
{
    begun.field(field, &value);
}

/// Ends a structure, by `DebugStruct::finish`. What comes of it depends on where the
/// structure is written to.
#[verifier::external_body]
pub(crate) fn end_struct(begun: &mut std::fmt::DebugStruct<'_, '_>) -> (r: Result<(), std::fmt::Error>)
    ensures
        may_end(*old(begun), r),
{
    begun.finish()
}

} // verus!
