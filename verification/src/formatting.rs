//! Writing a value out as text.
use vstd::prelude::*;

verus! {

/// `std::fmt::Formatter`, to which text is written. Nothing is known of one.
#[verifier::external_type_specification]
#[verifier::external_body]
pub struct ExFormatter<'a>(std::fmt::Formatter<'a>);

/// `std::fmt::Error`, which says that text could not be written.
#[verifier::external_type_specification]
#[verifier::external_body]
pub struct ExFormatError(std::fmt::Error);

/// `std::fmt::DebugStruct`, which writes a struct out field by field. Nothing is known of one.
#[verifier::external_type_specification]
#[verifier::external_body]
pub struct ExDebugStruct<'a, 'b: 'a>(std::fmt::DebugStruct<'a, 'b>);

/// Starts to write a struct of this name, by `Formatter::debug_struct`. Nothing is claimed of the
/// text.
#[verifier::external_body]
pub(crate) fn debug_struct<'a, 'b>(
    f: &'a mut std::fmt::Formatter<'b>,
    name: &str,
) -> std::fmt::DebugStruct<'a, 'b> {
    f.debug_struct(name)
}

/// Writes a field, by `DebugStruct::field`. Nothing is claimed of the text.
#[verifier::external_body]
pub(crate) fn debug_field(entry: &mut std::fmt::DebugStruct<'_, '_>, name: &str, value: &usize) {
    entry.field(name, value);
}

/// Ends a struct that has more fields than were written, by `DebugStruct::finish_non_exhaustive`.
/// Nothing is claimed of the text, nor of when it cannot be written.
#[verifier::external_body]
pub(crate) fn debug_rest(entry: &mut std::fmt::DebugStruct<'_, '_>) -> Result<(), std::fmt::Error> {
    entry.finish_non_exhaustive()
}

/// Writes a string, by `Formatter::write_str`. Nothing is claimed of when it cannot be written.
#[verifier::external_body]
pub(crate) fn write_text(f: &mut std::fmt::Formatter<'_>, text: &str) -> Result<
    (),
    std::fmt::Error,
> {
    f.write_str(text)
}

} // verus!
