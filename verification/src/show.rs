//! Debug output by hand, for the types whose fields are not to be shown as
//! they are stored.

use vstd::prelude::*;
use vstd::string::StringExecFns;

verus! {

/// `std::fmt::Formatter`: where debug output goes. What it holds stays
/// hidden, so nothing is claimed of what reaches the writer behind it.
#[verifier::external_type_specification]
#[verifier::external_body]
pub struct ExFormatter<'a>(std::fmt::Formatter<'a>);

/// `std::fmt::Error`: that the writer behind a formatter failed.
#[verifier::external_type_specification]
#[verifier::external_body]
pub struct ExFmtError(std::fmt::Error);

/// `Formatter::write_str` hands the text to the writer, which may fail.
pub assume_specification<'a>[ std::fmt::Formatter::<'a>::write_str ](
    f: &mut std::fmt::Formatter<'a>,
    data: &str,
) -> std::fmt::Result
;

/// `Formatter::alternate` tells whether the `#` flag was given.
pub assume_specification<'a>[ std::fmt::Formatter::<'a>::alternate ](
    f: &std::fmt::Formatter<'a>,
) -> bool
;

/// How a struct with one unnamed field is shown: on one line, or with the
/// field on a line of its own.
pub open spec fn tuple_text(name: Seq<char>, field: Seq<char>, pretty: bool) -> Seq<char> {
    if pretty {
        name + "(\n    "@ + field + ",\n)"@
    } else {
        name + "("@ + field + ")"@
    }
}

/// How a struct with one unnamed field is shown.
#[must_use]
pub fn show_tuple(name: &str, field: &str, pretty: bool) -> (r: String)
    ensures
        r@ == tuple_text(name@, field@, pretty),
{
    let mut out = name.to_string();
    if pretty {
        out.append("(\n    ");
        out.append(field);
        out.append(",\n)");
    } else {
        out.append("(");
        out.append(field);
        out.append(")");
    }
    out
}

/// A struct with one unnamed field is shown as its name and, in round
/// brackets, the field; where pretty, the field stands on a line of its own,
/// four blanks in and with a comma behind it.
pub proof fn law_tuple_shows_name_and_field(name: Seq<char>, field: Seq<char>)
    ensures
        tuple_text(name, field, false) == name.push('(') + field.push(')'),
        tuple_text(name, field, true) == name.push('(').push('\n').push(' ').push(' ').push(
            ' ',
        ).push(' ') + field.push(',').push('\n').push(')'),
{
    reveal_strlit("(");
    reveal_strlit(")");
    reveal_strlit("(\n    ");
    reveal_strlit(",\n)");
    assert(tuple_text(name, field, false) =~= name.push('(') + field.push(')'));
    assert(tuple_text(name, field, true) =~= name.push('(').push('\n').push(' ').push(' ').push(
        ' ',
    ).push(' ') + field.push(',').push('\n').push(')'));
}

}
