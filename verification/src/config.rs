//! The configuration resolver: the round trip between group-name tokens and
//! statement shapes, with the permissive fallback for unrecognized tokens.

use crate::compare::str_eq;
use crate::types::ImportTypes;
use vstd::prelude::*;

verus! {

/// The group name of a statement shape.
pub open spec fn kind_name(t: ImportTypes) -> Seq<char> {
    match t {
        ImportTypes::SideEffect => "none"@,
        ImportTypes::All => "all"@,
        ImportTypes::Multiple => "multiple"@,
        ImportTypes::Single => "single"@,
    }
}

/// The statement shape a group-name token resolves to; every unrecognized
/// token falls back to the side-effect group rather than failing.
pub open spec fn spec_str_to_import_types(s: Seq<char>) -> ImportTypes {
    if s == "none"@ {
        ImportTypes::SideEffect
    } else if s == "all"@ {
        ImportTypes::All
    } else if s == "multiple"@ {
        ImportTypes::Multiple
    } else if s == "single"@ {
        ImportTypes::Single
    } else {
        ImportTypes::SideEffect
    }
}

/// The default group order: side-effect imports first, then namespace,
/// multiple-name and single-name imports.
pub open spec fn default_group_order() -> Seq<ImportTypes> {
    seq![ImportTypes::SideEffect, ImportTypes::All, ImportTypes::Multiple, ImportTypes::Single]
}

/// Resolves one group-name token.
pub fn str_to_import_types(import_type_str: &str) -> (t: ImportTypes)
    ensures
        t == spec_str_to_import_types(import_type_str@),
{
    if str_eq(import_type_str, "none") {
        ImportTypes::SideEffect
    } else if str_eq(import_type_str, "all") {
        ImportTypes::All
    } else if str_eq(import_type_str, "multiple") {
        ImportTypes::Multiple
    } else if str_eq(import_type_str, "single") {
        ImportTypes::Single
    } else {
        ImportTypes::SideEffect
    }
}

/// The group name of a statement shape, for diagnostic messages.
pub fn import_types_to_string(import_type: &ImportTypes) -> (s: String)
    ensures
        s@ == kind_name(*import_type),
{
    match import_type {
        ImportTypes::SideEffect => String::from_str("none"),
        ImportTypes::All => String::from_str("all"),
        ImportTypes::Multiple => String::from_str("multiple"),
        ImportTypes::Single => String::from_str("single"),
    }
}

/// Resolves a whole group-order configuration, token by token.
pub fn config_to_enum(config: [&str; 4]) -> (v: Vec<ImportTypes>)
    ensures
        v@.len() == 4,
        forall|i: int| 0 <= i < 4 ==> v@[i] == spec_str_to_import_types(config@[i]@),
{
    let mut v: Vec<ImportTypes> = Vec::new();
    v.push(str_to_import_types(config[0]));
    v.push(str_to_import_types(config[1]));
    v.push(str_to_import_types(config[2]));
    v.push(str_to_import_types(config[3]));
    v
}

} // verus!
