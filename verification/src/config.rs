//! Pieces of the configuration that carry rules of their own.

use crate::text::{replace, replace_all};
use vstd::prelude::*;

verus! {

/// What the chat filter does with a message that holds a filtered word.
#[derive(Clone, Copy, Debug, PartialEq, Eq, Structural)]
pub enum ChatFilterMode {
    /// The word is replaced.
    Replace,
    /// The message is not delivered.
    Cancel,
}

impl ChatFilterMode {
    /// The name of the mode in a configuration file.
    pub open spec fn name(self) -> Seq<char> {
        match self {
            ChatFilterMode::Replace => "replace"@,
            ChatFilterMode::Cancel => "cancel"@,
        }
    }

    /// The name of the mode in a configuration file.
    pub fn as_str(self) -> (r: &'static str)
        ensures
            r@ == self.name(),
    {
        match self {
            ChatFilterMode::Replace => "replace",
            ChatFilterMode::Cancel => "cancel",
        }
    }
}

/// `value` as it stands between double quotes in a configuration file: each
/// backslash doubled, then each double quote escaped, then each line feed
/// written as `\n`.
pub open spec fn yaml_escaped(value: Seq<char>) -> Seq<char> {
    replace_all(
        replace_all(replace_all(value, "\\"@, "\\\\"@), "\""@, "\\\""@),
        "\n"@,
        "\\n"@,
    )
}

/// Escapes a value for a double-quoted scalar of a configuration file.
pub fn yaml_escape(value: &str) -> (r: String)
    ensures
        r@ == yaml_escaped(value@),
{
    let first = replace(value, "\\", "\\\\");
    let second = replace(first.as_str(), "\"", "\\\"");
    replace(second.as_str(), "\n", "\\n")
}

} // verus!
