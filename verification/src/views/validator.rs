//! The validator interface input lines check their text against.
use vstd::prelude::*;

verus! {

/// Checks the text of an input line, as a whole and while it is typed.
pub trait Validator {
    /// Whether the complete text is acceptable.
    spec fn spec_is_valid(&self, input: Seq<char>) -> bool;

    /// Whether partial text may still become acceptable.
    spec fn spec_is_valid_input(&self, input: Seq<char>, append: bool) -> bool;

    fn is_valid(&self, input: &str) -> (b: bool)
        ensures
            b == self.spec_is_valid(input@),
    ;

    fn is_valid_input(&self, input: &str, append: bool) -> (b: bool)
        ensures
            b == self.spec_is_valid_input(input@, append),
    ;

    /// The message shown when the text is rejected.
    fn error_message(&self) -> String;

    /// `is_valid`, reporting through `error_message` what was wrong.
    fn valid(&self, input: &str) -> (b: bool)
        ensures
            b == self.spec_is_valid(input@),
    ;
}

} // verus!
