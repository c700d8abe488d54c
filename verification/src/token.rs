//! Token and source-location data types, with their mathematical views.

use vstd::prelude::*;

use crate::grammar::TokenType;

verus! {

/// The position of the first character of a lexeme: a file name together
/// with one-based line and column numbers. Immutable once attached to a
/// token.
#[derive(Clone, Debug)]
pub struct Location {
    pub filename: String,
    pub line: usize,
    pub col: usize,
}

/// The mathematical value of a [`Location`].
pub ghost struct SpecLocation {
    pub filename: Seq<char>,
    pub line: int,
    pub col: int,
}

impl View for Location {
    type V = SpecLocation;

    open spec fn view(&self) -> SpecLocation {
        SpecLocation { filename: self.filename@, line: self.line as int, col: self.col as int }
    }
}

impl DeepView for Location {
    type V = SpecLocation;

    open spec fn deep_view(&self) -> SpecLocation {
        self.view()
    }
}

impl PartialEq for Location {
    fn eq(&self, other: &Location) -> (r: bool) {
        self.filename == other.filename && self.line == other.line && self.col == other.col
    }
}

impl vstd::std_specs::cmp::PartialEqSpecImpl for Location {
    open spec fn obeys_eq_spec() -> bool {
        true
    }

    open spec fn eq_spec(&self, other: &Location) -> bool {
        self@ == other@
    }
}

/// One classified lexeme: where it begins, what kind it is, and its exact
/// matched text. Immutable once constructed.
#[derive(Clone, Debug)]
pub struct Token {
    pub location: Location,
    pub token_type: TokenType,
    pub value: String,
}

/// The mathematical value of a [`Token`].
pub ghost struct SpecToken {
    pub location: SpecLocation,
    pub token_type: TokenType,
    pub value: Seq<char>,
}

impl View for Token {
    type V = SpecToken;

    open spec fn view(&self) -> SpecToken {
        SpecToken {
            location: self.location@,
            token_type: self.token_type,
            value: self.value@,
        }
    }
}

impl DeepView for Token {
    type V = SpecToken;

    open spec fn deep_view(&self) -> SpecToken {
        self.view()
    }
}

impl PartialEq for Token {
    fn eq(&self, other: &Token) -> (r: bool) {
        self.location == other.location && self.token_type == other.token_type && self.value
            == other.value
    }
}

impl vstd::std_specs::cmp::PartialEqSpecImpl for Token {
    open spec fn obeys_eq_spec() -> bool {
        true
    }

    open spec fn eq_spec(&self, other: &Token) -> bool {
        self@ == other@
    }
}

} // verus!
