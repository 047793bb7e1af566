//! The parse-or-schema failure: invalid syntax, an unknown field, or a
//! wrongly-typed field.
use vstd::prelude::*;

verus! {

/// Why a document was rejected. `Syntax` carries the external parser's
/// message; the other variants carry the offending key.
#[derive(Debug, Clone, PartialEq)]
pub enum ParseError {
    Syntax(String),
    UnknownKey(String),
    WrongType(String),
}

/// The model of a `ParseError`: the parser's message is not specified.
#[verifier::ext_equal]
pub enum ParseErrModel {
    Syntax,
    UnknownKey(Seq<char>),
    WrongType(Seq<char>),
}

impl ParseError {
    pub open spec fn model(self) -> ParseErrModel {
        match self {
            ParseError::Syntax(_) => ParseErrModel::Syntax,
            ParseError::UnknownKey(k) => ParseErrModel::UnknownKey(k@),
            ParseError::WrongType(k) => ParseErrModel::WrongType(k@),
        }
    }

    /// A short description of the fault.
    pub fn message(&self) -> (r: String)
        ensures
            self is Syntax ==> r@ == self->Syntax_0@,
    {
        match self {
            ParseError::Syntax(m) => m.clone(),
            ParseError::UnknownKey(k) => {
                let mut m = String::from_str("unknown configuration key: ");
                m.append(k.as_str());
                m
            },
            ParseError::WrongType(k) => {
                let mut m = String::from_str("wrong value type for key: ");
                m.append(k.as_str());
                m
            },
        }
    }
}

impl View for ParseError {
    type V = ParseErrModel;

    open spec fn view(&self) -> ParseErrModel {
        self.model()
    }
}

/// Compare a key with a literal, by contents.
pub fn str_is(k: &String, lit: &str) -> (r: bool)
    ensures
        r == (k@ == lit@),
{
    k.eq(&String::from_str(lit))
}

} // verus!
