//! The values that an operation carries.

use crate::decimal::{decimal, decimal_chars, number_or_zero, parse_number};
use crate::text::{chars_of, string_of};
use vstd::prelude::*;
use vstd::std_specs::convert::FromSpecImpl;

verus! {

/// A value: a whole number or a text.
#[derive(Debug, PartialEq)]
pub enum OperandEnum {
    Number(u32),
    String(String),
}

/// A value that an operation carries.
#[derive(Debug, PartialEq)]
pub struct Operand(pub OperandEnum);

impl Clone for OperandEnum {
    fn clone(&self) -> (r: Self)
        ensures
            Operand(r)@ == Operand(*self)@,
    {
        match self {
            OperandEnum::Number(n) => OperandEnum::Number(*n),
            OperandEnum::String(s) => OperandEnum::String(s.clone()),
        }
    }
}

impl Clone for Operand {
    fn clone(&self) -> (r: Self)
        ensures
            r@ == self@,
    {
        Operand(self.0.clone())
    }
}

/// The mathematical value of an `Operand`.
pub enum OperandView {
    Number(u32),
    Text(Seq<char>),
}

impl View for Operand {
    type V = OperandView;

    open spec fn view(&self) -> OperandView {
        match self.0 {
            OperandEnum::Number(n) => OperandView::Number(n),
            OperandEnum::String(s) => OperandView::Text(s@),
        }
    }
}

impl OperandView {
    /// The operand as a number: a number is itself, a text is what it reads
    /// as, and zero where it reads as no number.
    pub open spec fn number(self) -> u32 {
        match self {
            OperandView::Number(n) => n,
            OperandView::Text(s) => number_or_zero(s),
        }
    }

    /// The operand as a text: a text is itself, a number is written in decimal.
    pub open spec fn text(self) -> Seq<char> {
        match self {
            OperandView::Number(n) => decimal(n as nat),
            OperandView::Text(s) => s,
        }
    }
}

impl Operand {
    /// The operand as a number.
    pub fn to_number(&self) -> (n: u32)
        ensures
            n == self@.number(),
    {
        match &self.0 {
            OperandEnum::Number(n) => *n,
            OperandEnum::String(s) => {
                match parse_number(&chars_of(s.as_str())) {
                    Some(n) => n,
                    None => 0,
                }
            },
        }
    }

    /// The operand as a text.
    pub fn to_text(&self) -> (s: String)
        ensures
            s@ == self@.text(),
    {
        match &self.0 {
            OperandEnum::Number(n) => string_of(&decimal_chars(*n)),
            OperandEnum::String(s) => s.clone(),
        }
    }

    /// The characters of the operand as a text.
    pub fn to_chars(&self) -> (v: Vec<char>)
        ensures
            v@ == self@.text(),
    {
        match &self.0 {
            OperandEnum::Number(n) => decimal_chars(*n),
            OperandEnum::String(s) => chars_of(s.as_str()),
        }
    }
}

impl From<Operand> for u32 {
    fn from(operand: Operand) -> (n: u32) {
        operand.to_number()
    }
}

impl FromSpecImpl<Operand> for u32 {
    open spec fn obeys_from_spec() -> bool {
        true
    }

    open spec fn from_spec(operand: Operand) -> u32 {
        operand@.number()
    }
}

impl From<&Operand> for u32 {
    fn from(operand: &Operand) -> (n: u32) {
        operand.to_number()
    }
}

impl FromSpecImpl<&Operand> for u32 {
    open spec fn obeys_from_spec() -> bool {
        true
    }

    open spec fn from_spec(operand: &Operand) -> u32 {
        operand@.number()
    }
}

impl From<Operand> for String {
    fn from(operand: Operand) -> (s: String)
        ensures
            s@ == operand@.text(),
    {
        operand.to_text()
    }
}

impl FromSpecImpl<Operand> for String {
    open spec fn obeys_from_spec() -> bool {
        false
    }

    open spec fn from_spec(operand: Operand) -> String {
        arbitrary()
    }
}

impl From<&Operand> for String {
    fn from(operand: &Operand) -> (s: String)
        ensures
            s@ == operand@.text(),
    {
        operand.to_text()
    }
}

impl FromSpecImpl<&Operand> for String {
    open spec fn obeys_from_spec() -> bool {
        false
    }

    open spec fn from_spec(operand: &Operand) -> String {
        arbitrary()
    }
}

} // verus!
