//! Errors of the domain rules. Their messages are the texts the commands
//! hand to the frontend.
use vstd::prelude::*;
use crate::text::{int_decimal, int_decimal_of, push_str, string_of, push_chars};

verus! {

/// Violation of a domain rule.
#[derive(Debug, PartialEq, Eq)]
pub enum DomainError {
    /// A rotation that is not 0, 90, 180 or 270 degrees.
    InvalidRotation(i32),
    /// A star rating outside 0..=5.
    InvalidStars(i32),
    /// A photo path from which no culling destination can be derived.
    InvalidPhotoPath(String),
}

impl DomainError {
    /// The message shown for this error.
    pub open spec fn spec_message(&self) -> Seq<char> {
        match self {
            DomainError::InvalidRotation(n) => "Rotación inválida: "@ + int_decimal(*n as int),
            DomainError::InvalidStars(n) => "Stars inválidas: "@ + int_decimal(*n as int),
            DomainError::InvalidPhotoPath(s) => s@,
        }
    }

    /// The message shown for this error (what `to_string` gave).
    pub fn message(&self) -> (s: String)
        ensures
            s@ == self.spec_message(),
    {
        match self {
            DomainError::InvalidRotation(n) => {
                let mut v: Vec<char> = Vec::new();
                push_str(&mut v, "Rotación inválida: ");
                let d = int_decimal_of(*n as i64);
                push_chars(&mut v, &d);
                string_of(&v)
            },
            DomainError::InvalidStars(n) => {
                let mut v: Vec<char> = Vec::new();
                push_str(&mut v, "Stars inválidas: ");
                let d = int_decimal_of(*n as i64);
                push_chars(&mut v, &d);
                string_of(&v)
            },
            DomainError::InvalidPhotoPath(s) => s.clone(),
        }
    }
}

} // verus!
