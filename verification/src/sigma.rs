//! The observation-error model's class.
//!
//! The per-observation standard deviation itself is a floating-point
//! polynomial evaluated by the numeric host; what is decided here is the
//! verified parsing of the class name, which accepts `additive` and
//! `proportional` in any ASCII case (class names are folded to lowercase).

use vstd::prelude::*;

verus! {

/// Whether γ scales the polynomial (proportional) or is added to it.
#[derive(Clone, Copy, Debug, PartialEq, Eq, Structural)]
pub enum ErrorType {
    Add,
    Prop,
}

/// A character's code point with an ASCII uppercase letter folded to its
/// lowercase counterpart.
pub open spec fn lower_code(c: char) -> u32 {
    if 65 <= c as u32 <= 90 {
        (c as u32 + 32) as u32
    } else {
        c as u32
    }
}

/// Equality of two character sequences up to ASCII case.
pub open spec fn ascii_eq_nocase(a: Seq<char>, b: Seq<char>) -> bool {
    a.len() == b.len() && forall|i: int|
        0 <= i < a.len() ==> lower_code(#[trigger] a[i]) == lower_code(b[i])
}

/// Compares two strings up to ASCII case.
pub fn eq_nocase(a: &str, b: &str) -> (r: bool)
    ensures
        r == ascii_eq_nocase(a@, b@),
{
    let la = a.unicode_len();
    let lb = b.unicode_len();
    if la != lb {
        return false;
    }
    let mut i: usize = 0;
    while i < la
        invariant
            0 <= i <= la,
            la == a@.len(),
            lb == b@.len(),
            la == lb,
            forall|j: int| 0 <= j < i ==> lower_code(#[trigger] a@[j]) == lower_code(b@[j]),
        decreases la - i,
    {
        let ca = a.get_char(i);
        let cb = b.get_char(i);
        let ua = ca as u32;
        let ub = cb as u32;
        let fa = if 65 <= ua && ua <= 90 {
            ua + 32
        } else {
            ua
        };
        let fb = if 65 <= ub && ub <= 90 {
            ub + 32
        } else {
            ub
        };
        if fa != fb {
            return false;
        }
        i += 1;
    }
    true
}

impl ErrorType {
    /// Parses an error-model class name, ignoring ASCII case; any other name
    /// is unknown and must be refused at startup.
    pub fn from_class(class: &str) -> (r: Option<ErrorType>)
        ensures
            r == Some(ErrorType::Add) <==> ascii_eq_nocase(class@, "additive"@),
            r == Some(ErrorType::Prop) <==> ascii_eq_nocase(class@, "proportional"@),
            r is None <==> (!ascii_eq_nocase(class@, "additive"@) && !ascii_eq_nocase(
                class@,
                "proportional"@,
            )),
    {
        proof {
            // The two class names differ in length, so at most one matches.
            reveal_strlit("additive");
            reveal_strlit("proportional");
        }
        if eq_nocase(class, "additive") {
            Some(ErrorType::Add)
        } else if eq_nocase(class, "proportional") {
            Some(ErrorType::Prop)
        } else {
            None
        }
    }
}

} // verus!
