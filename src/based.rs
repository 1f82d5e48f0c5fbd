//! The text form that every length and tolerance type offers to a serializer.
use vstd::prelude::*;

use crate::myth16::Myth16;
use crate::myth32::Myth32;
use crate::myth64::Myth64;
use crate::tol128::T128;
use crate::tol64::T64;
use crate::ticks::display_ticks;
use crate::tols::tolerance_text;

verus! {

/// A value that can be written as its text, or an optional such value.
pub trait MythBased {
    /// The text of the value, or `None` where an optional value is absent.
    spec fn text_form(&self) -> Option<Seq<char>>;

    /// Whether this is an optional value.
    spec fn optional(&self) -> bool;

    /// Whether this is an optional value.
    fn is_option(&self) -> (r: bool)
        ensures
            r == self.optional(),
    ;

    /// The text of the value, or `None` where an optional value is absent.
    fn ser_as_string(&self) -> (r: Option<String>)
        ensures
            r is Some <==> self.text_form() is Some,
            r is Some ==> r->Some_0@ == self.text_form()->Some_0,
    ;
}

impl MythBased for Myth16 {
    open spec fn text_form(&self) -> Option<Seq<char>> {
        Some(display_ticks(self.0 as int, None, false))
    }

    open spec fn optional(&self) -> bool {
        false
    }

    fn is_option(&self) -> bool {
        false
    }

    fn ser_as_string(&self) -> (r: Option<String>) {
        Some(self.to_string())
    }
}

impl MythBased for Option<Myth16> {
    open spec fn text_form(&self) -> Option<Seq<char>> {
        match self {
            Some(t) => Some(display_ticks(t.0 as int, None, false)),
            None => None,
        }
    }

    open spec fn optional(&self) -> bool {
        true
    }

    fn is_option(&self) -> bool {
        true
    }

    fn ser_as_string(&self) -> (r: Option<String>) {
        match self {
            Some(t) => Some(t.to_string()),
            None => None,
        }
    }
}

impl MythBased for Myth32 {
    open spec fn text_form(&self) -> Option<Seq<char>> {
        Some(display_ticks(self.0 as int, None, false))
    }

    open spec fn optional(&self) -> bool {
        false
    }

    fn is_option(&self) -> bool {
        false
    }

    fn ser_as_string(&self) -> (r: Option<String>) {
        Some(self.to_string())
    }
}

impl MythBased for Option<Myth32> {
    open spec fn text_form(&self) -> Option<Seq<char>> {
        match self {
            Some(t) => Some(display_ticks(t.0 as int, None, false)),
            None => None,
        }
    }

    open spec fn optional(&self) -> bool {
        true
    }

    fn is_option(&self) -> bool {
        true
    }

    fn ser_as_string(&self) -> (r: Option<String>) {
        match self {
            Some(t) => Some(t.to_string()),
            None => None,
        }
    }
}

impl MythBased for Myth64 {
    open spec fn text_form(&self) -> Option<Seq<char>> {
        Some(display_ticks(self.0 as int, None, false))
    }

    open spec fn optional(&self) -> bool {
        false
    }

    fn is_option(&self) -> bool {
        false
    }

    fn ser_as_string(&self) -> (r: Option<String>) {
        Some(self.to_string())
    }
}

impl MythBased for Option<Myth64> {
    open spec fn text_form(&self) -> Option<Seq<char>> {
        match self {
            Some(t) => Some(display_ticks(t.0 as int, None, false)),
            None => None,
        }
    }

    open spec fn optional(&self) -> bool {
        true
    }

    fn is_option(&self) -> bool {
        true
    }

    fn ser_as_string(&self) -> (r: Option<String>) {
        match self {
            Some(t) => Some(t.to_string()),
            None => None,
        }
    }
}

impl MythBased for T128 {
    open spec fn text_form(&self) -> Option<Seq<char>> {
        Some(tolerance_text(self.value.0 as int, self.plus.0 as int, self.minus.0 as int, None, false))
    }

    open spec fn optional(&self) -> bool {
        false
    }

    fn is_option(&self) -> bool {
        false
    }

    fn ser_as_string(&self) -> (r: Option<String>) {
        Some(self.to_string())
    }
}

impl MythBased for Option<T128> {
    open spec fn text_form(&self) -> Option<Seq<char>> {
        match self {
            Some(t) => Some(tolerance_text(t.value.0 as int, t.plus.0 as int, t.minus.0 as int, None, false)),
            None => None,
        }
    }

    open spec fn optional(&self) -> bool {
        true
    }

    fn is_option(&self) -> bool {
        true
    }

    fn ser_as_string(&self) -> (r: Option<String>) {
        match self {
            Some(t) => Some(t.to_string()),
            None => None,
        }
    }
}

impl MythBased for T64 {
    open spec fn text_form(&self) -> Option<Seq<char>> {
        Some(tolerance_text(self.value.0 as int, self.plus.0 as int, self.minus.0 as int, None, false))
    }

    open spec fn optional(&self) -> bool {
        false
    }

    fn is_option(&self) -> bool {
        false
    }

    fn ser_as_string(&self) -> (r: Option<String>) {
        Some(self.to_string())
    }
}

impl MythBased for Option<T64> {
    open spec fn text_form(&self) -> Option<Seq<char>> {
        match self {
            Some(t) => Some(tolerance_text(t.value.0 as int, t.plus.0 as int, t.minus.0 as int, None, false)),
            None => None,
        }
    }

    open spec fn optional(&self) -> bool {
        true
    }

    fn is_option(&self) -> bool {
        true
    }

    fn ser_as_string(&self) -> (r: Option<String>) {
        match self {
            Some(t) => Some(t.to_string()),
            None => None,
        }
    }
}

} // verus!
