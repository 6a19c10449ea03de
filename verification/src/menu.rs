//! Reading an interactive menu selection: the one recoverable input of the
//! tool.  A line is trimmed and read as a decimal number one to five; each
//! number names a verb to send, and the last one ends the session.

use vstd::prelude::*;
use crate::numbers::{all_digits, dec_val, parse_decimal};
use crate::text::{trim_seq, trim_str};

verus! {

/// What a valid menu selection asks for.
#[derive(Clone, Copy, Debug, PartialEq, Eq, Structural)]
pub enum MenuAction {
    SendGet,
    SendPost,
    SendPut,
    SendDelete,
    Exit,
}

/// Why a menu line was rejected.  Both are recoverable: the menu is shown
/// again.
#[derive(Clone, Copy, Debug, PartialEq, Eq, Structural)]
pub enum MenuError {
    /// The line is not a decimal number.
    NotANumber,
    /// The line is a number outside one to five.
    OutOfRange,
}

impl MenuError {
    /// The message shown before the menu is offered again.
    pub fn message(&self) -> (r: &'static str)
        ensures
            *self == MenuError::NotANumber ==> r@ == "Input must be a number."@,
            *self == MenuError::OutOfRange ==> r@ == "Input must be between 1 and 5.\n"@,
    {
        match self {
            MenuError::NotANumber => "Input must be a number.",
            MenuError::OutOfRange => "Input must be between 1 and 5.\n",
        }
    }
}

/// The action each selection number names.
pub open spec fn action_for(n: nat) -> MenuAction {
    if n == 1 {
        MenuAction::SendGet
    } else if n == 2 {
        MenuAction::SendPost
    } else if n == 3 {
        MenuAction::SendPut
    } else if n == 4 {
        MenuAction::SendDelete
    } else {
        MenuAction::Exit
    }
}

/// The trimmed line is a decimal number (that fits the machine's reading).
pub open spec fn is_numeric_line(line: Seq<char>) -> bool {
    let t = trim_seq(line);
    t.len() > 0 && all_digits(t) && dec_val(t) <= u64::MAX
}

/// Parse one menu line: trim it, read a decimal number, and demand one to
/// five.  A non-number is `NotANumber`; a number outside the range is
/// `OutOfRange`; both are shown a message and the menu again.
pub fn parse_menu_selection(line: &str) -> (r: Result<MenuAction, MenuError>)
    ensures
        !is_numeric_line(line@) ==> r == Err::<MenuAction, MenuError>(MenuError::NotANumber),
        is_numeric_line(line@) && !(1 <= dec_val(trim_seq(line@)) <= 5) ==> r == Err::<
            MenuAction,
            MenuError,
        >(MenuError::OutOfRange),
        is_numeric_line(line@) && 1 <= dec_val(trim_seq(line@)) <= 5 ==> r == Ok::<
            MenuAction,
            MenuError,
        >(action_for(dec_val(trim_seq(line@)))),
{
    let t = trim_str(line);
    match parse_decimal(t) {
        None => Err(MenuError::NotANumber),
        Some(v) => {
            if v < 1 || v > 5 {
                Err(MenuError::OutOfRange)
            } else if v == 1 {
                Ok(MenuAction::SendGet)
            } else if v == 2 {
                Ok(MenuAction::SendPost)
            } else if v == 3 {
                Ok(MenuAction::SendPut)
            } else if v == 4 {
                Ok(MenuAction::SendDelete)
            } else {
                Ok(MenuAction::Exit)
            }
        },
    }
}

} // verus!
