//! The key codes of the terminal library that the menu binds by default.

use vstd::prelude::*;

verus! {

/// The code of the down-arrow key, `ncurses::KEY_DOWN`. Trusted: the
/// constant of the terminal library is 0x102.
#[verifier::external_body]
pub(crate) fn key_down() -> (code: i32)
    ensures
        code == 0x102,
{
    ncurses::KEY_DOWN
}

/// The code of the up-arrow key, `ncurses::KEY_UP`. Trusted: the constant of
/// the terminal library is 0x103.
#[verifier::external_body]
pub(crate) fn key_up() -> (code: i32)
    ensures
        code == 0x103,
{
    ncurses::KEY_UP
}

} // verus!
