//! The native codes of the iOS backend. They are functions rather than
//! constants so that each states its code.
#![allow(non_snake_case)]
use vstd::prelude::*;

use super::EvCode;

verus! {

pub fn AXIS_LSTICKX() -> (c: EvCode)
    ensures
        c == EvCode(0),
{
    EvCode(0)
}

pub fn AXIS_LSTICKY() -> (c: EvCode)
    ensures
        c == EvCode(1),
{
    EvCode(1)
}

pub fn AXIS_LEFTZ() -> (c: EvCode)
    ensures
        c == EvCode(2),
{
    EvCode(2)
}

pub fn AXIS_RSTICKX() -> (c: EvCode)
    ensures
        c == EvCode(3),
{
    EvCode(3)
}

pub fn AXIS_RSTICKY() -> (c: EvCode)
    ensures
        c == EvCode(4),
{
    EvCode(4)
}

pub fn AXIS_RIGHTZ() -> (c: EvCode)
    ensures
        c == EvCode(5),
{
    EvCode(5)
}

pub fn AXIS_DPADX() -> (c: EvCode)
    ensures
        c == EvCode(6),
{
    EvCode(6)
}

pub fn AXIS_DPADY() -> (c: EvCode)
    ensures
        c == EvCode(7),
{
    EvCode(7)
}

pub fn AXIS_RT() -> (c: EvCode)
    ensures
        c == EvCode(8),
{
    EvCode(8)
}

pub fn AXIS_LT() -> (c: EvCode)
    ensures
        c == EvCode(9),
{
    EvCode(9)
}

pub fn AXIS_RT2() -> (c: EvCode)
    ensures
        c == EvCode(10),
{
    EvCode(10)
}

pub fn AXIS_LT2() -> (c: EvCode)
    ensures
        c == EvCode(11),
{
    EvCode(11)
}

pub fn BTN_SOUTH() -> (c: EvCode)
    ensures
        c == EvCode(12),
{
    EvCode(12)
}

pub fn BTN_EAST() -> (c: EvCode)
    ensures
        c == EvCode(13),
{
    EvCode(13)
}

pub fn BTN_C() -> (c: EvCode)
    ensures
        c == EvCode(14),
{
    EvCode(14)
}

pub fn BTN_NORTH() -> (c: EvCode)
    ensures
        c == EvCode(15),
{
    EvCode(15)
}

pub fn BTN_WEST() -> (c: EvCode)
    ensures
        c == EvCode(16),
{
    EvCode(16)
}

pub fn BTN_Z() -> (c: EvCode)
    ensures
        c == EvCode(17),
{
    EvCode(17)
}

pub fn BTN_LT() -> (c: EvCode)
    ensures
        c == EvCode(18),
{
    EvCode(18)
}

pub fn BTN_RT() -> (c: EvCode)
    ensures
        c == EvCode(19),
{
    EvCode(19)
}

pub fn BTN_LT2() -> (c: EvCode)
    ensures
        c == EvCode(20),
{
    EvCode(20)
}

pub fn BTN_RT2() -> (c: EvCode)
    ensures
        c == EvCode(21),
{
    EvCode(21)
}

pub fn BTN_SELECT() -> (c: EvCode)
    ensures
        c == EvCode(22),
{
    EvCode(22)
}

pub fn BTN_START() -> (c: EvCode)
    ensures
        c == EvCode(23),
{
    EvCode(23)
}

pub fn BTN_MODE() -> (c: EvCode)
    ensures
        c == EvCode(24),
{
    EvCode(24)
}

pub fn BTN_LTHUMB() -> (c: EvCode)
    ensures
        c == EvCode(25),
{
    EvCode(25)
}

pub fn BTN_RTHUMB() -> (c: EvCode)
    ensures
        c == EvCode(26),
{
    EvCode(26)
}

pub fn BTN_DPAD_UP() -> (c: EvCode)
    ensures
        c == EvCode(27),
{
    EvCode(27)
}

pub fn BTN_DPAD_DOWN() -> (c: EvCode)
    ensures
        c == EvCode(28),
{
    EvCode(28)
}

pub fn BTN_DPAD_LEFT() -> (c: EvCode)
    ensures
        c == EvCode(29),
{
    EvCode(29)
}

pub fn BTN_DPAD_RIGHT() -> (c: EvCode)
    ensures
        c == EvCode(30),
{
    EvCode(30)
}

/// The order the buttons are read in, so a sample lines up with the last one
/// position by position. GameController names the face buttons by their printed
/// letter, and an Xbox pad's A sits where gilrs calls `BTN_SOUTH`.
pub fn BUTTONS() -> (b: [EvCode; 17])
    ensures
        b@ == seq![EvCode(12), EvCode(13), EvCode(16), EvCode(15), EvCode(18), EvCode(19), EvCode(20), EvCode(21), EvCode(22), EvCode(23), EvCode(25), EvCode(26), EvCode(27), EvCode(28), EvCode(29), EvCode(30), EvCode(24)],
{
    [BTN_SOUTH(), BTN_EAST(), BTN_WEST(), BTN_NORTH(), BTN_LT(), BTN_RT(), BTN_LT2(), BTN_RT2(), BTN_SELECT(), BTN_START(), BTN_LTHUMB(), BTN_RTHUMB(), BTN_DPAD_UP(), BTN_DPAD_DOWN(), BTN_DPAD_LEFT(), BTN_DPAD_RIGHT(), BTN_MODE()]
}

/// The order the stick axes are read in.
pub fn AXES() -> (a: [EvCode; 4])
    ensures
        a@ == seq![EvCode(0), EvCode(1), EvCode(3), EvCode(4)],
{
    [AXIS_LSTICKX(), AXIS_LSTICKY(), AXIS_RSTICKX(), AXIS_RSTICKY()]
}

} // verus!
