//! Magic instructions raised by guest software.
use vstd::prelude::*;

verus! {

/// The value a target passes along with a magic instruction.
#[derive(Debug, Clone, Copy, PartialEq, Eq)]
pub enum MagicCode {
    /// The target has reached its stop location.
    Stop,
    /// The target has reached its start location.
    Start,
}

/// Raw value of the stop code.
pub const MAGIC_STOP: i64 = 0x4242;

/// Raw value of the start code.
pub const MAGIC_START: i64 = 0x4343;

/// A raw value that is no known magic code.
#[derive(Debug, Clone, Copy, PartialEq, Eq)]
pub struct UnknownMagic {
    pub value: i64,
}

/// The code a raw value stands for, if any.
pub open spec fn code_of(value: i64) -> Option<MagicCode> {
    if value == MAGIC_STOP {
        Some(MagicCode::Stop)
    } else if value == MAGIC_START {
        Some(MagicCode::Start)
    } else {
        None
    }
}

impl MagicCode {
    /// The raw value of this code.
    pub open spec fn spec_value(self) -> i64 {
        match self {
            MagicCode::Stop => MAGIC_STOP,
            MagicCode::Start => MAGIC_START,
        }
    }

    /// The raw value of this code.
    #[verifier::when_used_as_spec(spec_value)]
    pub fn value(self) -> (r: i64)
        ensures
            r == self.spec_value(),
    {
        match self {
            MagicCode::Stop => MAGIC_STOP,
            MagicCode::Start => MAGIC_START,
        }
    }

    /// The code for a raw value; fails on any value that is no known code.
    pub fn try_from(value: i64) -> (r: Result<MagicCode, UnknownMagic>)
        ensures
            code_of(value) is Some ==> r == Ok::<MagicCode, UnknownMagic>(code_of(value)->0),
            code_of(value) is None ==> r == Err::<MagicCode, UnknownMagic>(UnknownMagic { value }),
    {
        if value == MAGIC_STOP {
            Ok(MagicCode::Stop)
        } else if value == MAGIC_START {
            Ok(MagicCode::Start)
        } else {
            Err(UnknownMagic { value })
        }
    }

    /// The raw value of this code; every code has one.
    pub fn try_into(self) -> (r: Result<i64, UnknownMagic>)
        ensures
            r == Ok::<i64, UnknownMagic>(self.spec_value()),
    {
        Ok(self.value())
    }
}

/// A magic event, with the code it was raised with and its optional arguments.
#[derive(Debug, Clone, Copy, PartialEq, Eq)]
pub enum Magic {
    Start((MagicCode, Option<u64>, Option<u64>)),
    Stop((MagicCode, Option<u64>)),
}

impl Magic {
    /// The event for a raw value, without arguments; fails where the value is no known code.
    pub fn try_from(value: i64) -> (r: Result<Magic, UnknownMagic>)
        ensures
            value == MAGIC_START ==> r == Ok::<Magic, UnknownMagic>(
                Magic::Start((MagicCode::Start, None, None)),
            ),
            value == MAGIC_STOP ==> r == Ok::<Magic, UnknownMagic>(
                Magic::Stop((MagicCode::Stop, None)),
            ),
            code_of(value) is None ==> r == Err::<Magic, UnknownMagic>(UnknownMagic { value }),
    {
        match MagicCode::try_from(value) {
            Ok(code) => Ok(
                match code {
                    MagicCode::Start => Magic::Start((code, None, None)),
                    MagicCode::Stop => Magic::Stop((code, None)),
                },
            ),
            Err(e) => Err(e),
        }
    }
}

/// Turning a code into its raw value and back gives the code again.
pub proof fn law_magic_code_round_trip(code: MagicCode)
    ensures
        code_of(code.spec_value()) == Some(code),
{
}

} // verus!
