//! Enumerations carried as 32-bit fields, each with a null value for what is unknown.

use vstd::prelude::*;

verus! {

/// The value of a 32-bit enumeration field that holds nothing.
pub const ENUM_NULL_VALUE: i32 = -2147483648;

#[derive(Clone, Copy, Debug, PartialEq, Eq, Structural, Hash)]
pub enum BooleanType {
    FALSE,
    TRUE,
    NullVal,
}

#[derive(Clone, Copy, Debug, PartialEq, Eq, Structural, Hash)]
pub enum RecordingState {
    INVALID,
    VALID,
    NullVal,
}

#[derive(Clone, Copy, Debug, PartialEq, Eq, Structural, Hash)]
pub enum SourceLocation {
    LOCAL,
    REMOTE,
    NullVal,
}

pub open spec fn boolean_type_of(v: i32) -> BooleanType {
    if v == 0 {
        BooleanType::FALSE
    } else if v == 1 {
        BooleanType::TRUE
    } else {
        BooleanType::NullVal
    }
}

pub open spec fn recording_state_of(v: i32) -> RecordingState {
    if v == 0 {
        RecordingState::INVALID
    } else if v == 1 {
        RecordingState::VALID
    } else {
        RecordingState::NullVal
    }
}

pub open spec fn source_location_of(v: i32) -> SourceLocation {
    if v == 0 {
        SourceLocation::LOCAL
    } else if v == 1 {
        SourceLocation::REMOTE
    } else {
        SourceLocation::NullVal
    }
}

impl BooleanType {
    pub open spec fn spec_value(self) -> i32 {
        match self {
            BooleanType::FALSE => 0,
            BooleanType::TRUE => 1,
            BooleanType::NullVal => ENUM_NULL_VALUE,
        }
    }

    /// The wire value.
    pub fn value(self) -> (r: i32)
        ensures
            r == self.spec_value(),
    {
        match self {
            BooleanType::FALSE => 0,
            BooleanType::TRUE => 1,
            BooleanType::NullVal => ENUM_NULL_VALUE,
        }
    }

    /// `TRUE` or `FALSE` as `b` says.
    pub fn of_bool(b: bool) -> (r: Self)
        ensures
            r == (if b { BooleanType::TRUE } else { BooleanType::FALSE }),
    {
        if b {
            BooleanType::TRUE
        } else {
            BooleanType::FALSE
        }
    }
}

impl RecordingState {
    pub open spec fn spec_value(self) -> i32 {
        match self {
            RecordingState::INVALID => 0,
            RecordingState::VALID => 1,
            RecordingState::NullVal => ENUM_NULL_VALUE,
        }
    }

    /// The wire value.
    pub fn value(self) -> (r: i32)
        ensures
            r == self.spec_value(),
    {
        match self {
            RecordingState::INVALID => 0,
            RecordingState::VALID => 1,
            RecordingState::NullVal => ENUM_NULL_VALUE,
        }
    }
}

impl SourceLocation {
    pub open spec fn spec_value(self) -> i32 {
        match self {
            SourceLocation::LOCAL => 0,
            SourceLocation::REMOTE => 1,
            SourceLocation::NullVal => ENUM_NULL_VALUE,
        }
    }

    /// The wire value.
    pub fn value(self) -> (r: i32)
        ensures
            r == self.spec_value(),
    {
        match self {
            SourceLocation::LOCAL => 0,
            SourceLocation::REMOTE => 1,
            SourceLocation::NullVal => ENUM_NULL_VALUE,
        }
    }
}

impl Default for BooleanType {
    fn default() -> (r: Self)
        ensures
            r == BooleanType::NullVal,
    {
        BooleanType::NullVal
    }
}

impl Default for RecordingState {
    fn default() -> (r: Self)
        ensures
            r == RecordingState::NullVal,
    {
        RecordingState::NullVal
    }
}

impl Default for SourceLocation {
    fn default() -> (r: Self)
        ensures
            r == SourceLocation::NullVal,
    {
        SourceLocation::NullVal
    }
}

impl From<i32> for BooleanType {
    fn from(v: i32) -> (r: Self) {
        if v == 0 {
            BooleanType::FALSE
        } else if v == 1 {
            BooleanType::TRUE
        } else {
            BooleanType::NullVal
        }
    }
}

impl vstd::std_specs::convert::FromSpecImpl<i32> for BooleanType {
    open spec fn obeys_from_spec() -> bool {
        true
    }

    open spec fn from_spec(v: i32) -> Self {
        boolean_type_of(v)
    }
}

impl From<i32> for RecordingState {
    fn from(v: i32) -> (r: Self) {
        if v == 0 {
            RecordingState::INVALID
        } else if v == 1 {
            RecordingState::VALID
        } else {
            RecordingState::NullVal
        }
    }
}

impl vstd::std_specs::convert::FromSpecImpl<i32> for RecordingState {
    open spec fn obeys_from_spec() -> bool {
        true
    }

    open spec fn from_spec(v: i32) -> Self {
        recording_state_of(v)
    }
}

impl From<i32> for SourceLocation {
    fn from(v: i32) -> (r: Self) {
        if v == 0 {
            SourceLocation::LOCAL
        } else if v == 1 {
            SourceLocation::REMOTE
        } else {
            SourceLocation::NullVal
        }
    }
}

impl vstd::std_specs::convert::FromSpecImpl<i32> for SourceLocation {
    open spec fn obeys_from_spec() -> bool {
        true
    }

    open spec fn from_spec(v: i32) -> Self {
        source_location_of(v)
    }
}

} // verus!
