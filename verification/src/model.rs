//! The GTFS Schedule data model: one record type per dataset file and
//! one enum per enumerated field, converting to and from its wire
//! code. Required fields are plain values, optional ones `Option`s.
//! Decimal coordinates and distances are carried as the bit pattern of
//! their IEEE-754 binary64 value.

use vstd::prelude::*;

use crate::misc::{CurrencyAmount, GtfsDate};
use crate::text::owned;

verus! {

/// Kind of a location in `stops.txt` (`location_type`).
#[derive(Debug, Clone, Copy, PartialEq, Eq, Hash, Structural)]
pub enum LocationType {
    /// A stop or platform (0, the default)
    StopOrPlatform,
    /// A station (1)
    Station,
    /// A station entrance or exit (2)
    EntranceExit,
    /// A generic node of a station (3)
    GenericNode,
    /// A boarding area of a platform (4)
    BoardingArea,
}

impl LocationType {
    /// The wire code of the value.
    pub open spec fn spec_code(self) -> int {
        match self {
            LocationType::StopOrPlatform => 0,
            LocationType::Station => 1,
            LocationType::EntranceExit => 2,
            LocationType::GenericNode => 3,
            LocationType::BoardingArea => 4,
        }
    }

    /// The value a wire code stands for, if any.
    pub open spec fn spec_from_code(code: int) -> Option<Self> {
        if code == 0 {
            Some(LocationType::StopOrPlatform)
        } else if code == 1 {
            Some(LocationType::Station)
        } else if code == 2 {
            Some(LocationType::EntranceExit)
        } else if code == 3 {
            Some(LocationType::GenericNode)
        } else if code == 4 {
            Some(LocationType::BoardingArea)
        } else {
            None
        }
    }

    /// Converts a wire code; `None` for codes outside the specification.
    pub fn from_code(code: i32) -> (r: Option<Self>)
        ensures
            r == Self::spec_from_code(code as int),
    {
        match code {
            0 => Some(LocationType::StopOrPlatform),
            1 => Some(LocationType::Station),
            2 => Some(LocationType::EntranceExit),
            3 => Some(LocationType::GenericNode),
            4 => Some(LocationType::BoardingArea),
            _ => None,
        }
    }

    /// The wire code of the value.
    pub fn code(&self) -> (r: i32)
        ensures
            r == self.spec_code(),
    {
        match self {
            LocationType::StopOrPlatform => 0,
            LocationType::Station => 1,
            LocationType::EntranceExit => 2,
            LocationType::GenericNode => 3,
            LocationType::BoardingArea => 4,
        }
    }

    /// The wire code of a value reads back as that value, and the one
    /// code that reads as a value is its own.
    pub proof fn lemma_code_round_trip(self, code: int)
        ensures
            Self::spec_from_code(self.spec_code()) == Some(self),
            Self::spec_from_code(code) == Some(self) ==> code == self.spec_code(),
    {
    }
}

impl Default for LocationType {
    fn default() -> (r: Self)
        ensures
            r == LocationType::StopOrPlatform,
    {
        LocationType::StopOrPlatform
    }
}

/// Wheelchair boarding at a stop (`wheelchair_boarding`).
#[derive(Debug, Clone, Copy, PartialEq, Eq, Hash, Structural)]
pub enum WheelchairBoarding {
    /// No information (0, the default)
    NoInfo,
    /// Some accessible boarding (1)
    Accessible,
    /// No accessible boarding (2)
    NotAccessible,
}

impl WheelchairBoarding {
    /// The wire code of the value.
    pub open spec fn spec_code(self) -> int {
        match self {
            WheelchairBoarding::NoInfo => 0,
            WheelchairBoarding::Accessible => 1,
            WheelchairBoarding::NotAccessible => 2,
        }
    }

    /// The value a wire code stands for, if any.
    pub open spec fn spec_from_code(code: int) -> Option<Self> {
        if code == 0 {
            Some(WheelchairBoarding::NoInfo)
        } else if code == 1 {
            Some(WheelchairBoarding::Accessible)
        } else if code == 2 {
            Some(WheelchairBoarding::NotAccessible)
        } else {
            None
        }
    }

    /// Converts a wire code; `None` for codes outside the specification.
    pub fn from_code(code: i32) -> (r: Option<Self>)
        ensures
            r == Self::spec_from_code(code as int),
    {
        match code {
            0 => Some(WheelchairBoarding::NoInfo),
            1 => Some(WheelchairBoarding::Accessible),
            2 => Some(WheelchairBoarding::NotAccessible),
            _ => None,
        }
    }

    /// The wire code of the value.
    pub fn code(&self) -> (r: i32)
        ensures
            r == self.spec_code(),
    {
        match self {
            WheelchairBoarding::NoInfo => 0,
            WheelchairBoarding::Accessible => 1,
            WheelchairBoarding::NotAccessible => 2,
        }
    }

    /// The wire code of a value reads back as that value, and the one
    /// code that reads as a value is its own.
    pub proof fn lemma_code_round_trip(self, code: int)
        ensures
            Self::spec_from_code(self.spec_code()) == Some(self),
            Self::spec_from_code(code) == Some(self) ==> code == self.spec_code(),
    {
    }
}

impl Default for WheelchairBoarding {
    fn default() -> (r: Self)
        ensures
            r == WheelchairBoarding::NoInfo,
    {
        WheelchairBoarding::NoInfo
    }
}

/// How a platform is reached (`stop_access`).
#[derive(Debug, Clone, Copy, PartialEq, Eq, Hash, Structural)]
pub enum StopAccess {
    /// Only through its station (0)
    ViaStation,
    /// Directly from the street (1)
    Direct,
}

impl StopAccess {
    /// The wire code of the value.
    pub open spec fn spec_code(self) -> int {
        match self {
            StopAccess::ViaStation => 0,
            StopAccess::Direct => 1,
        }
    }

    /// The value a wire code stands for, if any.
    pub open spec fn spec_from_code(code: int) -> Option<Self> {
        if code == 0 {
            Some(StopAccess::ViaStation)
        } else if code == 1 {
            Some(StopAccess::Direct)
        } else {
            None
        }
    }

    /// Converts a wire code; `None` for codes outside the specification.
    pub fn from_code(code: i32) -> (r: Option<Self>)
        ensures
            r == Self::spec_from_code(code as int),
    {
        match code {
            0 => Some(StopAccess::ViaStation),
            1 => Some(StopAccess::Direct),
            _ => None,
        }
    }

    /// The wire code of the value.
    pub fn code(&self) -> (r: i32)
        ensures
            r == self.spec_code(),
    {
        match self {
            StopAccess::ViaStation => 0,
            StopAccess::Direct => 1,
        }
    }

    /// The wire code of a value reads back as that value, and the one
    /// code that reads as a value is its own.
    pub proof fn lemma_code_round_trip(self, code: int)
        ensures
            Self::spec_from_code(self.spec_code()) == Some(self),
            Self::spec_from_code(code) == Some(self) ==> code == self.spec_code(),
    {
    }
}

/// Continuous pickup or drop-off behaviour.
#[derive(Debug, Clone, Copy, PartialEq, Eq, Hash, Structural)]
pub enum ContinuousPickupDropOff {
    /// Continuous stopping (0)
    Continuous,
    /// No continuous stopping (1, the default)
    NotContinuous,
    /// Phone the agency (2)
    PhoneAgency,
    /// Coordinate with the driver (3)
    CoordinateWithDriver,
}

impl ContinuousPickupDropOff {
    /// The wire code of the value.
    pub open spec fn spec_code(self) -> int {
        match self {
            ContinuousPickupDropOff::Continuous => 0,
            ContinuousPickupDropOff::NotContinuous => 1,
            ContinuousPickupDropOff::PhoneAgency => 2,
            ContinuousPickupDropOff::CoordinateWithDriver => 3,
        }
    }

    /// The value a wire code stands for, if any.
    pub open spec fn spec_from_code(code: int) -> Option<Self> {
        if code == 0 {
            Some(ContinuousPickupDropOff::Continuous)
        } else if code == 1 {
            Some(ContinuousPickupDropOff::NotContinuous)
        } else if code == 2 {
            Some(ContinuousPickupDropOff::PhoneAgency)
        } else if code == 3 {
            Some(ContinuousPickupDropOff::CoordinateWithDriver)
        } else {
            None
        }
    }

    /// Converts a wire code; `None` for codes outside the specification.
    pub fn from_code(code: i32) -> (r: Option<Self>)
        ensures
            r == Self::spec_from_code(code as int),
    {
        match code {
            0 => Some(ContinuousPickupDropOff::Continuous),
            1 => Some(ContinuousPickupDropOff::NotContinuous),
            2 => Some(ContinuousPickupDropOff::PhoneAgency),
            3 => Some(ContinuousPickupDropOff::CoordinateWithDriver),
            _ => None,
        }
    }

    /// The wire code of the value.
    pub fn code(&self) -> (r: i32)
        ensures
            r == self.spec_code(),
    {
        match self {
            ContinuousPickupDropOff::Continuous => 0,
            ContinuousPickupDropOff::NotContinuous => 1,
            ContinuousPickupDropOff::PhoneAgency => 2,
            ContinuousPickupDropOff::CoordinateWithDriver => 3,
        }
    }

    /// The wire code of a value reads back as that value, and the one
    /// code that reads as a value is its own.
    pub proof fn lemma_code_round_trip(self, code: int)
        ensures
            Self::spec_from_code(self.spec_code()) == Some(self),
            Self::spec_from_code(code) == Some(self) ==> code == self.spec_code(),
    {
    }
}

impl Default for ContinuousPickupDropOff {
    fn default() -> (r: Self)
        ensures
            r == ContinuousPickupDropOff::NotContinuous,
    {
        ContinuousPickupDropOff::NotContinuous
    }
}

/// Contactless EMV payment support (`cemv_support`).
#[derive(Debug, Clone, Copy, PartialEq, Eq, Hash, Structural)]
pub enum CemvSupport {
    /// No information (0, the default)
    NoInfo,
    /// Supported (1)
    Supported,
    /// Not supported (2)
    NotSupported,
}

impl CemvSupport {
    /// The wire code of the value.
    pub open spec fn spec_code(self) -> int {
        match self {
            CemvSupport::NoInfo => 0,
            CemvSupport::Supported => 1,
            CemvSupport::NotSupported => 2,
        }
    }

    /// The value a wire code stands for, if any.
    pub open spec fn spec_from_code(code: int) -> Option<Self> {
        if code == 0 {
            Some(CemvSupport::NoInfo)
        } else if code == 1 {
            Some(CemvSupport::Supported)
        } else if code == 2 {
            Some(CemvSupport::NotSupported)
        } else {
            None
        }
    }

    /// Converts a wire code; `None` for codes outside the specification.
    pub fn from_code(code: i32) -> (r: Option<Self>)
        ensures
            r == Self::spec_from_code(code as int),
    {
        match code {
            0 => Some(CemvSupport::NoInfo),
            1 => Some(CemvSupport::Supported),
            2 => Some(CemvSupport::NotSupported),
            _ => None,
        }
    }

    /// The wire code of the value.
    pub fn code(&self) -> (r: i32)
        ensures
            r == self.spec_code(),
    {
        match self {
            CemvSupport::NoInfo => 0,
            CemvSupport::Supported => 1,
            CemvSupport::NotSupported => 2,
        }
    }

    /// The wire code of a value reads back as that value, and the one
    /// code that reads as a value is its own.
    pub proof fn lemma_code_round_trip(self, code: int)
        ensures
            Self::spec_from_code(self.spec_code()) == Some(self),
            Self::spec_from_code(code) == Some(self) ==> code == self.spec_code(),
    {
    }
}

impl Default for CemvSupport {
    fn default() -> (r: Self)
        ensures
            r == CemvSupport::NoInfo,
    {
        CemvSupport::NoInfo
    }
}

/// Travel direction of a trip (`direction_id`).
#[derive(Debug, Clone, Copy, PartialEq, Eq, Hash, Structural)]
pub enum Direction {
    /// One direction (0)
    Outbound,
    /// The opposite direction (1)
    Inbound,
}

impl Direction {
    /// The wire code of the value.
    pub open spec fn spec_code(self) -> int {
        match self {
            Direction::Outbound => 0,
            Direction::Inbound => 1,
        }
    }

    /// The value a wire code stands for, if any.
    pub open spec fn spec_from_code(code: int) -> Option<Self> {
        if code == 0 {
            Some(Direction::Outbound)
        } else if code == 1 {
            Some(Direction::Inbound)
        } else {
            None
        }
    }

    /// Converts a wire code; `None` for codes outside the specification.
    pub fn from_code(code: i32) -> (r: Option<Self>)
        ensures
            r == Self::spec_from_code(code as int),
    {
        match code {
            0 => Some(Direction::Outbound),
            1 => Some(Direction::Inbound),
            _ => None,
        }
    }

    /// The wire code of the value.
    pub fn code(&self) -> (r: i32)
        ensures
            r == self.spec_code(),
    {
        match self {
            Direction::Outbound => 0,
            Direction::Inbound => 1,
        }
    }

    /// The wire code of a value reads back as that value, and the one
    /// code that reads as a value is its own.
    pub proof fn lemma_code_round_trip(self, code: int)
        ensures
            Self::spec_from_code(self.spec_code()) == Some(self),
            Self::spec_from_code(code) == Some(self) ==> code == self.spec_code(),
    {
    }
}

/// Wheelchair accessibility of a trip.
#[derive(Debug, Clone, Copy, PartialEq, Eq, Hash, Structural)]
pub enum WheelchairAccessible {
    /// No information (0, the default)
    NoInfo,
    /// At least one wheelchair (1)
    Accessible,
    /// No wheelchairs (2)
    NotAccessible,
}

impl WheelchairAccessible {
    /// The wire code of the value.
    pub open spec fn spec_code(self) -> int {
        match self {
            WheelchairAccessible::NoInfo => 0,
            WheelchairAccessible::Accessible => 1,
            WheelchairAccessible::NotAccessible => 2,
        }
    }

    /// The value a wire code stands for, if any.
    pub open spec fn spec_from_code(code: int) -> Option<Self> {
        if code == 0 {
            Some(WheelchairAccessible::NoInfo)
        } else if code == 1 {
            Some(WheelchairAccessible::Accessible)
        } else if code == 2 {
            Some(WheelchairAccessible::NotAccessible)
        } else {
            None
        }
    }

    /// Converts a wire code; `None` for codes outside the specification.
    pub fn from_code(code: i32) -> (r: Option<Self>)
        ensures
            r == Self::spec_from_code(code as int),
    {
        match code {
            0 => Some(WheelchairAccessible::NoInfo),
            1 => Some(WheelchairAccessible::Accessible),
            2 => Some(WheelchairAccessible::NotAccessible),
            _ => None,
        }
    }

    /// The wire code of the value.
    pub fn code(&self) -> (r: i32)
        ensures
            r == self.spec_code(),
    {
        match self {
            WheelchairAccessible::NoInfo => 0,
            WheelchairAccessible::Accessible => 1,
            WheelchairAccessible::NotAccessible => 2,
        }
    }

    /// The wire code of a value reads back as that value, and the one
    /// code that reads as a value is its own.
    pub proof fn lemma_code_round_trip(self, code: int)
        ensures
            Self::spec_from_code(self.spec_code()) == Some(self),
            Self::spec_from_code(code) == Some(self) ==> code == self.spec_code(),
    {
    }
}

impl Default for WheelchairAccessible {
    fn default() -> (r: Self)
        ensures
            r == WheelchairAccessible::NoInfo,
    {
        WheelchairAccessible::NoInfo
    }
}

/// Bicycles on a trip.
#[derive(Debug, Clone, Copy, PartialEq, Eq, Hash, Structural)]
pub enum BikesAllowed {
    /// No information (0, the default)
    NoInfo,
    /// At least one bicycle (1)
    Allowed,
    /// No bicycles (2)
    NotAllowed,
}

impl BikesAllowed {
    /// The wire code of the value.
    pub open spec fn spec_code(self) -> int {
        match self {
            BikesAllowed::NoInfo => 0,
            BikesAllowed::Allowed => 1,
            BikesAllowed::NotAllowed => 2,
        }
    }

    /// The value a wire code stands for, if any.
    pub open spec fn spec_from_code(code: int) -> Option<Self> {
        if code == 0 {
            Some(BikesAllowed::NoInfo)
        } else if code == 1 {
            Some(BikesAllowed::Allowed)
        } else if code == 2 {
            Some(BikesAllowed::NotAllowed)
        } else {
            None
        }
    }

    /// Converts a wire code; `None` for codes outside the specification.
    pub fn from_code(code: i32) -> (r: Option<Self>)
        ensures
            r == Self::spec_from_code(code as int),
    {
        match code {
            0 => Some(BikesAllowed::NoInfo),
            1 => Some(BikesAllowed::Allowed),
            2 => Some(BikesAllowed::NotAllowed),
            _ => None,
        }
    }

    /// The wire code of the value.
    pub fn code(&self) -> (r: i32)
        ensures
            r == self.spec_code(),
    {
        match self {
            BikesAllowed::NoInfo => 0,
            BikesAllowed::Allowed => 1,
            BikesAllowed::NotAllowed => 2,
        }
    }

    /// The wire code of a value reads back as that value, and the one
    /// code that reads as a value is its own.
    pub proof fn lemma_code_round_trip(self, code: int)
        ensures
            Self::spec_from_code(self.spec_code()) == Some(self),
            Self::spec_from_code(code) == Some(self) ==> code == self.spec_code(),
    {
    }
}

impl Default for BikesAllowed {
    fn default() -> (r: Self)
        ensures
            r == BikesAllowed::NoInfo,
    {
        BikesAllowed::NoInfo
    }
}

/// Cars on a trip.
#[derive(Debug, Clone, Copy, PartialEq, Eq, Hash, Structural)]
pub enum CarsAllowed {
    /// No information (0, the default)
    NoInfo,
    /// At least one car (1)
    Allowed,
    /// No cars (2)
    NotAllowed,
}

impl CarsAllowed {
    /// The wire code of the value.
    pub open spec fn spec_code(self) -> int {
        match self {
            CarsAllowed::NoInfo => 0,
            CarsAllowed::Allowed => 1,
            CarsAllowed::NotAllowed => 2,
        }
    }

    /// The value a wire code stands for, if any.
    pub open spec fn spec_from_code(code: int) -> Option<Self> {
        if code == 0 {
            Some(CarsAllowed::NoInfo)
        } else if code == 1 {
            Some(CarsAllowed::Allowed)
        } else if code == 2 {
            Some(CarsAllowed::NotAllowed)
        } else {
            None
        }
    }

    /// Converts a wire code; `None` for codes outside the specification.
    pub fn from_code(code: i32) -> (r: Option<Self>)
        ensures
            r == Self::spec_from_code(code as int),
    {
        match code {
            0 => Some(CarsAllowed::NoInfo),
            1 => Some(CarsAllowed::Allowed),
            2 => Some(CarsAllowed::NotAllowed),
            _ => None,
        }
    }

    /// The wire code of the value.
    pub fn code(&self) -> (r: i32)
        ensures
            r == self.spec_code(),
    {
        match self {
            CarsAllowed::NoInfo => 0,
            CarsAllowed::Allowed => 1,
            CarsAllowed::NotAllowed => 2,
        }
    }

    /// The wire code of a value reads back as that value, and the one
    /// code that reads as a value is its own.
    pub proof fn lemma_code_round_trip(self, code: int)
        ensures
            Self::spec_from_code(self.spec_code()) == Some(self),
            Self::spec_from_code(code) == Some(self) ==> code == self.spec_code(),
    {
    }
}

impl Default for CarsAllowed {
    fn default() -> (r: Self)
        ensures
            r == CarsAllowed::NoInfo,
    {
        CarsAllowed::NoInfo
    }
}

/// Pickup or drop-off method at a stop time.
#[derive(Debug, Clone, Copy, PartialEq, Eq, Hash, Structural)]
pub enum PickupDropOffType {
    /// Regularly scheduled (0, the default)
    Regular,
    /// Not available (1)
    NotAvailable,
    /// Phone the agency (2)
    PhoneAgency,
    /// Coordinate with the driver (3)
    CoordinateWithDriver,
}

impl PickupDropOffType {
    /// The wire code of the value.
    pub open spec fn spec_code(self) -> int {
        match self {
            PickupDropOffType::Regular => 0,
            PickupDropOffType::NotAvailable => 1,
            PickupDropOffType::PhoneAgency => 2,
            PickupDropOffType::CoordinateWithDriver => 3,
        }
    }

    /// The value a wire code stands for, if any.
    pub open spec fn spec_from_code(code: int) -> Option<Self> {
        if code == 0 {
            Some(PickupDropOffType::Regular)
        } else if code == 1 {
            Some(PickupDropOffType::NotAvailable)
        } else if code == 2 {
            Some(PickupDropOffType::PhoneAgency)
        } else if code == 3 {
            Some(PickupDropOffType::CoordinateWithDriver)
        } else {
            None
        }
    }

    /// Converts a wire code; `None` for codes outside the specification.
    pub fn from_code(code: i32) -> (r: Option<Self>)
        ensures
            r == Self::spec_from_code(code as int),
    {
        match code {
            0 => Some(PickupDropOffType::Regular),
            1 => Some(PickupDropOffType::NotAvailable),
            2 => Some(PickupDropOffType::PhoneAgency),
            3 => Some(PickupDropOffType::CoordinateWithDriver),
            _ => None,
        }
    }

    /// The wire code of the value.
    pub fn code(&self) -> (r: i32)
        ensures
            r == self.spec_code(),
    {
        match self {
            PickupDropOffType::Regular => 0,
            PickupDropOffType::NotAvailable => 1,
            PickupDropOffType::PhoneAgency => 2,
            PickupDropOffType::CoordinateWithDriver => 3,
        }
    }

    /// The wire code of a value reads back as that value, and the one
    /// code that reads as a value is its own.
    pub proof fn lemma_code_round_trip(self, code: int)
        ensures
            Self::spec_from_code(self.spec_code()) == Some(self),
            Self::spec_from_code(code) == Some(self) ==> code == self.spec_code(),
    {
    }
}

impl Default for PickupDropOffType {
    fn default() -> (r: Self)
        ensures
            r == PickupDropOffType::Regular,
    {
        PickupDropOffType::Regular
    }
}

/// Whether stop-time times are exact.
#[derive(Debug, Clone, Copy, PartialEq, Eq, Hash, Structural)]
pub enum Timepoint {
    /// Approximate times (0)
    Approximate,
    /// Exact times (1, the default)
    Exact,
}

impl Timepoint {
    /// The wire code of the value.
    pub open spec fn spec_code(self) -> int {
        match self {
            Timepoint::Approximate => 0,
            Timepoint::Exact => 1,
        }
    }

    /// The value a wire code stands for, if any.
    pub open spec fn spec_from_code(code: int) -> Option<Self> {
        if code == 0 {
            Some(Timepoint::Approximate)
        } else if code == 1 {
            Some(Timepoint::Exact)
        } else {
            None
        }
    }

    /// Converts a wire code; `None` for codes outside the specification.
    pub fn from_code(code: i32) -> (r: Option<Self>)
        ensures
            r == Self::spec_from_code(code as int),
    {
        match code {
            0 => Some(Timepoint::Approximate),
            1 => Some(Timepoint::Exact),
            _ => None,
        }
    }

    /// The wire code of the value.
    pub fn code(&self) -> (r: i32)
        ensures
            r == self.spec_code(),
    {
        match self {
            Timepoint::Approximate => 0,
            Timepoint::Exact => 1,
        }
    }

    /// The wire code of a value reads back as that value, and the one
    /// code that reads as a value is its own.
    pub proof fn lemma_code_round_trip(self, code: int)
        ensures
            Self::spec_from_code(self.spec_code()) == Some(self),
            Self::spec_from_code(code) == Some(self) ==> code == self.spec_code(),
    {
    }
}

impl Default for Timepoint {
    fn default() -> (r: Self)
        ensures
            r == Timepoint::Exact,
    {
        Timepoint::Exact
    }
}

/// A service exception of `calendar_dates.txt`.
#[derive(Debug, Clone, Copy, PartialEq, Eq, Hash, Structural)]
pub enum ExceptionType {
    /// Service added for the date (1)
    Added,
    /// Service removed for the date (2)
    Removed,
}

impl ExceptionType {
    /// The wire code of the value.
    pub open spec fn spec_code(self) -> int {
        match self {
            ExceptionType::Added => 1,
            ExceptionType::Removed => 2,
        }
    }

    /// The value a wire code stands for, if any.
    pub open spec fn spec_from_code(code: int) -> Option<Self> {
        if code == 1 {
            Some(ExceptionType::Added)
        } else if code == 2 {
            Some(ExceptionType::Removed)
        } else {
            None
        }
    }

    /// Converts a wire code; `None` for codes outside the specification.
    pub fn from_code(code: i32) -> (r: Option<Self>)
        ensures
            r == Self::spec_from_code(code as int),
    {
        match code {
            1 => Some(ExceptionType::Added),
            2 => Some(ExceptionType::Removed),
            _ => None,
        }
    }

    /// The wire code of the value.
    pub fn code(&self) -> (r: i32)
        ensures
            r == self.spec_code(),
    {
        match self {
            ExceptionType::Added => 1,
            ExceptionType::Removed => 2,
        }
    }

    /// The wire code of a value reads back as that value, and the one
    /// code that reads as a value is its own.
    pub proof fn lemma_code_round_trip(self, code: int)
        ensures
            Self::spec_from_code(self.spec_code()) == Some(self),
            Self::spec_from_code(code) == Some(self) ==> code == self.spec_code(),
    {
    }
}

/// When a Fares v1 fare is paid.
#[derive(Debug, Clone, Copy, PartialEq, Eq, Hash, Structural)]
pub enum PaymentMethod {
    /// Paid on board (0)
    OnBoard,
    /// Paid before boarding (1)
    BeforeBoarding,
}

impl PaymentMethod {
    /// The wire code of the value.
    pub open spec fn spec_code(self) -> int {
        match self {
            PaymentMethod::OnBoard => 0,
            PaymentMethod::BeforeBoarding => 1,
        }
    }

    /// The value a wire code stands for, if any.
    pub open spec fn spec_from_code(code: int) -> Option<Self> {
        if code == 0 {
            Some(PaymentMethod::OnBoard)
        } else if code == 1 {
            Some(PaymentMethod::BeforeBoarding)
        } else {
            None
        }
    }

    /// Converts a wire code; `None` for codes outside the specification.
    pub fn from_code(code: i32) -> (r: Option<Self>)
        ensures
            r == Self::spec_from_code(code as int),
    {
        match code {
            0 => Some(PaymentMethod::OnBoard),
            1 => Some(PaymentMethod::BeforeBoarding),
            _ => None,
        }
    }

    /// The wire code of the value.
    pub fn code(&self) -> (r: i32)
        ensures
            r == self.spec_code(),
    {
        match self {
            PaymentMethod::OnBoard => 0,
            PaymentMethod::BeforeBoarding => 1,
        }
    }

    /// The wire code of a value reads back as that value, and the one
    /// code that reads as a value is its own.
    pub proof fn lemma_code_round_trip(self, code: int)
        ensures
            Self::spec_from_code(self.spec_code()) == Some(self),
            Self::spec_from_code(code) == Some(self) ==> code == self.spec_code(),
    {
    }
}

/// Kind of fare media.
#[derive(Debug, Clone, Copy, PartialEq, Eq, Hash, Structural)]
pub enum FareMediaType {
    /// No fare media (0)
    NoMedia,
    /// A physical paper ticket (1)
    PaperTicket,
    /// A physical transit card (2)
    TransitCard,
    /// cEMV (3)
    ContactlessEmv,
    /// A mobile app (4)
    MobileApp,
}

impl FareMediaType {
    /// The wire code of the value.
    pub open spec fn spec_code(self) -> int {
        match self {
            FareMediaType::NoMedia => 0,
            FareMediaType::PaperTicket => 1,
            FareMediaType::TransitCard => 2,
            FareMediaType::ContactlessEmv => 3,
            FareMediaType::MobileApp => 4,
        }
    }

    /// The value a wire code stands for, if any.
    pub open spec fn spec_from_code(code: int) -> Option<Self> {
        if code == 0 {
            Some(FareMediaType::NoMedia)
        } else if code == 1 {
            Some(FareMediaType::PaperTicket)
        } else if code == 2 {
            Some(FareMediaType::TransitCard)
        } else if code == 3 {
            Some(FareMediaType::ContactlessEmv)
        } else if code == 4 {
            Some(FareMediaType::MobileApp)
        } else {
            None
        }
    }

    /// Converts a wire code; `None` for codes outside the specification.
    pub fn from_code(code: i32) -> (r: Option<Self>)
        ensures
            r == Self::spec_from_code(code as int),
    {
        match code {
            0 => Some(FareMediaType::NoMedia),
            1 => Some(FareMediaType::PaperTicket),
            2 => Some(FareMediaType::TransitCard),
            3 => Some(FareMediaType::ContactlessEmv),
            4 => Some(FareMediaType::MobileApp),
            _ => None,
        }
    }

    /// The wire code of the value.
    pub fn code(&self) -> (r: i32)
        ensures
            r == self.spec_code(),
    {
        match self {
            FareMediaType::NoMedia => 0,
            FareMediaType::PaperTicket => 1,
            FareMediaType::TransitCard => 2,
            FareMediaType::ContactlessEmv => 3,
            FareMediaType::MobileApp => 4,
        }
    }

    /// The wire code of a value reads back as that value, and the one
    /// code that reads as a value is its own.
    pub proof fn lemma_code_round_trip(self, code: int)
        ensures
            Self::spec_from_code(self.spec_code()) == Some(self),
            Self::spec_from_code(code) == Some(self) ==> code == self.spec_code(),
    {
    }
}

/// Cost processing of a fare transfer.
#[derive(Debug, Clone, Copy, PartialEq, Eq, Hash, Structural)]
pub enum FareTransferType {
    /// From-leg plus transfer (0)
    FromLegPlusTransfer,
    /// From-leg plus transfer plus to-leg (1)
    FromLegPlusTransferPlusToLeg,
    /// Transfer only (2)
    TransferOnly,
}

impl FareTransferType {
    /// The wire code of the value.
    pub open spec fn spec_code(self) -> int {
        match self {
            FareTransferType::FromLegPlusTransfer => 0,
            FareTransferType::FromLegPlusTransferPlusToLeg => 1,
            FareTransferType::TransferOnly => 2,
        }
    }

    /// The value a wire code stands for, if any.
    pub open spec fn spec_from_code(code: int) -> Option<Self> {
        if code == 0 {
            Some(FareTransferType::FromLegPlusTransfer)
        } else if code == 1 {
            Some(FareTransferType::FromLegPlusTransferPlusToLeg)
        } else if code == 2 {
            Some(FareTransferType::TransferOnly)
        } else {
            None
        }
    }

    /// Converts a wire code; `None` for codes outside the specification.
    pub fn from_code(code: i32) -> (r: Option<Self>)
        ensures
            r == Self::spec_from_code(code as int),
    {
        match code {
            0 => Some(FareTransferType::FromLegPlusTransfer),
            1 => Some(FareTransferType::FromLegPlusTransferPlusToLeg),
            2 => Some(FareTransferType::TransferOnly),
            _ => None,
        }
    }

    /// The wire code of the value.
    pub fn code(&self) -> (r: i32)
        ensures
            r == self.spec_code(),
    {
        match self {
            FareTransferType::FromLegPlusTransfer => 0,
            FareTransferType::FromLegPlusTransferPlusToLeg => 1,
            FareTransferType::TransferOnly => 2,
        }
    }

    /// The wire code of a value reads back as that value, and the one
    /// code that reads as a value is its own.
    pub proof fn lemma_code_round_trip(self, code: int)
        ensures
            Self::spec_from_code(self.spec_code()) == Some(self),
            Self::spec_from_code(code) == Some(self) ==> code == self.spec_code(),
    {
    }
}

/// Which events bound a transfer duration limit.
#[derive(Debug, Clone, Copy, PartialEq, Eq, Hash, Structural)]
pub enum DurationLimitType {
    /// Departure of the current leg to arrival of the next (0)
    DepartureToArrival,
    /// Departure to departure (1)
    DepartureToDeparture,
    /// Arrival to departure (2)
    ArrivalToDeparture,
    /// Arrival to arrival (3)
    ArrivalToArrival,
}

impl DurationLimitType {
    /// The wire code of the value.
    pub open spec fn spec_code(self) -> int {
        match self {
            DurationLimitType::DepartureToArrival => 0,
            DurationLimitType::DepartureToDeparture => 1,
            DurationLimitType::ArrivalToDeparture => 2,
            DurationLimitType::ArrivalToArrival => 3,
        }
    }

    /// The value a wire code stands for, if any.
    pub open spec fn spec_from_code(code: int) -> Option<Self> {
        if code == 0 {
            Some(DurationLimitType::DepartureToArrival)
        } else if code == 1 {
            Some(DurationLimitType::DepartureToDeparture)
        } else if code == 2 {
            Some(DurationLimitType::ArrivalToDeparture)
        } else if code == 3 {
            Some(DurationLimitType::ArrivalToArrival)
        } else {
            None
        }
    }

    /// Converts a wire code; `None` for codes outside the specification.
    pub fn from_code(code: i32) -> (r: Option<Self>)
        ensures
            r == Self::spec_from_code(code as int),
    {
        match code {
            0 => Some(DurationLimitType::DepartureToArrival),
            1 => Some(DurationLimitType::DepartureToDeparture),
            2 => Some(DurationLimitType::ArrivalToDeparture),
            3 => Some(DurationLimitType::ArrivalToArrival),
            _ => None,
        }
    }

    /// The wire code of the value.
    pub fn code(&self) -> (r: i32)
        ensures
            r == self.spec_code(),
    {
        match self {
            DurationLimitType::DepartureToArrival => 0,
            DurationLimitType::DepartureToDeparture => 1,
            DurationLimitType::ArrivalToDeparture => 2,
            DurationLimitType::ArrivalToArrival => 3,
        }
    }

    /// The wire code of a value reads back as that value, and the one
    /// code that reads as a value is its own.
    pub proof fn lemma_code_round_trip(self, code: int)
        ensures
            Self::spec_from_code(self.spec_code()) == Some(self),
            Self::spec_from_code(code) == Some(self) ==> code == self.spec_code(),
    {
    }
}

/// Whether a frequency is schedule based.
#[derive(Debug, Clone, Copy, PartialEq, Eq, Hash, Structural)]
pub enum ExactTimes {
    /// Frequency-based trips (0, the default)
    FrequencyBased,
    /// Schedule-based trips (1)
    ScheduleBased,
}

impl ExactTimes {
    /// The wire code of the value.
    pub open spec fn spec_code(self) -> int {
        match self {
            ExactTimes::FrequencyBased => 0,
            ExactTimes::ScheduleBased => 1,
        }
    }

    /// The value a wire code stands for, if any.
    pub open spec fn spec_from_code(code: int) -> Option<Self> {
        if code == 0 {
            Some(ExactTimes::FrequencyBased)
        } else if code == 1 {
            Some(ExactTimes::ScheduleBased)
        } else {
            None
        }
    }

    /// Converts a wire code; `None` for codes outside the specification.
    pub fn from_code(code: i32) -> (r: Option<Self>)
        ensures
            r == Self::spec_from_code(code as int),
    {
        match code {
            0 => Some(ExactTimes::FrequencyBased),
            1 => Some(ExactTimes::ScheduleBased),
            _ => None,
        }
    }

    /// The wire code of the value.
    pub fn code(&self) -> (r: i32)
        ensures
            r == self.spec_code(),
    {
        match self {
            ExactTimes::FrequencyBased => 0,
            ExactTimes::ScheduleBased => 1,
        }
    }

    /// The wire code of a value reads back as that value, and the one
    /// code that reads as a value is its own.
    pub proof fn lemma_code_round_trip(self, code: int)
        ensures
            Self::spec_from_code(self.spec_code()) == Some(self),
            Self::spec_from_code(code) == Some(self) ==> code == self.spec_code(),
    {
    }
}

impl Default for ExactTimes {
    fn default() -> (r: Self)
        ensures
            r == ExactTimes::FrequencyBased,
    {
        ExactTimes::FrequencyBased
    }
}

/// Kind of a `transfers.txt` connection.
#[derive(Debug, Clone, Copy, PartialEq, Eq, Hash, Structural)]
pub enum TransferType {
    /// Recommended transfer point (0, the default)
    Recommended,
    /// Timed transfer (1)
    Timed,
    /// Transfer needing a minimum time (2)
    MinimumTime,
    /// No transfer possible (3)
    NotPossible,
    /// In-seat transfer (4)
    InSeat,
    /// In-seat transfer not allowed (5)
    InSeatNotAllowed,
}

impl TransferType {
    /// The wire code of the value.
    pub open spec fn spec_code(self) -> int {
        match self {
            TransferType::Recommended => 0,
            TransferType::Timed => 1,
            TransferType::MinimumTime => 2,
            TransferType::NotPossible => 3,
            TransferType::InSeat => 4,
            TransferType::InSeatNotAllowed => 5,
        }
    }

    /// The value a wire code stands for, if any.
    pub open spec fn spec_from_code(code: int) -> Option<Self> {
        if code == 0 {
            Some(TransferType::Recommended)
        } else if code == 1 {
            Some(TransferType::Timed)
        } else if code == 2 {
            Some(TransferType::MinimumTime)
        } else if code == 3 {
            Some(TransferType::NotPossible)
        } else if code == 4 {
            Some(TransferType::InSeat)
        } else if code == 5 {
            Some(TransferType::InSeatNotAllowed)
        } else {
            None
        }
    }

    /// Converts a wire code; `None` for codes outside the specification.
    pub fn from_code(code: i32) -> (r: Option<Self>)
        ensures
            r == Self::spec_from_code(code as int),
    {
        match code {
            0 => Some(TransferType::Recommended),
            1 => Some(TransferType::Timed),
            2 => Some(TransferType::MinimumTime),
            3 => Some(TransferType::NotPossible),
            4 => Some(TransferType::InSeat),
            5 => Some(TransferType::InSeatNotAllowed),
            _ => None,
        }
    }

    /// The wire code of the value.
    pub fn code(&self) -> (r: i32)
        ensures
            r == self.spec_code(),
    {
        match self {
            TransferType::Recommended => 0,
            TransferType::Timed => 1,
            TransferType::MinimumTime => 2,
            TransferType::NotPossible => 3,
            TransferType::InSeat => 4,
            TransferType::InSeatNotAllowed => 5,
        }
    }

    /// The wire code of a value reads back as that value, and the one
    /// code that reads as a value is its own.
    pub proof fn lemma_code_round_trip(self, code: int)
        ensures
            Self::spec_from_code(self.spec_code()) == Some(self),
            Self::spec_from_code(code) == Some(self) ==> code == self.spec_code(),
    {
    }
}

impl Default for TransferType {
    fn default() -> (r: Self)
        ensures
            r == TransferType::Recommended,
    {
        TransferType::Recommended
    }
}

/// Kind of a station pathway.
#[derive(Debug, Clone, Copy, PartialEq, Eq, Hash, Structural)]
pub enum PathwayMode {
    /// Walkway (1)
    Walkway,
    /// Stairs (2)
    Stairs,
    /// Moving sidewalk (3)
    MovingSidewalk,
    /// Escalator (4)
    Escalator,
    /// Elevator (5)
    Elevator,
    /// Fare gate (6)
    FareGate,
    /// Exit gate (7)
    ExitGate,
}

impl PathwayMode {
    /// The wire code of the value.
    pub open spec fn spec_code(self) -> int {
        match self {
            PathwayMode::Walkway => 1,
            PathwayMode::Stairs => 2,
            PathwayMode::MovingSidewalk => 3,
            PathwayMode::Escalator => 4,
            PathwayMode::Elevator => 5,
            PathwayMode::FareGate => 6,
            PathwayMode::ExitGate => 7,
        }
    }

    /// The value a wire code stands for, if any.
    pub open spec fn spec_from_code(code: int) -> Option<Self> {
        if code == 1 {
            Some(PathwayMode::Walkway)
        } else if code == 2 {
            Some(PathwayMode::Stairs)
        } else if code == 3 {
            Some(PathwayMode::MovingSidewalk)
        } else if code == 4 {
            Some(PathwayMode::Escalator)
        } else if code == 5 {
            Some(PathwayMode::Elevator)
        } else if code == 6 {
            Some(PathwayMode::FareGate)
        } else if code == 7 {
            Some(PathwayMode::ExitGate)
        } else {
            None
        }
    }

    /// Converts a wire code; `None` for codes outside the specification.
    pub fn from_code(code: i32) -> (r: Option<Self>)
        ensures
            r == Self::spec_from_code(code as int),
    {
        match code {
            1 => Some(PathwayMode::Walkway),
            2 => Some(PathwayMode::Stairs),
            3 => Some(PathwayMode::MovingSidewalk),
            4 => Some(PathwayMode::Escalator),
            5 => Some(PathwayMode::Elevator),
            6 => Some(PathwayMode::FareGate),
            7 => Some(PathwayMode::ExitGate),
            _ => None,
        }
    }

    /// The wire code of the value.
    pub fn code(&self) -> (r: i32)
        ensures
            r == self.spec_code(),
    {
        match self {
            PathwayMode::Walkway => 1,
            PathwayMode::Stairs => 2,
            PathwayMode::MovingSidewalk => 3,
            PathwayMode::Escalator => 4,
            PathwayMode::Elevator => 5,
            PathwayMode::FareGate => 6,
            PathwayMode::ExitGate => 7,
        }
    }

    /// The wire code of a value reads back as that value, and the one
    /// code that reads as a value is its own.
    pub proof fn lemma_code_round_trip(self, code: int)
        ensures
            Self::spec_from_code(self.spec_code()) == Some(self),
            Self::spec_from_code(code) == Some(self) ==> code == self.spec_code(),
    {
    }
}

/// When a GTFS-Flex booking is made.
#[derive(Debug, Clone, Copy, PartialEq, Eq, Hash, Structural)]
pub enum BookingType {
    /// Real-time booking (0)
    RealTime,
    /// Same-day booking with advance notice (1)
    SameDay,
    /// Prior days booking (2)
    PriorDays,
}

impl BookingType {
    /// The wire code of the value.
    pub open spec fn spec_code(self) -> int {
        match self {
            BookingType::RealTime => 0,
            BookingType::SameDay => 1,
            BookingType::PriorDays => 2,
        }
    }

    /// The value a wire code stands for, if any.
    pub open spec fn spec_from_code(code: int) -> Option<Self> {
        if code == 0 {
            Some(BookingType::RealTime)
        } else if code == 1 {
            Some(BookingType::SameDay)
        } else if code == 2 {
            Some(BookingType::PriorDays)
        } else {
            None
        }
    }

    /// Converts a wire code; `None` for codes outside the specification.
    pub fn from_code(code: i32) -> (r: Option<Self>)
        ensures
            r == Self::spec_from_code(code as int),
    {
        match code {
            0 => Some(BookingType::RealTime),
            1 => Some(BookingType::SameDay),
            2 => Some(BookingType::PriorDays),
            _ => None,
        }
    }

    /// The wire code of the value.
    pub fn code(&self) -> (r: i32)
        ensures
            r == self.spec_code(),
    {
        match self {
            BookingType::RealTime => 0,
            BookingType::SameDay => 1,
            BookingType::PriorDays => 2,
        }
    }

    /// The wire code of a value reads back as that value, and the one
    /// code that reads as a value is its own.
    pub proof fn lemma_code_round_trip(self, code: int)
        ensures
            Self::spec_from_code(self.spec_code()) == Some(self),
            Self::spec_from_code(code) == Some(self) ==> code == self.spec_code(),
    {
    }
}

/// Vehicle type of a route (`route_type`): the basic codes of the
/// specification, or an extended route type code (100-1799).
#[derive(Debug, Clone, Copy, PartialEq, Eq, Hash, Structural)]
pub enum RouteType {
    /// Tram, streetcar, light rail (0)
    Tram,
    /// Subway, metro (1)
    Subway,
    /// Rail (2)
    Rail,
    /// Bus (3)
    Bus,
    /// Ferry (4)
    Ferry,
    /// Cable tram (5)
    CableTram,
    /// Aerial lift (6)
    AerialLift,
    /// Funicular (7)
    Funicular,
    /// Trolleybus (11)
    Trolleybus,
    /// Monorail (12)
    Monorail,
    /// An extended route type code (100-1799)
    Extended(i32),
}

impl RouteType {
    /// The wire code of the value.
    pub open spec fn spec_code(self) -> int {
        match self {
            RouteType::Tram => 0,
            RouteType::Subway => 1,
            RouteType::Rail => 2,
            RouteType::Bus => 3,
            RouteType::Ferry => 4,
            RouteType::CableTram => 5,
            RouteType::AerialLift => 6,
            RouteType::Funicular => 7,
            RouteType::Trolleybus => 11,
            RouteType::Monorail => 12,
            RouteType::Extended(code) => code as int,
        }
    }

    /// The value a wire code stands for, if any.
    pub open spec fn spec_from_code(code: int) -> Option<Self> {
        if code == 0 {
            Some(RouteType::Tram)
        } else if code == 1 {
            Some(RouteType::Subway)
        } else if code == 2 {
            Some(RouteType::Rail)
        } else if code == 3 {
            Some(RouteType::Bus)
        } else if code == 4 {
            Some(RouteType::Ferry)
        } else if code == 5 {
            Some(RouteType::CableTram)
        } else if code == 6 {
            Some(RouteType::AerialLift)
        } else if code == 7 {
            Some(RouteType::Funicular)
        } else if code == 11 {
            Some(RouteType::Trolleybus)
        } else if code == 12 {
            Some(RouteType::Monorail)
        } else if 100 <= code <= 1799 {
            Some(RouteType::Extended(code as i32))
        } else {
            None
        }
    }

    /// Converts a wire code; `None` for codes outside the specification.
    pub fn from_code(code: i32) -> (r: Option<Self>)
        ensures
            r == Self::spec_from_code(code as int),
    {
        match code {
            0 => Some(RouteType::Tram),
            1 => Some(RouteType::Subway),
            2 => Some(RouteType::Rail),
            3 => Some(RouteType::Bus),
            4 => Some(RouteType::Ferry),
            5 => Some(RouteType::CableTram),
            6 => Some(RouteType::AerialLift),
            7 => Some(RouteType::Funicular),
            11 => Some(RouteType::Trolleybus),
            12 => Some(RouteType::Monorail),
            _ => {
                if 100 <= code && code <= 1799 {
                    Some(RouteType::Extended(code))
                } else {
                    None
                }
            },
        }
    }

    /// The wire code of the value.
    pub fn code(&self) -> (r: i32)
        ensures
            r == self.spec_code(),
    {
        match self {
            RouteType::Tram => 0,
            RouteType::Subway => 1,
            RouteType::Rail => 2,
            RouteType::Bus => 3,
            RouteType::Ferry => 4,
            RouteType::CableTram => 5,
            RouteType::AerialLift => 6,
            RouteType::Funicular => 7,
            RouteType::Trolleybus => 11,
            RouteType::Monorail => 12,
            RouteType::Extended(code) => *code,
        }
    }

    /// The wire code of a value reads back as that value, and the one
    /// code that reads as a value is its own.
    pub proof fn lemma_code_round_trip(self, code: int)
        requires
            self matches RouteType::Extended(c) ==> 100 <= c <= 1799,
        ensures
            Self::spec_from_code(self.spec_code()) == Some(self),
            Self::spec_from_code(code) == Some(self) ==> code == self.spec_code(),
    {
    }
}

/// Number of transfers a Fares v1 fare permits (`transfers`).
#[derive(Debug, Clone, Copy, PartialEq, Eq, Hash, Structural)]
pub enum FareTransfers {
    /// No transfers (0)
    NotAllowed,
    /// One transfer (1)
    Once,
    /// Two transfers (2)
    Twice,
    /// Unlimited transfers (empty value)
    Unlimited,
}

impl FareTransfers {
    /// The wire code of the value; `None` stands for the empty value.
    pub open spec fn spec_code(self) -> Option<int> {
        match self {
            FareTransfers::NotAllowed => Some(0),
            FareTransfers::Once => Some(1),
            FareTransfers::Twice => Some(2),
            FareTransfers::Unlimited => None,
        }
    }

    /// The value a wire code (or the empty value) stands for, if any.
    pub open spec fn spec_from_code(code: Option<int>) -> Option<Self> {
        match code {
            None => Some(FareTransfers::Unlimited),
            Some(c) => if c == 0 {
                Some(FareTransfers::NotAllowed)
            } else if c == 1 {
                Some(FareTransfers::Once)
            } else if c == 2 {
                Some(FareTransfers::Twice)
            } else {
                None
            },
        }
    }

    /// Converts a wire code, `None` being the empty value; `None` for
    /// codes outside the specification.
    pub fn from_code(code: Option<i32>) -> (r: Option<Self>)
        ensures
            r == Self::spec_from_code(
                match code {
                    Some(c) => Some(c as int),
                    None => None,
                },
            ),
    {
        match code {
            None => Some(FareTransfers::Unlimited),
            Some(0) => Some(FareTransfers::NotAllowed),
            Some(1) => Some(FareTransfers::Once),
            Some(2) => Some(FareTransfers::Twice),
            Some(_) => None,
        }
    }

    /// The wire code of the value; `None` for the empty value.
    pub fn code(&self) -> (r: Option<i32>)
        ensures
            match r {
                Some(c) => self.spec_code() == Some(c as int),
                None => self.spec_code() is None,
            },
    {
        match self {
            FareTransfers::NotAllowed => Some(0),
            FareTransfers::Once => Some(1),
            FareTransfers::Twice => Some(2),
            FareTransfers::Unlimited => None,
        }
    }

    /// The wire code of a value reads back as that value, and the one
    /// code that reads as a value is its own.
    pub proof fn lemma_code_round_trip(self, code: Option<int>)
        ensures
            Self::spec_from_code(self.spec_code()) == Some(self),
            Self::spec_from_code(code) == Some(self) ==> code == self.spec_code(),
    {
    }
}

/// Table of a translated field (`translations.table_name`).
#[derive(Debug, Clone, Copy, PartialEq, Eq, Hash, Structural)]
pub enum TableName {
    Agency,
    Stops,
    Routes,
    Trips,
    StopTimes,
    Pathways,
    Levels,
    FeedInfo,
    Attributions,
}

impl TableName {
    /// The wire name of the table.
    pub open spec fn spec_name(self) -> Seq<char> {
        match self {
            TableName::Agency => seq!['a', 'g', 'e', 'n', 'c', 'y'],
            TableName::Stops => seq!['s', 't', 'o', 'p', 's'],
            TableName::Routes => seq!['r', 'o', 'u', 't', 'e', 's'],
            TableName::Trips => seq!['t', 'r', 'i', 'p', 's'],
            TableName::StopTimes => seq!['s', 't', 'o', 'p', '_', 't', 'i', 'm', 'e', 's'],
            TableName::Pathways => seq!['p', 'a', 't', 'h', 'w', 'a', 'y', 's'],
            TableName::Levels => seq!['l', 'e', 'v', 'e', 'l', 's'],
            TableName::FeedInfo => seq!['f', 'e', 'e', 'd', '_', 'i', 'n', 'f', 'o'],
            TableName::Attributions => seq![
                'a',
                't',
                't',
                'r',
                'i',
                'b',
                'u',
                't',
                'i',
                'o',
                'n',
                's',
            ],
        }
    }

    /// No two tables share a wire name, so the name of a table reads back
    /// as that table.
    pub proof fn lemma_name_round_trip(self, other: TableName)
        ensures
            self.spec_name() == other.spec_name() ==> self == other,
    {
        if self.spec_name() == other.spec_name() {
            assert(self.spec_name().len() == other.spec_name().len());
            assert(self.spec_name()[0] == other.spec_name()[0]);
        }
    }

    /// Every table name, in specification order.
    pub open spec fn all() -> Seq<TableName> {
        seq![
            TableName::Agency,
            TableName::Stops,
            TableName::Routes,
            TableName::Trips,
            TableName::StopTimes,
            TableName::Pathways,
            TableName::Levels,
            TableName::FeedInfo,
            TableName::Attributions,
        ]
    }

    /// The wire name of the table.
    pub fn name(&self) -> (r: &'static str)
        ensures
            r@ == self.spec_name(),
    {
        proof {
            reveal_strlit("agency");
            reveal_strlit("stops");
            reveal_strlit("routes");
            reveal_strlit("trips");
            reveal_strlit("stop_times");
            reveal_strlit("pathways");
            reveal_strlit("levels");
            reveal_strlit("feed_info");
            reveal_strlit("attributions");
        }
        match self {
            TableName::Agency => "agency",
            TableName::Stops => "stops",
            TableName::Routes => "routes",
            TableName::Trips => "trips",
            TableName::StopTimes => "stop_times",
            TableName::Pathways => "pathways",
            TableName::Levels => "levels",
            TableName::FeedInfo => "feed_info",
            TableName::Attributions => "attributions",
        }
    }

    /// The table a wire name stands for; `None` for any other text.
    pub fn from_name(name: &str) -> (r: Option<TableName>)
        ensures
            match r {
                Some(t) => t.spec_name() == name@,
                None => forall|t: TableName| t.spec_name() != name@,
            },
    {
        let candidates = [
            TableName::Agency,
            TableName::Stops,
            TableName::Routes,
            TableName::Trips,
            TableName::StopTimes,
            TableName::Pathways,
            TableName::Levels,
            TableName::FeedInfo,
            TableName::Attributions,
        ];
        let mut i: usize = 0;
        while i < 9
            invariant
                0 <= i <= 9,
                candidates@ == Self::all(),
                forall|j: int| 0 <= j < i ==> (#[trigger] candidates@[j]).spec_name() != name@,
            decreases 9 - i,
        {
            let candidate = candidates[i];
            if crate::text::str_eq(candidate.name(), name) {
                return Some(candidate);
            }
            i = i + 1;
        }
        proof {
            assert forall|t: TableName| t.spec_name() != name@ by {
                match t {
                    TableName::Agency => assert(candidates@[0] == t),
                    TableName::Stops => assert(candidates@[1] == t),
                    TableName::Routes => assert(candidates@[2] == t),
                    TableName::Trips => assert(candidates@[3] == t),
                    TableName::StopTimes => assert(candidates@[4] == t),
                    TableName::Pathways => assert(candidates@[5] == t),
                    TableName::Levels => assert(candidates@[6] == t),
                    TableName::FeedInfo => assert(candidates@[7] == t),
                    TableName::Attributions => assert(candidates@[8] == t),
                }
            }
        }
        None
    }
}

/// Outline of a GTFS-Flex zone: rings of `[lon, lat]` positions, each
/// coordinate the bit pattern of an IEEE-754 binary64 value.
#[derive(Debug, Clone)]
pub enum LocationGeometry {
    /// One polygon: an exterior ring and optional holes
    Polygon(Vec<Vec<[u64; 2]>>),
    /// Several polygons
    MultiPolygon(Vec<Vec<Vec<[u64; 2]>>>),
}

/// An agency (`agency.txt`).
#[derive(Debug, Clone)]
pub struct Agency {
    /// Agency identifier; optional with a single agency
    pub agency_id: Option<String>,
    /// Full agency name
    pub agency_name: String,
    /// Agency URL
    pub agency_url: String,
    /// Agency time zone
    pub agency_timezone: String,
    /// Primary language
    pub agency_lang: Option<String>,
    /// Voice telephone number
    pub agency_phone: Option<String>,
    /// Fare information URL
    pub agency_fare_url: Option<String>,
    /// Customer service email
    pub agency_email: Option<String>,
    /// Contactless EMV support
    pub cemv_support: CemvSupport,
}

impl Agency {
    /// Creates a record with the given required values; optional fields are
    /// empty and enumerated ones take their specification default.
    pub fn new(agency_name: &str, agency_url: &str, agency_timezone: &str) -> (r: Self)
        ensures
            r.agency_id.is_none(),
            r.agency_name@ == agency_name@,
            r.agency_url@ == agency_url@,
            r.agency_timezone@ == agency_timezone@,
            r.agency_lang.is_none(),
            r.agency_phone.is_none(),
            r.agency_fare_url.is_none(),
            r.agency_email.is_none(),
            r.cemv_support == CemvSupport::NoInfo,
    {
        Agency {
            agency_id: None,
            agency_name: owned(agency_name),
            agency_url: owned(agency_url),
            agency_timezone: owned(agency_timezone),
            agency_lang: None,
            agency_phone: None,
            agency_fare_url: None,
            agency_email: None,
            cemv_support: CemvSupport::NoInfo,
        }
    }
}

/// A stop, station or other location (`stops.txt`).
#[derive(Debug, Clone)]
pub struct Stop {
    /// Location identifier
    pub stop_id: String,
    /// Short rider-facing code
    pub stop_code: Option<String>,
    /// Location name
    pub stop_name: Option<String>,
    /// Text-to-speech name
    pub tts_stop_name: Option<String>,
    /// Description
    pub stop_desc: Option<String>,
    /// Latitude, as the bit pattern of an IEEE-754 binary64 value
    pub stop_lat: Option<u64>,
    /// Longitude, as the bit pattern of an IEEE-754 binary64 value
    pub stop_lon: Option<u64>,
    /// Fare zone
    pub zone_id: Option<String>,
    /// Location URL
    pub stop_url: Option<String>,
    /// Kind of location
    pub location_type: LocationType,
    /// Parent location
    pub parent_station: Option<String>,
    /// Time zone
    pub stop_timezone: Option<String>,
    /// Wheelchair boarding
    pub wheelchair_boarding: WheelchairBoarding,
    /// Level
    pub level_id: Option<String>,
    /// Platform identifier
    pub platform_code: Option<String>,
    /// How the platform is reached
    pub stop_access: Option<StopAccess>,
}

impl Stop {
    /// Creates a record with the given required values; optional fields are
    /// empty and enumerated ones take their specification default.
    pub fn new(stop_id: &str) -> (r: Self)
        ensures
            r.stop_id@ == stop_id@,
            r.stop_code.is_none(),
            r.stop_name.is_none(),
            r.tts_stop_name.is_none(),
            r.stop_desc.is_none(),
            r.stop_lat.is_none(),
            r.stop_lon.is_none(),
            r.zone_id.is_none(),
            r.stop_url.is_none(),
            r.location_type == LocationType::StopOrPlatform,
            r.parent_station.is_none(),
            r.stop_timezone.is_none(),
            r.wheelchair_boarding == WheelchairBoarding::NoInfo,
            r.level_id.is_none(),
            r.platform_code.is_none(),
            r.stop_access.is_none(),
    {
        Stop {
            stop_id: owned(stop_id),
            stop_code: None,
            stop_name: None,
            tts_stop_name: None,
            stop_desc: None,
            stop_lat: None,
            stop_lon: None,
            zone_id: None,
            stop_url: None,
            location_type: LocationType::StopOrPlatform,
            parent_station: None,
            stop_timezone: None,
            wheelchair_boarding: WheelchairBoarding::NoInfo,
            level_id: None,
            platform_code: None,
            stop_access: None,
        }
    }
}

/// A route (`routes.txt`).
#[derive(Debug, Clone)]
pub struct Route {
    /// Route identifier
    pub route_id: String,
    /// Agency of the route
    pub agency_id: Option<String>,
    /// Short name
    pub route_short_name: Option<String>,
    /// Full name
    pub route_long_name: Option<String>,
    /// Description
    pub route_desc: Option<String>,
    /// Vehicle type
    pub route_type: RouteType,
    /// Route URL
    pub route_url: Option<String>,
    /// Route color
    pub route_color: Option<String>,
    /// Text color
    pub route_text_color: Option<String>,
    /// Presentation order
    pub route_sort_order: Option<u32>,
    /// Continuous pickup
    pub continuous_pickup: ContinuousPickupDropOff,
    /// Continuous drop-off
    pub continuous_drop_off: ContinuousPickupDropOff,
    /// Fare network
    pub network_id: Option<String>,
    /// Contactless EMV support
    pub cemv_support: CemvSupport,
}

impl Route {
    /// Creates a record with the given required values; optional fields are
    /// empty and enumerated ones take their specification default.
    pub fn new(route_id: &str, route_type: RouteType) -> (r: Self)
        ensures
            r.route_id@ == route_id@,
            r.agency_id.is_none(),
            r.route_short_name.is_none(),
            r.route_long_name.is_none(),
            r.route_desc.is_none(),
            r.route_type == route_type,
            r.route_url.is_none(),
            r.route_color.is_none(),
            r.route_text_color.is_none(),
            r.route_sort_order.is_none(),
            r.continuous_pickup == ContinuousPickupDropOff::NotContinuous,
            r.continuous_drop_off == ContinuousPickupDropOff::NotContinuous,
            r.network_id.is_none(),
            r.cemv_support == CemvSupport::NoInfo,
    {
        Route {
            route_id: owned(route_id),
            agency_id: None,
            route_short_name: None,
            route_long_name: None,
            route_desc: None,
            route_type,
            route_url: None,
            route_color: None,
            route_text_color: None,
            route_sort_order: None,
            continuous_pickup: ContinuousPickupDropOff::NotContinuous,
            continuous_drop_off: ContinuousPickupDropOff::NotContinuous,
            network_id: None,
            cemv_support: CemvSupport::NoInfo,
        }
    }
}

/// A trip (`trips.txt`).
#[derive(Debug, Clone)]
pub struct Trip {
    /// Trip identifier
    pub trip_id: String,
    /// Route of the trip
    pub route_id: String,
    /// Service of the trip
    pub service_id: String,
    /// Headsign
    pub trip_headsign: Option<String>,
    /// Short name
    pub trip_short_name: Option<String>,
    /// Direction
    pub direction_id: Option<Direction>,
    /// Block
    pub block_id: Option<String>,
    /// Shape
    pub shape_id: Option<String>,
    /// Wheelchair accessibility
    pub wheelchair_accessible: WheelchairAccessible,
    /// Bicycles
    pub bikes_allowed: BikesAllowed,
    /// Cars
    pub cars_allowed: CarsAllowed,
    /// GTFS-Flex duration factor, as an IEEE-754 binary64 bit pattern
    pub safe_duration_factor: Option<u64>,
    /// GTFS-Flex duration offset, as an IEEE-754 binary64 bit pattern
    pub safe_duration_offset: Option<u64>,
}

impl Trip {
    /// Creates a record with the given required values; optional fields are
    /// empty and enumerated ones take their specification default.
    pub fn new(trip_id: &str, route_id: &str, service_id: &str) -> (r: Self)
        ensures
            r.trip_id@ == trip_id@,
            r.route_id@ == route_id@,
            r.service_id@ == service_id@,
            r.trip_headsign.is_none(),
            r.trip_short_name.is_none(),
            r.direction_id.is_none(),
            r.block_id.is_none(),
            r.shape_id.is_none(),
            r.wheelchair_accessible == WheelchairAccessible::NoInfo,
            r.bikes_allowed == BikesAllowed::NoInfo,
            r.cars_allowed == CarsAllowed::NoInfo,
            r.safe_duration_factor.is_none(),
            r.safe_duration_offset.is_none(),
    {
        Trip {
            trip_id: owned(trip_id),
            route_id: owned(route_id),
            service_id: owned(service_id),
            trip_headsign: None,
            trip_short_name: None,
            direction_id: None,
            block_id: None,
            shape_id: None,
            wheelchair_accessible: WheelchairAccessible::NoInfo,
            bikes_allowed: BikesAllowed::NoInfo,
            cars_allowed: CarsAllowed::NoInfo,
            safe_duration_factor: None,
            safe_duration_offset: None,
        }
    }
}

/// A weekly service pattern (`calendar.txt`).
#[derive(Debug, Clone)]
pub struct Calendar {
    /// Service identifier
    pub service_id: String,
    /// Runs on Mondays
    pub monday: bool,
    /// Runs on Tuesdays
    pub tuesday: bool,
    /// Runs on Wednesdays
    pub wednesday: bool,
    /// Runs on Thursdays
    pub thursday: bool,
    /// Runs on Fridays
    pub friday: bool,
    /// Runs on Saturdays
    pub saturday: bool,
    /// Runs on Sundays
    pub sunday: bool,
    /// First day of service
    pub start_date: GtfsDate,
    /// Last day of service
    pub end_date: GtfsDate,
}

impl Calendar {
    /// Creates a record with the given required values; optional fields are
    /// empty and enumerated ones take their specification default.
    pub fn new(service_id: &str, start_date: GtfsDate, end_date: GtfsDate) -> (r: Self)
        ensures
            r.service_id@ == service_id@,
            !r.monday,
            !r.tuesday,
            !r.wednesday,
            !r.thursday,
            !r.friday,
            !r.saturday,
            !r.sunday,
            r.start_date == start_date,
            r.end_date == end_date,
    {
        Calendar {
            service_id: owned(service_id),
            monday: false,
            tuesday: false,
            wednesday: false,
            thursday: false,
            friday: false,
            saturday: false,
            sunday: false,
            start_date,
            end_date,
        }
    }
}

/// A service exception (`calendar_dates.txt`).
#[derive(Debug, Clone)]
pub struct CalendarDate {
    /// Service identifier
    pub service_id: String,
    /// Date of the exception
    pub date: GtfsDate,
    /// Added or removed
    pub exception_type: ExceptionType,
}

impl CalendarDate {
    /// Creates a record with the given required values; optional fields are
    /// empty and enumerated ones take their specification default.
    pub fn new(service_id: &str, date: GtfsDate, exception_type: ExceptionType) -> (r: Self)
        ensures
            r.service_id@ == service_id@,
            r.date == date,
            r.exception_type == exception_type,
    {
        CalendarDate {
            service_id: owned(service_id),
            date,
            exception_type,
        }
    }
}

/// A Fares v1 fare class (`fare_attributes.txt`).
#[derive(Debug, Clone)]
pub struct FareAttributeV1 {
    /// Fare identifier
    pub fare_id: String,
    /// Price
    pub price: CurrencyAmount,
    /// Currency code
    pub currency_type: String,
    /// When the fare is paid
    pub payment_method: PaymentMethod,
    /// Permitted transfers
    pub transfers: FareTransfers,
    /// Agency
    pub agency_id: Option<String>,
    /// Transfer validity in seconds
    pub transfer_duration: Option<u32>,
}

impl FareAttributeV1 {
    /// Creates a record with the given required values; optional fields are
    /// empty and enumerated ones take their specification default.
    pub fn new(fare_id: &str, price: CurrencyAmount, currency_type: &str, payment_method: PaymentMethod) -> (r: Self)
        ensures
            r.fare_id@ == fare_id@,
            r.price == price,
            r.currency_type@ == currency_type@,
            r.payment_method == payment_method,
            r.transfers == FareTransfers::Unlimited,
            r.agency_id.is_none(),
            r.transfer_duration.is_none(),
    {
        FareAttributeV1 {
            fare_id: owned(fare_id),
            price,
            currency_type: owned(currency_type),
            payment_method,
            transfers: FareTransfers::Unlimited,
            agency_id: None,
            transfer_duration: None,
        }
    }
}

/// A Fares v1 applicability rule (`fare_rules.txt`).
#[derive(Debug, Clone)]
pub struct FareRuleV1 {
    /// Fare class
    pub fare_id: String,
    /// Route
    pub route_id: Option<String>,
    /// Origin zone
    pub origin_id: Option<String>,
    /// Destination zone
    pub destination_id: Option<String>,
    /// Zone passed through
    pub contains_id: Option<String>,
}

impl FareRuleV1 {
    /// Creates a record with the given required values; optional fields are
    /// empty and enumerated ones take their specification default.
    pub fn new(fare_id: &str) -> (r: Self)
        ensures
            r.fare_id@ == fare_id@,
            r.route_id.is_none(),
            r.origin_id.is_none(),
            r.destination_id.is_none(),
            r.contains_id.is_none(),
    {
        FareRuleV1 {
            fare_id: owned(fare_id),
            route_id: None,
            origin_id: None,
            destination_id: None,
            contains_id: None,
        }
    }
}

/// A fare timeframe (`timeframes.txt`).
#[derive(Debug, Clone)]
pub struct Timeframe {
    /// Timeframe group
    pub timeframe_group_id: String,
    /// Start, seconds since midnight
    pub start_time: Option<u32>,
    /// End, seconds since midnight
    pub end_time: Option<u32>,
    /// Service
    pub service_id: String,
}

impl Timeframe {
    /// Creates a record with the given required values; optional fields are
    /// empty and enumerated ones take their specification default.
    pub fn new(timeframe_group_id: &str, service_id: &str) -> (r: Self)
        ensures
            r.timeframe_group_id@ == timeframe_group_id@,
            r.start_time.is_none(),
            r.end_time.is_none(),
            r.service_id@ == service_id@,
    {
        Timeframe {
            timeframe_group_id: owned(timeframe_group_id),
            start_time: None,
            end_time: None,
            service_id: owned(service_id),
        }
    }
}

/// A rider category (`rider_categories.txt`).
#[derive(Debug, Clone)]
pub struct RiderCategory {
    /// Category identifier
    pub rider_category_id: String,
    /// Category name
    pub rider_category_name: String,
    /// Whether it is the default category
    pub is_default_fare_category: bool,
    /// Eligibility URL
    pub eligibility_url: Option<String>,
}

impl RiderCategory {
    /// Creates a record with the given required values; optional fields are
    /// empty and enumerated ones take their specification default.
    pub fn new(rider_category_id: &str, rider_category_name: &str) -> (r: Self)
        ensures
            r.rider_category_id@ == rider_category_id@,
            r.rider_category_name@ == rider_category_name@,
            !r.is_default_fare_category,
            r.eligibility_url.is_none(),
    {
        RiderCategory {
            rider_category_id: owned(rider_category_id),
            rider_category_name: owned(rider_category_name),
            is_default_fare_category: false,
            eligibility_url: None,
        }
    }
}

/// A fare media (`fare_media.txt`).
#[derive(Debug, Clone)]
pub struct FareMedia {
    /// Media identifier
    pub fare_media_id: String,
    /// Media name
    pub fare_media_name: Option<String>,
    /// Kind of media
    pub fare_media_type: FareMediaType,
}

impl FareMedia {
    /// Creates a record with the given required values; optional fields are
    /// empty and enumerated ones take their specification default.
    pub fn new(fare_media_id: &str, fare_media_type: FareMediaType) -> (r: Self)
        ensures
            r.fare_media_id@ == fare_media_id@,
            r.fare_media_name.is_none(),
            r.fare_media_type == fare_media_type,
    {
        FareMedia {
            fare_media_id: owned(fare_media_id),
            fare_media_name: None,
            fare_media_type,
        }
    }
}

/// A fare product (`fare_products.txt`).
#[derive(Debug, Clone)]
pub struct FareProduct {
    /// Product identifier
    pub fare_product_id: String,
    /// Product name
    pub fare_product_name: Option<String>,
    /// Rider category
    pub rider_category_id: Option<String>,
    /// Fare media
    pub fare_media_id: Option<String>,
    /// Cost
    pub amount: CurrencyAmount,
    /// Currency code
    pub currency: String,
}

impl FareProduct {
    /// Creates a record with the given required values; optional fields are
    /// empty and enumerated ones take their specification default.
    pub fn new(fare_product_id: &str, amount: CurrencyAmount, currency: &str) -> (r: Self)
        ensures
            r.fare_product_id@ == fare_product_id@,
            r.fare_product_name.is_none(),
            r.rider_category_id.is_none(),
            r.fare_media_id.is_none(),
            r.amount == amount,
            r.currency@ == currency@,
    {
        FareProduct {
            fare_product_id: owned(fare_product_id),
            fare_product_name: None,
            rider_category_id: None,
            fare_media_id: None,
            amount,
            currency: owned(currency),
        }
    }
}

/// A fare leg rule (`fare_leg_rules.txt`).
#[derive(Debug, Clone)]
pub struct FareLegRule {
    /// Leg group
    pub leg_group_id: Option<String>,
    /// Network
    pub network_id: Option<String>,
    /// Departure area
    pub from_area_id: Option<String>,
    /// Arrival area
    pub to_area_id: Option<String>,
    /// Departure timeframe
    pub from_timeframe_group_id: Option<String>,
    /// Arrival timeframe
    pub to_timeframe_group_id: Option<String>,
    /// Fare product
    pub fare_product_id: String,
    /// Priority
    pub rule_priority: Option<u32>,
}

impl FareLegRule {
    /// Creates a record with the given required values; optional fields are
    /// empty and enumerated ones take their specification default.
    pub fn new(fare_product_id: &str) -> (r: Self)
        ensures
            r.leg_group_id.is_none(),
            r.network_id.is_none(),
            r.from_area_id.is_none(),
            r.to_area_id.is_none(),
            r.from_timeframe_group_id.is_none(),
            r.to_timeframe_group_id.is_none(),
            r.fare_product_id@ == fare_product_id@,
            r.rule_priority.is_none(),
    {
        FareLegRule {
            leg_group_id: None,
            network_id: None,
            from_area_id: None,
            to_area_id: None,
            from_timeframe_group_id: None,
            to_timeframe_group_id: None,
            fare_product_id: owned(fare_product_id),
            rule_priority: None,
        }
    }
}

/// A fare leg join rule (`fare_leg_join_rules.txt`).
#[derive(Debug, Clone)]
pub struct FareLegJoinRule {
    /// Network of the first leg
    pub from_network_id: String,
    /// Network of the second leg
    pub to_network_id: String,
    /// Stop of the first leg's arrival
    pub from_stop_id: Option<String>,
    /// Stop of the second leg's departure
    pub to_stop_id: Option<String>,
}

impl FareLegJoinRule {
    /// Creates a record with the given required values; optional fields are
    /// empty and enumerated ones take their specification default.
    pub fn new(from_network_id: &str, to_network_id: &str) -> (r: Self)
        ensures
            r.from_network_id@ == from_network_id@,
            r.to_network_id@ == to_network_id@,
            r.from_stop_id.is_none(),
            r.to_stop_id.is_none(),
    {
        FareLegJoinRule {
            from_network_id: owned(from_network_id),
            to_network_id: owned(to_network_id),
            from_stop_id: None,
            to_stop_id: None,
        }
    }
}

/// A fare transfer rule (`fare_transfer_rules.txt`).
#[derive(Debug, Clone)]
pub struct FareTransferRule {
    /// Leg group before the transfer
    pub from_leg_group_id: Option<String>,
    /// Leg group after the transfer
    pub to_leg_group_id: Option<String>,
    /// Consecutive transfers allowed
    pub transfer_count: Option<i32>,
    /// Duration limit in seconds
    pub duration_limit: Option<u32>,
    /// What bounds the duration
    pub duration_limit_type: Option<DurationLimitType>,
    /// Cost processing
    pub fare_transfer_type: FareTransferType,
    /// Fare product of the transfer
    pub fare_product_id: Option<String>,
}

impl FareTransferRule {
    /// Creates a record with the given required values; optional fields are
    /// empty and enumerated ones take their specification default.
    pub fn new(fare_transfer_type: FareTransferType) -> (r: Self)
        ensures
            r.from_leg_group_id.is_none(),
            r.to_leg_group_id.is_none(),
            r.transfer_count.is_none(),
            r.duration_limit.is_none(),
            r.duration_limit_type.is_none(),
            r.fare_transfer_type == fare_transfer_type,
            r.fare_product_id.is_none(),
    {
        FareTransferRule {
            from_leg_group_id: None,
            to_leg_group_id: None,
            transfer_count: None,
            duration_limit: None,
            duration_limit_type: None,
            fare_transfer_type,
            fare_product_id: None,
        }
    }
}

/// A fare area (`areas.txt`).
#[derive(Debug, Clone)]
pub struct Area {
    /// Area identifier
    pub area_id: String,
    /// Area name
    pub area_name: Option<String>,
}

impl Area {
    /// Creates a record with the given required values; optional fields are
    /// empty and enumerated ones take their specification default.
    pub fn new(area_id: &str) -> (r: Self)
        ensures
            r.area_id@ == area_id@,
            r.area_name.is_none(),
    {
        Area {
            area_id: owned(area_id),
            area_name: None,
        }
    }
}

/// A stop-to-area assignment (`stop_areas.txt`).
#[derive(Debug, Clone)]
pub struct StopArea {
    /// Area
    pub area_id: String,
    /// Stop
    pub stop_id: String,
}

impl StopArea {
    /// Creates a record with the given required values; optional fields are
    /// empty and enumerated ones take their specification default.
    pub fn new(area_id: &str, stop_id: &str) -> (r: Self)
        ensures
            r.area_id@ == area_id@,
            r.stop_id@ == stop_id@,
    {
        StopArea {
            area_id: owned(area_id),
            stop_id: owned(stop_id),
        }
    }
}

/// A route network (`networks.txt`).
#[derive(Debug, Clone)]
pub struct Network {
    /// Network identifier
    pub network_id: String,
    /// Network name
    pub network_name: Option<String>,
}

impl Network {
    /// Creates a record with the given required values; optional fields are
    /// empty and enumerated ones take their specification default.
    pub fn new(network_id: &str) -> (r: Self)
        ensures
            r.network_id@ == network_id@,
            r.network_name.is_none(),
    {
        Network {
            network_id: owned(network_id),
            network_name: None,
        }
    }
}

/// A route-to-network assignment (`route_networks.txt`).
#[derive(Debug, Clone)]
pub struct RouteNetwork {
    /// Network
    pub network_id: String,
    /// Route
    pub route_id: String,
}

impl RouteNetwork {
    /// Creates a record with the given required values; optional fields are
    /// empty and enumerated ones take their specification default.
    pub fn new(network_id: &str, route_id: &str) -> (r: Self)
        ensures
            r.network_id@ == network_id@,
            r.route_id@ == route_id@,
    {
        RouteNetwork {
            network_id: owned(network_id),
            route_id: owned(route_id),
        }
    }
}

/// A point of a shape (`shapes.txt`).
#[derive(Debug, Clone)]
pub struct ShapePoint {
    /// Shape identifier
    pub shape_id: String,
    /// Latitude, as the bit pattern of an IEEE-754 binary64 value
    pub shape_pt_lat: u64,
    /// Longitude, as the bit pattern of an IEEE-754 binary64 value
    pub shape_pt_lon: u64,
    /// Position in the shape
    pub shape_pt_sequence: u32,
    /// Distance traveled, as an IEEE-754 binary64 bit pattern
    pub shape_dist_traveled: Option<u64>,
}

impl ShapePoint {
    /// Creates a record with the given required values; optional fields are
    /// empty and enumerated ones take their specification default.
    pub fn new(shape_id: &str, shape_pt_lat: u64, shape_pt_lon: u64, shape_pt_sequence: u32) -> (r: Self)
        ensures
            r.shape_id@ == shape_id@,
            r.shape_pt_lat == shape_pt_lat,
            r.shape_pt_lon == shape_pt_lon,
            r.shape_pt_sequence == shape_pt_sequence,
            r.shape_dist_traveled.is_none(),
    {
        ShapePoint {
            shape_id: owned(shape_id),
            shape_pt_lat,
            shape_pt_lon,
            shape_pt_sequence,
            shape_dist_traveled: None,
        }
    }
}

/// A headway-based service window (`frequencies.txt`).
#[derive(Debug, Clone)]
pub struct Frequency {
    /// Trip
    pub trip_id: String,
    /// Start, seconds since midnight
    pub start_time: u32,
    /// End, seconds since midnight
    pub end_time: u32,
    /// Headway in seconds
    pub headway_secs: u32,
    /// Frequency or schedule based
    pub exact_times: ExactTimes,
}

impl Frequency {
    /// Creates a record with the given required values; optional fields are
    /// empty and enumerated ones take their specification default.
    pub fn new(trip_id: &str, start_time: u32, end_time: u32, headway_secs: u32) -> (r: Self)
        ensures
            r.trip_id@ == trip_id@,
            r.start_time == start_time,
            r.end_time == end_time,
            r.headway_secs == headway_secs,
            r.exact_times == ExactTimes::FrequencyBased,
    {
        Frequency {
            trip_id: owned(trip_id),
            start_time,
            end_time,
            headway_secs,
            exact_times: ExactTimes::FrequencyBased,
        }
    }
}

/// A transfer rule (`transfers.txt`).
#[derive(Debug, Clone)]
pub struct Transfer {
    /// Stop where the transfer starts
    pub from_stop_id: Option<String>,
    /// Stop where the transfer ends
    pub to_stop_id: Option<String>,
    /// Route arrived on
    pub from_route_id: Option<String>,
    /// Route departed on
    pub to_route_id: Option<String>,
    /// Trip arrived on
    pub from_trip_id: Option<String>,
    /// Trip departed on
    pub to_trip_id: Option<String>,
    /// Kind of connection
    pub transfer_type: TransferType,
    /// Minimum transfer time in seconds
    pub min_transfer_time: Option<u32>,
}

impl Transfer {
    /// Creates a record with the given required values; optional fields are
    /// empty and enumerated ones take their specification default.
    pub fn new(transfer_type: TransferType) -> (r: Self)
        ensures
            r.from_stop_id.is_none(),
            r.to_stop_id.is_none(),
            r.from_route_id.is_none(),
            r.to_route_id.is_none(),
            r.from_trip_id.is_none(),
            r.to_trip_id.is_none(),
            r.transfer_type == transfer_type,
            r.min_transfer_time.is_none(),
    {
        Transfer {
            from_stop_id: None,
            to_stop_id: None,
            from_route_id: None,
            to_route_id: None,
            from_trip_id: None,
            to_trip_id: None,
            transfer_type,
            min_transfer_time: None,
        }
    }
}

/// A station pathway (`pathways.txt`).
#[derive(Debug, Clone)]
pub struct Pathway {
    /// Pathway identifier
    pub pathway_id: String,
    /// Start location
    pub from_stop_id: String,
    /// End location
    pub to_stop_id: String,
    /// Kind of pathway
    pub pathway_mode: PathwayMode,
    /// Whether both directions are allowed
    pub is_bidirectional: bool,
    /// Length in meters, as an IEEE-754 binary64 bit pattern
    pub length: Option<u64>,
    /// Traversal time in seconds
    pub traversal_time: Option<u32>,
    /// Stairs; negative when going down
    pub stair_count: Option<i32>,
    /// Slope ratio, as an IEEE-754 binary64 bit pattern
    pub max_slope: Option<u64>,
    /// Width in meters, as an IEEE-754 binary64 bit pattern
    pub min_width: Option<u64>,
    /// Signage
    pub signposted_as: Option<String>,
    /// Signage in reverse
    pub reversed_signposted_as: Option<String>,
}

impl Pathway {
    /// Creates a record with the given required values; optional fields are
    /// empty and enumerated ones take their specification default.
    pub fn new(pathway_id: &str, from_stop_id: &str, to_stop_id: &str, pathway_mode: PathwayMode, is_bidirectional: bool) -> (r: Self)
        ensures
            r.pathway_id@ == pathway_id@,
            r.from_stop_id@ == from_stop_id@,
            r.to_stop_id@ == to_stop_id@,
            r.pathway_mode == pathway_mode,
            r.is_bidirectional == is_bidirectional,
            r.length.is_none(),
            r.traversal_time.is_none(),
            r.stair_count.is_none(),
            r.max_slope.is_none(),
            r.min_width.is_none(),
            r.signposted_as.is_none(),
            r.reversed_signposted_as.is_none(),
    {
        Pathway {
            pathway_id: owned(pathway_id),
            from_stop_id: owned(from_stop_id),
            to_stop_id: owned(to_stop_id),
            pathway_mode,
            is_bidirectional,
            length: None,
            traversal_time: None,
            stair_count: None,
            max_slope: None,
            min_width: None,
            signposted_as: None,
            reversed_signposted_as: None,
        }
    }
}

/// A station level (`levels.txt`).
#[derive(Debug, Clone)]
pub struct Level {
    /// Level identifier
    pub level_id: String,
    /// Relative index, as the bit pattern of an IEEE-754 binary64 value
    pub level_index: u64,
    /// Level name
    pub level_name: Option<String>,
}

impl Level {
    /// Creates a record with the given required values; optional fields are
    /// empty and enumerated ones take their specification default.
    pub fn new(level_id: &str, level_index: u64) -> (r: Self)
        ensures
            r.level_id@ == level_id@,
            r.level_index == level_index,
            r.level_name.is_none(),
    {
        Level {
            level_id: owned(level_id),
            level_index,
            level_name: None,
        }
    }
}

/// A GTFS-Flex location group (`location_groups.txt`).
#[derive(Debug, Clone)]
pub struct LocationGroup {
    /// Group identifier
    pub location_group_id: String,
    /// Group name
    pub location_group_name: Option<String>,
}

impl LocationGroup {
    /// Creates a record with the given required values; optional fields are
    /// empty and enumerated ones take their specification default.
    pub fn new(location_group_id: &str) -> (r: Self)
        ensures
            r.location_group_id@ == location_group_id@,
            r.location_group_name.is_none(),
    {
        LocationGroup {
            location_group_id: owned(location_group_id),
            location_group_name: None,
        }
    }
}

/// A stop-to-location-group assignment (`location_group_stops.txt`).
#[derive(Debug, Clone)]
pub struct LocationGroupStop {
    /// Group
    pub location_group_id: String,
    /// Stop
    pub stop_id: String,
}

impl LocationGroupStop {
    /// Creates a record with the given required values; optional fields are
    /// empty and enumerated ones take their specification default.
    pub fn new(location_group_id: &str, stop_id: &str) -> (r: Self)
        ensures
            r.location_group_id@ == location_group_id@,
            r.stop_id@ == stop_id@,
    {
        LocationGroupStop {
            location_group_id: owned(location_group_id),
            stop_id: owned(stop_id),
        }
    }
}

/// A GTFS-Flex zone of `locations.geojson`.
#[derive(Debug, Clone)]
pub struct Location {
    /// Zone identifier
    pub location_id: String,
    /// Zone name
    pub stop_name: Option<String>,
    /// Zone description
    pub stop_desc: Option<String>,
    /// Zone outline
    pub geometry: LocationGeometry,
}

impl Location {
    /// Creates a record with the given required values; optional fields are
    /// empty and enumerated ones take their specification default.
    pub fn new(location_id: &str, geometry: LocationGeometry) -> (r: Self)
        ensures
            r.location_id@ == location_id@,
            r.stop_name.is_none(),
            r.stop_desc.is_none(),
            r.geometry == geometry,
    {
        Location {
            location_id: owned(location_id),
            stop_name: None,
            stop_desc: None,
            geometry,
        }
    }
}

/// A GTFS-Flex booking rule (`booking_rules.txt`).
#[derive(Debug, Clone)]
pub struct BookingRule {
    /// Rule identifier
    pub booking_rule_id: String,
    /// When the booking is made
    pub booking_type: BookingType,
    /// Minimum notice in minutes
    pub prior_notice_duration_min: Option<u32>,
    /// Maximum notice in minutes
    pub prior_notice_duration_max: Option<u32>,
    /// Last day to book, in days before travel
    pub prior_notice_last_day: Option<u32>,
    /// Last time to book on that day
    pub prior_notice_last_time: Option<u32>,
    /// Earliest day to book
    pub prior_notice_start_day: Option<u32>,
    /// Earliest time to book on that day
    pub prior_notice_start_time: Option<u32>,
    /// Service days counted for the notice
    pub prior_notice_service_id: Option<String>,
    /// Message
    pub message: Option<String>,
    /// Pickup message
    pub pickup_message: Option<String>,
    /// Drop-off message
    pub drop_off_message: Option<String>,
    /// Phone
    pub phone_number: Option<String>,
    /// Information URL
    pub info_url: Option<String>,
    /// Booking URL
    pub booking_url: Option<String>,
}

impl BookingRule {
    /// Creates a record with the given required values; optional fields are
    /// empty and enumerated ones take their specification default.
    pub fn new(booking_rule_id: &str, booking_type: BookingType) -> (r: Self)
        ensures
            r.booking_rule_id@ == booking_rule_id@,
            r.booking_type == booking_type,
            r.prior_notice_duration_min.is_none(),
            r.prior_notice_duration_max.is_none(),
            r.prior_notice_last_day.is_none(),
            r.prior_notice_last_time.is_none(),
            r.prior_notice_start_day.is_none(),
            r.prior_notice_start_time.is_none(),
            r.prior_notice_service_id.is_none(),
            r.message.is_none(),
            r.pickup_message.is_none(),
            r.drop_off_message.is_none(),
            r.phone_number.is_none(),
            r.info_url.is_none(),
            r.booking_url.is_none(),
    {
        BookingRule {
            booking_rule_id: owned(booking_rule_id),
            booking_type,
            prior_notice_duration_min: None,
            prior_notice_duration_max: None,
            prior_notice_last_day: None,
            prior_notice_last_time: None,
            prior_notice_start_day: None,
            prior_notice_start_time: None,
            prior_notice_service_id: None,
            message: None,
            pickup_message: None,
            drop_off_message: None,
            phone_number: None,
            info_url: None,
            booking_url: None,
        }
    }
}

/// A translation (`translations.txt`).
#[derive(Debug, Clone)]
pub struct Translation {
    /// Table of the translated field
    pub table_name: TableName,
    /// Translated field
    pub field_name: String,
    /// Language
    pub language: String,
    /// Translated text
    pub translation: String,
    /// Record
    pub record_id: Option<String>,
    /// Sub-record
    pub record_sub_id: Option<String>,
    /// Value translated wherever it appears
    pub field_value: Option<String>,
}

impl Translation {
    /// Creates a record with the given required values; optional fields are
    /// empty and enumerated ones take their specification default.
    pub fn new(table_name: TableName, field_name: &str, language: &str, translation: &str) -> (r: Self)
        ensures
            r.table_name == table_name,
            r.field_name@ == field_name@,
            r.language@ == language@,
            r.translation@ == translation@,
            r.record_id.is_none(),
            r.record_sub_id.is_none(),
            r.field_value.is_none(),
    {
        Translation {
            table_name,
            field_name: owned(field_name),
            language: owned(language),
            translation: owned(translation),
            record_id: None,
            record_sub_id: None,
            field_value: None,
        }
    }
}

/// Dataset metadata (`feed_info.txt`).
#[derive(Debug, Clone)]
pub struct FeedInfo {
    /// Publisher name
    pub feed_publisher_name: String,
    /// Publisher URL
    pub feed_publisher_url: String,
    /// Default language
    pub feed_lang: String,
    /// Language for unknown riders
    pub default_lang: Option<String>,
    /// First day covered
    pub feed_start_date: Option<GtfsDate>,
    /// Last day covered
    pub feed_end_date: Option<GtfsDate>,
    /// Version
    pub feed_version: Option<String>,
    /// Contact email
    pub feed_contact_email: Option<String>,
    /// Contact URL
    pub feed_contact_url: Option<String>,
}

impl FeedInfo {
    /// Creates a record with the given required values; optional fields are
    /// empty and enumerated ones take their specification default.
    pub fn new(feed_publisher_name: &str, feed_publisher_url: &str, feed_lang: &str) -> (r: Self)
        ensures
            r.feed_publisher_name@ == feed_publisher_name@,
            r.feed_publisher_url@ == feed_publisher_url@,
            r.feed_lang@ == feed_lang@,
            r.default_lang.is_none(),
            r.feed_start_date.is_none(),
            r.feed_end_date.is_none(),
            r.feed_version.is_none(),
            r.feed_contact_email.is_none(),
            r.feed_contact_url.is_none(),
    {
        FeedInfo {
            feed_publisher_name: owned(feed_publisher_name),
            feed_publisher_url: owned(feed_publisher_url),
            feed_lang: owned(feed_lang),
            default_lang: None,
            feed_start_date: None,
            feed_end_date: None,
            feed_version: None,
            feed_contact_email: None,
            feed_contact_url: None,
        }
    }
}

/// An attribution (`attributions.txt`).
#[derive(Debug, Clone)]
pub struct Attribution {
    /// Attribution identifier
    pub attribution_id: Option<String>,
    /// Agency targeted
    pub agency_id: Option<String>,
    /// Route targeted
    pub route_id: Option<String>,
    /// Trip targeted
    pub trip_id: Option<String>,
    /// Organization
    pub organization_name: String,
    /// Producer role
    pub is_producer: bool,
    /// Operator role
    pub is_operator: bool,
    /// Authority role
    pub is_authority: bool,
    /// URL
    pub attribution_url: Option<String>,
    /// Email
    pub attribution_email: Option<String>,
    /// Phone
    pub attribution_phone: Option<String>,
}

impl Attribution {
    /// Creates a record with the given required values; optional fields are
    /// empty and enumerated ones take their specification default.
    pub fn new(organization_name: &str) -> (r: Self)
        ensures
            r.attribution_id.is_none(),
            r.agency_id.is_none(),
            r.route_id.is_none(),
            r.trip_id.is_none(),
            r.organization_name@ == organization_name@,
            !r.is_producer,
            !r.is_operator,
            !r.is_authority,
            r.attribution_url.is_none(),
            r.attribution_email.is_none(),
            r.attribution_phone.is_none(),
    {
        Attribution {
            attribution_id: None,
            agency_id: None,
            route_id: None,
            trip_id: None,
            organization_name: owned(organization_name),
            is_producer: false,
            is_operator: false,
            is_authority: false,
            attribution_url: None,
            attribution_email: None,
            attribution_phone: None,
        }
    }
}

/// A stop time (`stop_times.txt`).
#[derive(Debug, Clone)]
pub struct StopTime {
    /// Trip
    pub trip_id: String,
    /// Arrival, seconds since midnight
    pub arrival_time: Option<u32>,
    /// Departure, seconds since midnight
    pub departure_time: Option<u32>,
    /// Stop served
    pub stop_id: Option<String>,
    /// GTFS-Flex location group served
    pub location_group_id: Option<String>,
    /// GTFS-Flex zone served
    pub location_id: Option<String>,
    /// Order within the trip
    pub stop_sequence: u32,
    /// Headsign
    pub stop_headsign: Option<String>,
    /// Start of the on-demand window
    pub start_pickup_drop_off_window: Option<u32>,
    /// End of the on-demand window
    pub end_pickup_drop_off_window: Option<u32>,
    /// Pickup method
    pub pickup_type: PickupDropOffType,
    /// Drop-off method
    pub drop_off_type: PickupDropOffType,
    /// Continuous pickup
    pub continuous_pickup: ContinuousPickupDropOff,
    /// Continuous drop-off
    pub continuous_drop_off: ContinuousPickupDropOff,
    /// Distance traveled, as an IEEE-754 binary64 bit pattern
    pub shape_dist_traveled: Option<u64>,
    /// Exact or approximate times
    pub timepoint: Timepoint,
    /// Pickup booking rule
    pub pickup_booking_rule_id: Option<String>,
    /// Drop-off booking rule
    pub drop_off_booking_rule_id: Option<String>,
}

impl StopTime {
    /// Creates a record with the given required values; optional fields are
    /// empty and enumerated ones take their specification default.
    pub fn new(trip_id: &str, stop_id: &str, stop_sequence: u32, time: u32) -> (r: Self)
        ensures
            r.trip_id@ == trip_id@,
            r.arrival_time == Some(time),
            r.departure_time == Some(time),
            r.stop_id matches Some(s) && s@ == stop_id@,
            r.location_group_id.is_none(),
            r.location_id.is_none(),
            r.stop_sequence == stop_sequence,
            r.stop_headsign.is_none(),
            r.start_pickup_drop_off_window.is_none(),
            r.end_pickup_drop_off_window.is_none(),
            r.pickup_type == PickupDropOffType::Regular,
            r.drop_off_type == PickupDropOffType::Regular,
            r.continuous_pickup == ContinuousPickupDropOff::NotContinuous,
            r.continuous_drop_off == ContinuousPickupDropOff::NotContinuous,
            r.shape_dist_traveled.is_none(),
            r.timepoint == Timepoint::Exact,
            r.pickup_booking_rule_id.is_none(),
            r.drop_off_booking_rule_id.is_none(),
    {
        StopTime {
            trip_id: owned(trip_id),
            arrival_time: Some(time),
            departure_time: Some(time),
            stop_id: Some(owned(stop_id)),
            location_group_id: None,
            location_id: None,
            stop_sequence,
            stop_headsign: None,
            start_pickup_drop_off_window: None,
            end_pickup_drop_off_window: None,
            pickup_type: PickupDropOffType::Regular,
            drop_off_type: PickupDropOffType::Regular,
            continuous_pickup: ContinuousPickupDropOff::NotContinuous,
            continuous_drop_off: ContinuousPickupDropOff::NotContinuous,
            shape_dist_traveled: None,
            timepoint: Timepoint::Exact,
            pickup_booking_rule_id: None,
            drop_off_booking_rule_id: None,
        }
    }
}

impl Agency {
    /// Sets the agency identifier.
    pub fn with_id(self, agency_id: &str) -> (r: Self)
        ensures
            (r == Agency { agency_id: r.agency_id, ..self }),
            r.agency_id matches Some(id) && id@ == agency_id@,
    {
        Agency { agency_id: Some(owned(agency_id)), ..self }
    }
}

impl Stop {
    /// Sets the stop name.
    pub fn with_name(self, name: &str) -> (r: Self)
        ensures
            (r == Stop { stop_name: r.stop_name, ..self }),
            r.stop_name matches Some(n) && n@ == name@,
    {
        Stop { stop_name: Some(owned(name)), ..self }
    }

    /// Sets the coordinates (IEEE-754 binary64 bit patterns).
    pub fn with_coordinates(self, lat: u64, lon: u64) -> (r: Self)
        ensures
            (r == Stop { stop_lat: Some(lat), stop_lon: Some(lon), ..self }),
    {
        Stop { stop_lat: Some(lat), stop_lon: Some(lon), ..self }
    }

    /// Sets the kind of location.
    pub fn with_location_type(self, location_type: LocationType) -> (r: Self)
        ensures
            (r == Stop { location_type, ..self }),
    {
        Stop { location_type, ..self }
    }

    /// Sets the parent location.
    pub fn with_parent_station(self, parent: &str) -> (r: Self)
        ensures
            (r == Stop { parent_station: r.parent_station, ..self }),
            r.parent_station matches Some(p) && p@ == parent@,
    {
        Stop { parent_station: Some(owned(parent)), ..self }
    }

    /// Sets the fare zone.
    pub fn with_zone_id(self, zone_id: &str) -> (r: Self)
        ensures
            (r == Stop { zone_id: r.zone_id, ..self }),
            r.zone_id matches Some(z) && z@ == zone_id@,
    {
        Stop { zone_id: Some(owned(zone_id)), ..self }
    }
}

impl Route {
    /// Sets the short name.
    pub fn with_short_name(self, name: &str) -> (r: Self)
        ensures
            (r == Route { route_short_name: r.route_short_name, ..self }),
            r.route_short_name matches Some(n) && n@ == name@,
    {
        Route { route_short_name: Some(owned(name)), ..self }
    }

    /// Sets the full name.
    pub fn with_long_name(self, name: &str) -> (r: Self)
        ensures
            (r == Route { route_long_name: r.route_long_name, ..self }),
            r.route_long_name matches Some(n) && n@ == name@,
    {
        Route { route_long_name: Some(owned(name)), ..self }
    }
}

impl Trip {
    /// Sets the direction.
    pub fn with_direction(self, direction: Direction) -> (r: Self)
        ensures
            (r == Trip { direction_id: Some(direction), ..self }),
    {
        Trip { direction_id: Some(direction), ..self }
    }
}

/// Whether a weekly pattern runs on a weekday.
pub open spec fn runs_on(calendar: Calendar, weekday: crate::misc::Weekday) -> bool {
    match weekday {
        crate::misc::Weekday::Monday => calendar.monday,
        crate::misc::Weekday::Tuesday => calendar.tuesday,
        crate::misc::Weekday::Wednesday => calendar.wednesday,
        crate::misc::Weekday::Thursday => calendar.thursday,
        crate::misc::Weekday::Friday => calendar.friday,
        crate::misc::Weekday::Saturday => calendar.saturday,
        crate::misc::Weekday::Sunday => calendar.sunday,
    }
}

/// The weekday of a date.
pub open spec fn weekday_of(date: GtfsDate) -> crate::misc::Weekday {
    let index = (crate::misc::day_number(date.spec_year(), date.spec_month(), date.spec_day()) + 2) % 7;
    if index == 0 {
        crate::misc::Weekday::Monday
    } else if index == 1 {
        crate::misc::Weekday::Tuesday
    } else if index == 2 {
        crate::misc::Weekday::Wednesday
    } else if index == 3 {
        crate::misc::Weekday::Thursday
    } else if index == 4 {
        crate::misc::Weekday::Friday
    } else if index == 5 {
        crate::misc::Weekday::Saturday
    } else {
        crate::misc::Weekday::Sunday
    }
}

/// Whether a weekly pattern is active on a date: inside its period
/// and on one of its weekdays.
pub open spec fn calendar_active_on(calendar: Calendar, date: GtfsDate) -> bool {
    calendar.start_date.ordinal() <= date.ordinal() && date.ordinal() <= calendar.end_date.ordinal()
        && runs_on(calendar, weekday_of(date))
}

/// A weekly pattern is active on a date exactly when the date lies
/// within `start_date..=end_date` and the flag of the date's weekday is
/// set; the weekday counts from Monday, as `day_number(y, m, d) + 2`
/// modulo seven.
pub proof fn lemma_calendar_active_window(calendar: Calendar, date: GtfsDate)
    ensures
        calendar_active_on(calendar, date) <==> {
            let k = (crate::misc::day_number(date.spec_year(), date.spec_month(), date.spec_day()) + 2) % 7;
            &&& calendar.start_date.ordinal() <= date.ordinal()
            &&& date.ordinal() <= calendar.end_date.ordinal()
            &&& {
                ||| k == 0 && calendar.monday
                ||| k == 1 && calendar.tuesday
                ||| k == 2 && calendar.wednesday
                ||| k == 3 && calendar.thursday
                ||| k == 4 && calendar.friday
                ||| k == 5 && calendar.saturday
                ||| k == 6 && calendar.sunday
            }
        },
        date.ordinal() < calendar.start_date.ordinal() ==> !calendar_active_on(calendar, date),
        calendar.end_date.ordinal() < date.ordinal() ==> !calendar_active_on(calendar, date),
{
}

impl Calendar {
    /// Sets Monday to Friday, leaving the weekend as it is.
    pub fn with_weekdays(self) -> (r: Self)
        ensures
            (r == Calendar {
                monday: true,
                tuesday: true,
                wednesday: true,
                thursday: true,
                friday: true,
                ..self
            }),
    {
        Calendar { monday: true, tuesday: true, wednesday: true, thursday: true, friday: true, ..self }
    }

    /// Sets Saturday and Sunday, leaving the other days as they are.
    pub fn with_weekend(self) -> (r: Self)
        ensures
            (r == Calendar { saturday: true, sunday: true, ..self }),
    {
        Calendar { saturday: true, sunday: true, ..self }
    }

    /// Whether the weekly pattern runs on `date`: the date lies within
    /// `start_date..=end_date` and its weekday is set.
    pub fn is_active_on(&self, date: &GtfsDate) -> (r: bool)
        ensures
            r == calendar_active_on(*self, *date),
    {
        if date.is_before(&self.start_date) || self.end_date.is_before(date) {
            return false;
        }
        let weekday = date.weekday();
        match weekday {
            crate::misc::Weekday::Monday => self.monday,
            crate::misc::Weekday::Tuesday => self.tuesday,
            crate::misc::Weekday::Wednesday => self.wednesday,
            crate::misc::Weekday::Thursday => self.thursday,
            crate::misc::Weekday::Friday => self.friday,
            crate::misc::Weekday::Saturday => self.saturday,
            crate::misc::Weekday::Sunday => self.sunday,
        }
    }
}

impl Timeframe {
    /// Sets the start and end times (seconds since midnight).
    pub fn with_period(self, start_time: u32, end_time: u32) -> (r: Self)
        ensures
            (r == Timeframe { start_time: Some(start_time), end_time: Some(end_time), ..self }),
    {
        Timeframe { start_time: Some(start_time), end_time: Some(end_time), ..self }
    }
}

impl Transfer {
    /// Sets the stop pair of the transfer.
    pub fn between_stops(self, from_stop_id: &str, to_stop_id: &str) -> (r: Self)
        ensures
            (r == Transfer { from_stop_id: r.from_stop_id, to_stop_id: r.to_stop_id, ..self }),
            r.from_stop_id matches Some(f) && f@ == from_stop_id@,
            r.to_stop_id matches Some(t) && t@ == to_stop_id@,
    {
        Transfer { from_stop_id: Some(owned(from_stop_id)), to_stop_id: Some(owned(to_stop_id)), ..self }
    }

    /// Sets the trip pair of the transfer.
    pub fn between_trips(self, from_trip_id: &str, to_trip_id: &str) -> (r: Self)
        ensures
            (r == Transfer { from_trip_id: r.from_trip_id, to_trip_id: r.to_trip_id, ..self }),
            r.from_trip_id matches Some(f) && f@ == from_trip_id@,
            r.to_trip_id matches Some(t) && t@ == to_trip_id@,
    {
        Transfer { from_trip_id: Some(owned(from_trip_id)), to_trip_id: Some(owned(to_trip_id)), ..self }
    }
}

impl Translation {
    /// Targets one record by its primary key.
    pub fn for_record(self, record_id: &str) -> (r: Self)
        ensures
            (r == Translation { record_id: r.record_id, ..self }),
            r.record_id matches Some(id) && id@ == record_id@,
    {
        Translation { record_id: Some(owned(record_id)), ..self }
    }
}

impl Attribution {
    /// Activates the producer role.
    pub fn as_producer(self) -> (r: Self)
        ensures
            (r == Attribution { is_producer: true, ..self }),
    {
        Attribution { is_producer: true, ..self }
    }

    /// Activates the operator role.
    pub fn as_operator(self) -> (r: Self)
        ensures
            (r == Attribution { is_operator: true, ..self }),
    {
        Attribution { is_operator: true, ..self }
    }

    /// Activates the authority role.
    pub fn as_authority(self) -> (r: Self)
        ensures
            (r == Attribution { is_authority: true, ..self }),
    {
        Attribution { is_authority: true, ..self }
    }
}

} // verus!
