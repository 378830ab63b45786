//! Well-known package numbers.
use vstd::prelude::*;

verus! {

/// The number of a package family.
pub type PackageNumber = i64;

/// Numbers of public packages, with a variant for every other number.
#[derive(Debug, Clone, Copy, PartialEq, Eq, Hash)]
pub enum PublicPackageNumber {
    QspClearLinux,
    QspCpu,
    QspIsim,
    DoceaBase,
    OssSources,
    Training,
    Viewer,
    QspX86,
    Base,
    /// A number that is none of the above, kept as it is.
    Unknown(i64),
}

/// The sentinel number of a record whose package number is missing or malformed.
pub const UNKNOWN_PACKAGE_NUMBER: i64 = -1;

/// The symbol of a raw number.
pub open spec fn symbol_of(n: i64) -> PublicPackageNumber {
    if n == 4094 {
        PublicPackageNumber::QspClearLinux
    } else if n == 8112 {
        PublicPackageNumber::QspCpu
    } else if n == 8144 {
        PublicPackageNumber::QspIsim
    } else if n == 7801 {
        PublicPackageNumber::DoceaBase
    } else if n == 1020 {
        PublicPackageNumber::OssSources
    } else if n == 6010 {
        PublicPackageNumber::Training
    } else if n == 8126 {
        PublicPackageNumber::Viewer
    } else if n == 2096 {
        PublicPackageNumber::QspX86
    } else if n == 1000 {
        PublicPackageNumber::Base
    } else {
        PublicPackageNumber::Unknown(n)
    }
}

/// The raw number of a symbol.
pub open spec fn number_of(p: PublicPackageNumber) -> i64 {
    match p {
        PublicPackageNumber::QspClearLinux => 4094,
        PublicPackageNumber::QspCpu => 8112,
        PublicPackageNumber::QspIsim => 8144,
        PublicPackageNumber::DoceaBase => 7801,
        PublicPackageNumber::OssSources => 1020,
        PublicPackageNumber::Training => 6010,
        PublicPackageNumber::Viewer => 8126,
        PublicPackageNumber::QspX86 => 2096,
        PublicPackageNumber::Base => 1000,
        PublicPackageNumber::Unknown(n) => n,
    }
}

impl From<i64> for PublicPackageNumber {
    fn from(value: i64) -> (r: PublicPackageNumber)
        ensures
            r == symbol_of(value),
    {
        if value == 4094 {
            PublicPackageNumber::QspClearLinux
        } else if value == 8112 {
            PublicPackageNumber::QspCpu
        } else if value == 8144 {
            PublicPackageNumber::QspIsim
        } else if value == 7801 {
            PublicPackageNumber::DoceaBase
        } else if value == 1020 {
            PublicPackageNumber::OssSources
        } else if value == 6010 {
            PublicPackageNumber::Training
        } else if value == 8126 {
            PublicPackageNumber::Viewer
        } else if value == 2096 {
            PublicPackageNumber::QspX86
        } else if value == 1000 {
            PublicPackageNumber::Base
        } else {
            PublicPackageNumber::Unknown(value)
        }
    }
}

impl vstd::std_specs::convert::FromSpecImpl<i64> for PublicPackageNumber {
    open spec fn obeys_from_spec() -> bool {
        true
    }

    open spec fn from_spec(v: i64) -> PublicPackageNumber {
        symbol_of(v)
    }
}

impl From<PublicPackageNumber> for i64 {
    fn from(value: PublicPackageNumber) -> (r: i64)
        ensures
            r == number_of(value),
    {
        match value {
            PublicPackageNumber::QspClearLinux => 4094,
            PublicPackageNumber::QspCpu => 8112,
            PublicPackageNumber::QspIsim => 8144,
            PublicPackageNumber::DoceaBase => 7801,
            PublicPackageNumber::OssSources => 1020,
            PublicPackageNumber::Training => 6010,
            PublicPackageNumber::Viewer => 8126,
            PublicPackageNumber::QspX86 => 2096,
            PublicPackageNumber::Base => 1000,
            PublicPackageNumber::Unknown(n) => n,
        }
    }
}

impl vstd::std_specs::convert::FromSpecImpl<PublicPackageNumber> for i64 {
    open spec fn obeys_from_spec() -> bool {
        true
    }

    open spec fn from_spec(v: PublicPackageNumber) -> i64 {
        number_of(v)
    }
}

/// Every raw number survives the trip to its symbol and back.
pub proof fn law_number_round_trip(n: i64)
    ensures
        number_of(symbol_of(n)) == n,
{
}

} // verus!
