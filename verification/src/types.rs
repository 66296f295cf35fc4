//! The type and the format version of a packed build file, over both families.
use vstd::prelude::*;
use spbflib::SPBFType;
use upbflib::UPBFType;
use vstd::std_specs::convert::FromSpecImpl;
use crate::spbf;
use crate::upbf;

verus! {

/// The layout of a file: one of the four layouts of the small family (SPBF)
/// or one of the four of the medium/big family (UPBF).
#[derive(Debug, Copy, Clone, PartialEq, Eq)]
pub enum XPBFType {
    SPBF(SPBFType),
    UPBF(UPBFType),
}

/// The format version of a file, as the byte that its header holds, tagged
/// with the family.
#[derive(Debug, Copy, Clone, PartialEq, Eq, Structural)]
pub enum XPBFVersion {
    SPBF(u8),
    UPBF(u8),
}

/// The last version that both families read and write.
pub open spec fn last_supported_version() -> u8 {
    1
}

impl From<SPBFType> for XPBFType {
    fn from(value: SPBFType) -> (r: XPBFType) {
        XPBFType::SPBF(value)
    }
}

impl FromSpecImpl<SPBFType> for XPBFType {
    open spec fn obeys_from_spec() -> bool {
        true
    }

    open spec fn from_spec(value: SPBFType) -> XPBFType {
        XPBFType::SPBF(value)
    }
}

impl From<UPBFType> for XPBFType {
    fn from(value: UPBFType) -> (r: XPBFType) {
        XPBFType::UPBF(value)
    }
}

impl FromSpecImpl<UPBFType> for XPBFType {
    open spec fn obeys_from_spec() -> bool {
        true
    }

    open spec fn from_spec(value: UPBFType) -> XPBFType {
        XPBFType::UPBF(value)
    }
}

impl XPBFType {
    /// The SPBF layout that this type names; only an SPBF type names one.
    pub fn spbf_type(self) -> (r: SPBFType)
        requires
            self is SPBF,
        ensures
            XPBFType::SPBF(r) == self,
    {
        match self {
            XPBFType::SPBF(value) => value,
            XPBFType::UPBF(_) => {
                assert(false);
                SPBFType::SmallUnalignedLittleEndian
            },
        }
    }

    /// The UPBF layout that this type names; only a UPBF type names one.
    pub fn upbf_type(self) -> (r: UPBFType)
        requires
            self is UPBF,
        ensures
            XPBFType::UPBF(r) == self,
    {
        match self {
            XPBFType::UPBF(value) => value,
            XPBFType::SPBF(_) => {
                assert(false);
                UPBFType::MediumAlignedLittleEndian
            },
        }
    }
}

impl XPBFVersion {
    /// The version byte.
    pub open spec fn raw(self) -> u8 {
        match self {
            XPBFVersion::SPBF(value) => value,
            XPBFVersion::UPBF(value) => value,
        }
    }

    /// Whether the family reads and writes this version: only the last
    /// supported one, 1, is.
    pub fn is_supported(&self) -> (r: bool)
        ensures
            r == (self.raw() == last_supported_version()),
    {
        match self {
            XPBFVersion::SPBF(value) => spbf::spbf_version_is_supported(*value),
            XPBFVersion::UPBF(value) => upbf::upbf_version_is_supported(*value),
        }
    }

    /// The SPBF version that this version names; only an SPBF version names one.
    pub fn spbf_version(self) -> (r: u8)
        requires
            self is SPBF,
        ensures
            XPBFVersion::SPBF(r) == self,
    {
        match self {
            XPBFVersion::SPBF(value) => value,
            XPBFVersion::UPBF(_) => {
                assert(false);
                0
            },
        }
    }

    /// The UPBF version that this version names; only a UPBF version names one.
    pub fn upbf_version(self) -> (r: u8)
        requires
            self is UPBF,
        ensures
            XPBFVersion::UPBF(r) == self,
    {
        match self {
            XPBFVersion::UPBF(value) => value,
            XPBFVersion::SPBF(_) => {
                assert(false);
                0
            },
        }
    }

    /// The version byte.
    pub fn as_raw(self) -> (r: u8)
        ensures
            r == self.raw(),
    {
        match self {
            XPBFVersion::SPBF(value) => value,
            XPBFVersion::UPBF(value) => value,
        }
    }
}

} // verus!
