//! The errors of reading and writing packed build files, shared by both file
//! families, and their conversion from each family's own errors.
use vstd::prelude::*;
use spbflib::read::{SPBFReaderDataFormatReadError, SPBFReaderDataReadError, SPBFReaderError, SPBFReaderHeaderReadError};
use spbflib::write::{SPBFWriterDataAddError, SPBFWriterError, SPBFWriterWriteError};
use upbflib::read::{UPBFReaderDataFormatReadError, UPBFReaderDataReadError, UPBFReaderError, UPBFReaderHeaderReadError};
use upbflib::write::{UPBFWriterDataAddError, UPBFWriterError, UPBFWriterWriteError};
use vstd::std_specs::convert::FromSpecImpl;

verus! {

#[derive(Debug)]
pub enum XPBFReaderError {
    InvalidFileLength,
    Header(XPBFReaderHeaderReadError),
    DataFormat(XPBFReaderFormatReadError),
    Data(XPBFReaderDataReadError),
}

#[derive(Debug)]
pub enum XPBFReaderHeaderReadError {
    InvalidMagic,
    InvalidType,
    UnsupportedVersion,
    InvalidBuildNameLength,
    InvalidBuildNameString,
    InvalidBuildVersionLength,
    InvalidBuildVersionString,
}

#[derive(Debug)]
pub enum XPBFReaderFormatReadError {
    InvalidOffset,
    InvalidNameLength,
    InvalidNameString,
}

#[derive(Debug)]
pub enum XPBFReaderDataReadError {
    InvalidOffset,
    InvalidNameLength,
    InvalidNameString,
    InvalidDataLength,
    InvalidDataId,
}

#[derive(Debug)]
pub enum XPBFWriterError {
    DataAdd(XPBFWriterDataAddError),
    Write(XPBFWriterWriteError),
}

#[derive(Debug)]
pub enum XPBFWriterDataAddError {
    DataAlreadyDefined,
    FormatCounterOverflow,
}

#[derive(Debug)]
pub enum XPBFWriterWriteError {
    UnsupportedVersion,
    InvalidBuildNameLength,
    InvalidBuildNameString,
    InvalidBuildVersionLength,
    InvalidBuildVersionString,
    InvalidDataFormatNameLength,
    InvalidDataFormatNameString,
    InvalidDataNameLength,
    InvalidDataNameString,
    InvalidDataLength,
    InvalidOffset,
    IOError(std::io::Error),
}

/// The shared reader error that an SPBF reader error stands for: the same
/// variant, under the same name.
pub open spec fn reader_error_of_spbf(err: SPBFReaderError) -> XPBFReaderError {
    match err {
        SPBFReaderError::InvalidFileLength => XPBFReaderError::InvalidFileLength,
        SPBFReaderError::Header(e) => XPBFReaderError::Header(
            match e {
                SPBFReaderHeaderReadError::InvalidMagic => XPBFReaderHeaderReadError::InvalidMagic,
                SPBFReaderHeaderReadError::InvalidType => XPBFReaderHeaderReadError::InvalidType,
                SPBFReaderHeaderReadError::UnsupportedVersion => XPBFReaderHeaderReadError::UnsupportedVersion,
                SPBFReaderHeaderReadError::InvalidBuildNameLength => XPBFReaderHeaderReadError::InvalidBuildNameLength,
                SPBFReaderHeaderReadError::InvalidBuildNameString => XPBFReaderHeaderReadError::InvalidBuildNameString,
                SPBFReaderHeaderReadError::InvalidBuildVersionLength => XPBFReaderHeaderReadError::InvalidBuildVersionLength,
                SPBFReaderHeaderReadError::InvalidBuildVersionString => XPBFReaderHeaderReadError::InvalidBuildVersionString,
            },
        ),
        SPBFReaderError::DataFormat(e) => XPBFReaderError::DataFormat(
            match e {
                SPBFReaderDataFormatReadError::InvalidOffset => XPBFReaderFormatReadError::InvalidOffset,
                SPBFReaderDataFormatReadError::InvalidNameLength => XPBFReaderFormatReadError::InvalidNameLength,
                SPBFReaderDataFormatReadError::InvalidNameString => XPBFReaderFormatReadError::InvalidNameString,
            },
        ),
        SPBFReaderError::Data(e) => XPBFReaderError::Data(
            match e {
                SPBFReaderDataReadError::InvalidOffset => XPBFReaderDataReadError::InvalidOffset,
                SPBFReaderDataReadError::InvalidNameLength => XPBFReaderDataReadError::InvalidNameLength,
                SPBFReaderDataReadError::InvalidNameString => XPBFReaderDataReadError::InvalidNameString,
                SPBFReaderDataReadError::InvalidDataLength => XPBFReaderDataReadError::InvalidDataLength,
                SPBFReaderDataReadError::InvalidDataId => XPBFReaderDataReadError::InvalidDataId,
            },
        ),
    }
}

/// The shared reader error that a UPBF reader error stands for.
pub open spec fn reader_error_of_upbf(err: UPBFReaderError) -> XPBFReaderError {
    match err {
        UPBFReaderError::InvalidFileLength => XPBFReaderError::InvalidFileLength,
        UPBFReaderError::Header(e) => XPBFReaderError::Header(
            match e {
                UPBFReaderHeaderReadError::InvalidMagic => XPBFReaderHeaderReadError::InvalidMagic,
                UPBFReaderHeaderReadError::InvalidType => XPBFReaderHeaderReadError::InvalidType,
                UPBFReaderHeaderReadError::UnsupportedVersion => XPBFReaderHeaderReadError::UnsupportedVersion,
                UPBFReaderHeaderReadError::InvalidBuildNameLength => XPBFReaderHeaderReadError::InvalidBuildNameLength,
                UPBFReaderHeaderReadError::InvalidBuildNameString => XPBFReaderHeaderReadError::InvalidBuildNameString,
                UPBFReaderHeaderReadError::InvalidBuildVersionLength => XPBFReaderHeaderReadError::InvalidBuildVersionLength,
                UPBFReaderHeaderReadError::InvalidBuildVersionString => XPBFReaderHeaderReadError::InvalidBuildVersionString,
            },
        ),
        UPBFReaderError::DataFormat(e) => XPBFReaderError::DataFormat(
            match e {
                UPBFReaderDataFormatReadError::InvalidOffset => XPBFReaderFormatReadError::InvalidOffset,
                UPBFReaderDataFormatReadError::InvalidNameLength => XPBFReaderFormatReadError::InvalidNameLength,
                UPBFReaderDataFormatReadError::InvalidNameString => XPBFReaderFormatReadError::InvalidNameString,
            },
        ),
        UPBFReaderError::Data(e) => XPBFReaderError::Data(
            match e {
                UPBFReaderDataReadError::InvalidOffset => XPBFReaderDataReadError::InvalidOffset,
                UPBFReaderDataReadError::InvalidNameLength => XPBFReaderDataReadError::InvalidNameLength,
                UPBFReaderDataReadError::InvalidNameString => XPBFReaderDataReadError::InvalidNameString,
                UPBFReaderDataReadError::InvalidDataLength => XPBFReaderDataReadError::InvalidDataLength,
                UPBFReaderDataReadError::InvalidDataId => XPBFReaderDataReadError::InvalidDataId,
            },
        ),
    }
}

/// The shared writer error that an SPBF writer error stands for. The I/O
/// cause, where there is one, is carried over unchanged.
pub open spec fn writer_error_of_spbf(err: SPBFWriterError) -> XPBFWriterError {
    match err {
        SPBFWriterError::DataAdd(e) => XPBFWriterError::DataAdd(
            match e {
                SPBFWriterDataAddError::DataAlreadyDefined => XPBFWriterDataAddError::DataAlreadyDefined,
                SPBFWriterDataAddError::FormatCounterOverflow => XPBFWriterDataAddError::FormatCounterOverflow,
            },
        ),
        SPBFWriterError::Write(e) => XPBFWriterError::Write(
            match e {
                SPBFWriterWriteError::UnsupportedVersion => XPBFWriterWriteError::UnsupportedVersion,
                SPBFWriterWriteError::InvalidBuildNameLength => XPBFWriterWriteError::InvalidBuildNameLength,
                SPBFWriterWriteError::InvalidBuildNameString => XPBFWriterWriteError::InvalidBuildNameString,
                SPBFWriterWriteError::InvalidBuildVersionLength => XPBFWriterWriteError::InvalidBuildVersionLength,
                SPBFWriterWriteError::InvalidBuildVersionString => XPBFWriterWriteError::InvalidBuildVersionString,
                SPBFWriterWriteError::InvalidDataFormatNameLength => XPBFWriterWriteError::InvalidDataFormatNameLength,
                SPBFWriterWriteError::InvalidDataFormatNameString => XPBFWriterWriteError::InvalidDataFormatNameString,
                SPBFWriterWriteError::InvalidDataNameLength => XPBFWriterWriteError::InvalidDataNameLength,
                SPBFWriterWriteError::InvalidDataNameString => XPBFWriterWriteError::InvalidDataNameString,
                SPBFWriterWriteError::InvalidDataLength => XPBFWriterWriteError::InvalidDataLength,
                SPBFWriterWriteError::InvalidOffset => XPBFWriterWriteError::InvalidOffset,
                SPBFWriterWriteError::IOError(cause) => XPBFWriterWriteError::IOError(cause),
            },
        ),
    }
}

/// The shared writer error that a UPBF writer error stands for.
pub open spec fn writer_error_of_upbf(err: UPBFWriterError) -> XPBFWriterError {
    match err {
        UPBFWriterError::DataAdd(e) => XPBFWriterError::DataAdd(
            match e {
                UPBFWriterDataAddError::DataAlreadyDefined => XPBFWriterDataAddError::DataAlreadyDefined,
                UPBFWriterDataAddError::FormatCounterOverflow => XPBFWriterDataAddError::FormatCounterOverflow,
            },
        ),
        UPBFWriterError::Write(e) => XPBFWriterError::Write(
            match e {
                UPBFWriterWriteError::UnsupportedVersion => XPBFWriterWriteError::UnsupportedVersion,
                UPBFWriterWriteError::InvalidBuildNameLength => XPBFWriterWriteError::InvalidBuildNameLength,
                UPBFWriterWriteError::InvalidBuildVersionLength => XPBFWriterWriteError::InvalidBuildVersionLength,
                UPBFWriterWriteError::InvalidDataFormatNameLength => XPBFWriterWriteError::InvalidDataFormatNameLength,
                UPBFWriterWriteError::InvalidDataNameLength => XPBFWriterWriteError::InvalidDataNameLength,
                UPBFWriterWriteError::InvalidDataLength => XPBFWriterWriteError::InvalidDataLength,
                UPBFWriterWriteError::InvalidOffset => XPBFWriterWriteError::InvalidOffset,
                UPBFWriterWriteError::IOError(cause) => XPBFWriterWriteError::IOError(cause),
            },
        ),
    }
}

impl From<SPBFReaderError> for XPBFReaderError {
    fn from(err: SPBFReaderError) -> (r: XPBFReaderError) {
        match err {
            SPBFReaderError::InvalidFileLength => Self::InvalidFileLength,
            SPBFReaderError::Header(err) => match err {
                SPBFReaderHeaderReadError::InvalidMagic => Self::Header(XPBFReaderHeaderReadError::InvalidMagic),
                SPBFReaderHeaderReadError::InvalidType => Self::Header(XPBFReaderHeaderReadError::InvalidType),
                SPBFReaderHeaderReadError::UnsupportedVersion => Self::Header(XPBFReaderHeaderReadError::UnsupportedVersion),
                SPBFReaderHeaderReadError::InvalidBuildNameLength => Self::Header(XPBFReaderHeaderReadError::InvalidBuildNameLength),
                SPBFReaderHeaderReadError::InvalidBuildNameString => Self::Header(XPBFReaderHeaderReadError::InvalidBuildNameString),
                SPBFReaderHeaderReadError::InvalidBuildVersionLength => Self::Header(XPBFReaderHeaderReadError::InvalidBuildVersionLength),
                SPBFReaderHeaderReadError::InvalidBuildVersionString => Self::Header(XPBFReaderHeaderReadError::InvalidBuildVersionString),
            },
            SPBFReaderError::DataFormat(err) => match err {
                SPBFReaderDataFormatReadError::InvalidOffset => Self::DataFormat(XPBFReaderFormatReadError::InvalidOffset),
                SPBFReaderDataFormatReadError::InvalidNameLength => Self::DataFormat(XPBFReaderFormatReadError::InvalidNameLength),
                SPBFReaderDataFormatReadError::InvalidNameString => Self::DataFormat(XPBFReaderFormatReadError::InvalidNameString),
            },
            SPBFReaderError::Data(err) => match err {
                SPBFReaderDataReadError::InvalidOffset => Self::Data(XPBFReaderDataReadError::InvalidOffset),
                SPBFReaderDataReadError::InvalidNameLength => Self::Data(XPBFReaderDataReadError::InvalidNameLength),
                SPBFReaderDataReadError::InvalidNameString => Self::Data(XPBFReaderDataReadError::InvalidNameString),
                SPBFReaderDataReadError::InvalidDataLength => Self::Data(XPBFReaderDataReadError::InvalidDataLength),
                SPBFReaderDataReadError::InvalidDataId => Self::Data(XPBFReaderDataReadError::InvalidDataId),
            },
        }
    }
}

impl FromSpecImpl<SPBFReaderError> for XPBFReaderError {
    open spec fn obeys_from_spec() -> bool {
        true
    }

    open spec fn from_spec(err: SPBFReaderError) -> XPBFReaderError {
        reader_error_of_spbf(err)
    }
}

impl From<UPBFReaderError> for XPBFReaderError {
    fn from(err: UPBFReaderError) -> (r: XPBFReaderError) {
        match err {
            UPBFReaderError::InvalidFileLength => Self::InvalidFileLength,
            UPBFReaderError::Header(err) => match err {
                UPBFReaderHeaderReadError::InvalidMagic => Self::Header(XPBFReaderHeaderReadError::InvalidMagic),
                UPBFReaderHeaderReadError::InvalidType => Self::Header(XPBFReaderHeaderReadError::InvalidType),
                UPBFReaderHeaderReadError::UnsupportedVersion => Self::Header(XPBFReaderHeaderReadError::UnsupportedVersion),
                UPBFReaderHeaderReadError::InvalidBuildNameLength => Self::Header(XPBFReaderHeaderReadError::InvalidBuildNameLength),
                UPBFReaderHeaderReadError::InvalidBuildNameString => Self::Header(XPBFReaderHeaderReadError::InvalidBuildNameString),
                UPBFReaderHeaderReadError::InvalidBuildVersionLength => Self::Header(XPBFReaderHeaderReadError::InvalidBuildVersionLength),
                UPBFReaderHeaderReadError::InvalidBuildVersionString => Self::Header(XPBFReaderHeaderReadError::InvalidBuildVersionString),
            },
            UPBFReaderError::DataFormat(err) => match err {
                UPBFReaderDataFormatReadError::InvalidOffset => Self::DataFormat(XPBFReaderFormatReadError::InvalidOffset),
                UPBFReaderDataFormatReadError::InvalidNameLength => Self::DataFormat(XPBFReaderFormatReadError::InvalidNameLength),
                UPBFReaderDataFormatReadError::InvalidNameString => Self::DataFormat(XPBFReaderFormatReadError::InvalidNameString),
            },
            UPBFReaderError::Data(err) => match err {
                UPBFReaderDataReadError::InvalidOffset => Self::Data(XPBFReaderDataReadError::InvalidOffset),
                UPBFReaderDataReadError::InvalidNameLength => Self::Data(XPBFReaderDataReadError::InvalidNameLength),
                UPBFReaderDataReadError::InvalidNameString => Self::Data(XPBFReaderDataReadError::InvalidNameString),
                UPBFReaderDataReadError::InvalidDataLength => Self::Data(XPBFReaderDataReadError::InvalidDataLength),
                UPBFReaderDataReadError::InvalidDataId => Self::Data(XPBFReaderDataReadError::InvalidDataId),
            },
        }
    }
}

impl FromSpecImpl<UPBFReaderError> for XPBFReaderError {
    open spec fn obeys_from_spec() -> bool {
        true
    }

    open spec fn from_spec(err: UPBFReaderError) -> XPBFReaderError {
        reader_error_of_upbf(err)
    }
}

impl From<SPBFWriterError> for XPBFWriterError {
    fn from(err: SPBFWriterError) -> (r: XPBFWriterError) {
        match err {
            SPBFWriterError::DataAdd(err) => match err {
                SPBFWriterDataAddError::DataAlreadyDefined => Self::DataAdd(XPBFWriterDataAddError::DataAlreadyDefined),
                SPBFWriterDataAddError::FormatCounterOverflow => Self::DataAdd(XPBFWriterDataAddError::FormatCounterOverflow),
            },
            SPBFWriterError::Write(err) => match err {
                SPBFWriterWriteError::UnsupportedVersion => Self::Write(XPBFWriterWriteError::UnsupportedVersion),
                SPBFWriterWriteError::InvalidBuildNameLength => Self::Write(XPBFWriterWriteError::InvalidBuildNameLength),
                SPBFWriterWriteError::InvalidBuildNameString => Self::Write(XPBFWriterWriteError::InvalidBuildNameString),
                SPBFWriterWriteError::InvalidBuildVersionLength => Self::Write(XPBFWriterWriteError::InvalidBuildVersionLength),
                SPBFWriterWriteError::InvalidBuildVersionString => Self::Write(XPBFWriterWriteError::InvalidBuildVersionString),
                SPBFWriterWriteError::InvalidDataFormatNameLength => Self::Write(XPBFWriterWriteError::InvalidDataFormatNameLength),
                SPBFWriterWriteError::InvalidDataFormatNameString => Self::Write(XPBFWriterWriteError::InvalidDataFormatNameString),
                SPBFWriterWriteError::InvalidDataNameLength => Self::Write(XPBFWriterWriteError::InvalidDataNameLength),
                SPBFWriterWriteError::InvalidDataNameString => Self::Write(XPBFWriterWriteError::InvalidDataNameString),
                SPBFWriterWriteError::InvalidDataLength => Self::Write(XPBFWriterWriteError::InvalidDataLength),
                SPBFWriterWriteError::InvalidOffset => Self::Write(XPBFWriterWriteError::InvalidOffset),
                SPBFWriterWriteError::IOError(err) => Self::Write(XPBFWriterWriteError::IOError(err)),
            },
        }
    }
}

impl FromSpecImpl<SPBFWriterError> for XPBFWriterError {
    open spec fn obeys_from_spec() -> bool {
        true
    }

    open spec fn from_spec(err: SPBFWriterError) -> XPBFWriterError {
        writer_error_of_spbf(err)
    }
}

impl From<UPBFWriterError> for XPBFWriterError {
    fn from(err: UPBFWriterError) -> (r: XPBFWriterError) {
        match err {
            UPBFWriterError::DataAdd(err) => match err {
                UPBFWriterDataAddError::DataAlreadyDefined => Self::DataAdd(XPBFWriterDataAddError::DataAlreadyDefined),
                UPBFWriterDataAddError::FormatCounterOverflow => Self::DataAdd(XPBFWriterDataAddError::FormatCounterOverflow),
            },
            UPBFWriterError::Write(err) => match err {
                UPBFWriterWriteError::UnsupportedVersion => Self::Write(XPBFWriterWriteError::UnsupportedVersion),
                UPBFWriterWriteError::InvalidBuildNameLength => Self::Write(XPBFWriterWriteError::InvalidBuildNameLength),
                UPBFWriterWriteError::InvalidBuildVersionLength => Self::Write(XPBFWriterWriteError::InvalidBuildVersionLength),
                UPBFWriterWriteError::InvalidDataFormatNameLength => Self::Write(XPBFWriterWriteError::InvalidDataFormatNameLength),
                UPBFWriterWriteError::InvalidDataNameLength => Self::Write(XPBFWriterWriteError::InvalidDataNameLength),
                UPBFWriterWriteError::InvalidDataLength => Self::Write(XPBFWriterWriteError::InvalidDataLength),
                UPBFWriterWriteError::InvalidOffset => Self::Write(XPBFWriterWriteError::InvalidOffset),
                UPBFWriterWriteError::IOError(err) => Self::Write(XPBFWriterWriteError::IOError(err)),
            },
        }
    }
}

impl FromSpecImpl<UPBFWriterError> for XPBFWriterError {
    open spec fn obeys_from_spec() -> bool {
        true
    }

    open spec fn from_spec(err: UPBFWriterError) -> XPBFWriterError {
        writer_error_of_upbf(err)
    }
}

} // verus!
