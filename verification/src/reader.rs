//! Reading packed build files of either family.
use vstd::prelude::*;
use spbflib::read::{SPBFReadResult, SPBFReader, SPBFReaderError};
use upbflib::read::{UPBFReadResult, UPBFReader, UPBFReaderError};
use vstd::std_specs::convert::TryFromSpecImpl;
use crate::error::{
    reader_error_of_spbf, reader_error_of_upbf, XPBFReaderError, XPBFReaderHeaderReadError,
};
use crate::model::{data_ids_listed, format_ids_within, first_index, view_ids, DataView, FormatView, ReadView};
use crate::layout::read_safe;
use crate::spbf;
use crate::upbf;
use crate::types::{XPBFType, XPBFVersion};

verus! {

/// A data format of a file that was read: its id and its name.
pub struct XPBFDataFormatForRead {
    pub(crate) data_id: u32,
    pub(crate) name: String,
}

/// A data entry of a file that was read, with the format it refers to.
pub struct XPBFDataForRead {
    pub(crate) name: String,
    pub(crate) data: Vec<u8>,
    pub(crate) data_id: u32,
    pub(crate) format: XPBFDataFormatForRead,
}

/// A file whose header was checked, ready to be read.
pub enum XPBFReader<'a> {
    SPBF(SPBFReader<'a>),
    UPBF(UPBFReader<'a>),
}

/// The content of a file that was read.
pub enum XPBFReadResult<'a> {
    SPBF(SPBFReadResult<'a>),
    UPBF(UPBFReadResult<'a>),
}

impl View for XPBFDataFormatForRead {
    type V = FormatView;

    closed spec fn view(&self) -> FormatView {
        FormatView { data_id: self.data_id, name: self.name@ }
    }
}

impl XPBFDataFormatForRead {
    /// The format's name.
    pub fn name(&self) -> (r: &String)
        ensures
            r@ == self@.name,
    {
        &self.name
    }

    /// The format's id, widened to `u32` for both families.
    pub fn data_id(&self) -> (r: u32)
        ensures
            r == self@.data_id,
    {
        self.data_id
    }

    /// A copy of the format.
    fn copy(&self) -> (r: XPBFDataFormatForRead)
        ensures
            r@ == self@,
    {
        XPBFDataFormatForRead { data_id: self.data_id, name: self.name.clone() }
    }
}

impl XPBFDataForRead {
    /// The entry itself: its format id, name and bytes.
    pub closed spec fn entry(&self) -> DataView {
        DataView { data_id: self.data_id, name: self.name@, bytes: self.data@ }
    }

    /// The format that the entry refers to.
    pub closed spec fn format_view(&self) -> FormatView {
        self.format@
    }

    /// The entry's name.
    pub fn name(&self) -> (r: &String)
        ensures
            r@ == self.entry().name,
    {
        &self.name
    }

    /// The id of the entry's format.
    pub(crate) fn data_id(&self) -> (r: u32)
        ensures
            r == self.entry().data_id,
    {
        self.data_id
    }

    /// The format that the entry refers to.
    pub fn format(&self) -> (r: XPBFDataFormatForRead)
        ensures
            r@ == self.format_view(),
    {
        self.format.copy()
    }

    /// The entry's bytes.
    pub fn data(&self) -> (r: &[u8])
        ensures
            r@ == self.entry().bytes,
    {
        self.data.as_slice()
    }
}

/// The shared error that opening a reader of one family reports, as the
/// conversion from that family's `SPBFReader::new` or `UPBFReader::new` result.
pub open spec fn reader_of_spbf<'a>(value: Result<SPBFReader<'a>, SPBFReaderError>) -> Result<XPBFReader<'a>, XPBFReaderError> {
    match value {
        Ok(reader) => Ok(XPBFReader::SPBF(reader)),
        Err(err) => Err(reader_error_of_spbf(err)),
    }
}

/// The shared error that opening a UPBF reader reports.
pub open spec fn reader_of_upbf<'a>(value: Result<UPBFReader<'a>, UPBFReaderError>) -> Result<XPBFReader<'a>, XPBFReaderError> {
    match value {
        Ok(reader) => Ok(XPBFReader::UPBF(reader)),
        Err(err) => Err(reader_error_of_upbf(err)),
    }
}

impl<'a> TryFrom<Result<SPBFReader<'a>, SPBFReaderError>> for XPBFReader<'a> {
    type Error = XPBFReaderError;

    fn try_from(value: Result<SPBFReader<'a>, SPBFReaderError>) -> (r: Result<Self, Self::Error>) {
        match value {
            Ok(ok) => Ok(Self::SPBF(ok)),
            Err(err) => Err(XPBFReaderError::from(err)),
        }
    }
}

impl<'a> TryFromSpecImpl<Result<SPBFReader<'a>, SPBFReaderError>> for XPBFReader<'a> {
    open spec fn obeys_try_from_spec() -> bool {
        true
    }

    open spec fn try_from_spec(value: Result<SPBFReader<'a>, SPBFReaderError>) -> Result<Self, Self::Error> {
        reader_of_spbf(value)
    }
}

impl<'a> TryFrom<Result<UPBFReader<'a>, UPBFReaderError>> for XPBFReader<'a> {
    type Error = XPBFReaderError;

    fn try_from(value: Result<UPBFReader<'a>, UPBFReaderError>) -> (r: Result<Self, Self::Error>) {
        match value {
            Ok(ok) => Ok(Self::UPBF(ok)),
            Err(err) => Err(XPBFReaderError::from(err)),
        }
    }
}

impl<'a> TryFromSpecImpl<Result<UPBFReader<'a>, UPBFReaderError>> for XPBFReader<'a> {
    open spec fn obeys_try_from_spec() -> bool {
        true
    }

    open spec fn try_from_spec(value: Result<UPBFReader<'a>, UPBFReaderError>) -> Result<Self, Self::Error> {
        reader_of_upbf(value)
    }
}

/// The shared result of reading a file of one family, as the conversion from
/// that family's `SPBFReader::read` or `UPBFReader::read` result.
pub open spec fn read_of_spbf<'a>(value: Result<SPBFReadResult<'a>, SPBFReaderError>) -> Result<XPBFReadResult<'a>, XPBFReaderError> {
    match value {
        Ok(read) => Ok(XPBFReadResult::SPBF(read)),
        Err(err) => Err(reader_error_of_spbf(err)),
    }
}

/// The shared result of reading a UPBF file.
pub open spec fn read_of_upbf<'a>(value: Result<UPBFReadResult<'a>, UPBFReaderError>) -> Result<XPBFReadResult<'a>, XPBFReaderError> {
    match value {
        Ok(read) => Ok(XPBFReadResult::UPBF(read)),
        Err(err) => Err(reader_error_of_upbf(err)),
    }
}

impl<'a> TryFrom<Result<SPBFReadResult<'a>, SPBFReaderError>> for XPBFReadResult<'a> {
    type Error = XPBFReaderError;

    fn try_from(value: Result<SPBFReadResult<'a>, SPBFReaderError>) -> (r: Result<Self, Self::Error>) {
        match value {
            Ok(ok) => Ok(Self::SPBF(ok)),
            Err(err) => Err(XPBFReaderError::from(err)),
        }
    }
}

impl<'a> TryFromSpecImpl<Result<SPBFReadResult<'a>, SPBFReaderError>> for XPBFReadResult<'a> {
    open spec fn obeys_try_from_spec() -> bool {
        true
    }

    open spec fn try_from_spec(value: Result<SPBFReadResult<'a>, SPBFReaderError>) -> Result<Self, Self::Error> {
        read_of_spbf(value)
    }
}

impl<'a> TryFrom<Result<UPBFReadResult<'a>, UPBFReaderError>> for XPBFReadResult<'a> {
    type Error = XPBFReaderError;

    fn try_from(value: Result<UPBFReadResult<'a>, UPBFReaderError>) -> (r: Result<Self, Self::Error>) {
        match value {
            Ok(ok) => Ok(Self::UPBF(ok)),
            Err(err) => Err(XPBFReaderError::from(err)),
        }
    }
}

impl<'a> TryFromSpecImpl<Result<UPBFReadResult<'a>, UPBFReaderError>> for XPBFReadResult<'a> {
    open spec fn obeys_try_from_spec() -> bool {
        true
    }

    open spec fn try_from_spec(value: Result<UPBFReadResult<'a>, UPBFReaderError>) -> Result<Self, Self::Error> {
        read_of_upbf(value)
    }
}

impl<'a> XPBFReader<'a> {
    /// The bytes that the reader reads.
    pub open spec fn source(&self) -> Seq<u8> {
        match self {
            XPBFReader::SPBF(reader) => spbf::spbf_reader_source(*reader),
            XPBFReader::UPBF(reader) => upbf::upbf_reader_source(*reader),
        }
    }

    /// The file type that the header's type byte names.
    pub open spec fn spec_file_type(&self) -> XPBFType {
        match self {
            XPBFReader::SPBF(reader) => XPBFType::SPBF(spbf::spbf_type_of_code(self.source()[6])),
            XPBFReader::UPBF(reader) => XPBFType::UPBF(upbf::upbf_type_of_code(self.source()[6])),
        }
    }

    /// The version that the header's version byte gives.
    pub open spec fn spec_file_version(&self) -> XPBFVersion {
        match self {
            XPBFReader::SPBF(_) => XPBFVersion::SPBF(self.source()[7]),
            XPBFReader::UPBF(_) => XPBFVersion::UPBF(self.source()[7]),
        }
    }

    /// What reading returns: an unsupported version is refused, else the
    /// family's parse of the source, its error converted.
    pub open spec fn read_outcome(&self) -> Result<ReadView, XPBFReaderError> {
        if self.source()[7] != 1 {
            Err(XPBFReaderError::Header(XPBFReaderHeaderReadError::UnsupportedVersion))
        } else {
            match self {
                XPBFReader::SPBF(reader) => match spbf::spbf_parse(self.source()) {
                    Ok(view) => Ok(view),
                    Err(e) => Err(reader_error_of_spbf(e)),
                },
                XPBFReader::UPBF(reader) => match upbf::upbf_parse(self.source()) {
                    Ok(view) => Ok(view),
                    Err(e) => Err(reader_error_of_upbf(e)),
                },
            }
        }
    }

    /// Reads the whole file; a file of version 1 must pass `read_safe`
    /// (see `check_read_safe`). A result carries the header bytes and lists a
    /// format for each of its entries.
    pub fn read(&self) -> (r: Result<XPBFReadResult<'_>, XPBFReaderError>)
        requires
            self.source()[7] != 1 || read_safe(self.source(), self is SPBF),
        ensures
            match r {
                Ok(read) => self.read_outcome() == Ok::<ReadView, XPBFReaderError>(read@),
                Err(e) => self.read_outcome() == Err::<ReadView, XPBFReaderError>(e),
            },
            r matches Ok(read) ==> {
                &&& read.wf()
                &&& read@.file_type == self.source()[6]
                &&& read@.file_version == self.source()[7]
                &&& read.same_family(self)
            },
    {
        match self {
            Self::SPBF(reader) => XPBFReadResult::try_from(spbf::spbf_reader_read(reader)),
            Self::UPBF(reader) => XPBFReadResult::try_from(upbf::upbf_reader_read(reader)),
        }
    }

    /// Whether the family reads the file's version: only version 1.
    pub fn is_read_supported(&self) -> (r: bool)
        ensures
            r == (self.source()[7] == 1),
    {
        match self {
            Self::SPBF(reader) => spbf::spbf_reader_is_read_supported(reader),
            Self::UPBF(reader) => upbf::upbf_reader_is_read_supported(reader),
        }
    }

    /// The file type that the header names.
    pub fn file_type(&self) -> (r: XPBFType)
        ensures
            r == self.spec_file_type(),
    {
        match self {
            Self::SPBF(reader) => XPBFType::SPBF(spbf::spbf_reader_file_type(reader)),
            Self::UPBF(reader) => XPBFType::UPBF(upbf::upbf_reader_file_type(reader)),
        }
    }

    /// The version that the header gives.
    pub fn file_version(&self) -> (r: XPBFVersion)
        ensures
            r == self.spec_file_version(),
    {
        match self {
            Self::SPBF(reader) => XPBFVersion::SPBF(spbf::spbf_reader_file_version(reader)),
            Self::UPBF(reader) => XPBFVersion::UPBF(upbf::upbf_reader_file_version(reader)),
        }
    }
}

impl<'a> View for XPBFReadResult<'a> {
    type V = ReadView;

    open spec fn view(&self) -> ReadView {
        match self {
            XPBFReadResult::SPBF(read) => spbf::spbf_read_view(*read),
            XPBFReadResult::UPBF(read) => upbf::upbf_read_view(*read),
        }
    }
}

impl<'a> XPBFReadResult<'a> {
    /// Every entry refers to a listed format, and SPBF format ids are `u16`,
    /// as every reader ensures.
    pub open spec fn wf(&self) -> bool {
        &&& data_ids_listed(self@.content.formats, self@.content.data)
        &&& self is SPBF ==> format_ids_within(self@.content.formats, 0xFFFF)
    }

    /// Read by a reader of the same family as `reader`.
    pub open spec fn same_family(&self, reader: &XPBFReader) -> bool {
        (self is SPBF) == (reader is SPBF)
    }

    /// The name of the build that the file packs.
    pub fn build_name(&self) -> (r: &String)
        ensures
            r@ == self@.content.build_name,
    {
        match self {
            Self::SPBF(read) => spbf::spbf_read_build_name(read),
            Self::UPBF(read) => upbf::upbf_read_build_name(read),
        }
    }

    /// The version of the build that the file packs.
    pub fn build_version(&self) -> (r: &String)
        ensures
            r@ == self@.content.build_version,
    {
        match self {
            Self::SPBF(read) => spbf::spbf_read_build_version(read),
            Self::UPBF(read) => upbf::upbf_read_build_version(read),
        }
    }

    /// The formats, in the order of the file.
    pub fn data_formats(&self) -> (r: Vec<XPBFDataFormatForRead>)
        ensures
            r@.map_values(|f: XPBFDataFormatForRead| f@) == self@.content.formats,
    {
        match self {
            Self::SPBF(read) => spbf::spbf_read_formats(read),
            Self::UPBF(read) => upbf::upbf_read_formats(read),
        }
    }

    /// The entries, in the order of the file, each with the first format
    /// that has its id.
    pub fn data(&self) -> (r: Vec<XPBFDataForRead>)
        ensures
            r@.map_values(|d: XPBFDataForRead| d.entry()) == self@.content.data,
            forall|i: int| 0 <= i < r@.len() ==> r@[i].format_view() == #[trigger] self@.content.formats[
                first_index(view_ids(self@.content.formats), r@[i].entry().data_id)],
    {
        match self {
            Self::SPBF(read) => spbf::spbf_read_data(read),
            Self::UPBF(read) => upbf::upbf_read_data(read),
        }
    }
}

} // verus!
