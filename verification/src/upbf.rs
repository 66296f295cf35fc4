//! The items of upbflib that the library uses, with the contracts that the
//! library relies on.
use vstd::prelude::*;
use upbflib::{UPBFType, UPBFVersion};
use upbflib::read::{UPBFReader, UPBFReaderError, UPBFReaderHeaderReadError, UPBFReaderDataFormatReadError, UPBFReaderDataReadError};
use upbflib::read::UPBFReadResult;
use upbflib::write::{UPBFWriter, UPBFWriterDataAddError, UPBFWriterError, UPBFWriterWriteError};
use crate::model::{
    add_data_overflows, add_data_result, data_ids_listed, data_names, first_index, format_lookup_overflows,
    new_writer_state, overwrite_data_result, ref_counts_fit, remove_data_defined, remove_data_state,
    state_data_ids_listed, view_ids, writer_state_of_content, written_content, FileContent, ReadView,
    WriterState,
};
use crate::error::{XPBFWriterDataAddError, XPBFWriterError, writer_error_of_upbf};
use crate::reader::{XPBFDataForRead, XPBFDataFormatForRead};
use crate::writer::{WrittenData, WrittenFormat};
use crate::layout::upbf_read_safe;

verus! {

#[verifier::external_type_specification]
pub struct ExUPBFType(UPBFType);

#[verifier::external_type_specification]
pub struct ExUPBFReaderHeaderReadError(UPBFReaderHeaderReadError);

#[verifier::external_type_specification]
pub struct ExUPBFReaderDataFormatReadError(UPBFReaderDataFormatReadError);

#[verifier::external_type_specification]
pub struct ExUPBFReaderDataReadError(UPBFReaderDataReadError);

#[verifier::external_type_specification]
pub struct ExUPBFReaderError(UPBFReaderError);

#[verifier::external_type_specification]
pub struct ExUPBFWriterDataAddError(UPBFWriterDataAddError);

#[verifier::external_type_specification]
pub struct ExUPBFWriterWriteError(UPBFWriterWriteError);

#[verifier::external_type_specification]
pub struct ExUPBFWriterError(UPBFWriterError);

#[verifier::external_type_specification]
#[verifier::external_body]
pub struct ExUPBFReader<'a>(UPBFReader<'a>);

#[verifier::external_type_specification]
#[verifier::external_body]
pub struct ExUPBFReadResult<'a>(UPBFReadResult<'a>);

#[verifier::external_type_specification]
#[verifier::external_body]
pub struct ExUPBFWriter(UPBFWriter);

/// The six bytes that open every UPBF file: `.UPBF` and a zero byte.
pub open spec fn upbf_magic() -> Seq<u8> {
    seq![0x2Eu8, 0x55u8, 0x50u8, 0x42u8, 0x46u8, 0x00u8]
}

/// The error that `UPBFReader::new` reports for `bytes`, if any: too short for
/// the eight-byte header, a wrong magic, or a type byte above 3.
pub open spec fn upbf_header_error(bytes: Seq<u8>) -> Option<UPBFReaderError> {
    if bytes.len() < 8 {
        Some(UPBFReaderError::InvalidFileLength)
    } else if bytes.subrange(0, 6) != upbf_magic() {
        Some(UPBFReaderError::Header(UPBFReaderHeaderReadError::InvalidMagic))
    } else if bytes[6] > 3 {
        Some(UPBFReaderError::Header(UPBFReaderHeaderReadError::InvalidType))
    } else {
        None
    }
}

/// The UPBF layout that the type byte `code` names.
pub open spec fn upbf_type_of_code(code: u8) -> UPBFType {
    if code == 0 {
        UPBFType::MediumAlignedLittleEndian
    } else if code == 1 {
        UPBFType::MediumAlignedBigEndian
    } else if code == 2 {
        UPBFType::BigAlignedLittleEndian
    } else {
        UPBFType::BigAlignedBigEndian
    }
}

/// The type byte of an UPBF layout.
pub open spec fn upbf_type_code(t: UPBFType) -> u8 {
    match t {
        UPBFType::MediumAlignedLittleEndian => 0,
        UPBFType::MediumAlignedBigEndian => 1,
        UPBFType::BigAlignedLittleEndian => 2,
        UPBFType::BigAlignedBigEndian => 3,
    }
}

/// The bytes that an `UPBFReader` reads.
pub uninterp spec fn upbf_reader_source(reader: UPBFReader) -> Seq<u8>;

/// What an `UPBFReadResult` holds: header bytes, strings, formats and entries.
pub uninterp spec fn upbf_read_view(read: UPBFReadResult) -> ReadView;

/// What `UPBFReader::read` returns for a file whose header is valid and
/// whose version is supported.
pub uninterp spec fn upbf_parse(source: Seq<u8>) -> Result<ReadView, UPBFReaderError>;

/// Everything that an `UPBFWriter` keeps.
pub uninterp spec fn upbf_writer_state(writer: UPBFWriter) -> WriterState;

/// The bytes, or the error, that `UPBFWriter::write` produces for a content,
/// in the layout with type byte `layout`, at the supported version.
pub uninterp spec fn upbf_encode(content: FileContent, layout: u8) -> Result<Seq<u8>, UPBFWriterError>;

/// `UPBFVersion::new(raw).is_supported()`: only version 1 is.
#[verifier::external_body]
pub(crate) fn upbf_version_is_supported(raw: u8) -> (r: bool)
    ensures
        r == (raw == 1),
{
    UPBFVersion::new(raw).is_supported()
}

/// `UPBFVersion::LAST_SUPPORTED`, as its byte: 1.
#[verifier::external_body]
pub(crate) fn upbf_last_supported_version() -> (r: u8)
    ensures
        r == 1,
{
    UPBFVersion::LAST_SUPPORTED.as_raw()
}

/// `upbflib::read::raw::check_magic`: whether the first six bytes are the
/// UPBF magic. It slices the first six bytes, so it needs six.
#[verifier::external_body]
pub(crate) fn upbf_check_magic(bytes: &[u8]) -> (r: bool)
    requires
        bytes@.len() >= 6,
    ensures
        r == (bytes@.subrange(0, 6) == upbf_magic()),
{
    upbflib::read::raw::check_magic(bytes)
}

/// `UPBFReader::new`: checks the length, the magic and the type byte, in this
/// order, and keeps the bytes.
#[verifier::external_body]
pub(crate) fn upbf_reader_new(bytes: &[u8]) -> (r: Result<UPBFReader, UPBFReaderError>)
    ensures
        r is Ok <==> upbf_header_error(bytes@) is None,
        r matches Err(e) ==> upbf_header_error(bytes@) == Some(e),
        r matches Ok(reader) ==> upbf_reader_source(reader) == bytes@,
{
    UPBFReader::new(bytes)
}

/// `UPBFReader::file_type`: the layout that the type byte names. Every
/// reader holds a valid header.
#[verifier::external_body]
pub(crate) fn upbf_reader_file_type(reader: &UPBFReader) -> (r: UPBFType)
    ensures
        upbf_type_code(r) == upbf_reader_source(*reader)[6],
{
    reader.file_type()
}

/// `UPBFReader::file_version`, as its byte: the eighth byte of the header.
#[verifier::external_body]
pub(crate) fn upbf_reader_file_version(reader: &UPBFReader) -> (r: u8)
    ensures
        r == upbf_reader_source(*reader)[7],
{
    reader.file_version().as_raw()
}

/// `UPBFReader::is_read_supported`: whether the version byte is 1.
#[verifier::external_body]
pub(crate) fn upbf_reader_is_read_supported(reader: &UPBFReader) -> (r: bool)
    ensures
        r == (upbf_reader_source(*reader)[7] == 1),
{
    reader.is_read_supported()
}

/// `UPBFReader::read`. An unsupported version is refused first; otherwise
/// the result is what `upbf_parse` names, and a result that it returns
/// carries the header bytes and lists a format for every entry.
/// A file of version 1 must pass `upbf_read_safe`: on other files the
/// layout readers slice past the end of the bytes, overflow a length, or
/// follow a cycle of offsets forever.
#[verifier::external_body]
pub(crate) fn upbf_reader_read<'b>(reader: &'b UPBFReader) -> (r: Result<UPBFReadResult<'b>, UPBFReaderError>)
    requires
        upbf_reader_source(*reader)[7] != 1 || upbf_read_safe(upbf_reader_source(*reader)),
    ensures
        upbf_reader_source(*reader)[7] != 1 ==> r matches Err(UPBFReaderError::Header(UPBFReaderHeaderReadError::UnsupportedVersion)),
        upbf_reader_source(*reader)[7] == 1 ==> match r {
            Ok(read) => upbf_parse(upbf_reader_source(*reader)) == Ok::<ReadView, UPBFReaderError>(upbf_read_view(read)),
            Err(e) => upbf_parse(upbf_reader_source(*reader)) == Err::<ReadView, UPBFReaderError>(e),
        },
        r matches Ok(read) ==> {
            &&& upbf_read_view(read).file_type == upbf_reader_source(*reader)[6]
            &&& upbf_read_view(read).file_version == upbf_reader_source(*reader)[7]
            &&& data_ids_listed(upbf_read_view(read).content.formats, upbf_read_view(read).content.data)
        },
{
    reader.read()
}

/// `UPBFReadResult::build_name`.
#[verifier::external_body]
pub(crate) fn upbf_read_build_name<'b>(read: &'b UPBFReadResult) -> (r: &'b String)
    ensures
        r@ == upbf_read_view(*read).content.build_name,
{
    read.build_name()
}

/// `UPBFReadResult::build_version`.
#[verifier::external_body]
pub(crate) fn upbf_read_build_version<'b>(read: &'b UPBFReadResult) -> (r: &'b String)
    ensures
        r@ == upbf_read_view(*read).content.build_version,
{
    read.build_version()
}

/// `UPBFReadResult::file_type`: the layout that the header's type byte names.
#[verifier::external_body]
pub(crate) fn upbf_read_file_type(read: &UPBFReadResult) -> (r: UPBFType)
    ensures
        upbf_type_code(r) == upbf_read_view(*read).file_type,
{
    read.file_type()
}

/// `UPBFReadResult::file_version`, as its byte.
#[verifier::external_body]
pub(crate) fn upbf_read_file_version(read: &UPBFReadResult) -> (r: u8)
    ensures
        r == upbf_read_view(*read).file_version,
{
    read.file_version().as_raw()
}

/// `UPBFReadResult::data_formats`, each format copied out.
#[verifier::external_body]
pub(crate) fn upbf_read_formats(read: &UPBFReadResult) -> (r: Vec<XPBFDataFormatForRead>)
    ensures
        r@.map_values(|f: XPBFDataFormatForRead| f@) == upbf_read_view(*read).content.formats,
{
    read.data_formats().iter().map(|f| XPBFDataFormatForRead { data_id: f.data_id(), name: f.name().clone() }).collect()
}

/// `UPBFReadResult::data`, each entry copied out together with the format
/// that `UPBFDataForRead::format` finds for it: the first with its id.
#[verifier::external_body]
pub(crate) fn upbf_read_data(read: &UPBFReadResult) -> (r: Vec<XPBFDataForRead>)
    ensures
        r@.map_values(|d: XPBFDataForRead| d.entry()) == upbf_read_view(*read).content.data,
        forall|i: int| 0 <= i < r@.len() ==> r@[i].format_view() == #[trigger] upbf_read_view(*read).content.formats[
            first_index(view_ids(upbf_read_view(*read).content.formats), r@[i].entry().data_id)],
{
    read.data().iter().map(|d| {
        let f = d.format(read);
        let format = XPBFDataFormatForRead { data_id: f.data_id(), name: f.name().clone() };
        XPBFDataForRead { name: d.name().clone(), data: d.data().to_vec(), data_id: d.data_id(), format }
    }).collect()
}

/// `UPBFWriter::new`: the two strings, no formats, no entries, the id counter at 0xFF.
#[verifier::external_body]
pub(crate) fn upbf_writer_new(build_name: String, build_version: String) -> (r: UPBFWriter)
    ensures
        upbf_writer_state(r) == new_writer_state(build_name@, build_version@),
{
    UPBFWriter::new(build_name, build_version)
}

/// `UPBFWriter::try_from(&UPBFReadResult)`: always succeeds, with the state
/// that `writer_state_of_content` describes. It finds each entry's format
/// unchecked and counts references in a `u32`.
#[verifier::external_body]
pub(crate) fn upbf_writer_from_read(read: &UPBFReadResult) -> (r: Result<UPBFWriter, UPBFReaderError>)
    requires
        data_ids_listed(upbf_read_view(*read).content.formats, upbf_read_view(*read).content.data),
        ref_counts_fit(upbf_read_view(*read).content),
    ensures
        r is Ok,
        r matches Ok(w) ==> upbf_writer_state(w) == writer_state_of_content(upbf_read_view(*read).content),
{
    UPBFWriter::try_from(read)
}

/// `UPBFWriter::add_data` (see `add_data_result`). Ids are `u32`, so the
/// counter cannot pass 0xFFFF_FFFF.
#[verifier::external_body]
pub(crate) fn upbf_writer_add_data(writer: &mut UPBFWriter, name: String, format: &String, bytes: Box<[u8]>) -> (r: Result<(), UPBFWriterError>)
    requires
        !add_data_overflows(upbf_writer_state(*old(writer)), name@, format@, 0xFFFF_FFFF),
    ensures
        match r {
            Ok(_) => add_data_result(upbf_writer_state(*old(writer)), name@, format@, bytes@) == Ok::<WriterState, XPBFWriterDataAddError>(upbf_writer_state(*final(writer))),
            Err(e) => add_data_result(upbf_writer_state(*old(writer)), name@, format@, bytes@) matches Err(k)
                && writer_error_of_upbf(e) == XPBFWriterError::DataAdd(k) && upbf_writer_state(*final(writer)) == upbf_writer_state(*old(writer)),
        },
{
    writer.add_data(name, format, bytes)
}

/// `UPBFWriter::add_or_overwrite_data` (see `overwrite_data_result`).
#[verifier::external_body]
pub(crate) fn upbf_writer_add_or_overwrite_data(writer: &mut UPBFWriter, name: &String, format: &String, bytes: Box<[u8]>) -> (r: Result<(), UPBFWriterError>)
    requires
        !format_lookup_overflows(upbf_writer_state(*old(writer)), format@, 0xFFFF_FFFF),
    ensures
        match r {
            Ok(_) => overwrite_data_result(upbf_writer_state(*old(writer)), name@, format@, bytes@) == Ok::<WriterState, XPBFWriterDataAddError>(upbf_writer_state(*final(writer))),
            Err(e) => overwrite_data_result(upbf_writer_state(*old(writer)), name@, format@, bytes@) matches Err(k)
                && writer_error_of_upbf(e) == XPBFWriterError::DataAdd(k) && upbf_writer_state(*final(writer)) == upbf_writer_state(*old(writer)),
        },
{
    writer.add_or_overwrite_data(name, format, bytes)
}

/// `UPBFWriter::remove_data` (see `remove_data_state`): whether an entry of
/// that name was there. It finds the entry's format unchecked.
#[verifier::external_body]
pub(crate) fn upbf_writer_remove_data(writer: &mut UPBFWriter, name: &String) -> (r: bool)
    requires
        remove_data_defined(upbf_writer_state(*old(writer)), name@),
    ensures
        r == data_names(upbf_writer_state(*old(writer)).data).contains(name@),
        upbf_writer_state(*final(writer)) == remove_data_state(upbf_writer_state(*old(writer)), name@),
{
    writer.remove_data(name)
}

/// `UPBFWriter::write`: refuses a version other than 1, else encodes the
/// content in the layout; the writer is left as it was. Bytes that it
/// returns carry the header bytes and, when every entry's format is listed,
/// read back as the same content, walked by the reader without running off
/// their end (its layout writers emit in-range, acyclic offset chains).
#[verifier::external_body]
pub(crate) fn upbf_writer_write(writer: &mut UPBFWriter, file_type: UPBFType, version: u8) -> (r: Result<Vec<u8>, UPBFWriterError>)
    ensures
        upbf_writer_state(*final(writer)) == upbf_writer_state(*old(writer)),
        version != 1 ==> r matches Err(UPBFWriterError::Write(UPBFWriterWriteError::UnsupportedVersion)),
        version == 1 ==> match r {
            Ok(bytes) => upbf_encode(written_content(upbf_writer_state(*old(writer))), upbf_type_code(file_type)) == Ok::<Seq<u8>, UPBFWriterError>(bytes@),
            Err(e) => upbf_encode(written_content(upbf_writer_state(*old(writer))), upbf_type_code(file_type)) == Err::<Seq<u8>, UPBFWriterError>(e),
        },
        r matches Ok(bytes) ==> {
            &&& upbf_header_error(bytes@) is None
            &&& bytes@[6] == upbf_type_code(file_type)
            &&& bytes@[7] == 1
            &&& state_data_ids_listed(upbf_writer_state(*old(writer))) ==> upbf_read_safe(bytes@)
            &&& state_data_ids_listed(upbf_writer_state(*old(writer))) ==> upbf_parse(bytes@) == Ok::<ReadView, UPBFReaderError>(
                ReadView { file_type: upbf_type_code(file_type), file_version: 1, content: written_content(upbf_writer_state(*old(writer))) })
        },
{
    writer.write(file_type, UPBFVersion::new(version))
}

/// The `build_name` field of an `UPBFWriter`, cloned.
#[verifier::external_body]
pub(crate) fn upbf_writer_build_name(writer: &UPBFWriter) -> (r: String)
    ensures
        r@ == upbf_writer_state(*writer).build_name,
{
    writer.build_name.clone()
}

/// The `build_version` field of an `UPBFWriter`, cloned.
#[verifier::external_body]
pub(crate) fn upbf_writer_build_version(writer: &UPBFWriter) -> (r: String)
    ensures
        r@ == upbf_writer_state(*writer).build_version,
{
    writer.build_version.clone()
}

/// `UPBFWriter::data_formats`, each format copied out.
#[verifier::external_body]
pub(crate) fn upbf_writer_formats(writer: &UPBFWriter) -> (r: Vec<WrittenFormat>)
    ensures
        r@.map_values(|f: WrittenFormat| f@) == upbf_writer_state(*writer).formats,
{
    writer.data_formats().iter().map(|f| WrittenFormat { data_id: f.data_id(), name: f.name().clone(), refs: f.refs() }).collect()
}

/// `UPBFWriter::data`, each entry copied out.
#[verifier::external_body]
pub(crate) fn upbf_writer_data(writer: &UPBFWriter) -> (r: Vec<WrittenData>)
    ensures
        r@.map_values(|d: WrittenData| d@) == upbf_writer_state(*writer).data,
{
    writer.data().iter().map(|d| WrittenData { data_id: d.data_id(), name: d.name().clone(), bytes: d.data().to_vec() }).collect()
}

} // verus!
