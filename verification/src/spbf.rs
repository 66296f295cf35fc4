//! The items of spbflib that the library uses, with the contracts that the
//! library relies on.
use vstd::prelude::*;
use spbflib::{SPBFType, SPBFVersion};
use spbflib::read::{SPBFReader, SPBFReaderError, SPBFReaderHeaderReadError, SPBFReaderDataFormatReadError, SPBFReaderDataReadError};
use spbflib::read::SPBFReadResult;
use spbflib::write::{SPBFWriter, SPBFWriterDataAddError, SPBFWriterError, SPBFWriterWriteError};
use crate::model::{
    add_data_overflows, add_data_result, data_ids_listed, format_ids_within, data_names, first_index, format_lookup_overflows,
    new_writer_state, overwrite_data_result, ref_counts_fit, remove_data_defined, remove_data_state,
    state_data_ids_listed, view_ids, writer_state_of_content, written_content, FileContent, ReadView,
    WriterState,
};
use crate::error::{XPBFWriterDataAddError, XPBFWriterError, writer_error_of_spbf};
use crate::reader::{XPBFDataForRead, XPBFDataFormatForRead};
use crate::writer::{WrittenData, WrittenFormat};
use crate::layout::spbf_read_safe;

verus! {

#[verifier::external_type_specification]
#[verifier::external_body]
pub struct ExIoError(std::io::Error);

#[verifier::external_type_specification]
pub struct ExSPBFType(SPBFType);

#[verifier::external_type_specification]
pub struct ExSPBFReaderHeaderReadError(SPBFReaderHeaderReadError);

#[verifier::external_type_specification]
pub struct ExSPBFReaderDataFormatReadError(SPBFReaderDataFormatReadError);

#[verifier::external_type_specification]
pub struct ExSPBFReaderDataReadError(SPBFReaderDataReadError);

#[verifier::external_type_specification]
pub struct ExSPBFReaderError(SPBFReaderError);

#[verifier::external_type_specification]
pub struct ExSPBFWriterDataAddError(SPBFWriterDataAddError);

#[verifier::external_type_specification]
pub struct ExSPBFWriterWriteError(SPBFWriterWriteError);

#[verifier::external_type_specification]
pub struct ExSPBFWriterError(SPBFWriterError);

#[verifier::external_type_specification]
#[verifier::external_body]
pub struct ExSPBFReader<'a>(SPBFReader<'a>);

#[verifier::external_type_specification]
#[verifier::external_body]
pub struct ExSPBFReadResult<'a>(SPBFReadResult<'a>);

#[verifier::external_type_specification]
#[verifier::external_body]
pub struct ExSPBFWriter(SPBFWriter);

/// The six bytes that open every SPBF file: `.SPBF` and a zero byte.
pub open spec fn spbf_magic() -> Seq<u8> {
    seq![0x2Eu8, 0x53u8, 0x50u8, 0x42u8, 0x46u8, 0x00u8]
}

/// The error that `SPBFReader::new` reports for `bytes`, if any: too short for
/// the eight-byte header, a wrong magic, or a type byte above 3.
pub open spec fn spbf_header_error(bytes: Seq<u8>) -> Option<SPBFReaderError> {
    if bytes.len() < 8 {
        Some(SPBFReaderError::InvalidFileLength)
    } else if bytes.subrange(0, 6) != spbf_magic() {
        Some(SPBFReaderError::Header(SPBFReaderHeaderReadError::InvalidMagic))
    } else if bytes[6] > 3 {
        Some(SPBFReaderError::Header(SPBFReaderHeaderReadError::InvalidType))
    } else {
        None
    }
}

/// The SPBF layout that the type byte `code` names.
pub open spec fn spbf_type_of_code(code: u8) -> SPBFType {
    if code == 0 {
        SPBFType::SmallUnalignedLittleEndian
    } else if code == 1 {
        SPBFType::SmallUnalignedBigEndian
    } else if code == 2 {
        SPBFType::SmallAlignedLittleEndian
    } else {
        SPBFType::SmallAlignedBigEndian
    }
}

/// The type byte of an SPBF layout.
pub open spec fn spbf_type_code(t: SPBFType) -> u8 {
    match t {
        SPBFType::SmallUnalignedLittleEndian => 0,
        SPBFType::SmallUnalignedBigEndian => 1,
        SPBFType::SmallAlignedLittleEndian => 2,
        SPBFType::SmallAlignedBigEndian => 3,
    }
}

/// The bytes that an `SPBFReader` reads.
pub uninterp spec fn spbf_reader_source(reader: SPBFReader) -> Seq<u8>;

/// What an `SPBFReadResult` holds: header bytes, strings, formats and entries.
pub uninterp spec fn spbf_read_view(read: SPBFReadResult) -> ReadView;

/// What `SPBFReader::read` returns for a file whose header is valid and
/// whose version is supported.
pub uninterp spec fn spbf_parse(source: Seq<u8>) -> Result<ReadView, SPBFReaderError>;

/// Everything that an `SPBFWriter` keeps.
pub uninterp spec fn spbf_writer_state(writer: SPBFWriter) -> WriterState;

/// The bytes, or the error, that `SPBFWriter::write` produces for a content,
/// in the layout with type byte `layout`, at the supported version.
pub uninterp spec fn spbf_encode(content: FileContent, layout: u8) -> Result<Seq<u8>, SPBFWriterError>;

/// `SPBFVersion::new(raw).is_supported()`: only version 1 is.
#[verifier::external_body]
pub(crate) fn spbf_version_is_supported(raw: u8) -> (r: bool)
    ensures
        r == (raw == 1),
{
    SPBFVersion::new(raw).is_supported()
}

/// `SPBFVersion::LAST_SUPPORTED`, as its byte: 1.
#[verifier::external_body]
pub(crate) fn spbf_last_supported_version() -> (r: u8)
    ensures
        r == 1,
{
    SPBFVersion::LAST_SUPPORTED.as_raw()
}

/// `spbflib::read::raw::check_magic`: whether the first six bytes are the
/// SPBF magic. It slices the first six bytes, so it needs six.
#[verifier::external_body]
pub(crate) fn spbf_check_magic(bytes: &[u8]) -> (r: bool)
    requires
        bytes@.len() >= 6,
    ensures
        r == (bytes@.subrange(0, 6) == spbf_magic()),
{
    spbflib::read::raw::check_magic(bytes)
}

/// `SPBFReader::new`: checks the length, the magic and the type byte, in this
/// order, and keeps the bytes.
#[verifier::external_body]
pub(crate) fn spbf_reader_new(bytes: &[u8]) -> (r: Result<SPBFReader, SPBFReaderError>)
    ensures
        r is Ok <==> spbf_header_error(bytes@) is None,
        r matches Err(e) ==> spbf_header_error(bytes@) == Some(e),
        r matches Ok(reader) ==> spbf_reader_source(reader) == bytes@,
{
    SPBFReader::new(bytes)
}

/// `SPBFReader::file_type`: the layout that the type byte names. Every
/// reader holds a valid header.
#[verifier::external_body]
pub(crate) fn spbf_reader_file_type(reader: &SPBFReader) -> (r: SPBFType)
    ensures
        spbf_type_code(r) == spbf_reader_source(*reader)[6],
{
    reader.file_type()
}

/// `SPBFReader::file_version`, as its byte: the eighth byte of the header.
#[verifier::external_body]
pub(crate) fn spbf_reader_file_version(reader: &SPBFReader) -> (r: u8)
    ensures
        r == spbf_reader_source(*reader)[7],
{
    reader.file_version().as_raw()
}

/// `SPBFReader::is_read_supported`: whether the version byte is 1.
#[verifier::external_body]
pub(crate) fn spbf_reader_is_read_supported(reader: &SPBFReader) -> (r: bool)
    ensures
        r == (spbf_reader_source(*reader)[7] == 1),
{
    reader.is_read_supported()
}

/// `SPBFReader::read`. An unsupported version is refused first; otherwise
/// the result is what `spbf_parse` names, and a result that it returns
/// carries the header bytes, lists a format for every entry and holds
/// `u16` format ids.
/// A file of version 1 must pass `spbf_read_safe`: on other files the
/// layout readers slice past the end of the bytes, overflow a length, or
/// follow a cycle of offsets forever.
#[verifier::external_body]
pub(crate) fn spbf_reader_read<'b>(reader: &'b SPBFReader) -> (r: Result<SPBFReadResult<'b>, SPBFReaderError>)
    requires
        spbf_reader_source(*reader)[7] != 1 || spbf_read_safe(spbf_reader_source(*reader)),
    ensures
        spbf_reader_source(*reader)[7] != 1 ==> r matches Err(SPBFReaderError::Header(SPBFReaderHeaderReadError::UnsupportedVersion)),
        spbf_reader_source(*reader)[7] == 1 ==> match r {
            Ok(read) => spbf_parse(spbf_reader_source(*reader)) == Ok::<ReadView, SPBFReaderError>(spbf_read_view(read)),
            Err(e) => spbf_parse(spbf_reader_source(*reader)) == Err::<ReadView, SPBFReaderError>(e),
        },
        r matches Ok(read) ==> {
            &&& spbf_read_view(read).file_type == spbf_reader_source(*reader)[6]
            &&& spbf_read_view(read).file_version == spbf_reader_source(*reader)[7]
            &&& data_ids_listed(spbf_read_view(read).content.formats, spbf_read_view(read).content.data)
            &&& format_ids_within(spbf_read_view(read).content.formats, 0xFFFF)
        },
{
    reader.read()
}

/// `SPBFReadResult::build_name`.
#[verifier::external_body]
pub(crate) fn spbf_read_build_name<'b>(read: &'b SPBFReadResult) -> (r: &'b String)
    ensures
        r@ == spbf_read_view(*read).content.build_name,
{
    read.build_name()
}

/// `SPBFReadResult::build_version`.
#[verifier::external_body]
pub(crate) fn spbf_read_build_version<'b>(read: &'b SPBFReadResult) -> (r: &'b String)
    ensures
        r@ == spbf_read_view(*read).content.build_version,
{
    read.build_version()
}

/// `SPBFReadResult::file_type`: the layout that the header's type byte names.
#[verifier::external_body]
pub(crate) fn spbf_read_file_type(read: &SPBFReadResult) -> (r: SPBFType)
    ensures
        spbf_type_code(r) == spbf_read_view(*read).file_type,
{
    read.file_type()
}

/// `SPBFReadResult::file_version`, as its byte.
#[verifier::external_body]
pub(crate) fn spbf_read_file_version(read: &SPBFReadResult) -> (r: u8)
    ensures
        r == spbf_read_view(*read).file_version,
{
    read.file_version().as_raw()
}

/// `SPBFReadResult::data_formats`, each format copied out with its id widened.
#[verifier::external_body]
pub(crate) fn spbf_read_formats(read: &SPBFReadResult) -> (r: Vec<XPBFDataFormatForRead>)
    ensures
        r@.map_values(|f: XPBFDataFormatForRead| f@) == spbf_read_view(*read).content.formats,
{
    read.data_formats().iter().map(|f| XPBFDataFormatForRead { data_id: f.data_id() as u32, name: f.name().clone() }).collect()
}

/// `SPBFReadResult::data`, each entry copied out together with the format
/// that `SPBFDataForRead::format` finds for it: the first with its id.
#[verifier::external_body]
pub(crate) fn spbf_read_data(read: &SPBFReadResult) -> (r: Vec<XPBFDataForRead>)
    ensures
        r@.map_values(|d: XPBFDataForRead| d.entry()) == spbf_read_view(*read).content.data,
        forall|i: int| 0 <= i < r@.len() ==> r@[i].format_view() == #[trigger] spbf_read_view(*read).content.formats[
            first_index(view_ids(spbf_read_view(*read).content.formats), r@[i].entry().data_id)],
{
    read.data().iter().map(|d| {
        let f = d.format(read);
        let format = XPBFDataFormatForRead { data_id: f.data_id() as u32, name: f.name().clone() };
        XPBFDataForRead { name: d.name().clone(), data: d.data().to_vec(), data_id: d.data_id() as u32, format }
    }).collect()
}

/// `SPBFWriter::new`: the two strings, no formats, no entries, the id counter at 0xFF.
#[verifier::external_body]
pub(crate) fn spbf_writer_new(build_name: String, build_version: String) -> (r: SPBFWriter)
    ensures
        spbf_writer_state(r) == new_writer_state(build_name@, build_version@),
{
    SPBFWriter::new(build_name, build_version)
}

/// `SPBFWriter::try_from(&SPBFReadResult)`: always succeeds, with the state
/// that `writer_state_of_content` describes. It finds each entry's format
/// unchecked and counts references in a `u32`.
#[verifier::external_body]
pub(crate) fn spbf_writer_from_read(read: &SPBFReadResult) -> (r: Result<SPBFWriter, SPBFReaderError>)
    requires
        data_ids_listed(spbf_read_view(*read).content.formats, spbf_read_view(*read).content.data),
        ref_counts_fit(spbf_read_view(*read).content),
    ensures
        r is Ok,
        r matches Ok(w) ==> spbf_writer_state(w) == writer_state_of_content(spbf_read_view(*read).content),
{
    SPBFWriter::try_from(read)
}

/// `SPBFWriter::add_data` (see `add_data_result`). Ids are `u16`, so the
/// counter cannot pass 0xFFFF.
#[verifier::external_body]
pub(crate) fn spbf_writer_add_data(writer: &mut SPBFWriter, name: String, format: &String, bytes: Box<[u8]>) -> (r: Result<(), SPBFWriterError>)
    requires
        !add_data_overflows(spbf_writer_state(*old(writer)), name@, format@, 0xFFFF),
    ensures
        match r {
            Ok(_) => add_data_result(spbf_writer_state(*old(writer)), name@, format@, bytes@) == Ok::<WriterState, XPBFWriterDataAddError>(spbf_writer_state(*final(writer))),
            Err(e) => add_data_result(spbf_writer_state(*old(writer)), name@, format@, bytes@) matches Err(k)
                && writer_error_of_spbf(e) == XPBFWriterError::DataAdd(k) && spbf_writer_state(*final(writer)) == spbf_writer_state(*old(writer)),
        },
{
    writer.add_data(name, format, bytes)
}

/// `SPBFWriter::add_or_overwrite_data` (see `overwrite_data_result`).
#[verifier::external_body]
pub(crate) fn spbf_writer_add_or_overwrite_data(writer: &mut SPBFWriter, name: &String, format: &String, bytes: Box<[u8]>) -> (r: Result<(), SPBFWriterError>)
    requires
        !format_lookup_overflows(spbf_writer_state(*old(writer)), format@, 0xFFFF),
    ensures
        match r {
            Ok(_) => overwrite_data_result(spbf_writer_state(*old(writer)), name@, format@, bytes@) == Ok::<WriterState, XPBFWriterDataAddError>(spbf_writer_state(*final(writer))),
            Err(e) => overwrite_data_result(spbf_writer_state(*old(writer)), name@, format@, bytes@) matches Err(k)
                && writer_error_of_spbf(e) == XPBFWriterError::DataAdd(k) && spbf_writer_state(*final(writer)) == spbf_writer_state(*old(writer)),
        },
{
    writer.add_or_overwrite_data(name, format, bytes)
}

/// `SPBFWriter::remove_data` (see `remove_data_state`): whether an entry of
/// that name was there. It finds the entry's format unchecked.
#[verifier::external_body]
pub(crate) fn spbf_writer_remove_data(writer: &mut SPBFWriter, name: &String) -> (r: bool)
    requires
        remove_data_defined(spbf_writer_state(*old(writer)), name@),
    ensures
        r == data_names(spbf_writer_state(*old(writer)).data).contains(name@),
        spbf_writer_state(*final(writer)) == remove_data_state(spbf_writer_state(*old(writer)), name@),
{
    writer.remove_data(name)
}

/// `SPBFWriter::write`: refuses a version other than 1, else encodes the
/// content in the layout; the writer is left as it was. Bytes that it
/// returns carry the header bytes and, when every entry's format is listed,
/// read back as the same content, walked by the reader without running off
/// their end (its layout writers emit in-range, acyclic offset chains).
#[verifier::external_body]
pub(crate) fn spbf_writer_write(writer: &mut SPBFWriter, file_type: SPBFType, version: u8) -> (r: Result<Vec<u8>, SPBFWriterError>)
    ensures
        spbf_writer_state(*final(writer)) == spbf_writer_state(*old(writer)),
        version != 1 ==> r matches Err(SPBFWriterError::Write(SPBFWriterWriteError::UnsupportedVersion)),
        version == 1 ==> match r {
            Ok(bytes) => spbf_encode(written_content(spbf_writer_state(*old(writer))), spbf_type_code(file_type)) == Ok::<Seq<u8>, SPBFWriterError>(bytes@),
            Err(e) => spbf_encode(written_content(spbf_writer_state(*old(writer))), spbf_type_code(file_type)) == Err::<Seq<u8>, SPBFWriterError>(e),
        },
        r matches Ok(bytes) ==> {
            &&& spbf_header_error(bytes@) is None
            &&& bytes@[6] == spbf_type_code(file_type)
            &&& bytes@[7] == 1
            &&& state_data_ids_listed(spbf_writer_state(*old(writer))) ==> spbf_read_safe(bytes@)
            &&& state_data_ids_listed(spbf_writer_state(*old(writer))) ==> spbf_parse(bytes@) == Ok::<ReadView, SPBFReaderError>(
                ReadView { file_type: spbf_type_code(file_type), file_version: 1, content: written_content(spbf_writer_state(*old(writer))) })
        },
{
    writer.write(file_type, SPBFVersion::new(version))
}

/// The `build_name` field of an `SPBFWriter`, cloned.
#[verifier::external_body]
pub(crate) fn spbf_writer_build_name(writer: &SPBFWriter) -> (r: String)
    ensures
        r@ == spbf_writer_state(*writer).build_name,
{
    writer.build_name.clone()
}

/// The `build_version` field of an `SPBFWriter`, cloned.
#[verifier::external_body]
pub(crate) fn spbf_writer_build_version(writer: &SPBFWriter) -> (r: String)
    ensures
        r@ == spbf_writer_state(*writer).build_version,
{
    writer.build_version.clone()
}

/// `SPBFWriter::data_formats`, each format copied out with its id widened.
#[verifier::external_body]
pub(crate) fn spbf_writer_formats(writer: &SPBFWriter) -> (r: Vec<WrittenFormat>)
    ensures
        r@.map_values(|f: WrittenFormat| f@) == spbf_writer_state(*writer).formats,
{
    writer.data_formats().iter().map(|f| WrittenFormat { data_id: f.data_id() as u32, name: f.name().clone(), refs: f.refs() }).collect()
}

/// `SPBFWriter::data`, each entry copied out with its id widened.
#[verifier::external_body]
pub(crate) fn spbf_writer_data(writer: &SPBFWriter) -> (r: Vec<WrittenData>)
    ensures
        r@.map_values(|d: WrittenData| d@) == spbf_writer_state(*writer).data,
{
    writer.data().iter().map(|d| WrittenData { data_id: d.data_id() as u32, name: d.name().clone(), bytes: d.data().to_vec() }).collect()
}

} // verus!
