//! The command-line tool's decisions: which file family a file belongs to,
//! what each command computes from the bytes it was given, and which message
//! each error stands for. Reading and writing files, standard input and
//! output, and printing are left to the program around the library.
use vstd::prelude::*;
use spbflib::SPBFType;
use upbflib::UPBFType;
use crate::error::{
    reader_error_of_spbf, reader_error_of_upbf, XPBFReaderDataReadError, XPBFReaderError,
    XPBFReaderFormatReadError, XPBFReaderHeaderReadError, XPBFWriterDataAddError, XPBFWriterError,
    XPBFWriterWriteError,
};
use crate::model::{
    data_ids_listed, data_names, entry_names, first_index, format_lookup_overflows, is_first_index,
    lemma_first_index, lemma_max_id_step, lemma_ref_count_step, lemma_writer_of_content_formats, max_id,
    ref_count, ref_counts_fit, view_ids, writer_state_of_content, FileContent, FormatView, ReadView,
    overwrite_data_result, remove_data_state, lemma_remove_defined_of_content, WriterState,
    add_entries, add_entries_overflow, writer_entries, written_content, state_data_ids_listed,
    content_entries, lemma_written_entries, lemma_content_written_back, lemma_overwrite_keeps_listed,
    lemma_overwrite_reads_back, lemma_remove_of_content, lemma_max_id_bounds,
    lemma_overwrite_of_content, lemma_overwrite_entry_of_content,
};
use crate::consistency::ids_distinct;
use crate::writer::encoded_reads_back;
use crate::reader::{XPBFDataForRead, XPBFDataFormatForRead, XPBFReader};
use crate::spbf;
use crate::upbf;
use crate::types::{XPBFType, XPBFVersion};
use crate::writer::{boxed_bytes, encode_outcome, id_max_of, XPBFWriter};
use crate::reader::XPBFReadResult;
use crate::model::new_writer_state;
use crate::layout::{check_read_safe, read_safe};

verus! {

/// Why a command failed.
pub enum CliError {
    /// The file could not be read.
    Reader(XPBFReaderError),
    /// The file could not be written.
    Writer(XPBFWriterError),
    /// The requested file type is none of the known names.
    UnknownType,
    /// The file holds no entry of the requested name.
    DataNotFound,
    /// The file holds no entry of the name to remove.
    RemoveNotExists,
    /// The tool stops with a panic: the file is shorter than the six magic
    /// bytes, its family's reader would run off its end, overflow a length
    /// or loop (see `read_unsafe`), or a counter inside a writer would
    /// overflow.
    Aborted,
}

/// What the `info` command shows of a file.
pub struct InfoReport {
    pub file_type: XPBFType,
    pub file_version: XPBFVersion,
    /// The build strings, formats and entries, when the version is
    /// readable, or why reading them failed.
    pub build: Option<Result<BuildInfo, XPBFReaderError>>,
}

/// The content of a readable file, as the `info` command lists it.
pub struct BuildInfo {
    pub build_name: String,
    pub build_version: String,
    pub data_formats: Vec<XPBFDataFormatForRead>,
    pub data: Vec<XPBFDataForRead>,
}

/// `str == str`.
#[verifier::external_body]
fn str_eq(a: &str, b: &str) -> (r: bool)
    ensures
        r == (a@ == b@),
{
    a == b
}

/// The file type that a command-line name stands for: three Latin letters or
/// their Cyrillic counterparts.
pub open spec fn type_of_name(name: Seq<char>) -> Option<XPBFType> {
    if name == "SUL"@ || name == "МБМ"@ {
        Some(XPBFType::SPBF(SPBFType::SmallUnalignedLittleEndian))
    } else if name == "SUB"@ || name == "МБС"@ {
        Some(XPBFType::SPBF(SPBFType::SmallUnalignedBigEndian))
    } else if name == "SAL"@ || name == "МВМ"@ {
        Some(XPBFType::SPBF(SPBFType::SmallAlignedLittleEndian))
    } else if name == "SAB"@ || name == "МВС"@ {
        Some(XPBFType::SPBF(SPBFType::SmallAlignedBigEndian))
    } else if name == "MAL"@ || name == "СВМ"@ {
        Some(XPBFType::UPBF(UPBFType::MediumAlignedLittleEndian))
    } else if name == "MAB"@ || name == "СВС"@ {
        Some(XPBFType::UPBF(UPBFType::MediumAlignedBigEndian))
    } else if name == "BAL"@ || name == "БВМ"@ {
        Some(XPBFType::UPBF(UPBFType::BigAlignedLittleEndian))
    } else if name == "BAB"@ || name == "БВС"@ {
        Some(XPBFType::UPBF(UPBFType::BigAlignedBigEndian))
    } else {
        None
    }
}

/// Parses a file type name; `None` for an unknown name.
pub fn cli_xpbf_type_parse(name: &str) -> (r: Option<XPBFType>)
    ensures
        r == type_of_name(name@),
{
    if str_eq(name, "SUL") || str_eq(name, "МБМ") {
        Some(XPBFType::SPBF(SPBFType::SmallUnalignedLittleEndian))
    } else if str_eq(name, "SUB") || str_eq(name, "МБС") {
        Some(XPBFType::SPBF(SPBFType::SmallUnalignedBigEndian))
    } else if str_eq(name, "SAL") || str_eq(name, "МВМ") {
        Some(XPBFType::SPBF(SPBFType::SmallAlignedLittleEndian))
    } else if str_eq(name, "SAB") || str_eq(name, "МВС") {
        Some(XPBFType::SPBF(SPBFType::SmallAlignedBigEndian))
    } else if str_eq(name, "MAL") || str_eq(name, "СВМ") {
        Some(XPBFType::UPBF(UPBFType::MediumAlignedLittleEndian))
    } else if str_eq(name, "MAB") || str_eq(name, "СВС") {
        Some(XPBFType::UPBF(UPBFType::MediumAlignedBigEndian))
    } else if str_eq(name, "BAL") || str_eq(name, "БВМ") {
        Some(XPBFType::UPBF(UPBFType::BigAlignedLittleEndian))
    } else if str_eq(name, "BAB") || str_eq(name, "БВС") {
        Some(XPBFType::UPBF(UPBFType::BigAlignedBigEndian))
    } else {
        None
    }
}

/// Every file type, in the order in which the tool lists them.
pub fn cli_xpbf_types() -> (r: Vec<XPBFType>)
    ensures
        r@ == seq![
            XPBFType::SPBF(SPBFType::SmallUnalignedLittleEndian),
            XPBFType::SPBF(SPBFType::SmallUnalignedBigEndian),
            XPBFType::SPBF(SPBFType::SmallAlignedLittleEndian),
            XPBFType::SPBF(SPBFType::SmallAlignedBigEndian),
            XPBFType::UPBF(UPBFType::MediumAlignedLittleEndian),
            XPBFType::UPBF(UPBFType::MediumAlignedBigEndian),
            XPBFType::UPBF(UPBFType::BigAlignedLittleEndian),
            XPBFType::UPBF(UPBFType::BigAlignedBigEndian),
        ],
{
    let mut types = Vec::new();
    types.push(XPBFType::SPBF(SPBFType::SmallUnalignedLittleEndian));
    types.push(XPBFType::SPBF(SPBFType::SmallUnalignedBigEndian));
    types.push(XPBFType::SPBF(SPBFType::SmallAlignedLittleEndian));
    types.push(XPBFType::SPBF(SPBFType::SmallAlignedBigEndian));
    types.push(XPBFType::UPBF(UPBFType::MediumAlignedLittleEndian));
    types.push(XPBFType::UPBF(UPBFType::MediumAlignedBigEndian));
    types.push(XPBFType::UPBF(UPBFType::BigAlignedLittleEndian));
    types.push(XPBFType::UPBF(UPBFType::BigAlignedBigEndian));
    types
}

/// The message key that names a file type.
pub open spec fn type_key(file_type: XPBFType) -> Seq<char> {
    match file_type {
        XPBFType::SPBF(t) => match t {
            SPBFType::SmallUnalignedLittleEndian => "xpbf.type.sul"@,
            SPBFType::SmallUnalignedBigEndian => "xpbf.type.sub"@,
            SPBFType::SmallAlignedLittleEndian => "xpbf.type.sal"@,
            SPBFType::SmallAlignedBigEndian => "xpbf.type.sab"@,
        },
        XPBFType::UPBF(t) => match t {
            UPBFType::MediumAlignedLittleEndian => "xpbf.type.mal"@,
            UPBFType::MediumAlignedBigEndian => "xpbf.type.mab"@,
            UPBFType::BigAlignedLittleEndian => "xpbf.type.bal"@,
            UPBFType::BigAlignedBigEndian => "xpbf.type.bab"@,
        },
    }
}

/// The message key that names a file type.
pub fn cli_xpbf_type_to_str(file_type: XPBFType) -> (r: &'static str)
    ensures
        r@ == type_key(file_type),
{
    match file_type {
        XPBFType::SPBF(t) => match t {
            SPBFType::SmallUnalignedLittleEndian => "xpbf.type.sul",
            SPBFType::SmallUnalignedBigEndian => "xpbf.type.sub",
            SPBFType::SmallAlignedLittleEndian => "xpbf.type.sal",
            SPBFType::SmallAlignedBigEndian => "xpbf.type.sab",
        },
        XPBFType::UPBF(t) => match t {
            UPBFType::MediumAlignedLittleEndian => "xpbf.type.mal",
            UPBFType::MediumAlignedBigEndian => "xpbf.type.mab",
            UPBFType::BigAlignedLittleEndian => "xpbf.type.bal",
            UPBFType::BigAlignedBigEndian => "xpbf.type.bab",
        },
    }
}

/// The message key that tells whether a version is supported.
pub fn cli_xpbf_version_key(version: XPBFVersion) -> (r: &'static str)
    ensures
        version.raw() == 1 ==> r@ == "xpbf.version.supported"@,
        version.raw() != 1 ==> r@ == "xpbf.version.unsupported"@,
{
    if version.is_supported() {
        "xpbf.version.supported"
    } else {
        "xpbf.version.unsupported"
    }
}

/// The message key that explains a reader error.
pub open spec fn reader_error_key(err: XPBFReaderError) -> Seq<char> {
    match err {
        XPBFReaderError::InvalidFileLength => "xpbf.err.read.invalid_file_length"@,
        XPBFReaderError::Header(e) => match e {
            XPBFReaderHeaderReadError::InvalidMagic => "xpbf.err.read.header.invalid_magic"@,
            XPBFReaderHeaderReadError::InvalidType => "xpbf.err.read.header.invalid_type"@,
            XPBFReaderHeaderReadError::UnsupportedVersion => "xpbf.err.read.header.unsupported_version"@,
            XPBFReaderHeaderReadError::InvalidBuildNameLength => "xpbf.err.read.header.invalid_build_name_length"@,
            XPBFReaderHeaderReadError::InvalidBuildNameString => "xpbf.err.read.header.invalid_build_name_string"@,
            XPBFReaderHeaderReadError::InvalidBuildVersionLength => "xpbf.err.read.header.invalid_build_version_length"@,
            XPBFReaderHeaderReadError::InvalidBuildVersionString => "xpbf.err.read.header.invalid_build_version_string"@,
        },
        XPBFReaderError::DataFormat(e) => match e {
            XPBFReaderFormatReadError::InvalidOffset => "xpbf.err.read.data_format.invalid_offset"@,
            XPBFReaderFormatReadError::InvalidNameLength => "xpbf.err.read.data_format.invalid_name_length"@,
            XPBFReaderFormatReadError::InvalidNameString => "xpbf.err.read.data_format.invalid_name_string"@,
        },
        XPBFReaderError::Data(e) => match e {
            XPBFReaderDataReadError::InvalidOffset => "xpbf.err.read.data.invalid_offset"@,
            XPBFReaderDataReadError::InvalidNameLength => "xpbf.err.read.data.invalid_name_length"@,
            XPBFReaderDataReadError::InvalidNameString => "xpbf.err.read.data.invalid_name_string"@,
            XPBFReaderDataReadError::InvalidDataLength => "xpbf.err.read.data.invalid_data_length"@,
            XPBFReaderDataReadError::InvalidDataId => "xpbf.err.read.data.invalid_data_id"@,
        },
    }
}

/// The message key that explains a reader error.
pub fn cli_reader_error_key(err: &XPBFReaderError) -> (r: &'static str)
    ensures
        r@ == reader_error_key(*err),
{
    match err {
        XPBFReaderError::InvalidFileLength => "xpbf.err.read.invalid_file_length",
        XPBFReaderError::Header(e) => match e {
            XPBFReaderHeaderReadError::InvalidMagic => "xpbf.err.read.header.invalid_magic",
            XPBFReaderHeaderReadError::InvalidType => "xpbf.err.read.header.invalid_type",
            XPBFReaderHeaderReadError::UnsupportedVersion => "xpbf.err.read.header.unsupported_version",
            XPBFReaderHeaderReadError::InvalidBuildNameLength => "xpbf.err.read.header.invalid_build_name_length",
            XPBFReaderHeaderReadError::InvalidBuildNameString => "xpbf.err.read.header.invalid_build_name_string",
            XPBFReaderHeaderReadError::InvalidBuildVersionLength => "xpbf.err.read.header.invalid_build_version_length",
            XPBFReaderHeaderReadError::InvalidBuildVersionString => "xpbf.err.read.header.invalid_build_version_string",
        },
        XPBFReaderError::DataFormat(e) => match e {
            XPBFReaderFormatReadError::InvalidOffset => "xpbf.err.read.data_format.invalid_offset",
            XPBFReaderFormatReadError::InvalidNameLength => "xpbf.err.read.data_format.invalid_name_length",
            XPBFReaderFormatReadError::InvalidNameString => "xpbf.err.read.data_format.invalid_name_string",
        },
        XPBFReaderError::Data(e) => match e {
            XPBFReaderDataReadError::InvalidOffset => "xpbf.err.read.data.invalid_offset",
            XPBFReaderDataReadError::InvalidNameLength => "xpbf.err.read.data.invalid_name_length",
            XPBFReaderDataReadError::InvalidNameString => "xpbf.err.read.data.invalid_name_string",
            XPBFReaderDataReadError::InvalidDataLength => "xpbf.err.read.data.invalid_data_length",
            XPBFReaderDataReadError::InvalidDataId => "xpbf.err.read.data.invalid_data_id",
        },
    }
}

/// The message key that explains a writer error; an I/O error has none and
/// is told by its own text.
pub open spec fn writer_error_key(err: XPBFWriterError) -> Option<Seq<char>> {
    match err {
        XPBFWriterError::DataAdd(e) => match e {
            XPBFWriterDataAddError::DataAlreadyDefined => Some("xpbf.err.write.data_already_defined"@),
            XPBFWriterDataAddError::FormatCounterOverflow => Some("xpbf.err.write.data_counter_overflow"@),
        },
        XPBFWriterError::Write(e) => match e {
            XPBFWriterWriteError::UnsupportedVersion => Some("xpbf.err.write.unsupported_version"@),
            XPBFWriterWriteError::InvalidBuildNameLength => Some("xpbf.err.write.invalid_build_name_length"@),
            XPBFWriterWriteError::InvalidBuildNameString => Some("xpbf.err.write.invalid_build_name_string"@),
            XPBFWriterWriteError::InvalidBuildVersionLength => Some("xpbf.err.write.invalid_build_version_length"@),
            XPBFWriterWriteError::InvalidBuildVersionString => Some("xpbf.err.write.invalid_build_version_string"@),
            XPBFWriterWriteError::InvalidDataFormatNameLength => Some("xpbf.err.write.data_format.invalid_data_format_name_length"@),
            XPBFWriterWriteError::InvalidDataFormatNameString => Some("xpbf.err.write.data_format.invalid_data_format_name_string"@),
            XPBFWriterWriteError::InvalidDataNameLength => Some("xpbf.err.write.data_format.invalid_data_name_length"@),
            XPBFWriterWriteError::InvalidDataNameString => Some("xpbf.err.write.data_format.invalid_data_name_string"@),
            XPBFWriterWriteError::InvalidDataLength => Some("xpbf.err.write.data_format.invalid_data_length"@),
            XPBFWriterWriteError::InvalidOffset => Some("xpbf.err.write.invalid_offset"@),
            XPBFWriterWriteError::IOError(_) => None,
        },
    }
}

/// The message key that explains a writer error; `None` for an I/O error,
/// which is told by its own text.
pub fn cli_writer_error_key(err: &XPBFWriterError) -> (r: Option<&'static str>)
    ensures
        match r {
            Some(key) => writer_error_key(*err) == Some(key@),
            None => writer_error_key(*err) is None,
        },
{
    match err {
        XPBFWriterError::DataAdd(e) => match e {
            XPBFWriterDataAddError::DataAlreadyDefined => Some("xpbf.err.write.data_already_defined"),
            XPBFWriterDataAddError::FormatCounterOverflow => Some("xpbf.err.write.data_counter_overflow"),
        },
        XPBFWriterError::Write(e) => match e {
            XPBFWriterWriteError::UnsupportedVersion => Some("xpbf.err.write.unsupported_version"),
            XPBFWriterWriteError::InvalidBuildNameLength => Some("xpbf.err.write.invalid_build_name_length"),
            XPBFWriterWriteError::InvalidBuildNameString => Some("xpbf.err.write.invalid_build_name_string"),
            XPBFWriterWriteError::InvalidBuildVersionLength => Some("xpbf.err.write.invalid_build_version_length"),
            XPBFWriterWriteError::InvalidBuildVersionString => Some("xpbf.err.write.invalid_build_version_string"),
            XPBFWriterWriteError::InvalidDataFormatNameLength => Some("xpbf.err.write.data_format.invalid_data_format_name_length"),
            XPBFWriterWriteError::InvalidDataFormatNameString => Some("xpbf.err.write.data_format.invalid_data_format_name_string"),
            XPBFWriterWriteError::InvalidDataNameLength => Some("xpbf.err.write.data_format.invalid_data_name_length"),
            XPBFWriterWriteError::InvalidDataNameString => Some("xpbf.err.write.data_format.invalid_data_name_string"),
            XPBFWriterWriteError::InvalidDataLength => Some("xpbf.err.write.data_format.invalid_data_length"),
            XPBFWriterWriteError::InvalidOffset => Some("xpbf.err.write.invalid_offset"),
            XPBFWriterWriteError::IOError(_) => None,
        },
    }
}


/// The family that the magic bytes of `file` name: `Some(true)` for SPBF,
/// `Some(false)` for UPBF.
pub open spec fn magic_family(file: Seq<u8>) -> Option<bool> {
    if file.subrange(0, 6) == spbf::spbf_magic() {
        Some(true)
    } else if file.subrange(0, 6) == upbf::upbf_magic() {
        Some(false)
    } else {
        None
    }
}

/// Opening a file: the family that its magic names, whose header must then
/// be valid; `true` for SPBF.
pub open spec fn open_outcome(file: Seq<u8>) -> Result<bool, XPBFReaderError> {
    match magic_family(file) {
        Some(true) => match spbf::spbf_header_error(file) {
            Some(e) => Err(reader_error_of_spbf(e)),
            None => Ok(true),
        },
        Some(false) => match upbf::upbf_header_error(file) {
            Some(e) => Err(reader_error_of_upbf(e)),
            None => Ok(false),
        },
        None => Err(XPBFReaderError::Header(XPBFReaderHeaderReadError::InvalidMagic)),
    }
}

/// Reading a whole file: opening it, refusing an unsupported version, then
/// the family's parse.
pub open spec fn read_file_outcome(file: Seq<u8>) -> Result<ReadView, XPBFReaderError> {
    match open_outcome(file) {
        Err(e) => Err(e),
        Ok(spbf) => if file[7] != 1 {
            Err(XPBFReaderError::Header(XPBFReaderHeaderReadError::UnsupportedVersion))
        } else if spbf {
            match spbf::spbf_parse(file) {
                Ok(view) => Ok(view),
                Err(e) => Err(reader_error_of_spbf(e)),
            }
        } else {
            match upbf::upbf_parse(file) {
                Ok(view) => Ok(view),
                Err(e) => Err(reader_error_of_upbf(e)),
            }
        },
    }
}

/// A file that opens, of version 1, on which its family's reader would not
/// return (see `read_safe`): the tool stops there with a panic.
pub open spec fn read_unsafe(file: Seq<u8>) -> bool {
    open_outcome(file) is Ok && file[7] == 1 && !read_safe(file, file_family(file))
}

/// The file type that a header's type byte names in the given family.
pub open spec fn type_of_code(spbf: bool, code: u8) -> XPBFType {
    if spbf {
        XPBFType::SPBF(spbf::spbf_type_of_code(code))
    } else {
        XPBFType::UPBF(upbf::upbf_type_of_code(code))
    }
}

/// The type byte of a file type.
pub open spec fn code_of_type(file_type: XPBFType) -> u8 {
    match file_type {
        XPBFType::SPBF(t) => spbf::spbf_type_code(t),
        XPBFType::UPBF(t) => upbf::upbf_type_code(t),
    }
}

/// Opens a file of either family, by its magic bytes. The six magic bytes
/// are compared slice-wise, so a file needs at least six bytes.
pub fn cli_reader_new(buff: &[u8]) -> (r: Result<XPBFReader<'_>, XPBFReaderError>)
    requires
        buff@.len() >= 6,
    ensures
        match r {
            Ok(reader) => open_outcome(buff@) == Ok::<bool, XPBFReaderError>(reader is SPBF) && reader.source() == buff@,
            Err(e) => open_outcome(buff@) == Err::<bool, XPBFReaderError>(e),
        },
{
    if spbf::spbf_check_magic(buff) {
        XPBFReader::try_from(spbf::spbf_reader_new(buff))
    } else if upbf::upbf_check_magic(buff) {
        XPBFReader::try_from(upbf::upbf_reader_new(buff))
    } else {
        Err(XPBFReaderError::Header(XPBFReaderHeaderReadError::InvalidMagic))
    }
}

/// The entries of `data` named `name`: the first one, when there is one.
fn find_data(data: &Vec<XPBFDataForRead>, name: &String) -> (r: Option<usize>)
    ensures
        match r {
            Some(i) => is_first_data(data@, name@, i as int),
            None => !data_names(data@.map_values(|d: XPBFDataForRead| d.entry())).contains(name@),
        },
{
    let mut i: usize = 0;
    while i < data.len()
        invariant
            0 <= i <= data@.len(),
            forall|k: int| 0 <= k < i ==> #[trigger] data@[k].entry().name != name@,
        decreases data@.len() - i,
    {
        if data[i].name().eq(name) {
            return Some(i);
        }
        i += 1;
    }
    proof {
        let names = data_names(data@.map_values(|d: XPBFDataForRead| d.entry()));
        if names.contains(name@) {
            let k = choose|k: int| 0 <= k < names.len() && names[k] == name@;
            assert(data@[k].entry().name != name@);
        }
    }
    None
}

/// `i` is the first entry of `data` named `name`.
pub open spec fn is_first_data(data: Seq<XPBFDataForRead>, name: Seq<char>, i: int) -> bool {
    &&& 0 <= i < data.len()
    &&& data[i].entry().name == name
    &&& forall|k: int| 0 <= k < i ==> #[trigger] data[k].entry().name != name
}

/// What the `read` command gives for a file and an entry name: the bytes of
/// the first entry of that name.
pub open spec fn read_data_outcome(file: Seq<u8>, name: Seq<char>) -> Result<Seq<u8>, CliError> {
    if file.len() < 6 || read_unsafe(file) {
        Err(CliError::Aborted)
    } else {
        match read_file_outcome(file) {
            Err(e) => Err(CliError::Reader(e)),
            Ok(view) => {
                let j = first_index(data_names(view.content.data), name);
                if j < 0 {
                    Err(CliError::DataNotFound)
                } else {
                    Ok(view.content.data[j].bytes)
                }
            },
        }
    }
}

/// The first entry named `name` of a file that was read, with its format.
pub fn cli_read_data(read: &XPBFReadResult, name: &String) -> (r: Result<XPBFDataForRead, CliError>)
    ensures
        ({
            let j = first_index(data_names(read@.content.data), name@);
            match r {
                Ok(d) => j >= 0 && d.entry() == read@.content.data[j] && d.format_view() == read@.content.formats[
                    first_index(view_ids(read@.content.formats), d.entry().data_id)],
                Err(e) => j < 0 && e == CliError::DataNotFound,
            }
        }),
{
    let mut data = read.data();
    proof {
        lemma_first_index(data_names(read@.content.data), name@);
    }
    match find_data(&data, name) {
        Some(i) => {
            proof {
                assert(data@.map_values(|d: XPBFDataForRead| d.entry())[i as int] == data@[i as int].entry());
                assert forall|k: int| 0 <= k < i implies #[trigger] data_names(read@.content.data)[k] != name@ by {
                    assert(data@.map_values(|d: XPBFDataForRead| d.entry())[k] == data@[k].entry());
                }
                assert(is_first_index(data_names(read@.content.data), name@, i as int));
            }
            Ok(data.remove(i))
        },
        None => Err(CliError::DataNotFound),
    }
}

/// The `read` command: the bytes of the first entry named `name`.
pub fn cmd_read(file: &[u8], name: &String) -> (r: Result<Vec<u8>, CliError>)
    ensures
        match r {
            Ok(bytes) => read_data_outcome(file@, name@) == Ok::<Seq<u8>, CliError>(bytes@),
            Err(e) => read_data_outcome(file@, name@) == Err::<Seq<u8>, CliError>(e),
        },
{
    if file.len() < 6 {
        return Err(CliError::Aborted);
    }
    let reader = match cli_reader_new(file) {
        Ok(reader) => reader,
        Err(e) => return Err(CliError::Reader(e)),
    };
    if reader.is_read_supported() && !check_read_safe(file, reader_is_spbf(&reader)) {
        return Err(CliError::Aborted);
    }
    let read = match reader.read() {
        Ok(read) => read,
        Err(e) => return Err(CliError::Reader(e)),
    };
    match cli_read_data(&read, name) {
        Ok(d) => Ok(vstd::slice::slice_to_vec(d.data())),
        Err(e) => Err(e),
    }
}


/// The version that a header's version byte gives in the given family.
pub open spec fn version_of_code(spbf: bool, code: u8) -> XPBFVersion {
    if spbf {
        XPBFVersion::SPBF(code)
    } else {
        XPBFVersion::UPBF(code)
    }
}

impl BuildInfo {
    /// The listing shows `content`: its strings, its formats, its entries,
    /// each entry with the first format of its id.
    pub open spec fn shows(&self, content: FileContent) -> bool {
        &&& self.build_name@ == content.build_name
        &&& self.build_version@ == content.build_version
        &&& self.data_formats@.map_values(|f: XPBFDataFormatForRead| f@) == content.formats
        &&& self.data@.map_values(|d: XPBFDataForRead| d.entry()) == content.data
        &&& forall|i: int| 0 <= i < self.data@.len() ==> #[trigger] self.data@[i].format_view() == content.formats[
            first_index(view_ids(content.formats), self.data@[i].entry().data_id)]
    }
}

/// What the `info` command gives for a file: a failure to open it, or its
/// type and version and, for a readable version, its content or why reading
/// it failed.
pub open spec fn info_matches(file: Seq<u8>, r: Result<InfoReport, CliError>) -> bool {
    if file.len() < 6 || read_unsafe(file) {
        r matches Err(CliError::Aborted)
    } else {
        match open_outcome(file) {
            Err(e) => r matches Err(CliError::Reader(re)) && re == e,
            Ok(spbf) => r matches Ok(report) && {
                &&& report.file_type == type_of_code(spbf, file[7 - 1])
                &&& report.file_version == version_of_code(spbf, file[7])
                &&& if file[7] != 1 {
                    report.build is None
                } else {
                    match read_file_outcome(file) {
                        Ok(view) => report.build matches Some(Ok(b)) && b.shows(view.content),
                        Err(e) => report.build matches Some(Err(be)) && be == e,
                    }
                }
            },
        }
    }
}

/// The `info` command: the type and version of a file and, when its version
/// is readable, its content.
pub fn cmd_info(file: &[u8]) -> (r: Result<InfoReport, CliError>)
    ensures
        info_matches(file@, r),
{
    if file.len() < 6 {
        return Err(CliError::Aborted);
    }
    let reader = match cli_reader_new(file) {
        Ok(reader) => reader,
        Err(e) => return Err(CliError::Reader(e)),
    };
    if reader.is_read_supported() && !check_read_safe(file, reader_is_spbf(&reader)) {
        return Err(CliError::Aborted);
    }
    let file_type = reader.file_type();
    let file_version = reader.file_version();
    let build = if reader.is_read_supported() {
        match reader.read() {
            Ok(read) => Some(Ok(BuildInfo {
                build_name: read.build_name().clone(),
                build_version: read.build_version().clone(),
                data_formats: read.data_formats(),
                data: read.data(),
            })),
            Err(e) => Some(Err(e)),
        }
    } else {
        None
    };
    Ok(InfoReport { file_type, file_version, build })
}

/// What the `new` command writes: a file of the named type with the two
/// build strings and nothing else.
pub open spec fn new_file_outcome(file_type: Seq<char>, build_name: Seq<char>, build_version: Seq<char>) -> Result<Seq<u8>, CliError> {
    match type_of_name(file_type) {
        None => Err(CliError::UnknownType),
        Some(t) => match encode_outcome(t is SPBF, new_writer_state(build_name, build_version), code_of_type(t), 1) {
            Ok(bytes) => Ok(bytes),
            Err(e) => Err(CliError::Writer(e)),
        },
    }
}

/// A command's bytes or error are the outcome that the spec gives.
pub open spec fn outcome_matches(r: Result<Vec<u8>, CliError>, outcome: Result<Seq<u8>, CliError>) -> bool {
    match r {
        Ok(bytes) => outcome == Ok::<Seq<u8>, CliError>(bytes@),
        Err(e) => outcome == Err::<Seq<u8>, CliError>(e),
    }
}

/// What a read gives back of a write: a file that a writer wrote opens in
/// the writer's family and reads back as the writer's content, under the
/// writer's type byte and version 1, when every entry's format is listed.
pub proof fn lemma_written_file_reads(spbf: bool, st: WriterState, code: u8, out: Seq<u8>)
    requires
        encoded_reads_back(spbf, st, code, out),
        state_data_ids_listed(st),
    ensures
        read_file_outcome(out) == Ok::<ReadView, XPBFReaderError>(ReadView { file_type: code, file_version: 1, content: written_content(st) }),
        file_family(out) == spbf,
        out.len() >= 8,
        !read_unsafe(out),
{
    assert(spbf::spbf_magic()[1] != upbf::upbf_magic()[1]);
    if spbf {
        assert(out.subrange(0, 6) == spbf::spbf_magic());
    } else {
        assert(out.subrange(0, 6) == upbf::upbf_magic());
        assert(out.subrange(0, 6) != spbf::spbf_magic());
    }
}

/// What a read gives back of a write, for a consistent writer: the bytes that
/// it wrote open in its family and read back as its content, under its type
/// byte and version 1.
pub proof fn lemma_writer_output_reads(w: XPBFWriter, bytes: Seq<u8>)
    requires
        w.wf(),
        w.reads_back(bytes),
    ensures
        read_file_outcome(bytes) == Ok::<ReadView, XPBFReaderError>(ReadView { file_type: w.type_code(), file_version: 1, content: written_content(w.state()) }),
        file_family(bytes) == (w is SPBF),
{
    lemma_written_file_reads(w is SPBF, w.state(), w.type_code(), bytes);
}

/// The `new` command: the bytes of a new file of the named type.
pub fn cmd_new(file_type: &str, build_name: &String, build_version: &String) -> (r: Result<Vec<u8>, CliError>)
    ensures
        outcome_matches(r, new_file_outcome(file_type@, build_name@, build_version@)),
        r matches Ok(out) ==> read_file_outcome(out@) == Ok::<ReadView, XPBFReaderError>(ReadView {
            file_type: code_of_type(type_of_name(file_type@)->Some_0),
            file_version: 1,
            content: FileContent { build_name: build_name@, build_version: build_version@, formats: Seq::empty(), data: Seq::empty() },
        }),
{
    let t = match cli_xpbf_type_parse(file_type) {
        Some(t) => t,
        None => return Err(CliError::UnknownType),
    };
    let mut writer = XPBFWriter::new(build_name.clone(), build_version.clone(), t);
    let ghost before = writer;
    match writer.write() {
        Ok(bytes) => {
            proof {
                lemma_written_file_reads(before is SPBF, before.state(), before.type_code(), bytes@);
                assert(written_content(before.state()).formats =~= Seq::<FormatView>::empty());
            }
            Ok(bytes)
        },
        Err(e) => Err(CliError::Writer(e)),
    }
}


/// The family of a file that opens: SPBF when its magic names SPBF.
pub open spec fn file_family(file: Seq<u8>) -> bool {
    magic_family(file) == Some(true)
}

/// The largest format id of a family.
pub open spec fn family_id_max(spbf: bool) -> u32 {
    if spbf {
        0xFFFF
    } else {
        0xFFFF_FFFF
    }
}

/// How many entries of a file that was read find each of its formats first
/// by id: the reference counts that a writer made from it holds.
fn format_ref_counts(formats: &Vec<XPBFDataFormatForRead>, data: &Vec<XPBFDataForRead>, Ghost(content): Ghost<FileContent>) -> (r: Vec<u64>)
    requires
        formats@.map_values(|f: XPBFDataFormatForRead| f@) == content.formats,
        data@.map_values(|d: XPBFDataForRead| d.entry()) == content.data,
        data_ids_listed(content.formats, content.data),
    ensures
        r@.len() == content.formats.len(),
        forall|j: int| 0 <= j < r@.len() ==> r@[j] == #[trigger] ref_count(view_ids(content.formats), content.data, j),
{
    let ghost ids = view_ids(content.formats);
    let mut counts: Vec<u64> = Vec::new();
    let mut j: usize = 0;
    while j < formats.len()
        invariant
            0 <= j <= formats@.len(),
            counts@.len() == j,
            forall|k: int| 0 <= k < j ==> counts@[k] == 0,
        decreases formats@.len() - j,
    {
        counts.push(0);
        j += 1;
    }
    proof {
        assert forall|k: int| 0 <= k < counts@.len() implies counts@[k] == #[trigger] ref_count(ids, content.data.take(0), k) by {
            assert(content.data.take(0).len() == 0);
        }
    }
    let mut i: usize = 0;
    while i < data.len()
        invariant
            0 <= i <= data@.len(),
            formats@.map_values(|f: XPBFDataFormatForRead| f@) == content.formats,
            data@.map_values(|d: XPBFDataForRead| d.entry()) == content.data,
            data_ids_listed(content.formats, content.data),
            ids == view_ids(content.formats),
            counts@.len() == content.formats.len(),
            forall|k: int| 0 <= k < counts@.len() ==> counts@[k] == #[trigger] ref_count(ids, content.data.take(i as int), k),
            forall|k: int| 0 <= k < counts@.len() ==> counts@[k] <= i,
        decreases data@.len() - i,
    {
        let id = data[i].data_id();
        proof {
            assert(data@.map_values(|d: XPBFDataForRead| d.entry())[i as int] == data@[i as int].entry());
            assert(ids.contains(content.data[i as int].data_id));
        }
        let mut j: usize = 0;
        while j < formats.len() && formats[j].data_id() != id
            invariant
                0 <= j <= formats@.len(),
                formats@.map_values(|f: XPBFDataFormatForRead| f@) == content.formats,
                ids == view_ids(content.formats),
                forall|k: int| 0 <= k < j ==> #[trigger] ids[k] != id,
            decreases formats@.len() - j,
        {
            assert(formats@.map_values(|f: XPBFDataFormatForRead| f@)[j as int] == formats@[j as int]@);
            j += 1;
        }
        proof {
            if j == formats.len() {
                let at = choose|at: int| 0 <= at < ids.len() && ids[at] == id;
                assert(ids[at] != id);
            }
            assert(formats@.map_values(|f: XPBFDataFormatForRead| f@)[j as int] == formats@[j as int]@);
            assert(is_first_index(ids, id, j as int));
            lemma_first_index(ids, id);
            assert forall|k: int| 0 <= k < counts@.len() implies #[trigger] ref_count(ids, content.data.take(i as int + 1), k)
                == ref_count(ids, content.data.take(i as int), k) + if k == j { 1nat } else { 0nat } by {
                lemma_ref_count_step(ids, content.data, i as int, k);
            }
        }
        let c = counts[j];
        counts.set(j, c + 1);
        i += 1;
    }
    assert(content.data.take(data@.len() as int) =~= content.data);
    counts
}

/// Whether every reference count fits a `u32`.
fn counts_fit(counts: &Vec<u64>) -> (r: bool)
    ensures
        r == forall|j: int| 0 <= j < counts@.len() ==> #[trigger] counts@[j] <= u32::MAX,
{
    let mut i: usize = 0;
    while i < counts.len()
        invariant
            0 <= i <= counts@.len(),
            forall|j: int| 0 <= j < i ==> #[trigger] counts@[j] <= u32::MAX,
        decreases counts@.len() - i,
    {
        if counts[i] > 0xFFFF_FFFF {
            return false;
        }
        i += 1;
    }
    true
}

/// The largest of 0xFF and the format ids: the id counter of a writer made
/// from these formats.
fn formats_max_id(formats: &Vec<XPBFDataFormatForRead>, Ghost(listed): Ghost<Seq<FormatView>>) -> (r: u32)
    requires
        formats@.map_values(|f: XPBFDataFormatForRead| f@) == listed,
    ensures
        r == max_id(view_ids(listed), 0xFF),
{
    let ghost ids = view_ids(listed);
    let mut m: u32 = 0xFF;
    let mut i: usize = 0;
    assert(ids.take(0) =~= Seq::<u32>::empty());
    while i < formats.len()
        invariant
            0 <= i <= formats@.len(),
            formats@.map_values(|f: XPBFDataFormatForRead| f@) == listed,
            ids == view_ids(listed),
            m == max_id(ids.take(i as int), 0xFF),
        decreases formats@.len() - i,
    {
        proof {
            assert(formats@.map_values(|f: XPBFDataFormatForRead| f@)[i as int] == formats@[i as int]@);
            lemma_max_id_step(ids, 0xFF, i as int);
        }
        let id = formats[i].data_id();
        if m < id {
            m = id;
        }
        i += 1;
    }
    assert(ids.take(formats@.len() as int) =~= ids);
    m
}

/// Whether looking the format `format` up in a writer made from a file
/// that was read would overflow a counter: the reference count of the first
/// format of that name, or the id counter when there is none.
fn read_format_lookup_overflows(
    formats: &Vec<XPBFDataFormatForRead>,
    counts: &Vec<u64>,
    format: &String,
    spbf: bool,
    Ghost(content): Ghost<FileContent>,
) -> (r: bool)
    requires
        formats@.map_values(|f: XPBFDataFormatForRead| f@) == content.formats,
        counts@.len() == content.formats.len(),
        forall|j: int| 0 <= j < counts@.len() ==> counts@[j] == #[trigger] ref_count(view_ids(content.formats), content.data, j),
        ref_counts_fit(content),
    ensures
        r == format_lookup_overflows(writer_state_of_content(content), format@, family_id_max(spbf)),
{
    let ghost st = writer_state_of_content(content);
    proof {
        lemma_writer_of_content_formats(content);
        lemma_first_index(entry_names(st.formats), format@);
    }
    let mut i: usize = 0;
    while i < formats.len()
        invariant
            0 <= i <= formats@.len(),
            formats@.map_values(|f: XPBFDataFormatForRead| f@) == content.formats,
            st == writer_state_of_content(content),
            entry_names(st.formats) == content.formats.map_values(|f: FormatView| f.name),
            forall|k: int| 0 <= k < i ==> #[trigger] entry_names(st.formats)[k] != format@,
            counts@.len() == content.formats.len(),
            forall|j: int| 0 <= j < counts@.len() ==> counts@[j] == #[trigger] ref_count(view_ids(content.formats), content.data, j),
            ref_counts_fit(content),
        decreases formats@.len() - i,
    {
        assert(formats@.map_values(|f: XPBFDataFormatForRead| f@)[i as int] == formats@[i as int]@);
        if formats[i].name().eq(format) {
            proof {
                assert(is_first_index(entry_names(st.formats), format@, i as int));
                lemma_first_index(entry_names(st.formats), format@);
                assert(ref_count(view_ids(content.formats), content.data, i as int) <= u32::MAX);
            }
            return counts[i] == 0xFFFF_FFFF;
        }
        i += 1;
    }
    proof {
        if entry_names(st.formats).contains(format@) {
            let k = choose|k: int| 0 <= k < entry_names(st.formats).len() && entry_names(st.formats)[k] == format@;
            assert(entry_names(st.formats)[k] != format@);
        }
    }
    let id_last = formats_max_id(formats, Ghost(content.formats));
    let id_max: u32 = if spbf { 0xFFFF } else { 0xFFFF_FFFF };
    id_last != 0 && id_last == id_max
}


/// What a writer made from a file that was read writes out once `st` is its state.
pub open spec fn rewrite_outcome(file: Seq<u8>, view: ReadView, st: WriterState) -> Result<Seq<u8>, CliError> {
    match encode_outcome(file_family(file), st, view.file_type, view.file_version) {
        Ok(bytes) => Ok(bytes),
        Err(e) => Err(CliError::Writer(e)),
    }
}

/// What the `write` command writes back for a file, an entry name, its
/// format and its bytes: the file with the first entry of that name
/// overwritten, or the entry added.
pub open spec fn write_data_outcome(file: Seq<u8>, name: Seq<char>, format: Seq<char>, data: Seq<u8>) -> Result<Seq<u8>, CliError> {
    if file.len() < 6 || read_unsafe(file) {
        Err(CliError::Aborted)
    } else {
        match read_file_outcome(file) {
            Err(e) => Err(CliError::Reader(e)),
            Ok(view) => {
                let st = writer_state_of_content(view.content);
                if !ref_counts_fit(view.content) || format_lookup_overflows(st, format, family_id_max(file_family(file))) {
                    Err(CliError::Aborted)
                } else {
                    match overwrite_data_result(st, name, format, data) {
                        Err(k) => Err(CliError::Writer(XPBFWriterError::DataAdd(k))),
                        Ok(s1) => rewrite_outcome(file, view, s1),
                    }
                }
            },
        }
    }
}

/// What the `remove` command writes back for a file and an entry name: the
/// file without the first entry of that name.
pub open spec fn remove_data_outcome(file: Seq<u8>, name: Seq<char>) -> Result<Seq<u8>, CliError> {
    if file.len() < 6 || read_unsafe(file) {
        Err(CliError::Aborted)
    } else {
        match read_file_outcome(file) {
            Err(e) => Err(CliError::Reader(e)),
            Ok(view) => {
                let st = writer_state_of_content(view.content);
                if !ref_counts_fit(view.content) {
                    Err(CliError::Aborted)
                } else if !data_names(st.data).contains(name) {
                    Err(CliError::RemoveNotExists)
                } else {
                    rewrite_outcome(file, view, remove_data_state(st, name))
                }
            },
        }
    }
}

/// Whether a reader is of the SPBF family.
fn reader_is_spbf(reader: &XPBFReader) -> (r: bool)
    ensures
        r == (reader is SPBF),
{
    match reader {
        XPBFReader::SPBF(_) => true,
        XPBFReader::UPBF(_) => false,
    }
}

/// Reads a whole file, with what a writer made from it needs checked.
fn read_for_rewrite<'a>(reader: &'a XPBFReader<'a>, Ghost(file): Ghost<Seq<u8>>) -> (r: Result<(XPBFReadResult<'a>, Vec<XPBFDataFormatForRead>, Vec<u64>), CliError>)
    requires
        file.len() >= 6,
        open_outcome(file) == Ok::<bool, XPBFReaderError>(reader is SPBF),
        reader.source() == file,
        file[7] != 1 || read_safe(file, reader is SPBF),
    ensures
        match r {
            Ok((read, formats, counts)) => {
                &&& read_file_outcome(file) == Ok::<ReadView, XPBFReaderError>(read@)
                &&& read.wf()
                &&& (read is SPBF) == file_family(file)
                &&& formats@.map_values(|f: XPBFDataFormatForRead| f@) == read@.content.formats
                &&& counts@.len() == read@.content.formats.len()
                &&& forall|j: int| 0 <= j < counts@.len() ==> counts@[j] == #[trigger] ref_count(view_ids(read@.content.formats), read@.content.data, j)
                &&& ref_counts_fit(read@.content)
            },
            Err(e) => match read_file_outcome(file) {
                Err(re) => e == CliError::Reader(re),
                Ok(view) => !ref_counts_fit(view.content) && e == CliError::Aborted,
            },
        },
{
    let read = match reader.read() {
        Ok(read) => read,
        Err(e) => return Err(CliError::Reader(e)),
    };
    let formats = read.data_formats();
    let entries = read.data();
    let counts = format_ref_counts(&formats, &entries, Ghost(read@.content));
    if !counts_fit(&counts) {
        proof {
            let j = choose|j: int| 0 <= j < counts@.len() && !(counts@[j] <= u32::MAX);
            assert(ref_count(view_ids(read@.content.formats), read@.content.data, j) > u32::MAX);
        }
        return Err(CliError::Aborted);
    }
    Ok((read, formats, counts))
}

/// Whether a file that was read is of the SPBF family.
fn is_spbf(read: &XPBFReadResult) -> (r: bool)
    ensures
        r == (read is SPBF),
{
    match read {
        XPBFReadResult::SPBF(_) => true,
        XPBFReadResult::UPBF(_) => false,
    }
}

/// The file `out` that writing the entry `name` of format `format` with
/// bytes `data` wrote reads back with the type, version and build strings of
/// the file it was made from, and with every other entry (by its name, its
/// format's name and its bytes) in its place; a new name adds one entry at
/// the end. When the file's format ids are distinct, the first entry named
/// `name` reads back as `name`, `format` and `data`.
pub open spec fn written_reads_back(file: Seq<u8>, name: Seq<char>, format: Seq<char>, data: Seq<u8>, out: Seq<u8>) -> bool {
    read_file_outcome(file) matches Ok(v) && read_file_outcome(out) matches Ok(w) && {
        let j = first_index(data_names(v.content.data), name);
        let before = content_entries(v.content);
        let after = content_entries(w.content);
        &&& w.file_type == v.file_type
        &&& w.file_version == v.file_version
        &&& file_family(out) == file_family(file)
        &&& w.content.build_name == v.content.build_name
        &&& w.content.build_version == v.content.build_version
        &&& after.len() == if j >= 0 { before.len() } else { before.len() + 1 }
        &&& forall|k: int| 0 <= k < before.len() && k != j ==> #[trigger] after[k] == before[k]
        &&& ids_distinct(view_ids(v.content.formats))
            ==> after[first_index(data_names(w.content.data), name)] == (name, format, data)
    }
}

/// The `write` command: the file with the entry `name` written.
pub fn cmd_write(file: &[u8], name: &String, format: &String, data: Vec<u8>) -> (r: Result<Vec<u8>, CliError>)
    ensures
        outcome_matches(r, write_data_outcome(file@, name@, format@, data@)),
        r matches Ok(out) ==> read_data_outcome(out@, name@) == Ok::<Seq<u8>, CliError>(data@),
        r matches Ok(out) ==> written_reads_back(file@, name@, format@, data@, out@),
{
    if file.len() < 6 {
        return Err(CliError::Aborted);
    }
    let reader = match cli_reader_new(file) {
        Ok(reader) => reader,
        Err(e) => return Err(CliError::Reader(e)),
    };
    if reader.is_read_supported() && !check_read_safe(file, reader_is_spbf(&reader)) {
        return Err(CliError::Aborted);
    }
    let (read, formats, counts) = match read_for_rewrite(&reader, Ghost(file@)) {
        Ok(checked) => checked,
        Err(e) => return Err(e),
    };
    let spbf = is_spbf(&read);
    if read_format_lookup_overflows(&formats, &counts, format, spbf, Ghost(read@.content)) {
        return Err(CliError::Aborted);
    }
    let mut writer = match XPBFWriter::try_from(&read) {
        Ok(writer) => writer,
        Err(e) => return Err(CliError::Reader(e)),
    };
    let ghost bytes_in = data@;
    proof {
        lemma_writer_of_content_formats(read@.content);
    }
    match writer.add_or_overwrite_data(name, format, boxed_bytes(data)) {
        Ok(()) => {},
        Err(e) => return Err(CliError::Writer(e)),
    }
    let ghost before = writer;
    match writer.write() {
        Ok(bytes) => {
            proof {
                let c = read@.content;
                lemma_overwrite_keeps_listed(writer_state_of_content(c), name@, format@, bytes_in);
                lemma_written_file_reads(before is SPBF, before.state(), before.type_code(), bytes@);
                lemma_overwrite_reads_back(writer_state_of_content(c), name@, format@, bytes_in);
                lemma_max_id_bounds(view_ids(c.formats), 0xFF, family_id_max(file_family(file@)));
                lemma_overwrite_of_content(c, name@, format@, bytes_in, family_id_max(file_family(file@)));
                if ids_distinct(view_ids(c.formats)) {
                    lemma_overwrite_entry_of_content(c, name@, format@, bytes_in, family_id_max(file_family(file@)));
                }
            }
            Ok(bytes)
        },
        Err(e) => Err(CliError::Writer(e)),
    }
}

/// The file `out` that removing `name` wrote reads back with the type,
/// version and build strings of the file it was made from, and with its
/// entries (each by its name, its format's name and its bytes) but the first
/// one named `name`, in order.
pub open spec fn removed_reads_back(file: Seq<u8>, name: Seq<char>, out: Seq<u8>) -> bool {
    read_file_outcome(file) matches Ok(v) && read_file_outcome(out) matches Ok(w) && {
        &&& w.file_type == v.file_type
        &&& w.file_version == v.file_version
        &&& file_family(out) == file_family(file)
        &&& w.content.build_name == v.content.build_name
        &&& w.content.build_version == v.content.build_version
        &&& content_entries(w.content) == content_entries(v.content).remove(first_index(data_names(v.content.data), name))
    }
}

/// The `remove` command: the file without the entry `name`.
pub fn cmd_remove(file: &[u8], name: &String) -> (r: Result<Vec<u8>, CliError>)
    ensures
        outcome_matches(r, remove_data_outcome(file@, name@)),
        r matches Ok(out) ==> removed_reads_back(file@, name@, out@),
{
    if file.len() < 6 {
        return Err(CliError::Aborted);
    }
    let reader = match cli_reader_new(file) {
        Ok(reader) => reader,
        Err(e) => return Err(CliError::Reader(e)),
    };
    if reader.is_read_supported() && !check_read_safe(file, reader_is_spbf(&reader)) {
        return Err(CliError::Aborted);
    }
    let (read, formats, counts) = match read_for_rewrite(&reader, Ghost(file@)) {
        Ok(checked) => checked,
        Err(e) => return Err(e),
    };
    let mut writer = match XPBFWriter::try_from(&read) {
        Ok(writer) => writer,
        Err(e) => return Err(CliError::Reader(e)),
    };
    proof {
        lemma_remove_defined_of_content(read@.content, name@);
    }
    if !writer.remove_data(name) {
        return Err(CliError::RemoveNotExists);
    }
    let ghost before = writer;
    match writer.write() {
        Ok(bytes) => {
            proof {
                lemma_remove_of_content(read@.content, name@);
                lemma_written_file_reads(before is SPBF, before.state(), before.type_code(), bytes@);
            }
            Ok(bytes)
        },
        Err(e) => Err(CliError::Writer(e)),
    }
}


/// What the `convert` command writes for a file and a type name: within a
/// family the same content under the new type; across families the entries
/// added in order to a new writer of the other family, at its last supported
/// version.
pub open spec fn convert_outcome(file: Seq<u8>, file_type: Seq<char>) -> Result<Seq<u8>, CliError> {
    match type_of_name(file_type) {
        None => Err(CliError::UnknownType),
        Some(t) => if file.len() < 6 || read_unsafe(file) {
            Err(CliError::Aborted)
        } else {
            match read_file_outcome(file) {
                Err(e) => Err(CliError::Reader(e)),
                Ok(view) => {
                    let spbf = file_family(file);
                    let st = writer_state_of_content(view.content);
                    let base = new_writer_state(st.build_name, st.build_version);
                    if !ref_counts_fit(view.content) {
                        Err(CliError::Aborted)
                    } else if spbf == (t is SPBF) {
                        match encode_outcome(spbf, st, code_of_type(t), view.file_version) {
                            Ok(bytes) => Ok(bytes),
                            Err(e) => Err(CliError::Writer(e)),
                        }
                    } else if add_entries_overflow(base, writer_entries(st), id_max_of(t)) {
                        Err(CliError::Aborted)
                    } else {
                        match add_entries(base, writer_entries(st)) {
                            Err(k) => Err(CliError::Writer(XPBFWriterError::DataAdd(k))),
                            Ok(s1) => match encode_outcome(t is SPBF, s1, code_of_type(t), 1) {
                                Ok(bytes) => Ok(bytes),
                                Err(e) => Err(CliError::Writer(e)),
                            },
                        }
                    }
                },
            }
        },
    }
}

/// A converted file `out` reads back as the named type, with the build
/// strings and the entries (each by its name, its format's name and its
/// bytes, in order) of the file it was made from; within a family, with that
/// file's whole content and version.
pub open spec fn converted_reads_back(file: Seq<u8>, file_type: Seq<char>, out: Seq<u8>) -> bool {
    read_file_outcome(file) matches Ok(v) && read_file_outcome(out) matches Ok(w) && {
        let t = type_of_name(file_type)->Some_0;
        &&& w.file_type == code_of_type(t)
        &&& file_family(out) == (t is SPBF)
        &&& w.content.build_name == v.content.build_name
        &&& w.content.build_version == v.content.build_version
        &&& content_entries(w.content) == content_entries(v.content)
        &&& file_family(file) == (t is SPBF) ==> w.content == v.content && w.file_version == v.file_version
    }
}

/// The `convert` command: the file rewritten as the named type.
pub fn cmd_convert(file: &[u8], file_type: &str) -> (r: Result<Vec<u8>, CliError>)
    ensures
        outcome_matches(r, convert_outcome(file@, file_type@)),
        r matches Ok(out) ==> converted_reads_back(file@, file_type@, out@),
{
    let t = match cli_xpbf_type_parse(file_type) {
        Some(t) => t,
        None => return Err(CliError::UnknownType),
    };
    if file.len() < 6 {
        return Err(CliError::Aborted);
    }
    let reader = match cli_reader_new(file) {
        Ok(reader) => reader,
        Err(e) => return Err(CliError::Reader(e)),
    };
    if reader.is_read_supported() && !check_read_safe(file, reader_is_spbf(&reader)) {
        return Err(CliError::Aborted);
    }
    let (read, formats, counts) = match read_for_rewrite(&reader, Ghost(file@)) {
        Ok(checked) => checked,
        Err(e) => return Err(e),
    };
    let writer = match XPBFWriter::try_from(&read) {
        Ok(writer) => writer,
        Err(e) => return Err(CliError::Reader(e)),
    };
    proof {
        lemma_writer_of_content_formats(read@.content);
    }
    if writer.convert_would_overflow(t) {
        return Err(CliError::Aborted);
    }
    let ghost source = writer.state();
    let mut converted = match writer.convert(t) {
        Ok(converted) => converted,
        Err(e) => return Err(CliError::Writer(e)),
    };
    let ghost before = converted;
    match converted.write() {
        Ok(bytes) => {
            proof {
                let c = read@.content;
                lemma_content_written_back(c);
                lemma_written_entries(source);
                lemma_written_entries(before.state());
                lemma_written_file_reads(before is SPBF, before.state(), before.type_code(), bytes@);
            }
            Ok(bytes)
        },
        Err(e) => Err(CliError::Writer(e)),
    }
}


/// Converting stops with `Aborted` only where the tool cannot go on: a file
/// shorter than the magic, one its reader would not return on, reference
/// counts beyond `u32`, or, across families, an id or reference counter of
/// the new writer that would overflow while the entries are added. It
/// refuses the type name exactly when the name is unknown.
pub proof fn lemma_convert_aborts_only_on_overflow(file: Seq<u8>, file_type: Seq<char>)
    ensures
        convert_outcome(file, file_type) matches Err(CliError::Aborted) ==> (
            file.len() < 6 || read_unsafe(file) || (read_file_outcome(file) matches Ok(v) && (
                !ref_counts_fit(v.content) || (file_family(file) != (type_of_name(file_type)->Some_0 is SPBF)
                    && add_entries_overflow(
                        new_writer_state(v.content.build_name, v.content.build_version),
                        writer_entries(writer_state_of_content(v.content)),
                        id_max_of(type_of_name(file_type)->Some_0),
                    ))))),
        (convert_outcome(file, file_type) matches Err(CliError::UnknownType)) == (type_of_name(file_type) is None),
        convert_outcome(file, file_type) matches Err(CliError::Reader(e)) ==> read_file_outcome(file) == Err::<ReadView, XPBFReaderError>(e),
        !(convert_outcome(file, file_type) matches Err(CliError::DataNotFound)),
        !(convert_outcome(file, file_type) matches Err(CliError::RemoveNotExists)),
{
}

/// Whether writing stops with `Aborted` does not depend on the entry's name
/// or bytes, and it happens only for a file shorter than the magic, one its
/// reader would not return on, reference counts beyond `u32`, or a format
/// lookup that would overflow a counter.
pub proof fn lemma_write_aborts_regardless_of_entry(
    file: Seq<u8>,
    format: Seq<char>,
    name1: Seq<char>,
    data1: Seq<u8>,
    name2: Seq<char>,
    data2: Seq<u8>,
)
    ensures
        (write_data_outcome(file, name1, format, data1) matches Err(CliError::Aborted))
            == (write_data_outcome(file, name2, format, data2) matches Err(CliError::Aborted)),
        write_data_outcome(file, name1, format, data1) matches Err(CliError::Aborted) ==> (
            file.len() < 6 || read_unsafe(file) || (read_file_outcome(file) matches Ok(v) && (
                !ref_counts_fit(v.content)
                    || format_lookup_overflows(writer_state_of_content(v.content), format, family_id_max(file_family(file)))))),
        write_data_outcome(file, name1, format, data1) matches Err(CliError::Reader(e)) ==> read_file_outcome(file) == Err::<ReadView, XPBFReaderError>(e),
        !(write_data_outcome(file, name1, format, data1) matches Err(CliError::DataNotFound)),
        !(write_data_outcome(file, name1, format, data1) matches Err(CliError::RemoveNotExists)),
        !(write_data_outcome(file, name1, format, data1) matches Err(CliError::UnknownType)),
{
}

/// Removing refuses a name exactly when reading that name finds no entry,
/// for a file whose reference counts fit: so exactly when the file holds no
/// entry of that name.
pub proof fn lemma_remove_refused_iff_absent(file: Seq<u8>, name: Seq<char>)
    requires
        read_file_outcome(file) matches Ok(v) ==> ref_counts_fit(v.content),
    ensures
        (remove_data_outcome(file, name) == Err::<Seq<u8>, CliError>(CliError::RemoveNotExists))
            == (read_data_outcome(file, name) == Err::<Seq<u8>, CliError>(CliError::DataNotFound)),
        file.len() >= 6 && !read_unsafe(file) && read_file_outcome(file) is Ok ==> (
            (remove_data_outcome(file, name) == Err::<Seq<u8>, CliError>(CliError::RemoveNotExists))
                == !data_names(read_file_outcome(file)->Ok_0.content.data).contains(name)),
        remove_data_outcome(file, name) matches Err(CliError::Reader(e)) ==> read_file_outcome(file) == Err::<ReadView, XPBFReaderError>(e),
        !(remove_data_outcome(file, name) matches Err(CliError::DataNotFound)),
        !(remove_data_outcome(file, name) matches Err(CliError::UnknownType)),
{
    if read_file_outcome(file) is Ok {
        lemma_first_index(data_names(read_file_outcome(file)->Ok_0.content.data), name);
    }
}

/// The listing that `info` gives of a readable file holds its build
/// strings, its whole format table and every one of its entries, in order.
pub proof fn lemma_info_lists_every_entry(file: Seq<u8>, report: InfoReport)
    requires
        info_matches(file, Ok(report)),
        report.build matches Some(Ok(_)),
    ensures
        read_file_outcome(file) matches Ok(v) && report.build matches Some(Ok(b)) && {
            &&& b.build_name@ == v.content.build_name
            &&& b.build_version@ == v.content.build_version
            &&& b.data_formats@.len() == v.content.formats.len()
            &&& b.data@.len() == v.content.data.len()
            &&& forall|i: int| 0 <= i < b.data@.len() ==> #[trigger] b.data@[i].entry() == v.content.data[i]
            &&& forall|i: int| 0 <= i < b.data_formats@.len() ==> #[trigger] b.data_formats@[i]@ == v.content.formats[i]
        },
{
    let b = report.build->Some_0->Ok_0;
    let v = read_file_outcome(file)->Ok_0;
    assert forall|i: int| 0 <= i < b.data@.len() implies #[trigger] b.data@[i].entry() == v.content.data[i] by {
        assert(b.data@.map_values(|d: XPBFDataForRead| d.entry())[i] == b.data@[i].entry());
    }
    assert forall|i: int| 0 <= i < b.data_formats@.len() implies #[trigger] b.data_formats@[i]@ == v.content.formats[i] by {
        assert(b.data_formats@.map_values(|f: XPBFDataFormatForRead| f@)[i] == b.data_formats@[i]@);
    }
}

/// A command of the tool, with its arguments.
pub enum CliCommand {
    /// Show the type, version and content of `file`.
    Info { file: String },
    /// Create `file`, empty, of the named type.
    New { file: String, file_type: String, build_name: String, build_version: String },
    /// Write standard input into `file` as the entry `data_name`.
    Write { file: String, data_name: String, data_format: String },
    /// Remove the entry `data_name` from `file`.
    Remove { file: String, data_name: String },
    /// Copy the entry `data_name` of `file` to standard output.
    Read { file: String, data_name: String },
    /// Write `file_in` as `file_out`, of the named type.
    Convert { file_in: String, file_out: String, file_type: String },
}

/// Something that a command reads before it can go on.
pub enum CliInput {
    Stdin,
    File(String),
}

/// What the program has to do next for a command.
pub enum CliAction {
    /// Read this input, then ask again with its bytes added to the inputs.
    Read(CliInput),
    /// Show this report; the command is done.
    ShowInfo(InfoReport),
    /// Write these bytes to this file; the command is done.
    WriteFile(String, Vec<u8>),
    /// Write these bytes to standard output; the command is done.
    WriteStdout(Vec<u8>),
    /// Stop with this error.
    Fail(CliError),
}

/// The command asks for the input `input` next.
pub open spec fn asks_file(r: CliAction, file: Seq<char>) -> bool {
    r matches CliAction::Read(CliInput::File(f)) && f@ == file
}

/// The command ends by writing the outcome's bytes to `file`, or fails
/// with its error.
pub open spec fn writes_outcome(r: CliAction, file: Seq<char>, outcome: Result<Seq<u8>, CliError>) -> bool {
    match outcome {
        Ok(bytes) => r matches CliAction::WriteFile(f, b) && f@ == file && b@ == bytes,
        Err(e) => r == CliAction::Fail(e),
    }
}

/// The next step of `command` once `inputs` have been read, in the order in
/// which it asks for them: `write` reads standard input and then its file;
/// `new` reads nothing; the other commands read their one file.
pub open spec fn step_matches(command: CliCommand, inputs: Seq<Seq<u8>>, r: CliAction) -> bool {
    match command {
        CliCommand::Info { file } => if inputs.len() == 0 {
            asks_file(r, file@)
        } else {
            match r {
                CliAction::ShowInfo(report) => info_matches(inputs[0], Ok(report)),
                CliAction::Fail(e) => info_matches(inputs[0], Err(e)),
                _ => false,
            }
        },
        CliCommand::New { file, file_type, build_name, build_version } =>
            writes_outcome(r, file@, new_file_outcome(file_type@, build_name@, build_version@)),
        CliCommand::Write { file, data_name, data_format } => if inputs.len() == 0 {
            r matches CliAction::Read(CliInput::Stdin)
        } else if inputs.len() == 1 {
            asks_file(r, file@)
        } else {
            writes_outcome(r, file@, write_data_outcome(inputs[1], data_name@, data_format@, inputs[0]))
        },
        CliCommand::Remove { file, data_name } => if inputs.len() == 0 {
            asks_file(r, file@)
        } else {
            writes_outcome(r, file@, remove_data_outcome(inputs[0], data_name@))
        },
        CliCommand::Read { file, data_name } => if inputs.len() == 0 {
            asks_file(r, file@)
        } else {
            match read_data_outcome(inputs[0], data_name@) {
                Ok(bytes) => r matches CliAction::WriteStdout(b) && b@ == bytes,
                Err(e) => r == CliAction::Fail(e),
            }
        },
        CliCommand::Convert { file_in, file_out, file_type } => if inputs.len() == 0 {
            asks_file(r, file_in@)
        } else {
            writes_outcome(r, file_out@, convert_outcome(inputs[0], file_type@))
        },
    }
}

/// What a finished step writes reads back as its command promises: a new
/// file as empty, a written entry as its bytes with the other entries kept,
/// a removal without the entry, a conversion with the same entries.
pub open spec fn step_reads_back(command: CliCommand, inputs: Seq<Seq<u8>>, r: CliAction) -> bool {
    match command {
        CliCommand::New { file_type, build_name, build_version, .. } =>
            r matches CliAction::WriteFile(_, out) ==> read_file_outcome(out@) == Ok::<ReadView, XPBFReaderError>(ReadView {
                file_type: code_of_type(type_of_name(file_type@)->Some_0),
                file_version: 1,
                content: FileContent { build_name: build_name@, build_version: build_version@, formats: Seq::empty(), data: Seq::empty() },
            }),
        CliCommand::Write { data_name, data_format, .. } => inputs.len() >= 2 ==> (r matches CliAction::WriteFile(_, out) ==> (
            read_data_outcome(out@, data_name@) == Ok::<Seq<u8>, CliError>(inputs[0])
                && written_reads_back(inputs[1], data_name@, data_format@, inputs[0], out@))),
        CliCommand::Remove { data_name, .. } => inputs.len() >= 1 ==> (r matches CliAction::WriteFile(_, out) ==>
            removed_reads_back(inputs[0], data_name@, out@)),
        CliCommand::Convert { file_type, .. } => inputs.len() >= 1 ==> (r matches CliAction::WriteFile(_, out) ==>
            converted_reads_back(inputs[0], file_type@, out@)),
        _ => true,
    }
}

/// The action that ends a command whose bytes or error are `r`.
fn finish(file: &String, r: Result<Vec<u8>, CliError>) -> (action: CliAction)
    ensures
        match r {
            Ok(bytes) => action matches CliAction::WriteFile(f, b) && f@ == file@ && b@ == bytes@,
            Err(e) => action == CliAction::Fail(e),
        },
{
    match r {
        Ok(bytes) => CliAction::WriteFile(file.clone(), bytes),
        Err(e) => CliAction::Fail(e),
    }
}

/// Runs the tool's decisions for `command`: given the inputs read so far,
/// the next input to read, or the command's result.
pub fn cli_process(command: &CliCommand, inputs: &Vec<Vec<u8>>) -> (r: CliAction)
    ensures
        step_matches(*command, inputs@.map_values(|v: Vec<u8>| v@), r),
        step_reads_back(*command, inputs@.map_values(|v: Vec<u8>| v@), r),
{
    let ghost views = inputs@.map_values(|v: Vec<u8>| v@);
    proof {
        if inputs@.len() > 0 {
            assert(views[0] == inputs@[0]@);
        }
        if inputs@.len() > 1 {
            assert(views[1] == inputs@[1]@);
        }
    }
    match command {
        CliCommand::Info { file } => {
            if inputs.len() == 0 {
                return CliAction::Read(CliInput::File(file.clone()));
            }
            match cmd_info(inputs[0].as_slice()) {
                Ok(report) => CliAction::ShowInfo(report),
                Err(e) => CliAction::Fail(e),
            }
        },
        CliCommand::New { file, file_type, build_name, build_version } => {
            finish(file, cmd_new(file_type.as_str(), build_name, build_version))
        },
        CliCommand::Write { file, data_name, data_format } => {
            if inputs.len() == 0 {
                return CliAction::Read(CliInput::Stdin);
            }
            if inputs.len() == 1 {
                return CliAction::Read(CliInput::File(file.clone()));
            }
            let data = inputs[0].clone();
            assert(data@ =~= inputs@[0]@);
            finish(file, cmd_write(inputs[1].as_slice(), data_name, data_format, data))
        },
        CliCommand::Remove { file, data_name } => {
            if inputs.len() == 0 {
                return CliAction::Read(CliInput::File(file.clone()));
            }
            finish(file, cmd_remove(inputs[0].as_slice(), data_name))
        },
        CliCommand::Read { file, data_name } => {
            if inputs.len() == 0 {
                return CliAction::Read(CliInput::File(file.clone()));
            }
            match cmd_read(inputs[0].as_slice(), data_name) {
                Ok(bytes) => CliAction::WriteStdout(bytes),
                Err(e) => CliAction::Fail(e),
            }
        },
        CliCommand::Convert { file_in, file_out, file_type } => {
            if inputs.len() == 0 {
                return CliAction::Read(CliInput::File(file_in.clone()));
            }
            finish(file_out, cmd_convert(inputs[0].as_slice(), file_type.as_str()))
        },
    }
}

} // verus!
