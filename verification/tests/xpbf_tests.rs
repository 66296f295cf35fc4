use spbflib::read::{SPBFReaderError, SPBFReaderHeaderReadError};
use spbflib::write::{SPBFWriterDataAddError, SPBFWriterError};
use spbflib::SPBFType;
use upbflib::read::{UPBFReaderDataReadError, UPBFReaderError};
use upbflib::UPBFType;
use xpbf::cli::{
    cli_process, cli_read_data, cli_reader_error_key, cli_reader_new, cli_writer_error_key, cli_xpbf_type_parse,
    cli_xpbf_type_to_str, cli_xpbf_types, cli_xpbf_version_key, cmd_convert, cmd_info, cmd_new,
    cmd_read, cmd_remove, cmd_write, CliAction, CliCommand, CliError, CliInput,
};
use xpbf::error::{
    XPBFReaderDataReadError, XPBFReaderError, XPBFReaderHeaderReadError, XPBFWriterDataAddError,
    XPBFWriterError, XPBFWriterWriteError,
};
use xpbf::layout::check_read_safe;
use xpbf::types::{XPBFType, XPBFVersion};
use xpbf::writer::XPBFWriter;

const NAMES: [&str; 8] = ["SUL", "SUB", "SAL", "SAB", "MAL", "MAB", "BAL", "BAB"];
const CYRILLIC: [&str; 8] = ["МБМ", "МБС", "МВМ", "МВС", "СВМ", "СВС", "БВМ", "БВС"];

fn s(text: &str) -> String {
    text.to_string()
}

fn new_file(file_type: &str) -> Vec<u8> {
    match cmd_new(file_type, &s("build"), &s("1.2.3")) {
        Ok(bytes) => bytes,
        Err(_) => panic!("a new file is written"),
    }
}

fn write(file: &[u8], name: &str, format: &str, data: &[u8]) -> Vec<u8> {
    match cmd_write(file, &s(name), &s(format), data.to_vec()) {
        Ok(bytes) => bytes,
        Err(_) => panic!("the entry is written"),
    }
}

fn read(file: &[u8], name: &str) -> Result<Vec<u8>, CliError> {
    cmd_read(file, &s(name))
}

/// The entries of a readable file: name, format name, bytes.
fn entries(file: &[u8]) -> Vec<(String, String, Vec<u8>)> {
    match cmd_info(file) {
        Ok(report) => match report.build {
            Some(Ok(build)) => build
                .data
                .iter()
                .map(|d| (d.name().clone(), d.format().name().clone(), d.data().to_vec()))
                .collect(),
            _ => panic!("the file is readable"),
        },
        Err(_) => panic!("the file opens"),
    }
}

fn expected_type(index: usize) -> XPBFType {
    match index {
        0 => XPBFType::SPBF(SPBFType::SmallUnalignedLittleEndian),
        1 => XPBFType::SPBF(SPBFType::SmallUnalignedBigEndian),
        2 => XPBFType::SPBF(SPBFType::SmallAlignedLittleEndian),
        3 => XPBFType::SPBF(SPBFType::SmallAlignedBigEndian),
        4 => XPBFType::UPBF(UPBFType::MediumAlignedLittleEndian),
        5 => XPBFType::UPBF(UPBFType::MediumAlignedBigEndian),
        6 => XPBFType::UPBF(UPBFType::BigAlignedLittleEndian),
        _ => XPBFType::UPBF(UPBFType::BigAlignedBigEndian),
    }
}

#[test]
fn type_names_parse_in_both_alphabets() {
    for i in 0..8 {
        assert_eq!(cli_xpbf_type_parse(NAMES[i]), Some(expected_type(i)));
        assert_eq!(cli_xpbf_type_parse(CYRILLIC[i]), Some(expected_type(i)));
    }
    assert_eq!(cli_xpbf_type_parse("sul"), None);
    assert_eq!(cli_xpbf_type_parse(""), None);
    assert_eq!(cli_xpbf_type_parse("SULX"), None);
}

#[test]
fn type_list_and_keys() {
    let types = cli_xpbf_types();
    assert_eq!(types.len(), 8);
    let keys = [
        "xpbf.type.sul", "xpbf.type.sub", "xpbf.type.sal", "xpbf.type.sab",
        "xpbf.type.mal", "xpbf.type.mab", "xpbf.type.bal", "xpbf.type.bab",
    ];
    for i in 0..8 {
        assert_eq!(types[i], expected_type(i));
        assert_eq!(cli_xpbf_type_to_str(types[i]), keys[i]);
    }
}

#[test]
fn versions_and_their_keys() {
    assert!(XPBFVersion::SPBF(1).is_supported());
    assert!(XPBFVersion::UPBF(1).is_supported());
    assert!(!XPBFVersion::SPBF(0).is_supported());
    assert!(!XPBFVersion::UPBF(2).is_supported());
    assert_eq!(XPBFVersion::UPBF(7).as_raw(), 7);
    assert_eq!(XPBFVersion::SPBF(3).spbf_version(), 3);
    assert_eq!(XPBFVersion::UPBF(4).upbf_version(), 4);
    assert_eq!(cli_xpbf_version_key(XPBFVersion::SPBF(1)), "xpbf.version.supported");
    assert_eq!(cli_xpbf_version_key(XPBFVersion::UPBF(0)), "xpbf.version.unsupported");
}

#[test]
fn types_convert_to_and_from_family_types() {
    assert_eq!(XPBFType::from(SPBFType::SmallAlignedBigEndian), XPBFType::SPBF(SPBFType::SmallAlignedBigEndian));
    assert_eq!(XPBFType::from(UPBFType::BigAlignedLittleEndian), XPBFType::UPBF(UPBFType::BigAlignedLittleEndian));
    assert_eq!(XPBFType::SPBF(SPBFType::SmallUnalignedBigEndian).spbf_type(), SPBFType::SmallUnalignedBigEndian);
    assert_eq!(XPBFType::UPBF(UPBFType::MediumAlignedBigEndian).upbf_type(), UPBFType::MediumAlignedBigEndian);
}

#[test]
fn new_file_of_each_type_reads_back_empty() {
    for i in 0..8 {
        let file = new_file(NAMES[i]);
        match cmd_info(&file) {
            Ok(report) => {
                assert_eq!(report.file_type, expected_type(i));
                assert_eq!(report.file_version.as_raw(), 1);
                assert!(report.file_version.is_supported());
                match report.build {
                    Some(Ok(build)) => {
                        assert_eq!(build.build_name, "build");
                        assert_eq!(build.build_version, "1.2.3");
                        assert!(build.data_formats.is_empty());
                        assert!(build.data.is_empty());
                    },
                    _ => panic!("a new file is readable"),
                }
            },
            Err(_) => panic!("a new file opens"),
        }
    }
}

#[test]
fn new_file_with_unknown_type_is_refused() {
    assert!(matches!(cmd_new("XYZ", &s("b"), &s("v")), Err(CliError::UnknownType)));
}

#[test]
fn written_entry_reads_back() {
    for name in NAMES {
        let file = new_file(name);
        let file = write(&file, "config", "json", &[1, 2, 3]);
        assert_eq!(read(&file, "config").ok(), Some(vec![1, 2, 3]));
        assert!(matches!(read(&file, "other"), Err(CliError::DataNotFound)));
    }
}

#[test]
fn writing_a_name_again_overwrites_it() {
    let file = new_file("SAL");
    let file = write(&file, "a", "txt", b"first");
    let file = write(&file, "b", "txt", b"second");
    let file = write(&file, "a", "bin", b"third");
    assert_eq!(read(&file, "a").ok(), Some(b"third".to_vec()));
    assert_eq!(read(&file, "b").ok(), Some(b"second".to_vec()));
    let listed = entries(&file);
    assert_eq!(listed.len(), 2);
    assert_eq!(listed[0], (s("a"), s("bin"), b"third".to_vec()));
    assert_eq!(listed[1], (s("b"), s("txt"), b"second".to_vec()));
}

#[test]
fn info_lists_formats_and_entries() {
    let file = new_file("MAB");
    let file = write(&file, "x", "fmt1", &[9]);
    let file = write(&file, "y", "fmt2", &[8, 7]);
    let file = write(&file, "z", "fmt1", &[]);
    match cmd_info(&file) {
        Ok(report) => match report.build {
            Some(Ok(build)) => {
                assert_eq!(build.data_formats.len(), 2);
                assert_eq!(build.data_formats[0].name(), "fmt1");
                assert_eq!(build.data_formats[1].name(), "fmt2");
                assert_ne!(build.data_formats[0].data_id(), build.data_formats[1].data_id());
                assert_eq!(build.data.len(), 3);
                assert_eq!(build.data[2].name(), "z");
                assert_eq!(build.data[2].format().name(), "fmt1");
                assert_eq!(build.data[2].format().data_id(), build.data_formats[0].data_id());
                assert!(build.data[2].data().is_empty());
            },
            _ => panic!("the file is readable"),
        },
        Err(_) => panic!("the file opens"),
    }
}

#[test]
fn removed_entry_is_gone_and_the_rest_stays() {
    let file = new_file("SUB");
    let file = write(&file, "a", "f", &[1]);
    let file = write(&file, "b", "g", &[2]);
    let file = write(&file, "c", "f", &[3]);
    let file = match cmd_remove(&file, &s("a")) {
        Ok(bytes) => bytes,
        Err(_) => panic!("the entry is removed"),
    };
    assert!(matches!(read(&file, "a"), Err(CliError::DataNotFound)));
    assert_eq!(entries(&file), vec![(s("b"), s("g"), vec![2]), (s("c"), s("f"), vec![3])]);
    assert!(matches!(cmd_remove(&file, &s("a")), Err(CliError::RemoveNotExists)));
}

#[test]
fn removing_the_last_entry_of_a_format_drops_the_format() {
    let file = new_file("BAL");
    let file = write(&file, "a", "only", &[1]);
    let file = match cmd_remove(&file, &s("a")) {
        Ok(bytes) => bytes,
        Err(_) => panic!("the entry is removed"),
    };
    match cmd_info(&file) {
        Ok(report) => match report.build {
            Some(Ok(build)) => {
                assert!(build.data.is_empty());
                assert!(build.data_formats.is_empty());
            },
            _ => panic!("the file is readable"),
        },
        Err(_) => panic!("the file opens"),
    }
}

#[test]
fn convert_across_families_keeps_entries() {
    let file = new_file("SUL");
    let file = write(&file, "one", "f", &[1, 1]);
    let file = write(&file, "two", "g", &[2]);
    let file = write(&file, "three", "f", &[3, 3, 3]);
    let before = entries(&file);
    let converted = match cmd_convert(&file, "BAB") {
        Ok(bytes) => bytes,
        Err(_) => panic!("the file converts"),
    };
    match cmd_info(&converted) {
        Ok(report) => {
            assert_eq!(report.file_type, XPBFType::UPBF(UPBFType::BigAlignedBigEndian));
            assert_eq!(report.file_version, XPBFVersion::UPBF(1));
        },
        Err(_) => panic!("the converted file opens"),
    }
    assert_eq!(entries(&converted), before);
    let back = match cmd_convert(&converted, "МВМ") {
        Ok(bytes) => bytes,
        Err(_) => panic!("the file converts back"),
    };
    match cmd_info(&back) {
        Ok(report) => assert_eq!(report.file_type, XPBFType::SPBF(SPBFType::SmallAlignedLittleEndian)),
        Err(_) => panic!("the converted file opens"),
    }
    assert_eq!(entries(&back), before);
}

#[test]
fn convert_within_a_family_changes_only_the_type() {
    let file = new_file("MAL");
    let file = write(&file, "k", "f", &[5, 6]);
    let converted = match cmd_convert(&file, "MAB") {
        Ok(bytes) => bytes,
        Err(_) => panic!("the file converts"),
    };
    match cmd_info(&converted) {
        Ok(report) => assert_eq!(report.file_type, XPBFType::UPBF(UPBFType::MediumAlignedBigEndian)),
        Err(_) => panic!("the converted file opens"),
    }
    assert_eq!(entries(&converted), entries(&file));
    assert!(matches!(cmd_convert(&file, "nope"), Err(CliError::UnknownType)));
}

#[test]
fn file_shorter_than_the_magic_aborts() {
    let short = [0x2Eu8, 0x53, 0x50];
    assert!(matches!(cmd_info(&short), Err(CliError::Aborted)));
    assert!(matches!(read(&short, "a"), Err(CliError::Aborted)));
    assert!(matches!(cmd_remove(&short, &s("a")), Err(CliError::Aborted)));
    assert!(matches!(cmd_write(&short, &s("a"), &s("f"), vec![]), Err(CliError::Aborted)));
    assert!(matches!(cmd_convert(&short, "SUL"), Err(CliError::Aborted)));
}

#[test]
fn unknown_magic_is_refused() {
    let file = b"NOTPBF\x00\x01".to_vec();
    assert!(matches!(
        cmd_info(&file),
        Err(CliError::Reader(XPBFReaderError::Header(XPBFReaderHeaderReadError::InvalidMagic)))
    ));
}

#[test]
fn header_errors_are_reported() {
    let magic_only = vec![0x2Eu8, 0x53, 0x50, 0x42, 0x46, 0x00];
    assert!(matches!(cmd_info(&magic_only), Err(CliError::Reader(XPBFReaderError::InvalidFileLength))));
    let mut bad_type = new_file("SUL");
    bad_type[6] = 9;
    assert!(matches!(
        cmd_info(&bad_type),
        Err(CliError::Reader(XPBFReaderError::Header(XPBFReaderHeaderReadError::InvalidType)))
    ));
}

#[test]
fn unsupported_version_is_shown_but_not_read() {
    let mut file = new_file("SAB");
    file[7] = 2;
    match cmd_info(&file) {
        Ok(report) => {
            assert_eq!(report.file_type, XPBFType::SPBF(SPBFType::SmallAlignedBigEndian));
            assert_eq!(report.file_version, XPBFVersion::SPBF(2));
            assert_eq!(cli_xpbf_version_key(report.file_version), "xpbf.version.unsupported");
            assert!(report.build.is_none());
        },
        Err(_) => panic!("the file opens"),
    }
    assert!(matches!(
        read(&file, "a"),
        Err(CliError::Reader(XPBFReaderError::Header(XPBFReaderHeaderReadError::UnsupportedVersion)))
    ));
}

#[test]
fn writer_refuses_a_second_entry_of_a_name() {
    let mut writer = XPBFWriter::new(s("b"), s("v"), XPBFType::SPBF(SPBFType::SmallAlignedLittleEndian));
    assert!(writer.add_data(s("n"), &s("f"), vec![1u8].into_boxed_slice()).is_ok());
    assert!(matches!(
        writer.add_data(s("n"), &s("f"), vec![2u8].into_boxed_slice()),
        Err(XPBFWriterError::DataAdd(XPBFWriterDataAddError::DataAlreadyDefined))
    ));
    assert!(writer.add_or_overwrite_data(&s("n"), &s("g"), vec![3u8].into_boxed_slice()).is_ok());
    assert!(writer.remove_data(&s("n")));
    assert!(!writer.remove_data(&s("n")));
    let bytes = match writer.write() {
        Ok(bytes) => bytes,
        Err(_) => panic!("the writer writes"),
    };
    assert!(entries(&bytes).is_empty());
}

#[test]
fn writer_output_reads_back() {
    let mut writer = XPBFWriter::new(s("name"), s("ver"), XPBFType::UPBF(UPBFType::BigAlignedLittleEndian));
    assert!(writer.add_data(s("d"), &s("f"), vec![4u8, 5].into_boxed_slice()).is_ok());
    let bytes = match writer.write() {
        Ok(bytes) => bytes,
        Err(_) => panic!("the writer writes"),
    };
    assert_eq!(read(&bytes, "d").ok(), Some(vec![4, 5]));
    let converted = match writer.convert(XPBFType::SPBF(SPBFType::SmallUnalignedBigEndian)) {
        Ok(mut w) => match w.write() {
            Ok(bytes) => bytes,
            Err(_) => panic!("the converted writer writes"),
        },
        Err(_) => panic!("the writer converts"),
    };
    assert_eq!(entries(&converted), vec![(s("d"), s("f"), vec![4, 5])]);
}

#[test]
fn family_errors_convert_to_shared_errors() {
    assert!(matches!(XPBFReaderError::from(SPBFReaderError::InvalidFileLength), XPBFReaderError::InvalidFileLength));
    assert!(matches!(
        XPBFReaderError::from(SPBFReaderError::Header(SPBFReaderHeaderReadError::InvalidBuildNameString)),
        XPBFReaderError::Header(XPBFReaderHeaderReadError::InvalidBuildNameString)
    ));
    assert!(matches!(
        XPBFReaderError::from(UPBFReaderError::Data(UPBFReaderDataReadError::InvalidDataId)),
        XPBFReaderError::Data(XPBFReaderDataReadError::InvalidDataId)
    ));
    assert!(matches!(
        XPBFWriterError::from(SPBFWriterError::DataAdd(SPBFWriterDataAddError::FormatCounterOverflow)),
        XPBFWriterError::DataAdd(XPBFWriterDataAddError::FormatCounterOverflow)
    ));
}

#[test]
fn error_keys() {
    assert_eq!(cli_reader_error_key(&XPBFReaderError::InvalidFileLength), "xpbf.err.read.invalid_file_length");
    assert_eq!(
        cli_reader_error_key(&XPBFReaderError::Header(XPBFReaderHeaderReadError::UnsupportedVersion)),
        "xpbf.err.read.header.unsupported_version"
    );
    assert_eq!(
        cli_reader_error_key(&XPBFReaderError::Data(XPBFReaderDataReadError::InvalidDataLength)),
        "xpbf.err.read.data.invalid_data_length"
    );
    assert_eq!(
        cli_writer_error_key(&XPBFWriterError::DataAdd(XPBFWriterDataAddError::DataAlreadyDefined)),
        Some("xpbf.err.write.data_already_defined")
    );
    assert_eq!(
        cli_writer_error_key(&XPBFWriterError::Write(XPBFWriterWriteError::InvalidOffset)),
        Some("xpbf.err.write.invalid_offset")
    );
    let io = std::io::Error::new(std::io::ErrorKind::Other, "disk");
    assert_eq!(cli_writer_error_key(&XPBFWriterError::Write(XPBFWriterWriteError::IOError(io))), None);
}

#[test]
fn process_write_asks_for_stdin_then_the_file() {
    let command = CliCommand::Write { file: s("out.pbf"), data_name: s("e"), data_format: s("f") };
    assert!(matches!(cli_process(&command, &vec![]), CliAction::Read(CliInput::Stdin)));
    let data = vec![7u8, 7];
    match cli_process(&command, &vec![data.clone()]) {
        CliAction::Read(CliInput::File(f)) => assert_eq!(f, "out.pbf"),
        _ => panic!("the file is asked for"),
    }
    match cli_process(&command, &vec![data.clone(), new_file("SUL")]) {
        CliAction::WriteFile(f, bytes) => {
            assert_eq!(f, "out.pbf");
            assert_eq!(read(&bytes, "e").ok(), Some(data));
        },
        _ => panic!("the file is written"),
    }
}

#[test]
fn process_new_read_info_remove_convert() {
    let new = CliCommand::New { file: s("n.pbf"), file_type: s("SAL"), build_name: s("b"), build_version: s("v") };
    let file = match cli_process(&new, &vec![]) {
        CliAction::WriteFile(f, bytes) => {
            assert_eq!(f, "n.pbf");
            bytes
        },
        _ => panic!("the new file is written"),
    };
    let file = write(&file, "e", "f", &[1]);
    let read_cmd = CliCommand::Read { file: s("n.pbf"), data_name: s("e") };
    assert!(matches!(cli_process(&read_cmd, &vec![]), CliAction::Read(CliInput::File(_))));
    match cli_process(&read_cmd, &vec![file.clone()]) {
        CliAction::WriteStdout(bytes) => assert_eq!(bytes, vec![1]),
        _ => panic!("the entry is printed"),
    }
    let info = CliCommand::Info { file: s("n.pbf") };
    assert!(matches!(cli_process(&info, &vec![file.clone()]), CliAction::ShowInfo(_)));
    assert!(matches!(cli_process(&info, &vec![vec![1u8]]), CliAction::Fail(CliError::Aborted)));
    let remove = CliCommand::Remove { file: s("n.pbf"), data_name: s("x") };
    assert!(matches!(cli_process(&remove, &vec![file.clone()]), CliAction::Fail(CliError::RemoveNotExists)));
    let convert = CliCommand::Convert { file_in: s("n.pbf"), file_out: s("m.pbf"), file_type: s("MAL") };
    match cli_process(&convert, &vec![]) {
        CliAction::Read(CliInput::File(f)) => assert_eq!(f, "n.pbf"),
        _ => panic!("the input file is asked for"),
    }
    match cli_process(&convert, &vec![file]) {
        CliAction::WriteFile(f, bytes) => {
            assert_eq!(f, "m.pbf");
            assert_eq!(read(&bytes, "e").ok(), Some(vec![1]));
        },
        _ => panic!("the converted file is written"),
    }
    let bad = CliCommand::New { file: s("n.pbf"), file_type: s("???"), build_name: s("b"), build_version: s("v") };
    assert!(matches!(cli_process(&bad, &vec![]), CliAction::Fail(CliError::UnknownType)));
}

#[test]
fn read_data_finds_the_first_entry_with_its_format() {
    let file = new_file("SAB");
    let file = write(&file, "p", "fp", &[1]);
    let file = write(&file, "q", "fq", &[2, 2]);
    let reader = match cli_reader_new(&file) {
        Ok(reader) => reader,
        Err(_) => panic!("the file opens"),
    };
    let read = match reader.read() {
        Ok(read) => read,
        Err(_) => panic!("the file is readable"),
    };
    match cli_read_data(&read, &s("q")) {
        Ok(d) => {
            assert_eq!(d.name(), "q");
            assert_eq!(d.data(), &[2u8, 2][..]);
            assert_eq!(d.format().name(), "fq");
        },
        Err(_) => panic!("the entry is found"),
    }
    assert!(matches!(cli_read_data(&read, &s("r")), Err(CliError::DataNotFound)));
}

fn u32_le(file: &[u8], at: usize) -> usize {
    (file[at] as usize) | (file[at + 1] as usize) << 8 | (file[at + 2] as usize) << 16 | (file[at + 3] as usize) << 24
}

fn set_u32_le(file: &mut Vec<u8>, at: usize, value: usize) {
    file[at] = value as u8;
    file[at + 1] = (value >> 8) as u8;
    file[at + 2] = (value >> 16) as u8;
    file[at + 3] = (value >> 24) as u8;
}

#[test]
fn written_files_pass_the_read_check() {
    for i in 0..8 {
        let file = new_file(NAMES[i]);
        let file = write(&file, "e", "f", &[1, 2, 3]);
        assert!(check_read_safe(&file, i < 4));
    }
}

#[test]
fn header_of_eight_bytes_aborts_instead_of_panicking() {
    let spbf = vec![0x2Eu8, 0x53, 0x50, 0x42, 0x46, 0x00, 0x00, 0x01];
    assert!(!check_read_safe(&spbf, true));
    assert!(matches!(cmd_info(&spbf), Err(CliError::Aborted)));
    assert!(matches!(read(&spbf, "a"), Err(CliError::Aborted)));
    let upbf = vec![0x2Eu8, 0x55, 0x50, 0x42, 0x46, 0x00, 0x00, 0x01, 0, 0, 0, 0, 0, 0, 0, 0];
    assert!(matches!(cmd_info(&upbf), Err(CliError::Aborted)));
    let mut old = spbf.clone();
    old[7] = 0;
    assert!(matches!(cmd_info(&old), Ok(_)));
}

#[test]
fn offset_past_the_end_aborts() {
    let mut file = new_file("SUL");
    let len = file.len();
    set_u32_le(&mut file, 8, len - 2);
    assert!(!check_read_safe(&file, true));
    assert!(matches!(cmd_info(&file), Err(CliError::Aborted)));
    assert!(matches!(cmd_remove(&file, &s("a")), Err(CliError::Aborted)));
}

#[test]
fn offset_cycle_aborts() {
    let file = new_file("MAL");
    let mut file = write(&file, "e", "f", &[1]);
    let head = u32_le(&file, 8);
    assert!(head != 0);
    set_u32_le(&mut file, head, head);
    assert!(!check_read_safe(&file, false));
    assert!(matches!(cmd_convert(&file, "SUL"), Err(CliError::Aborted)));
}

#[test]
fn offset_beyond_the_file_is_a_read_error() {
    let mut file = new_file("SUB");
    let len = file.len();
    file[8] = 0;
    file[9] = 0;
    file[10] = 0;
    file[11] = (len + 100) as u8;
    assert!(check_read_safe(&file, true));
    assert!(matches!(cmd_info(&file), Ok(_)));
    assert!(matches!(read(&file, "a"), Err(CliError::Reader(_))));
}

#[test]
fn oversized_build_name_is_a_read_error() {
    let mut file = new_file("SAL");
    file[0x10] = 0xFF;
    file[0x11] = 0xFF;
    assert!(check_read_safe(&file, true));
    assert!(matches!(
        read(&file, "a"),
        Err(CliError::Reader(XPBFReaderError::Header(XPBFReaderHeaderReadError::InvalidBuildNameLength)))
    ));
}

#[test]
fn unknown_format_id_is_reported_before_the_data_is_sliced() {
    let mut file = vec![0x2Eu8, 0x53, 0x50, 0x42, 0x46, 0x00, 0x00, 0x01];
    file.extend_from_slice(&[0, 0, 0, 0]);
    file.extend_from_slice(&[0x12, 0, 0, 0]);
    file.extend_from_slice(&[0, 0]);
    file.extend_from_slice(&[0, 0, 0, 0, 5, 0, 7, 0]);
    file.extend_from_slice(b"aaaaa\0");
    assert_eq!(file.len(), 32);
    assert!(check_read_safe(&file, true));
    match cmd_info(&file) {
        Ok(report) => assert!(matches!(
            report.build,
            Some(Err(XPBFReaderError::Data(XPBFReaderDataReadError::InvalidDataId)))
        )),
        Err(_) => panic!("the file opens"),
    }
    assert!(matches!(
        read(&file, "aaaaa"),
        Err(CliError::Reader(XPBFReaderError::Data(XPBFReaderDataReadError::InvalidDataId)))
    ));
}

#[test]
fn invalid_utf8_name_is_reported_before_the_next_offset_is_followed() {
    let file = new_file("SAL");
    let mut file = write(&file, "e", "f", &[1]);
    let head = u32_le(&file, 8);
    let len = file.len();
    file[head + 8] = 0xFF;
    set_u32_le(&mut file, head, len - 2);
    assert!(check_read_safe(&file, true));
    assert!(matches!(read(&file, "e"), Err(CliError::Reader(_))));
}
