//! Writing packed build files of either family, and converting between them.
use vstd::prelude::*;
use spbflib::SPBFType;
use spbflib::write::SPBFWriter;
use upbflib::UPBFType;
use upbflib::write::UPBFWriter;
use crate::error::{
    writer_error_of_spbf, writer_error_of_upbf, XPBFReaderError, XPBFWriterDataAddError,
    XPBFWriterError, XPBFWriterWriteError,
};
use crate::model::{
    add_data_overflows, add_data_result, format_lookup_overflows, new_writer_state,
    overwrite_data_result, ref_counts_fit, remove_data_defined, remove_data_state,
    writer_state_of_content, written_content, DataView, FormatEntry, ReadView, WriterState,
    data_names, state_data_ids_listed, add_entries, add_entries_overflow, writer_entries,
    entry_ids, first_index, is_first_index, lemma_first_index, lemma_add_entries_refusal_stays,
    lemma_add_entries_step, entry_names, lemma_add_entries_keeps_entries, lemma_max_id_bounds,
    view_ids,
};
use spbflib::read::SPBFReaderError;
use upbflib::read::UPBFReaderError;
use crate::reader::XPBFReadResult;
use crate::layout::{spbf_read_safe, upbf_read_safe};
use crate::consistency::{
    ids_distinct, lemma_add_consistent, lemma_add_entries_consistent, lemma_content_consistent,
    lemma_new_consistent, lemma_overwrite_consistent, lemma_remove_consistent, writer_consistent,
};
use crate::spbf;
use crate::upbf;
use crate::types::XPBFType;

verus! {

/// A format of a writer, copied out.
pub(crate) struct WrittenFormat {
    pub data_id: u32,
    pub name: String,
    pub refs: u32,
}

/// An entry of a writer, copied out.
pub(crate) struct WrittenData {
    pub data_id: u32,
    pub name: String,
    pub bytes: Vec<u8>,
}

impl View for WrittenFormat {
    type V = FormatEntry;

    closed spec fn view(&self) -> FormatEntry {
        FormatEntry { data_id: self.data_id, name: self.name@, refs: self.refs }
    }
}

impl View for WrittenData {
    type V = DataView;

    closed spec fn view(&self) -> DataView {
        DataView { data_id: self.data_id, name: self.name@, bytes: self.bytes@ }
    }
}

/// A writer of either family, with the layout and the version byte that it
/// writes.
pub enum XPBFWriter {
    SPBF(SPBFWriter, SPBFType, u8),
    UPBF(UPBFWriter, UPBFType, u8),
}

/// The largest format id of each family: SPBF ids are `u16`, UPBF ids `u32`.
pub open spec fn id_max_of(file_type: XPBFType) -> u32 {
    match file_type {
        XPBFType::SPBF(_) => 0xFFFF,
        XPBFType::UPBF(_) => 0xFFFF_FFFF,
    }
}

/// Moves the entry's bytes into a boxed slice.
#[verifier::external_body]
pub(crate) fn boxed_bytes(bytes: Vec<u8>) -> (r: Box<[u8]>)
    ensures
        r@ == bytes@,
{
    bytes.into_boxed_slice()
}

/// What a writer of the given family, state, type byte and version writes:
/// an unsupported version is refused, else the family's encoding of the
/// content, its error converted.
pub open spec fn encode_outcome(spbf: bool, st: WriterState, code: u8, version: u8) -> Result<Seq<u8>, XPBFWriterError> {
    if version != 1 {
        Err(XPBFWriterError::Write(XPBFWriterWriteError::UnsupportedVersion))
    } else if spbf {
        match spbf::spbf_encode(written_content(st), code) {
            Ok(bytes) => Ok(bytes),
            Err(e) => Err(writer_error_of_spbf(e)),
        }
    } else {
        match upbf::upbf_encode(written_content(st), code) {
            Ok(bytes) => Ok(bytes),
            Err(e) => Err(writer_error_of_upbf(e)),
        }
    }
}

/// Bytes written by a writer of the given family, state and type byte read
/// back: a valid header of that family, type and version 1, and, when every
/// entry's format is listed, the writer's content.
pub open spec fn encoded_reads_back(spbf: bool, st: WriterState, code: u8, bytes: Seq<u8>) -> bool {
    &&& bytes.len() >= 8
    &&& bytes[6] == code
    &&& bytes[7] == 1
    &&& if spbf {
        &&& spbf::spbf_header_error(bytes) is None
        &&& state_data_ids_listed(st) ==> spbf_read_safe(bytes)
        &&& state_data_ids_listed(st) ==> spbf::spbf_parse(bytes) == Ok::<ReadView, SPBFReaderError>(
            ReadView { file_type: code, file_version: 1, content: written_content(st) })
    } else {
        &&& upbf::upbf_header_error(bytes) is None
        &&& state_data_ids_listed(st) ==> upbf_read_safe(bytes)
        &&& state_data_ids_listed(st) ==> upbf::upbf_parse(bytes) == Ok::<ReadView, UPBFReaderError>(
            ReadView { file_type: code, file_version: 1, content: written_content(st) })
    }
}

/// Both types name layouts of the same family.
pub open spec fn same_family(a: XPBFType, b: XPBFType) -> bool {
    (a is SPBF) == (b is SPBF)
}

/// Adds to `target`, in order, the entries of the writer state `source`
/// whose formats and entries `formats` and `data` copy, each under its
/// name, the name of its format and its bytes.
fn copy_entries(target: XPBFWriter, formats: &Vec<WrittenFormat>, data: &Vec<WrittenData>, Ghost(source): Ghost<WriterState>) -> (r: Result<XPBFWriter, XPBFWriterError>)
    requires
        formats@.map_values(|f: WrittenFormat| f@) == source.formats,
        data@.map_values(|d: WrittenData| d@) == source.data,
        state_data_ids_listed(source),
        !add_entries_overflow(target.state(), writer_entries(source), target.id_max()),
    ensures
        match r {
            Ok(w) => add_entries(target.state(), writer_entries(source)) == Ok::<WriterState, XPBFWriterDataAddError>(w.state())
                && w.file_type() == target.file_type() && w.version() == target.version(),
            Err(e) => add_entries(target.state(), writer_entries(source)) matches Err(k) && e == XPBFWriterError::DataAdd(k),
        },
{
    let ghost base = target.state();
    let ghost es = writer_entries(source);
    let mut new = target;
    let mut i: usize = 0;
    assert(es.take(0) =~= Seq::<(Seq<char>, Seq<char>, Seq<u8>)>::empty());
    while i < data.len()
        invariant
            0 <= i <= data@.len(),
            formats@.map_values(|f: WrittenFormat| f@) == source.formats,
            data@.map_values(|d: WrittenData| d@) == source.data,
            state_data_ids_listed(source),
            es == writer_entries(source),
            base == target.state(),
            es.len() == data@.len(),
            add_entries(base, es.take(i as int)) == Ok::<WriterState, XPBFWriterDataAddError>(new.state()),
            !add_entries_overflow(base, es, new.id_max()),
            new.file_type() == target.file_type(),
            new.version() == target.version(),
        decreases data@.len() - i,
    {
        let j = entry_format(formats, data, i, Ghost(source));
        let d = &data[i];
        let name = d.name.clone();
        let bytes = d.bytes.clone();
        assert(bytes@ =~= d.bytes@);
        let bytes = boxed_bytes(bytes);
        proof {
            lemma_add_entries_step(base, es, i as int);
            assert(es[i as int] == (name@, formats@[j as int].name@, bytes@));
            if add_data_overflows(new.state(), name@, formats@[j as int].name@, new.id_max()) {
                assert(add_entries(base, es.take(i as int)) matches Ok(s) && add_data_overflows(s, es[i as int].0, es[i as int].1, new.id_max()));
            }
        }
        let ghost before = new.state();
        let ghost entry = es[i as int];
        match new.add_data(name, &formats[j].name, bytes) {
            Ok(()) => {},
            Err(e) => {
                proof {
                    assert(add_data_result(before, entry.0, entry.1, entry.2) is Err);
                    assert(add_entries(base, es.take(i as int + 1)) == add_data_result(before, entry.0, entry.1, entry.2));
                    lemma_add_entries_refusal_stays(base, es, i as int + 1, es.len() as int);
                    assert(es.take(es.len() as int) =~= es);
                }
                return Err(e);
            },
        }
        i += 1;
    }
    assert(es.take(es.len() as int) =~= es);
    Ok(new)
}

/// The position of the first of `names` equal to `name`, if any.
fn find_name(names: &Vec<String>, name: &String) -> (r: Option<usize>)
    ensures
        match r {
            Some(i) => is_first_index(names@.map_values(|n: String| n@), name@, i as int),
            None => !names@.map_values(|n: String| n@).contains(name@),
        },
{
    let ghost views = names@.map_values(|n: String| n@);
    let mut i: usize = 0;
    while i < names.len()
        invariant
            0 <= i <= names@.len(),
            views == names@.map_values(|n: String| n@),
            forall|k: int| 0 <= k < i ==> #[trigger] views[k] != name@,
        decreases names@.len() - i,
    {
        assert(views[i as int] == names@[i as int]@);
        if names[i].eq(name) {
            return Some(i);
        }
        i += 1;
    }
    proof {
        if views.contains(name@) {
            let k = choose|k: int| 0 <= k < views.len() && views[k] == name@;
            assert(views[k] != name@);
        }
    }
    None
}

/// The format of the `i`-th entry of `source`, looked up in the copies
/// `formats` by its id: the first format with that id.
fn entry_format(formats: &Vec<WrittenFormat>, data: &Vec<WrittenData>, i: usize, Ghost(source): Ghost<WriterState>) -> (r: usize)
    requires
        formats@.map_values(|f: WrittenFormat| f@) == source.formats,
        data@.map_values(|d: WrittenData| d@) == source.data,
        state_data_ids_listed(source),
        0 <= i < data@.len(),
    ensures
        r == first_index(entry_ids(source.formats), source.data[i as int].data_id),
        0 <= r < formats@.len(),
        writer_entries(source)[i as int] == (data@[i as int].name@, formats@[r as int].name@, data@[i as int].bytes@),
{
    let d = &data[i];
    assert(data@.map_values(|d: WrittenData| d@)[i as int] == d@);
    let ghost id = d.data_id;
    assert(entry_ids(source.formats).contains(source.data[i as int].data_id));
    let mut j: usize = 0;
    while j < formats.len() && formats[j].data_id != d.data_id
        invariant
            0 <= j <= formats@.len(),
            formats@.map_values(|f: WrittenFormat| f@) == source.formats,
            forall|k: int| 0 <= k < j ==> #[trigger] entry_ids(source.formats)[k] != id,
            d.data_id == id,
        decreases formats@.len() - j,
    {
        assert(formats@.map_values(|f: WrittenFormat| f@)[j as int] == formats@[j as int]@);
        j += 1;
    }
    proof {
        if j == formats.len() {
            let at = choose|at: int| 0 <= at < entry_ids(source.formats).len() && entry_ids(source.formats)[at] == id;
            assert(entry_ids(source.formats)[at] != id);
        }
        assert(formats@.map_values(|f: WrittenFormat| f@)[j as int] == formats@[j as int]@);
        assert(is_first_index(entry_ids(source.formats), id, j as int));
        lemma_first_index(entry_ids(source.formats), id);
    }
    j
}

/// Whether adding the entries of `source` (copied in `formats` and `data`),
/// in order, to the fresh writer state `base` would overflow a counter of a
/// writer whose ids go up to `id_max`. The additions are followed on
/// copies of the names and reference counts that they change.
fn entries_would_overflow(formats: &Vec<WrittenFormat>, data: &Vec<WrittenData>, id_max: u32, Ghost(source): Ghost<WriterState>, Ghost(base): Ghost<WriterState>) -> (r: bool)
    requires
        formats@.map_values(|f: WrittenFormat| f@) == source.formats,
        data@.map_values(|d: WrittenData| d@) == source.data,
        state_data_ids_listed(source),
        base == new_writer_state(base.build_name, base.build_version),
        id_max >= 0xFF,
    ensures
        r == add_entries_overflow(base, writer_entries(source), id_max),
{
    let ghost es = writer_entries(source);
    let ghost mut st = base;
    let mut names: Vec<String> = Vec::new();
    let mut format_names: Vec<String> = Vec::new();
    let mut refs: Vec<u32> = Vec::new();
    let mut id_last: u32 = 0xFF;
    let mut i: usize = 0;
    assert(es.take(0) =~= Seq::<(Seq<char>, Seq<char>, Seq<u8>)>::empty());
    assert(names@.map_values(|n: String| n@) =~= data_names(st.data));
    assert(format_names@.map_values(|n: String| n@) =~= entry_names(st.formats));
    assert(refs@ =~= st.formats.map_values(|f: FormatEntry| f.refs));
    while i < data.len()
        invariant
            0 <= i <= data@.len(),
            formats@.map_values(|f: WrittenFormat| f@) == source.formats,
            data@.map_values(|d: WrittenData| d@) == source.data,
            state_data_ids_listed(source),
            es == writer_entries(source),
            es.len() == data@.len(),
            add_entries(base, es.take(i as int)) == Ok::<WriterState, XPBFWriterDataAddError>(st),
            forall|k: int| 0 <= k < i ==> !(#[trigger] add_entries(base, es.take(k)) matches Ok(s) && add_data_overflows(s, es[k].0, es[k].1, id_max)),
            names@.map_values(|n: String| n@) == data_names(st.data),
            format_names@.map_values(|n: String| n@) == entry_names(st.formats),
            refs@ == st.formats.map_values(|f: FormatEntry| f.refs),
            id_last == st.id_last,
            id_last <= id_max,
            st.id_pool.len() == 0,
        decreases data@.len() - i,
    {
        let j = entry_format(formats, data, i, Ghost(source));
        let name = &data[i].name;
        let format = &formats[j].name;
        let ghost entry = es[i as int];
        proof {
            lemma_add_entries_step(base, es, i as int);
            lemma_first_index(entry_names(st.formats), format@);
        }
        match find_name(&names, name) {
            Some(_) => {
                proof {
                    assert(data_names(st.data).contains(name@));
                    assert forall|k: int| 0 <= k < es.len() implies !(#[trigger] add_entries(base, es.take(k)) matches Ok(s) && add_data_overflows(s, es[k].0, es[k].1, id_max)) by {
                        if k > i {
                            lemma_add_entries_refusal_stays(base, es, i as int + 1, k);
                        }
                    }
                }
                return false;
            },
            None => {},
        }
        match find_name(&format_names, format) {
            Some(p) => {
                if refs[p] == 0xFFFF_FFFF {
                    proof {
                        assert(st.formats.map_values(|f: FormatEntry| f.refs)[p as int] == st.formats[p as int].refs);
                        assert(add_entries(base, es.take(i as int)) matches Ok(s) && add_data_overflows(s, es[i as int].0, es[i as int].1, id_max));
                    }
                    return true;
                }
                let ghost next = add_data_result(st, entry.0, entry.1, entry.2)->Ok_0;
                proof {
                    assert(st.formats.map_values(|f: FormatEntry| f.refs)[p as int] == st.formats[p as int].refs);
                    assert(data_names(next.data) =~= data_names(st.data).push(name@));
                    assert(entry_names(next.formats) =~= entry_names(st.formats));
                }
                let c = refs[p];
                refs.set(p, c + 1);
                names.push(name.clone());
                proof {
                    assert(names@.map_values(|n: String| n@) =~= data_names(next.data));
                    assert(refs@ =~= next.formats.map_values(|f: FormatEntry| f.refs));
                    st = next;
                }
            },
            None => {
                if id_last == 0 {
                    proof {
                        assert(add_entries(base, es.take(i as int + 1)) is Err);
                        assert forall|k: int| 0 <= k < es.len() implies !(#[trigger] add_entries(base, es.take(k)) matches Ok(s) && add_data_overflows(s, es[k].0, es[k].1, id_max)) by {
                            if k > i {
                                lemma_add_entries_refusal_stays(base, es, i as int + 1, k);
                            }
                        }
                    }
                    return false;
                }
                if id_last == id_max {
                    proof {
                        assert(add_entries(base, es.take(i as int)) matches Ok(s) && add_data_overflows(s, es[i as int].0, es[i as int].1, id_max));
                    }
                    return true;
                }
                let ghost next = add_data_result(st, entry.0, entry.1, entry.2)->Ok_0;
                proof {
                    assert(data_names(next.data) =~= data_names(st.data).push(name@));
                    assert(entry_names(next.formats) =~= entry_names(st.formats).push(format@));
                    assert(next.formats.map_values(|f: FormatEntry| f.refs) =~= st.formats.map_values(|f: FormatEntry| f.refs).push(1));
                }
                id_last = id_last + 1;
                format_names.push(format.clone());
                refs.push(1);
                names.push(name.clone());
                proof {
                    assert(names@.map_values(|n: String| n@) =~= data_names(next.data));
                    assert(format_names@.map_values(|n: String| n@) =~= entry_names(next.formats));
                    st = next;
                }
            },
        }
        i += 1;
    }
    assert(es.take(es.len() as int) =~= es);
    false
}

impl XPBFWriter {
    /// Everything that the writer keeps.
    pub open spec fn state(&self) -> WriterState {
        match self {
            XPBFWriter::SPBF(writer, _, _) => spbf::spbf_writer_state(*writer),
            XPBFWriter::UPBF(writer, _, _) => upbf::upbf_writer_state(*writer),
        }
    }

    /// The layout that the writer writes.
    pub open spec fn file_type(&self) -> XPBFType {
        match self {
            XPBFWriter::SPBF(_, t, _) => XPBFType::SPBF(*t),
            XPBFWriter::UPBF(_, t, _) => XPBFType::UPBF(*t),
        }
    }

    /// The version byte that the writer writes with.
    pub open spec fn version(&self) -> u8 {
        match self {
            XPBFWriter::SPBF(_, _, v) => *v,
            XPBFWriter::UPBF(_, _, v) => *v,
        }
    }

    /// The largest format id of the writer's family.
    pub open spec fn id_max(&self) -> u32 {
        id_max_of(self.file_type())
    }

    /// The type byte of the writer's layout.
    pub open spec fn type_code(&self) -> u8 {
        match self {
            XPBFWriter::SPBF(_, t, _) => spbf::spbf_type_code(*t),
            XPBFWriter::UPBF(_, t, _) => upbf::upbf_type_code(*t),
        }
    }

    /// The writer's table is consistent (see `writer_consistent`); every
    /// operation keeps it so.
    pub open spec fn wf(&self) -> bool {
        writer_consistent(self.state(), self.id_max())
    }

    /// What writing gives (see `encode_outcome`).
    pub open spec fn write_outcome(&self) -> Result<Seq<u8>, XPBFWriterError> {
        encode_outcome(self is SPBF, self.state(), self.type_code(), self.version())
    }

    /// Makes a writer for a file that was read: same layout, version,
    /// strings, formats and entries (see `writer_state_of_content`).
    pub fn try_from(value: &XPBFReadResult) -> (r: Result<XPBFWriter, XPBFReaderError>)
        requires
            value.wf(),
            ref_counts_fit(value@.content),
        ensures
            r matches Ok(w) && {
                &&& w.state() == writer_state_of_content(value@.content)
                &&& w.type_code() == value@.file_type
                &&& w.version() == value@.file_version
                &&& (w is SPBF) == (value is SPBF)
                &&& ids_distinct(view_ids(value@.content.formats)) ==> w.wf()
            },
    {
        proof {
            let ids = view_ids(value@.content.formats);
            if value is SPBF {
                assert forall|k: int| 0 <= k < ids.len() implies #[trigger] ids[k] <= 0xFFFF by {
                    assert(value@.content.formats[k].data_id <= 0xFFFF);
                }
                lemma_max_id_bounds(ids, 0xFF, 0xFFFF);
            } else {
                lemma_max_id_bounds(ids, 0xFF, 0xFFFF_FFFF);
            }
            if ids_distinct(ids) {
                lemma_content_consistent(value@.content, if value is SPBF { 0xFFFFu32 } else { 0xFFFF_FFFFu32 });
            }
        }
        match value {
            XPBFReadResult::SPBF(read) => {
                let writer = match spbf::spbf_writer_from_read(read) {
                    Ok(w) => w,
                    Err(e) => return Err(XPBFReaderError::from(e)),
                };
                let t = spbf::spbf_read_file_type(read);
                let v = spbf::spbf_read_file_version(read);
                Ok(XPBFWriter::SPBF(writer, t, v))
            },
            XPBFReadResult::UPBF(read) => {
                let writer = match upbf::upbf_writer_from_read(read) {
                    Ok(w) => w,
                    Err(e) => return Err(XPBFReaderError::from(e)),
                };
                let t = upbf::upbf_read_file_type(read);
                let v = upbf::upbf_read_file_version(read);
                Ok(XPBFWriter::UPBF(writer, t, v))
            },
        }
    }

    /// A new, empty writer of the given type, at the last supported version.
    pub fn new(build_name: String, build_version: String, file_type: XPBFType) -> (r: Self)
        ensures
            r.state() == new_writer_state(build_name@, build_version@),
            r.file_type() == file_type,
            r.version() == 1,
            r.wf(),
    {
        proof {
            lemma_new_consistent(build_name@, build_version@, id_max_of(file_type));
        }
        match file_type {
            XPBFType::SPBF(t) => Self::SPBF(spbf::spbf_writer_new(build_name, build_version), t, spbf::spbf_last_supported_version()),
            XPBFType::UPBF(t) => Self::UPBF(upbf::upbf_writer_new(build_name, build_version), t, upbf::upbf_last_supported_version()),
        }
    }

    /// Adds the entry `name` with format `format` (see `add_data_result`).
    pub fn add_data(&mut self, name: String, format: &String, bytes: Box<[u8]>) -> (r: Result<(), XPBFWriterError>)
        requires
            !add_data_overflows(old(self).state(), name@, format@, old(self).id_max()),
        ensures
            final(self).file_type() == old(self).file_type(),
            final(self).version() == old(self).version(),
            old(self).wf() ==> final(self).wf(),
            match r {
                Ok(_) => add_data_result(old(self).state(), name@, format@, bytes@) == Ok::<WriterState, XPBFWriterDataAddError>(final(self).state()),
                Err(e) => add_data_result(old(self).state(), name@, format@, bytes@) matches Err(k)
                    && e == XPBFWriterError::DataAdd(k) && final(self).state() == old(self).state(),
            },
    {
        proof {
            if self.wf() && add_data_result(self.state(), name@, format@, bytes@) is Ok {
                lemma_add_consistent(self.state(), name@, format@, bytes@, self.id_max());
            }
        }
        match self {
            Self::SPBF(writer, _, _) => match spbf::spbf_writer_add_data(writer, name, format, bytes) {
                Ok(()) => Ok(()),
                Err(e) => Err(XPBFWriterError::from(e)),
            },
            Self::UPBF(writer, _, _) => match upbf::upbf_writer_add_data(writer, name, format, bytes) {
                Ok(()) => Ok(()),
                Err(e) => Err(XPBFWriterError::from(e)),
            },
        }
    }

    /// Adds the entry `name`, or overwrites the first entry of that name (see
    /// `overwrite_data_result`).
    pub fn add_or_overwrite_data(&mut self, name: &String, format: &String, bytes: Box<[u8]>) -> (r: Result<(), XPBFWriterError>)
        requires
            !format_lookup_overflows(old(self).state(), format@, old(self).id_max()),
        ensures
            final(self).file_type() == old(self).file_type(),
            final(self).version() == old(self).version(),
            old(self).wf() ==> final(self).wf(),
            match r {
                Ok(_) => overwrite_data_result(old(self).state(), name@, format@, bytes@) == Ok::<WriterState, XPBFWriterDataAddError>(final(self).state()),
                Err(e) => overwrite_data_result(old(self).state(), name@, format@, bytes@) matches Err(k)
                    && e == XPBFWriterError::DataAdd(k) && final(self).state() == old(self).state(),
            },
    {
        proof {
            if self.wf() && overwrite_data_result(self.state(), name@, format@, bytes@) is Ok {
                lemma_overwrite_consistent(self.state(), name@, format@, bytes@, self.id_max());
            }
        }
        match self {
            Self::SPBF(writer, _, _) => match spbf::spbf_writer_add_or_overwrite_data(writer, name, format, bytes) {
                Ok(()) => Ok(()),
                Err(e) => Err(XPBFWriterError::from(e)),
            },
            Self::UPBF(writer, _, _) => match upbf::upbf_writer_add_or_overwrite_data(writer, name, format, bytes) {
                Ok(()) => Ok(()),
                Err(e) => Err(XPBFWriterError::from(e)),
            },
        }
    }

    /// Removes the first entry named `name`; whether there was one (see
    /// `remove_data_state`).
    pub fn remove_data(&mut self, name: &String) -> (r: bool)
        requires
            remove_data_defined(old(self).state(), name@),
        ensures
            r == data_names(old(self).state().data).contains(name@),
            final(self).state() == remove_data_state(old(self).state(), name@),
            final(self).file_type() == old(self).file_type(),
            final(self).version() == old(self).version(),
            old(self).wf() ==> final(self).wf(),
    {
        proof {
            if self.wf() {
                lemma_remove_consistent(self.state(), name@, self.id_max());
            }
        }
        match self {
            Self::SPBF(writer, _, _) => spbf::spbf_writer_remove_data(writer, name),
            Self::UPBF(writer, _, _) => upbf::upbf_writer_remove_data(writer, name),
        }
    }

    /// Bytes that the writer wrote read back (see `encoded_reads_back`).
    pub open spec fn reads_back(&self, bytes: Seq<u8>) -> bool {
        encoded_reads_back(self is SPBF, self.state(), self.type_code(), bytes)
    }

    /// Turns the writer into one of type `target`. Within a family only the
    /// type changes; across families the entries are added, in order, to a
    /// new writer of the target family with the same strings, at its last
    /// supported version.
    pub fn convert(self, target: XPBFType) -> (r: Result<XPBFWriter, XPBFWriterError>)
        requires
            !same_family(self.file_type(), target) ==> {
                &&& state_data_ids_listed(self.state())
                &&& !add_entries_overflow(new_writer_state(self.state().build_name, self.state().build_version), writer_entries(self.state()), id_max_of(target))
            },
        ensures
            same_family(self.file_type(), target) ==> (r matches Ok(w) && w.state() == self.state() && w.file_type() == target
                && w.version() == self.version() && (self.wf() ==> w.wf())),
            !same_family(self.file_type(), target) ==> match r {
                Ok(w) => add_entries(new_writer_state(self.state().build_name, self.state().build_version), writer_entries(self.state()))
                    == Ok::<WriterState, XPBFWriterDataAddError>(w.state()) && w.file_type() == target && w.version() == 1
                    && writer_entries(w.state()) == writer_entries(self.state())
                    && w.state().build_name == self.state().build_name && w.state().build_version == self.state().build_version
                    && state_data_ids_listed(w.state()) && w.wf(),
                Err(e) => add_entries(new_writer_state(self.state().build_name, self.state().build_version), writer_entries(self.state()))
                    matches Err(k) && e == XPBFWriterError::DataAdd(k),
            },
    {
        let ghost source = self.state();
        match self {
            Self::SPBF(writer, _, version) => match target {
                XPBFType::SPBF(t) => Ok(Self::SPBF(writer, t, version)),
                XPBFType::UPBF(_) => {
                    let new = Self::new(spbf::spbf_writer_build_name(&writer), spbf::spbf_writer_build_version(&writer), target);
                    let formats = spbf::spbf_writer_formats(&writer);
                    let data = spbf::spbf_writer_data(&writer);
                    let r = copy_entries(new, &formats, &data, Ghost(source));
                    proof {
                        if r is Ok {
                            lemma_add_entries_keeps_entries(new_writer_state(source.build_name, source.build_version), writer_entries(source), id_max_of(target));
                            lemma_new_consistent(source.build_name, source.build_version, id_max_of(target));
                            lemma_add_entries_consistent(new_writer_state(source.build_name, source.build_version), writer_entries(source), id_max_of(target));
                        }
                    }
                    r
                },
            },
            Self::UPBF(writer, _, version) => match target {
                XPBFType::SPBF(_) => {
                    let new = Self::new(upbf::upbf_writer_build_name(&writer), upbf::upbf_writer_build_version(&writer), target);
                    let formats = upbf::upbf_writer_formats(&writer);
                    let data = upbf::upbf_writer_data(&writer);
                    let r = copy_entries(new, &formats, &data, Ghost(source));
                    proof {
                        if r is Ok {
                            lemma_add_entries_keeps_entries(new_writer_state(source.build_name, source.build_version), writer_entries(source), id_max_of(target));
                            lemma_new_consistent(source.build_name, source.build_version, id_max_of(target));
                            lemma_add_entries_consistent(new_writer_state(source.build_name, source.build_version), writer_entries(source), id_max_of(target));
                        }
                    }
                    r
                },
                XPBFType::UPBF(t) => Ok(Self::UPBF(writer, t, version)),
            },
        }
    }

    /// Whether converting to `target` would overflow a counter of the new
    /// writer: only across families, when adding the entries one after the
    /// other would.
    pub fn convert_would_overflow(&self, target: XPBFType) -> (r: bool)
        requires
            !same_family(self.file_type(), target) ==> state_data_ids_listed(self.state()),
        ensures
            r == (!same_family(self.file_type(), target)
                && add_entries_overflow(new_writer_state(self.state().build_name, self.state().build_version), writer_entries(self.state()), id_max_of(target))),
    {
        let ghost base = new_writer_state(self.state().build_name, self.state().build_version);
        match self {
            Self::SPBF(writer, _, _) => match target {
                XPBFType::SPBF(_) => false,
                XPBFType::UPBF(_) => {
                    let formats = spbf::spbf_writer_formats(writer);
                    let data = spbf::spbf_writer_data(writer);
                    entries_would_overflow(&formats, &data, 0xFFFF_FFFF, Ghost(self.state()), Ghost(base))
                },
            },
            Self::UPBF(writer, _, _) => match target {
                XPBFType::SPBF(_) => {
                    let formats = upbf::upbf_writer_formats(writer);
                    let data = upbf::upbf_writer_data(writer);
                    entries_would_overflow(&formats, &data, 0xFFFF, Ghost(self.state()), Ghost(base))
                },
                XPBFType::UPBF(_) => false,
            },
        }
    }

    /// Writes the file out (see `write_outcome` and `reads_back`); the
    /// writer is unchanged.
    pub fn write(&mut self) -> (r: Result<Vec<u8>, XPBFWriterError>)
        ensures
            final(self).state() == old(self).state(),
            final(self).file_type() == old(self).file_type(),
            final(self).version() == old(self).version(),
            final(self).wf() == old(self).wf(),
            r matches Ok(bytes) ==> old(self).reads_back(bytes@),
            match r {
                Ok(bytes) => old(self).write_outcome() == Ok::<Seq<u8>, XPBFWriterError>(bytes@),
                Err(e) => old(self).write_outcome() == Err::<Seq<u8>, XPBFWriterError>(e),
            },
    {
        match self {
            Self::SPBF(writer, t, v) => match spbf::spbf_writer_write(writer, *t, *v) {
                Ok(bytes) => Ok(bytes),
                Err(e) => Err(XPBFWriterError::from(e)),
            },
            Self::UPBF(writer, t, v) => match upbf::upbf_writer_write(writer, *t, *v) {
                Ok(bytes) => Ok(bytes),
                Err(e) => Err(XPBFWriterError::from(e)),
            },
        }
    }
}

} // verus!
