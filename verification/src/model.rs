//! The mathematical model of packed build files: what a file holds, what a
//! writer keeps, and the searches that the readers and writers perform.
use vstd::prelude::*;
use crate::error::XPBFWriterDataAddError;

verus! {

/// A data format as a file lists it.
pub struct FormatView {
    pub data_id: u32,
    pub name: Seq<char>,
}

/// A data entry as a file holds it.
pub struct DataView {
    pub data_id: u32,
    pub name: Seq<char>,
    pub bytes: Seq<u8>,
}

/// Everything a file holds after its fixed header.
pub struct FileContent {
    pub build_name: Seq<char>,
    pub build_version: Seq<char>,
    pub formats: Seq<FormatView>,
    pub data: Seq<DataView>,
}

/// A file as a reader returns it: the raw type and version bytes of its
/// header, and its content.
pub struct ReadView {
    pub file_type: u8,
    pub file_version: u8,
    pub content: FileContent,
}

/// A data format as a writer keeps it, with the count of entries that refer to it.
pub struct FormatEntry {
    pub data_id: u32,
    pub name: Seq<char>,
    pub refs: u32,
}

/// Everything a writer keeps: the build strings, the format table with its id
/// counter and pool of released ids, and the data entries in order.
pub struct WriterState {
    pub build_name: Seq<char>,
    pub build_version: Seq<char>,
    pub id_last: u32,
    pub id_pool: Seq<u32>,
    pub formats: Seq<FormatEntry>,
    pub data: Seq<DataView>,
}

/// `i` is the first position of `k` in `keys`.
pub open spec fn is_first_index<K>(keys: Seq<K>, k: K, i: int) -> bool {
    &&& 0 <= i < keys.len()
    &&& keys[i] == k
    &&& forall|j: int| 0 <= j < i ==> keys[j] != k
}

/// The first position of `k` in `keys`, or -1 when `k` does not occur.
pub open spec fn first_index<K>(keys: Seq<K>, k: K) -> int {
    if keys.contains(k) {
        choose|i: int| is_first_index(keys, k, i)
    } else {
        -1
    }
}

proof fn lemma_first_exists<K>(keys: Seq<K>, k: K, at: int)
    requires
        0 <= at < keys.len(),
        keys[at] == k,
    ensures
        exists|i: int| is_first_index(keys, k, i),
    decreases at,
{
    if exists|j: int| 0 <= j < at && keys[j] == k {
        let j = choose|j: int| 0 <= j < at && keys[j] == k;
        lemma_first_exists(keys, k, j);
    } else {
        assert(is_first_index(keys, k, at));
    }
}

/// What `first_index` is: the first position when `k` occurs, -1 otherwise.
pub proof fn lemma_first_index<K>(keys: Seq<K>, k: K)
    ensures
        keys.contains(k) ==> is_first_index(keys, k, first_index(keys, k)),
        !keys.contains(k) ==> first_index(keys, k) == -1,
        forall|i: int| #[trigger] is_first_index(keys, k, i) ==> first_index(keys, k) == i,
{
    if keys.contains(k) {
        let at = choose|at: int| 0 <= at < keys.len() && keys[at] == k;
        lemma_first_exists(keys, k, at);
        let f = first_index(keys, k);
        assert forall|i: int| #[trigger] is_first_index(keys, k, i) implies f == i by {
            if f < i {
                assert(keys[f] == k);
            } else if i < f {
                assert(keys[i] == k);
            }
        }
    } else {
        assert forall|i: int| #[trigger] is_first_index(keys, k, i) implies first_index(keys, k) == i by {
            assert(keys.contains(keys[i]));
        }
    }
}

pub open spec fn view_ids(fs: Seq<FormatView>) -> Seq<u32> {
    fs.map_values(|f: FormatView| f.data_id)
}

pub open spec fn entry_ids(fs: Seq<FormatEntry>) -> Seq<u32> {
    fs.map_values(|f: FormatEntry| f.data_id)
}

pub open spec fn entry_names(fs: Seq<FormatEntry>) -> Seq<Seq<char>> {
    fs.map_values(|f: FormatEntry| f.name)
}

pub open spec fn data_names(ds: Seq<DataView>) -> Seq<Seq<char>> {
    ds.map_values(|d: DataView| d.name)
}

/// Every data entry refers to a format that the table lists.
pub open spec fn data_ids_listed(formats: Seq<FormatView>, data: Seq<DataView>) -> bool {
    forall|i: int| 0 <= i < data.len() ==> view_ids(formats).contains(#[trigger] data[i].data_id)
}


/// Every format id of `formats` is at most `bound`.
pub open spec fn format_ids_within(formats: Seq<FormatView>, bound: u32) -> bool {
    forall|i: int| 0 <= i < formats.len() ==> #[trigger] formats[i].data_id <= bound
}

/// Every data entry refers to a format that the writer's table lists.
pub open spec fn state_data_ids_listed(st: WriterState) -> bool {
    forall|i: int| 0 <= i < st.data.len() ==> entry_ids(st.formats).contains(#[trigger] st.data[i].data_id)
}

/// A fresh writer: the id counter stands at the last reserved id, 0xFF.
pub open spec fn new_writer_state(build_name: Seq<char>, build_version: Seq<char>) -> WriterState {
    WriterState {
        build_name,
        build_version,
        id_last: 0xFF,
        id_pool: Seq::empty(),
        formats: Seq::empty(),
        data: Seq::empty(),
    }
}

/// The position of the first format named `name`, or -1.
pub open spec fn format_named(st: WriterState, name: Seq<char>) -> int {
    first_index(entry_names(st.formats), name)
}

/// Looking up `name` finds no format, no released id and an id counter at 0.
pub open spec fn format_ids_exhausted(st: WriterState, name: Seq<char>) -> bool {
    &&& format_named(st, name) < 0
    &&& st.id_pool.len() == 0
    &&& st.id_last == 0
}

/// Looking up `name` would overflow an integer: the reference count of the
/// format found, or an id counter that stands at `id_max`.
pub open spec fn format_lookup_overflows(st: WriterState, name: Seq<char>, id_max: u32) -> bool {
    let i = format_named(st, name);
    if i >= 0 {
        st.formats[i].refs == u32::MAX
    } else {
        st.id_pool.len() == 0 && st.id_last != 0 && st.id_last == id_max
    }
}

/// The writer after looking up the format `name` for one more entry, and the
/// id of that format: a listed format gains a reference; otherwise the last
/// released id is taken back, or else the counter gives the next id.
pub open spec fn format_lookup(st: WriterState, name: Seq<char>) -> (WriterState, u32) {
    let i = format_named(st, name);
    if i >= 0 {
        let f = st.formats[i];
        (WriterState { formats: st.formats.update(i, FormatEntry { data_id: f.data_id, name: f.name, refs: (f.refs + 1) as u32 }), ..st }, f.data_id)
    } else if st.id_pool.len() > 0 {
        let id = st.id_pool.last();
        (WriterState { id_pool: st.id_pool.drop_last(), formats: st.formats.push(FormatEntry { data_id: id, name, refs: 1 }), ..st }, id)
    } else {
        let id = (st.id_last + 1) as u32;
        (WriterState { id_last: id, formats: st.formats.push(FormatEntry { data_id: id, name, refs: 1 }), ..st }, id)
    }
}

/// Adding the entry `name` of format `format`: refused when an entry of that
/// name exists or no format id is left, else appended.
pub open spec fn add_data_result(st: WriterState, name: Seq<char>, format: Seq<char>, bytes: Seq<u8>) -> Result<WriterState, XPBFWriterDataAddError> {
    if data_names(st.data).contains(name) {
        Err(XPBFWriterDataAddError::DataAlreadyDefined)
    } else if format_ids_exhausted(st, format) {
        Err(XPBFWriterDataAddError::FormatCounterOverflow)
    } else {
        let (s, id) = format_lookup(st, format);
        Ok(WriterState { data: s.data.push(DataView { data_id: id, name, bytes }), ..s })
    }
}

/// Adding the entry would overflow an integer inside the writer.
pub open spec fn add_data_overflows(st: WriterState, name: Seq<char>, format: Seq<char>, id_max: u32) -> bool {
    !data_names(st.data).contains(name) && format_lookup_overflows(st, format, id_max)
}

/// Adding or overwriting the entry `name`: the format is looked up first; the
/// first entry of that name then takes the new format and bytes, or, when
/// there is none, a new entry is appended. The format that an overwritten
/// entry referred to keeps its reference.
pub open spec fn overwrite_data_result(st: WriterState, name: Seq<char>, format: Seq<char>, bytes: Seq<u8>) -> Result<WriterState, XPBFWriterDataAddError> {
    if format_ids_exhausted(st, format) {
        Err(XPBFWriterDataAddError::FormatCounterOverflow)
    } else {
        let (s, id) = format_lookup(st, format);
        let j = first_index(data_names(s.data), name);
        let entry = DataView { data_id: id, name, bytes };
        Ok(WriterState { data: if j >= 0 { s.data.update(j, entry) } else { s.data.push(entry) }, ..s })
    }
}

/// Removing `name` is defined: when an entry of that name exists, its format
/// is listed and holds a reference.
pub open spec fn remove_data_defined(st: WriterState, name: Seq<char>) -> bool {
    let j = first_index(data_names(st.data), name);
    j >= 0 ==> {
        let k = first_index(entry_ids(st.formats), st.data[j].data_id);
        k >= 0 && st.formats[k].refs >= 1
    }
}

/// The writer after removing the first entry named `name`: its format loses a
/// reference and, at none left, leaves the table and gives its id back.
pub open spec fn remove_data_state(st: WriterState, name: Seq<char>) -> WriterState {
    let j = first_index(data_names(st.data), name);
    if j < 0 {
        st
    } else {
        let k = first_index(entry_ids(st.formats), st.data[j].data_id);
        let f = st.formats[k];
        let refs = (f.refs - 1) as u32;
        if refs == 0 {
            WriterState { data: st.data.remove(j), formats: st.formats.remove(k), id_pool: st.id_pool.push(f.data_id), ..st }
        } else {
            WriterState { data: st.data.remove(j), formats: st.formats.update(k, FormatEntry { data_id: f.data_id, name: f.name, refs }), ..st }
        }
    }
}

/// The largest of `start` and `ids`.
pub open spec fn max_id(ids: Seq<u32>, start: u32) -> u32
    decreases ids.len(),
{
    if ids.len() == 0 {
        start
    } else {
        let m = max_id(ids.drop_last(), start);
        if m < ids.last() {
            ids.last()
        } else {
            m
        }
    }
}

/// How many entries of `data` find their format at position `i` of `ids`.
pub open spec fn ref_count(ids: Seq<u32>, data: Seq<DataView>, i: int) -> nat
    decreases data.len(),
{
    if data.len() == 0 {
        0
    } else {
        ref_count(ids, data.drop_last(), i) + if first_index(ids, data.last().data_id) == i {
            1nat
        } else {
            0nat
        }
    }
}

/// Every format of `content` is referred to by at most `u32::MAX` entries.
pub open spec fn ref_counts_fit(content: FileContent) -> bool {
    forall|i: int| 0 <= i < content.formats.len() ==> #[trigger] ref_count(view_ids(content.formats), content.data, i) <= u32::MAX
}

/// A writer made from a file that was read: the same strings, formats and
/// entries, each format counting the entries that find it first by id, and
/// the id counter at the largest of 0xFF and the listed ids.
pub open spec fn writer_state_of_content(content: FileContent) -> WriterState {
    let ids = view_ids(content.formats);
    WriterState {
        build_name: content.build_name,
        build_version: content.build_version,
        id_last: max_id(ids, 0xFF),
        id_pool: Seq::empty(),
        formats: Seq::new(
            content.formats.len(),
            |i: int| FormatEntry { data_id: content.formats[i].data_id, name: content.formats[i].name, refs: ref_count(ids, content.data, i) as u32 },
        ),
        data: content.data,
    }
}

/// What a writer writes out: its strings, its format table without the
/// reference counts, and its entries.
pub open spec fn written_content(st: WriterState) -> FileContent {
    FileContent {
        build_name: st.build_name,
        build_version: st.build_version,
        formats: st.formats.map_values(|f: FormatEntry| FormatView { data_id: f.data_id, name: f.name }),
        data: st.data,
    }
}


/// An entry as its user sees it: its name, the name of its format, its bytes.
pub open spec fn entry_of(st: WriterState, d: DataView) -> (Seq<char>, Seq<char>, Seq<u8>) {
    (d.name, st.formats[first_index(entry_ids(st.formats), d.data_id)].name, d.bytes)
}

/// The writer's entries as their user sees them, in order.
pub open spec fn writer_entries(st: WriterState) -> Seq<(Seq<char>, Seq<char>, Seq<u8>)> {
    st.data.map_values(|d: DataView| entry_of(st, d))
}

/// Adding the entries `es` one after the other, stopping at the first refusal.
pub open spec fn add_entries(st: WriterState, es: Seq<(Seq<char>, Seq<char>, Seq<u8>)>) -> Result<WriterState, XPBFWriterDataAddError>
    decreases es.len(),
{
    if es.len() == 0 {
        Ok(st)
    } else {
        match add_entries(st, es.drop_last()) {
            Ok(s) => add_data_result(s, es.last().0, es.last().1, es.last().2),
            Err(e) => Err(e),
        }
    }
}

/// Some addition of `add_entries` would overflow an integer inside a writer
/// whose ids go up to `id_max`.
pub open spec fn add_entries_overflow(st: WriterState, es: Seq<(Seq<char>, Seq<char>, Seq<u8>)>, id_max: u32) -> bool {
    exists|k: int|
        0 <= k < es.len() && (#[trigger] add_entries(st, es.take(k)) matches Ok(s) && add_data_overflows(s, es[k].0, es[k].1, id_max))
}

/// Once adding a prefix of the entries is refused, adding any longer prefix
/// is refused in the same way.
pub proof fn lemma_add_entries_refusal_stays(st: WriterState, es: Seq<(Seq<char>, Seq<char>, Seq<u8>)>, i: int, n: int)
    requires
        0 <= i <= n <= es.len(),
        add_entries(st, es.take(i)) is Err,
    ensures
        add_entries(st, es.take(n)) == add_entries(st, es.take(i)),
    decreases n - i,
{
    if n > i {
        lemma_add_entries_refusal_stays(st, es, i, n - 1);
        assert(es.take(n).drop_last() =~= es.take(n - 1));
    }
}

/// Adding one more entry after a prefix.
pub proof fn lemma_add_entries_step(st: WriterState, es: Seq<(Seq<char>, Seq<char>, Seq<u8>)>, i: int)
    requires
        0 <= i < es.len(),
    ensures
        add_entries(st, es.take(i + 1)) == match add_entries(st, es.take(i)) {
            Ok(s) => add_data_result(s, es[i].0, es[i].1, es[i].2),
            Err(e) => Err(e),
        },
{
    assert(es.take(i + 1).drop_last() =~= es.take(i));
    assert(es.take(i + 1).last() == es[i]);
}


/// A writer made from a file lists the file's format ids and names.
pub proof fn lemma_writer_of_content_formats(content: FileContent)
    ensures
        entry_ids(writer_state_of_content(content).formats) == view_ids(content.formats),
        entry_names(writer_state_of_content(content).formats) == content.formats.map_values(|f: FormatView| f.name),
        data_ids_listed(content.formats, content.data) ==> state_data_ids_listed(writer_state_of_content(content)),
{
    assert(entry_ids(writer_state_of_content(content).formats) =~= view_ids(content.formats));
    assert(entry_names(writer_state_of_content(content).formats) =~= content.formats.map_values(|f: FormatView| f.name));
}

/// A format is referred to by at most as many entries as there are.
pub proof fn lemma_ref_count_bound(ids: Seq<u32>, data: Seq<DataView>, i: int)
    ensures
        ref_count(ids, data, i) <= data.len(),
    decreases data.len(),
{
    if data.len() > 0 {
        lemma_ref_count_bound(ids, data.drop_last(), i);
    }
}

/// The format that an entry finds first by id is referred to at least once.
pub proof fn lemma_ref_count_positive(ids: Seq<u32>, data: Seq<DataView>, j: int)
    requires
        0 <= j < data.len(),
    ensures
        ref_count(ids, data, first_index(ids, data[j].data_id)) >= 1,
    decreases data.len(),
{
    if j < data.len() - 1 {
        lemma_ref_count_positive(ids, data.drop_last(), j);
    }
}

/// Counting over one more entry.
pub proof fn lemma_ref_count_step(ids: Seq<u32>, data: Seq<DataView>, n: int, i: int)
    requires
        0 <= n < data.len(),
    ensures
        ref_count(ids, data.take(n + 1), i) == ref_count(ids, data.take(n), i) + if first_index(ids, data[n].data_id) == i {
            1nat
        } else {
            0nat
        },
{
    assert(data.take(n + 1).drop_last() =~= data.take(n));
}

/// Taking the maximum over one more id.
pub proof fn lemma_max_id_step(ids: Seq<u32>, start: u32, n: int)
    requires
        0 <= n < ids.len(),
    ensures
        max_id(ids.take(n + 1), start) == if max_id(ids.take(n), start) < ids[n] {
            ids[n]
        } else {
            max_id(ids.take(n), start)
        },
{
    assert(ids.take(n + 1).drop_last() =~= ids.take(n));
}


/// Removing an entry from a writer made from a file that was read is
/// defined: the entry's format is listed and counts the entry.
pub proof fn lemma_remove_defined_of_content(content: FileContent, name: Seq<char>)
    requires
        data_ids_listed(content.formats, content.data),
        ref_counts_fit(content),
    ensures
        remove_data_defined(writer_state_of_content(content), name),
{
    let st = writer_state_of_content(content);
    let ids = view_ids(content.formats);
    lemma_writer_of_content_formats(content);
    let j = first_index(data_names(st.data), name);
    if j >= 0 {
        lemma_first_index(data_names(st.data), name);
        assert(data_names(st.data).contains(name));
        let id = st.data[j].data_id;
        assert(ids.contains(content.data[j].data_id));
        lemma_first_index(ids, id);
        let k = first_index(ids, id);
        lemma_ref_count_positive(ids, content.data, j);
        assert(ref_count(ids, content.data, k) <= u32::MAX);
    }
}


/// A writer built from a fresh one by additions alone: no released ids,
/// distinct format ids at most the counter, which stays within `id_max`, and
/// a listed format for every entry.
pub open spec fn built_by_additions(st: WriterState, id_max: u32) -> bool {
    &&& st.id_pool.len() == 0
    &&& 0xFF <= st.id_last <= id_max
    &&& forall|i: int| 0 <= i < st.formats.len() ==> #[trigger] st.formats[i].data_id <= st.id_last
    &&& forall|i: int, j: int| 0 <= i < st.formats.len() && 0 <= j < st.formats.len() && i != j
        ==> #[trigger] st.formats[i].data_id != #[trigger] st.formats[j].data_id
    &&& state_data_ids_listed(st)
}

/// With distinct ids, a format is the first of its id.
proof fn lemma_distinct_ids_first(fs: Seq<FormatEntry>, i: int)
    requires
        0 <= i < fs.len(),
        forall|a: int, b: int| 0 <= a < fs.len() && 0 <= b < fs.len() && a != b ==> #[trigger] fs[a].data_id != #[trigger] fs[b].data_id,
    ensures
        first_index(entry_ids(fs), fs[i].data_id) == i,
{
    let ids = entry_ids(fs);
    assert forall|j: int| 0 <= j < i implies ids[j] != fs[i].data_id by {
        assert(ids[j] == fs[j].data_id);
    }
    assert(is_first_index(ids, fs[i].data_id, i));
    lemma_first_index(ids, fs[i].data_id);
}

/// One addition to a writer built by additions appends exactly the entry and
/// keeps the writer built by additions.
proof fn lemma_add_to_built(st: WriterState, name: Seq<char>, format: Seq<char>, bytes: Seq<u8>, id_max: u32)
    requires
        built_by_additions(st, id_max),
        !add_data_overflows(st, name, format, id_max),
        add_data_result(st, name, format, bytes) is Ok,
    ensures
        built_by_additions(add_data_result(st, name, format, bytes)->Ok_0, id_max),
        writer_entries(add_data_result(st, name, format, bytes)->Ok_0) == writer_entries(st).push((name, format, bytes)),
        add_data_result(st, name, format, bytes)->Ok_0.build_name == st.build_name,
        add_data_result(st, name, format, bytes)->Ok_0.build_version == st.build_version,
{
    let next = add_data_result(st, name, format, bytes)->Ok_0;
    let i = format_named(st, format);
    lemma_first_index(entry_names(st.formats), format);
    let ids = entry_ids(st.formats);
    let nids = entry_ids(next.formats);
    let id = next.data.last().data_id;
    if i >= 0 {
        assert(nids =~= ids);
        assert(next.formats[i].name == format);
        lemma_distinct_ids_first(next.formats, i);
        assert forall|k: int| 0 <= k < st.data.len() implies #[trigger] entry_of(next, st.data[k]) == entry_of(st, st.data[k]) by {
            let kid = st.data[k].data_id;
            assert(ids.contains(kid));
            lemma_first_index(ids, kid);
            let f = first_index(ids, kid);
            assert(next.formats[f].name == st.formats[f].name);
        }
        assert(nids.contains(id)) by {
            assert(nids[i] == id);
        }
    } else {
        let n = st.formats.len() as int;
        assert(nids =~= ids.push(id));
        assert(next.formats[n].name == format);
        assert(id == st.id_last + 1);
        lemma_distinct_ids_first(next.formats, n);
        assert forall|k: int| 0 <= k < st.data.len() implies #[trigger] entry_of(next, st.data[k]) == entry_of(st, st.data[k]) by {
            let kid = st.data[k].data_id;
            assert(ids.contains(kid));
            lemma_first_index(ids, kid);
            let f = first_index(ids, kid);
            assert(is_first_index(nids, kid, f));
            lemma_first_index(nids, kid);
        }
        assert(nids.contains(id)) by {
            assert(nids[n] == id);
        }
    }
    assert forall|k: int| 0 <= k < next.data.len() implies nids.contains(#[trigger] next.data[k].data_id) by {
        if k < st.data.len() {
            let kid = st.data[k].data_id;
            assert(ids.contains(kid));
            let w = choose|w: int| 0 <= w < ids.len() && ids[w] == kid;
            assert(nids[w] == kid);
        }
    }
    assert(writer_entries(next) =~= writer_entries(st).push((name, format, bytes)));
}

/// Adding entries one after the other to a fresh writer, without overflow,
/// gives a writer whose entries are exactly those, with the same strings.
pub proof fn lemma_add_entries_keeps_entries(base: WriterState, es: Seq<(Seq<char>, Seq<char>, Seq<u8>)>, id_max: u32)
    requires
        base == new_writer_state(base.build_name, base.build_version),
        0xFF <= id_max,
        !add_entries_overflow(base, es, id_max),
        add_entries(base, es) is Ok,
    ensures
        writer_entries(add_entries(base, es)->Ok_0) == es,
        built_by_additions(add_entries(base, es)->Ok_0, id_max),
        add_entries(base, es)->Ok_0.build_name == base.build_name,
        add_entries(base, es)->Ok_0.build_version == base.build_version,
    decreases es.len(),
{
    if es.len() == 0 {
        assert(writer_entries(base) =~= es);
    } else {
        let prefix = es.drop_last();
        assert(add_entries(base, prefix) is Ok);
        assert forall|k: int| 0 <= k < prefix.len() implies !(#[trigger] add_entries(base, prefix.take(k)) matches Ok(s)
            && add_data_overflows(s, prefix[k].0, prefix[k].1, id_max)) by {
            assert(prefix.take(k) =~= es.take(k));
            if add_entries(base, es.take(k)) matches Ok(s) && add_data_overflows(s, es[k].0, es[k].1, id_max) {
                assert(add_entries_overflow(base, es, id_max));
            }
        }
        lemma_add_entries_keeps_entries(base, prefix, id_max);
        let s = add_entries(base, prefix)->Ok_0;
        let last = es.last();
        assert(es.take(es.len() - 1) =~= prefix);
        if add_data_overflows(s, last.0, last.1, id_max) {
            assert(add_entries(base, es.take(es.len() - 1)) matches Ok(s0) && add_data_overflows(s0, es[es.len() - 1].0, es[es.len() - 1].1, id_max));
        }
        lemma_add_to_built(s, last.0, last.1, last.2, id_max);
        assert(prefix.push(last) =~= es);
    }
}


/// Converting to the other family and back, without overflow, gives the
/// entries (name, format name, bytes) and build strings one started with.
pub proof fn lemma_convert_round_trip(st: WriterState, id_there: u32, id_back: u32)
    requires
        0xFF <= id_there,
        0xFF <= id_back,
        !add_entries_overflow(new_writer_state(st.build_name, st.build_version), writer_entries(st), id_there),
        add_entries(new_writer_state(st.build_name, st.build_version), writer_entries(st)) is Ok,
        ({
            let s1 = add_entries(new_writer_state(st.build_name, st.build_version), writer_entries(st))->Ok_0;
            &&& !add_entries_overflow(new_writer_state(s1.build_name, s1.build_version), writer_entries(s1), id_back)
            &&& add_entries(new_writer_state(s1.build_name, s1.build_version), writer_entries(s1)) is Ok
        }),
    ensures
        ({
            let s1 = add_entries(new_writer_state(st.build_name, st.build_version), writer_entries(st))->Ok_0;
            let s2 = add_entries(new_writer_state(s1.build_name, s1.build_version), writer_entries(s1))->Ok_0;
            &&& writer_entries(s2) == writer_entries(st)
            &&& s2.build_name == st.build_name
            &&& s2.build_version == st.build_version
        }),
{
    let b1 = new_writer_state(st.build_name, st.build_version);
    lemma_add_entries_keeps_entries(b1, writer_entries(st), id_there);
    let s1 = add_entries(b1, writer_entries(st))->Ok_0;
    let b2 = new_writer_state(s1.build_name, s1.build_version);
    lemma_add_entries_keeps_entries(b2, writer_entries(s1), id_back);
}

/// The entries of a file's content as their user sees them: name, name of
/// the first format with the entry's id, bytes.
pub open spec fn content_entries(c: FileContent) -> Seq<(Seq<char>, Seq<char>, Seq<u8>)> {
    c.data.map_values(|d: DataView| (d.name, c.formats[first_index(view_ids(c.formats), d.data_id)].name, d.bytes))
}

/// What a writer writes shows the writer's entries.
pub proof fn lemma_written_entries(st: WriterState)
    requires
        state_data_ids_listed(st),
    ensures
        content_entries(written_content(st)) == writer_entries(st),
        data_ids_listed(written_content(st).formats, written_content(st).data),
{
    let c = written_content(st);
    assert(view_ids(c.formats) =~= entry_ids(st.formats));
    assert forall|i: int| 0 <= i < st.data.len() implies #[trigger] content_entries(c)[i] == writer_entries(st)[i] by {
        let id = st.data[i].data_id;
        assert(entry_ids(st.formats).contains(id));
        lemma_first_index(entry_ids(st.formats), id);
    }
    assert(content_entries(c) =~= writer_entries(st));
}

/// A writer made from a file's content writes that content back.
pub proof fn lemma_content_written_back(c: FileContent)
    ensures
        written_content(writer_state_of_content(c)) == c,
{
    let w = written_content(writer_state_of_content(c));
    assert(w.formats =~= c.formats);
}


/// Two entries that find the same format first by id are both counted.
proof fn lemma_ref_count_two(ids: Seq<u32>, data: Seq<DataView>, i: int, j: int)
    requires
        0 <= i < j < data.len(),
        first_index(ids, data[i].data_id) == first_index(ids, data[j].data_id),
    ensures
        ref_count(ids, data, first_index(ids, data[i].data_id)) >= 2,
    decreases data.len(),
{
    let prefix = data.drop_last();
    assert(prefix[i] == data[i]);
    if j == data.len() - 1 {
        lemma_ref_count_positive(ids, prefix, i);
    } else {
        assert(prefix[j] == data[j]);
        lemma_ref_count_two(ids, prefix, i, j);
    }
}

/// Removing an entry from a writer made from a file that was read keeps a
/// format listed for every entry, and writes the other entries back in
/// order, each with the name of its format.
pub proof fn lemma_remove_of_content(c: FileContent, name: Seq<char>)
    requires
        data_ids_listed(c.formats, c.data),
        ref_counts_fit(c),
        data_names(c.data).contains(name),
    ensures
        state_data_ids_listed(remove_data_state(writer_state_of_content(c), name)),
        content_entries(written_content(remove_data_state(writer_state_of_content(c), name)))
            == content_entries(c).remove(first_index(data_names(c.data), name)),
{
    let st = writer_state_of_content(c);
    let ids = view_ids(c.formats);
    lemma_writer_of_content_formats(c);
    let names = data_names(c.data);
    lemma_first_index(names, name);
    let j = first_index(names, name);
    let idj = c.data[j].data_id;
    assert(ids.contains(idj));
    lemma_first_index(ids, idj);
    let k = first_index(ids, idj);
    lemma_ref_count_positive(ids, c.data, j);
    assert(ref_count(ids, c.data, k) <= u32::MAX);
    assert(st.formats[k].refs == ref_count(ids, c.data, k));
    let next = remove_data_state(st, name);
    let nids = entry_ids(next.formats);
    let wc = written_content(next);
    assert(view_ids(wc.formats) =~= nids);
    assert(next.data =~= c.data.remove(j));
    assert forall|m: int| 0 <= m < next.data.len() implies nids.contains(#[trigger] next.data[m].data_id)
        && next.formats[first_index(nids, next.data[m].data_id)].name == c.formats[first_index(ids, next.data[m].data_id)].name by {
        let o = if m < j { m } else { m + 1 };
        assert(next.data[m] == c.data[o]);
        let id = c.data[o].data_id;
        assert(ids.contains(id));
        lemma_first_index(ids, id);
        let k2 = first_index(ids, id);
        if ref_count(ids, c.data, k) == 1 {
            if k2 == k {
                if o < j {
                    lemma_ref_count_two(ids, c.data, o, j);
                } else {
                    lemma_ref_count_two(ids, c.data, j, o);
                }
            }
            assert(nids =~= ids.remove(k));
            let p = if k2 < k { k2 } else { k2 - 1 };
            assert(nids[p] == id);
            assert forall|q: int| 0 <= q < p implies nids[q] != id by {
                let q2 = if q < k { q } else { q + 1 };
                assert(nids[q] == ids[q2]);
            }
            assert(is_first_index(nids, id, p));
            lemma_first_index(nids, id);
            assert(next.formats[p] == st.formats[k2]);
        } else {
            assert(nids =~= ids);
            lemma_first_index(nids, id);
            assert(next.formats[k2].name == st.formats[k2].name);
        }
    }
    assert forall|m: int| 0 <= m < next.data.len() implies #[trigger] content_entries(wc)[m] == content_entries(c).remove(j)[m] by {
        let o = if m < j { m } else { m + 1 };
        let id = next.data[m].data_id;
        assert(next.data[m] == c.data[o]);
        assert(nids.contains(id));
        lemma_first_index(nids, id);
        let p = first_index(nids, id);
        assert(wc.formats[p].name == next.formats[p].name);
        assert(content_entries(c).remove(j)[m] == content_entries(c)[o]);
    }
    assert(content_entries(wc) =~= content_entries(c).remove(j));
}

/// `max_id` is at least its start and every id, and at most any bound of them.
pub proof fn lemma_max_id_bounds(ids: Seq<u32>, start: u32, bound: u32)
    ensures
        start <= max_id(ids, start),
        forall|k: int| 0 <= k < ids.len() ==> #[trigger] ids[k] <= max_id(ids, start),
        start <= bound && (forall|k: int| 0 <= k < ids.len() ==> #[trigger] ids[k] <= bound) ==> max_id(ids, start) <= bound,
    decreases ids.len(),
{
    if ids.len() > 0 {
        let prefix = ids.drop_last();
        lemma_max_id_bounds(prefix, start, bound);
        assert forall|k: int| 0 <= k < ids.len() implies #[trigger] ids[k] <= max_id(ids, start) by {
            if k < prefix.len() {
                assert(prefix[k] == ids[k]);
            }
        }
        if start <= bound && (forall|k: int| 0 <= k < ids.len() ==> #[trigger] ids[k] <= bound) {
            assert forall|k: int| 0 <= k < prefix.len() implies #[trigger] prefix[k] <= bound by {
                assert(prefix[k] == ids[k]);
            }
        }
    }
}

/// Writing an entry into a writer made from a file that was read keeps the
/// build strings and every other entry, with the name of its format, in
/// place; a new name is appended.
pub proof fn lemma_overwrite_of_content(c: FileContent, name: Seq<char>, format: Seq<char>, bytes: Seq<u8>, id_max: u32)
    requires
        data_ids_listed(c.formats, c.data),
        max_id(view_ids(c.formats), 0xFF) <= id_max,
        !format_lookup_overflows(writer_state_of_content(c), format, id_max),
        overwrite_data_result(writer_state_of_content(c), name, format, bytes) is Ok,
    ensures
        ({
            let next = overwrite_data_result(writer_state_of_content(c), name, format, bytes)->Ok_0;
            let j = first_index(data_names(c.data), name);
            let before = content_entries(c);
            let after = content_entries(written_content(next));
            &&& next.build_name == c.build_name
            &&& next.build_version == c.build_version
            &&& after.len() == if j >= 0 { before.len() } else { before.len() + 1 }
            &&& forall|k: int| 0 <= k < before.len() && k != j ==> #[trigger] after[k] == before[k]
        }),
{
    let st = writer_state_of_content(c);
    let ids = view_ids(c.formats);
    lemma_writer_of_content_formats(c);
    let next = overwrite_data_result(st, name, format, bytes)->Ok_0;
    let (s, id) = format_lookup(st, format);
    lemma_first_index(entry_names(st.formats), format);
    let i = format_named(st, format);
    let nids = entry_ids(next.formats);
    let wc = written_content(next);
    assert(view_ids(wc.formats) =~= nids);
    let j = first_index(data_names(c.data), name);
    lemma_first_index(data_names(c.data), name);
    assert(s.data == c.data);
    assert(first_index(data_names(s.data), name) == j);
    let entry = DataView { data_id: id, name, bytes };
    if j >= 0 {
        assert(next.data == c.data.update(j, entry));
    } else {
        assert(next.data == c.data.push(entry));
    }
    if i < 0 {
        lemma_max_id_bounds(ids, 0xFF, id_max);
        assert(st.id_last < id_max);
        assert(nids =~= ids.push(id));
        assert forall|k: int| 0 <= k < ids.len() implies #[trigger] ids[k] != id by {}
    } else {
        assert(nids =~= ids);
    }
    let before = content_entries(c);
    let after = content_entries(wc);
    assert forall|k: int| 0 <= k < before.len() && k != j implies #[trigger] after[k] == before[k] by {
        assert(next.data[k] == c.data[k]);
        let kid = c.data[k].data_id;
        assert(ids.contains(kid));
        lemma_first_index(ids, kid);
        let p = first_index(ids, kid);
        if i < 0 {
            assert(is_first_index(nids, kid, p));
        }
        lemma_first_index(nids, kid);
        assert(wc.formats[p].name == next.formats[p].name);
        assert(next.formats[p].name == c.formats[p].name);
    }
}

/// With distinct format ids in the file, the entry that writing `name` into a
/// writer made from it leaves first under that name refers to a format named
/// `format`.
pub proof fn lemma_overwrite_entry_of_content(c: FileContent, name: Seq<char>, format: Seq<char>, bytes: Seq<u8>, id_max: u32)
    requires
        data_ids_listed(c.formats, c.data),
        max_id(view_ids(c.formats), 0xFF) <= id_max,
        !format_lookup_overflows(writer_state_of_content(c), format, id_max),
        overwrite_data_result(writer_state_of_content(c), name, format, bytes) is Ok,
        forall|a: int, b: int| #![trigger view_ids(c.formats)[a], view_ids(c.formats)[b]]
            0 <= a < c.formats.len() && 0 <= b < c.formats.len() && a != b ==> view_ids(c.formats)[a] != view_ids(c.formats)[b],
    ensures
        ({
            let next = overwrite_data_result(writer_state_of_content(c), name, format, bytes)->Ok_0;
            let w = written_content(next);
            let j = first_index(data_names(w.data), name);
            j >= 0 && content_entries(w)[j] == (name, format, bytes)
        }),
{
    let st = writer_state_of_content(c);
    let ids = view_ids(c.formats);
    lemma_writer_of_content_formats(c);
    let next = overwrite_data_result(st, name, format, bytes)->Ok_0;
    let (s, id) = format_lookup(st, format);
    lemma_first_index(entry_names(st.formats), format);
    let i = format_named(st, format);
    let nids = entry_ids(next.formats);
    let w = written_content(next);
    assert(view_ids(w.formats) =~= nids);
    lemma_overwrite_reads_back(st, name, format, bytes);
    let j = first_index(data_names(w.data), name);
    lemma_first_index(data_names(w.data), name);
    let entry = DataView { data_id: id, name, bytes };
    let jn = first_index(data_names(s.data), name);
    lemma_first_index(data_names(s.data), name);
    assert(s.data == c.data);
    if jn >= 0 {
        assert(next.data == c.data.update(jn, entry));
        assert(data_names(next.data) =~= data_names(c.data));
        assert(j == jn);
    } else {
        assert(next.data == c.data.push(entry));
        assert(data_names(next.data) =~= data_names(c.data).push(name));
        assert(is_first_index(data_names(next.data), name, c.data.len() as int)) by {
            assert forall|k: int| 0 <= k < c.data.len() implies data_names(next.data)[k] != name by {
                assert(data_names(next.data)[k] == data_names(c.data)[k]);
                if data_names(c.data)[k] == name {
                    assert(data_names(c.data).contains(name));
                }
            }
        }
        lemma_first_index(data_names(next.data), name);
    }
    assert(w.data[j] == entry);
    let p = if i >= 0 { i } else { ids.len() as int };
    if i >= 0 {
        assert(nids =~= ids);
        assert(nids[i] == id);
        assert(is_first_index(nids, id, i)) by {
            assert forall|k: int| 0 <= k < i implies nids[k] != id by {
                assert(nids[k] == ids[k] && ids[i] == id);
            }
        }
    } else {
        lemma_max_id_bounds(ids, 0xFF, id_max);
        assert(nids =~= ids.push(id));
        assert(is_first_index(nids, id, p)) by {
            assert forall|k: int| 0 <= k < p implies nids[k] != id by {
                assert(nids[k] == ids[k]);
            }
        }
    }
    lemma_first_index(nids, id);
    assert(w.formats[p].name == next.formats[p].name);
    assert(content_entries(w)[j] == (name, format, bytes));
}

/// Adding or overwriting an entry keeps a format listed for every entry.
pub proof fn lemma_overwrite_keeps_listed(st: WriterState, name: Seq<char>, format: Seq<char>, bytes: Seq<u8>)
    requires
        state_data_ids_listed(st),
        overwrite_data_result(st, name, format, bytes) is Ok,
    ensures
        state_data_ids_listed(overwrite_data_result(st, name, format, bytes)->Ok_0),
{
    let next = overwrite_data_result(st, name, format, bytes)->Ok_0;
    let (s, id) = format_lookup(st, format);
    let ids = entry_ids(st.formats);
    let nids = entry_ids(next.formats);
    lemma_first_index(entry_names(st.formats), format);
    let i = format_named(st, format);
    if i >= 0 {
        assert(nids =~= ids);
        assert(nids[i] == id);
    } else {
        assert(nids =~= ids.push(id));
        assert(nids[ids.len() as int] == id);
    }
    let jn = first_index(data_names(s.data), name);
    lemma_first_index(data_names(s.data), name);
    assert(s.data == st.data);
    let entry = DataView { data_id: id, name, bytes };
    assert forall|k: int| 0 <= k < next.data.len() implies nids.contains(#[trigger] next.data[k].data_id) by {
        if next.data[k].data_id != id {
            if jn >= 0 {
                assert(next.data == s.data.update(jn, entry));
                assert(next.data[jn] == entry);
                assert(k != jn);
            } else {
                assert(next.data == s.data.push(entry));
                assert(k != s.data.len());
            }
            assert(k < st.data.len());
            assert(next.data[k] == st.data[k]);
            let kid = st.data[k].data_id;
            assert(ids.contains(kid));
            let w = choose|w: int| 0 <= w < ids.len() && ids[w] == kid;
            assert(nids[w] == kid);
        }
    }
}

/// After adding or overwriting the entry `name`, the first entry of that
/// name holds the new bytes.
pub proof fn lemma_overwrite_reads_back(st: WriterState, name: Seq<char>, format: Seq<char>, bytes: Seq<u8>)
    requires
        overwrite_data_result(st, name, format, bytes) is Ok,
    ensures
        ({
            let data = overwrite_data_result(st, name, format, bytes)->Ok_0.data;
            let j = first_index(data_names(data), name);
            j >= 0 && data[j].bytes == bytes
        }),
{
    let next = overwrite_data_result(st, name, format, bytes)->Ok_0;
    let names = data_names(st.data);
    let nnames = data_names(next.data);
    lemma_first_index(names, name);
    let j = first_index(names, name);
    if j >= 0 {
        assert(nnames =~= names);
        lemma_first_index(nnames, name);
    } else {
        assert(nnames =~= names.push(name));
        let n = names.len() as int;
        assert forall|k: int| 0 <= k < n implies nnames[k] != name by {
            assert(nnames[k] == names[k]);
            if names[k] == name {
                assert(names.contains(name));
            }
        }
        assert(is_first_index(nnames, name, n));
        lemma_first_index(nnames, name);
    }
}

} // verus!
