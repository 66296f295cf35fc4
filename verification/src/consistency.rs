//! The consistency of a writer's format table, and why every operation of a
//! writer keeps it: format ids are distinct and never above the id counter,
//! released ids are distinct and unused, every entry's format is listed, and
//! every format counts at least the entries that refer to it.
use vstd::prelude::*;
use crate::model::{
    add_data_overflows, add_data_result, data_names, entry_ids, first_index, format_ids_exhausted,
    format_lookup, format_lookup_overflows, format_named, entry_names, is_first_index,
    lemma_first_index, max_id, new_writer_state, overwrite_data_result, ref_count, ref_counts_fit,
    remove_data_defined, remove_data_state, state_data_ids_listed, view_ids, writer_state_of_content,
    lemma_writer_of_content_formats, lemma_max_id_bounds, data_ids_listed, add_entries,
    add_entries_overflow, DataView, FileContent, WriterState,
};

verus! {

/// No id occurs twice in `ids`.
pub open spec fn ids_distinct(ids: Seq<u32>) -> bool {
    forall|i: int, j: int| #![trigger ids[i], ids[j]] 0 <= i < ids.len() && 0 <= j < ids.len() && i != j ==> ids[i] != ids[j]
}

/// The writer's table is consistent, for a family whose ids go up to `id_max`.
pub open spec fn writer_consistent(st: WriterState, id_max: u32) -> bool {
    let ids = entry_ids(st.formats);
    &&& st.id_last <= id_max
    &&& ids_distinct(ids)
    &&& forall|i: int| 0 <= i < ids.len() ==> #[trigger] ids[i] <= st.id_last
    &&& ids_distinct(st.id_pool)
    &&& forall|i: int| 0 <= i < st.id_pool.len() ==> #[trigger] st.id_pool[i] <= st.id_last && !ids.contains(st.id_pool[i])
    &&& state_data_ids_listed(st)
    &&& forall|k: int| 0 <= k < st.formats.len() ==> ref_count(ids, st.data, k) <= #[trigger] st.formats[k].refs
}

/// With distinct ids, each id is first at its own position.
proof fn lemma_distinct_first(ids: Seq<u32>, p: int)
    requires
        ids_distinct(ids),
        0 <= p < ids.len(),
    ensures
        first_index(ids, ids[p]) == p,
{
    assert(is_first_index(ids, ids[p], p));
    lemma_first_index(ids, ids[p]);
}

/// Appending an id keeps the first position of every id already there.
proof fn lemma_first_index_push(ids: Seq<u32>, x: u32, y: u32)
    requires
        ids.contains(y),
    ensures
        first_index(ids.push(x), y) == first_index(ids, y),
{
    lemma_first_index(ids, y);
    let p = first_index(ids, y);
    assert(is_first_index(ids.push(x), y, p));
    lemma_first_index(ids.push(x), y);
}

/// An appended new id is first at the end.
proof fn lemma_first_index_push_new(ids: Seq<u32>, x: u32)
    requires
        !ids.contains(x),
    ensures
        first_index(ids.push(x), x) == ids.len(),
{
    let n = ids.len() as int;
    assert forall|j: int| 0 <= j < n implies ids.push(x)[j] != x by {
        assert(ids.push(x)[j] == ids[j]);
        if ids[j] == x {
            assert(ids.contains(x));
        }
    }
    assert(is_first_index(ids.push(x), x, n));
    lemma_first_index(ids.push(x), x);
}

/// Removing the id at `k` from distinct ids moves every later one down.
proof fn lemma_first_index_remove(ids: Seq<u32>, k: int, p: int)
    requires
        ids_distinct(ids),
        0 <= k < ids.len(),
        0 <= p < ids.len(),
        p != k,
    ensures
        first_index(ids.remove(k), ids[p]) == if p < k { p } else { p - 1 },
{
    let r = ids.remove(k);
    let q = if p < k { p } else { p - 1 };
    assert(r[q] == ids[p]);
    assert forall|j: int| 0 <= j < q implies r[j] != ids[p] by {
        let j2 = if j < k { j } else { j + 1 };
        assert(r[j] == ids[j2]);
    }
    assert(is_first_index(r, ids[p], q));
    lemma_first_index(r, ids[p]);
}

/// Two id tables that send every entry to the chosen formats alike count
/// alike.
proof fn lemma_ref_count_congruent(ids1: Seq<u32>, ids2: Seq<u32>, data: Seq<DataView>, k1: int, k2: int)
    requires
        forall|i: int| 0 <= i < data.len() ==> (first_index(ids1, #[trigger] data[i].data_id) == k1) == (first_index(ids2, data[i].data_id) == k2),
    ensures
        ref_count(ids1, data, k1) == ref_count(ids2, data, k2),
    decreases data.len(),
{
    if data.len() > 0 {
        let prefix = data.drop_last();
        assert forall|i: int| 0 <= i < prefix.len() implies (first_index(ids1, #[trigger] prefix[i].data_id) == k1) == (first_index(ids2, prefix[i].data_id) == k2) by {
            assert(prefix[i] == data[i]);
        }
        lemma_ref_count_congruent(ids1, ids2, prefix, k1, k2);
        assert(data.last() == data[data.len() - 1]);
    }
}

/// A format that no entry finds first is referred to by none.
proof fn lemma_ref_count_zero(ids: Seq<u32>, data: Seq<DataView>, k: int)
    requires
        forall|i: int| 0 <= i < data.len() ==> first_index(ids, #[trigger] data[i].data_id) != k,
    ensures
        ref_count(ids, data, k) == 0,
    decreases data.len(),
{
    if data.len() > 0 {
        let prefix = data.drop_last();
        assert forall|i: int| 0 <= i < prefix.len() implies first_index(ids, #[trigger] prefix[i].data_id) != k by {
            assert(prefix[i] == data[i]);
        }
        lemma_ref_count_zero(ids, prefix, k);
        assert(data.last() == data[data.len() - 1]);
    }
}

/// Counting over one more entry at the end.
proof fn lemma_ref_count_push(ids: Seq<u32>, data: Seq<DataView>, d: DataView, k: int)
    ensures
        ref_count(ids, data.push(d), k) == ref_count(ids, data, k) + if first_index(ids, d.data_id) == k { 1nat } else { 0nat },
{
    assert(data.push(d).drop_last() =~= data);
}

/// Counting after one entry is replaced.
proof fn lemma_ref_count_update(ids: Seq<u32>, data: Seq<DataView>, j: int, d: DataView, k: int)
    requires
        0 <= j < data.len(),
    ensures
        ref_count(ids, data.update(j, d), k) + (if first_index(ids, data[j].data_id) == k { 1nat } else { 0nat })
            == ref_count(ids, data, k) + (if first_index(ids, d.data_id) == k { 1nat } else { 0nat }),
    decreases data.len(),
{
    let u = data.update(j, d);
    if j == data.len() - 1 {
        assert(u.drop_last() =~= data.drop_last());
    } else {
        assert(u.drop_last() =~= data.drop_last().update(j, d));
        lemma_ref_count_update(ids, data.drop_last(), j, d, k);
        assert(u.last() == data.last());
    }
}

/// Counting after one entry is removed.
proof fn lemma_ref_count_remove(ids: Seq<u32>, data: Seq<DataView>, j: int, k: int)
    requires
        0 <= j < data.len(),
    ensures
        ref_count(ids, data.remove(j), k) + (if first_index(ids, data[j].data_id) == k { 1nat } else { 0nat }) == ref_count(ids, data, k),
    decreases data.len(),
{
    let r = data.remove(j);
    if j == data.len() - 1 {
        assert(r =~= data.drop_last());
    } else {
        assert(r.drop_last() =~= data.drop_last().remove(j));
        lemma_ref_count_remove(ids, data.drop_last(), j, k);
        assert(r.last() == data.last());
    }
}

/// Looking a format up in a consistent writer keeps it consistent, lists the
/// id it returns, and leaves that format a reference to spare.
proof fn lemma_lookup_consistent(st: WriterState, format: Seq<char>, id_max: u32)
    requires
        writer_consistent(st, id_max),
        !format_lookup_overflows(st, format, id_max),
        !format_ids_exhausted(st, format),
    ensures
        ({
            let (s, id) = format_lookup(st, format);
            let nids = entry_ids(s.formats);
            &&& writer_consistent(s, id_max)
            &&& s.data == st.data
            &&& s.build_name == st.build_name
            &&& s.build_version == st.build_version
            &&& nids.contains(id)
            &&& ref_count(nids, s.data, first_index(nids, id)) + 1 <= s.formats[first_index(nids, id)].refs
        }),
{
    let (s, id) = format_lookup(st, format);
    let ids = entry_ids(st.formats);
    let nids = entry_ids(s.formats);
    lemma_first_index(entry_names(st.formats), format);
    let i = format_named(st, format);
    if i >= 0 {
        assert(nids =~= ids);
        lemma_distinct_first(ids, i);
        assert(nids[i] == id);
        assert forall|k: int| 0 <= k < s.formats.len() implies ref_count(nids, s.data, k) <= #[trigger] s.formats[k].refs by {
            assert(st.formats[k].refs <= s.formats[k].refs);
        }
        assert(first_index(nids, id) == i);
        assert(ref_count(ids, st.data, i) <= st.formats[i].refs);
        assert(s.formats[i].refs == st.formats[i].refs + 1);
    } else {
        let n = ids.len() as int;
        assert(nids =~= ids.push(id));
        if st.id_pool.len() > 0 {
            let last = st.id_pool.len() - 1;
            assert(st.id_pool[last] == id);
            assert(s.id_pool =~= st.id_pool.drop_last());
            assert forall|a: int| 0 <= a < s.id_pool.len() implies #[trigger] s.id_pool[a] <= s.id_last && !nids.contains(s.id_pool[a]) by {
                assert(s.id_pool[a] == st.id_pool[a]);
                if nids.contains(s.id_pool[a]) {
                    let w = choose|w: int| 0 <= w < nids.len() && nids[w] == s.id_pool[a];
                    if w < n {
                        assert(ids[w] == s.id_pool[a]);
                        assert(ids.contains(st.id_pool[a]));
                    }
                }
            }
        } else {
            assert(st.id_last < id_max);
            assert(id == st.id_last + 1);
        }
        assert(!ids.contains(id)) by {
            if ids.contains(id) {
                let w = choose|w: int| 0 <= w < ids.len() && ids[w] == id;
                assert(ids[w] <= st.id_last);
            }
        }
        assert(ids_distinct(nids)) by {
            assert forall|a: int, b: int| #![trigger nids[a], nids[b]] 0 <= a < nids.len() && 0 <= b < nids.len() && a != b implies nids[a] != nids[b] by {
                if a < n && b < n {
                    assert(nids[a] == ids[a] && nids[b] == ids[b]);
                } else if a < n {
                    assert(nids[a] == ids[a]);
                    assert(ids.contains(ids[a]));
                } else if b < n {
                    assert(nids[b] == ids[b]);
                    assert(ids.contains(ids[b]));
                }
            }
        }
        assert forall|a: int| 0 <= a < nids.len() implies #[trigger] nids[a] <= s.id_last by {
            if a < n {
                assert(nids[a] == ids[a]);
            }
        }
        lemma_first_index_push_new(ids, id);
        assert forall|k: int| 0 <= k < st.data.len() implies nids.contains(#[trigger] st.data[k].data_id) by {
            let kid = st.data[k].data_id;
            assert(ids.contains(kid));
            let w = choose|w: int| 0 <= w < ids.len() && ids[w] == kid;
            assert(nids[w] == kid);
        }
        assert forall|k: int| 0 <= k < s.formats.len() implies ref_count(nids, s.data, k) <= #[trigger] s.formats[k].refs by {
            if k < n {
                assert forall|a: int| 0 <= a < st.data.len() implies (first_index(nids, #[trigger] st.data[a].data_id) == k) == (first_index(ids, st.data[a].data_id) == k) by {
                    assert(ids.contains(st.data[a].data_id));
                    lemma_first_index_push(ids, id, st.data[a].data_id);
                }
                lemma_ref_count_congruent(nids, ids, st.data, k, k);
                assert(s.formats[k] == st.formats[k]);
            } else {
                assert forall|a: int| 0 <= a < st.data.len() implies first_index(nids, #[trigger] st.data[a].data_id) != k by {
                    assert(ids.contains(st.data[a].data_id));
                    lemma_first_index_push(ids, id, st.data[a].data_id);
                    lemma_first_index(ids, st.data[a].data_id);
                }
                lemma_ref_count_zero(nids, st.data, k);
            }
        }
        assert(nids[n] == id);
        assert forall|a: int| 0 <= a < st.data.len() implies first_index(nids, #[trigger] st.data[a].data_id) != n by {
            assert(ids.contains(st.data[a].data_id));
            lemma_first_index_push(ids, id, st.data[a].data_id);
            lemma_first_index(ids, st.data[a].data_id);
        }
        lemma_ref_count_zero(nids, st.data, n);
        assert(s.formats[n].refs == 1);
    }
}

/// A fresh writer is consistent.
pub proof fn lemma_new_consistent(build_name: Seq<char>, build_version: Seq<char>, id_max: u32)
    requires
        0xFF <= id_max,
    ensures
        writer_consistent(new_writer_state(build_name, build_version), id_max),
{
    let st = new_writer_state(build_name, build_version);
    assert(entry_ids(st.formats) =~= Seq::<u32>::empty());
}

/// Adding an entry to a consistent writer keeps it consistent.
pub proof fn lemma_add_consistent(st: WriterState, name: Seq<char>, format: Seq<char>, bytes: Seq<u8>, id_max: u32)
    requires
        writer_consistent(st, id_max),
        !add_data_overflows(st, name, format, id_max),
        add_data_result(st, name, format, bytes) is Ok,
    ensures
        writer_consistent(add_data_result(st, name, format, bytes)->Ok_0, id_max),
{
    let next = add_data_result(st, name, format, bytes)->Ok_0;
    lemma_lookup_consistent(st, format, id_max);
    let (s, id) = format_lookup(st, format);
    let nids = entry_ids(s.formats);
    let d = DataView { data_id: id, name, bytes };
    assert(next.data == s.data.push(d));
    assert(entry_ids(next.formats) == nids);
    assert forall|k: int| 0 <= k < next.data.len() implies nids.contains(#[trigger] next.data[k].data_id) by {
        if k < s.data.len() {
            assert(next.data[k] == s.data[k]);
        }
    }
    assert forall|k: int| 0 <= k < next.formats.len() implies ref_count(nids, next.data, k) <= #[trigger] next.formats[k].refs by {
        lemma_ref_count_push(nids, s.data, d, k);
    }
}

/// Adding or overwriting an entry of a consistent writer keeps it consistent.
pub proof fn lemma_overwrite_consistent(st: WriterState, name: Seq<char>, format: Seq<char>, bytes: Seq<u8>, id_max: u32)
    requires
        writer_consistent(st, id_max),
        !format_lookup_overflows(st, format, id_max),
        overwrite_data_result(st, name, format, bytes) is Ok,
    ensures
        writer_consistent(overwrite_data_result(st, name, format, bytes)->Ok_0, id_max),
{
    let next = overwrite_data_result(st, name, format, bytes)->Ok_0;
    lemma_lookup_consistent(st, format, id_max);
    let (s, id) = format_lookup(st, format);
    let nids = entry_ids(s.formats);
    let d = DataView { data_id: id, name, bytes };
    let jn = first_index(data_names(s.data), name);
    lemma_first_index(data_names(s.data), name);
    assert(entry_ids(next.formats) == nids);
    if jn >= 0 {
        assert(next.data == s.data.update(jn, d));
        assert forall|k: int| 0 <= k < next.data.len() implies nids.contains(#[trigger] next.data[k].data_id) by {
            if k != jn {
                assert(next.data[k] == s.data[k]);
            }
        }
        assert forall|k: int| 0 <= k < next.formats.len() implies ref_count(nids, next.data, k) <= #[trigger] next.formats[k].refs by {
            lemma_ref_count_update(nids, s.data, jn, d, k);
        }
    } else {
        assert(next.data == s.data.push(d));
        assert forall|k: int| 0 <= k < next.data.len() implies nids.contains(#[trigger] next.data[k].data_id) by {
            if k < s.data.len() {
                assert(next.data[k] == s.data[k]);
            }
        }
        assert forall|k: int| 0 <= k < next.formats.len() implies ref_count(nids, next.data, k) <= #[trigger] next.formats[k].refs by {
            lemma_ref_count_push(nids, s.data, d, k);
        }
    }
}

/// Removing an entry from a consistent writer is defined and keeps it
/// consistent.
pub proof fn lemma_remove_consistent(st: WriterState, name: Seq<char>, id_max: u32)
    requires
        writer_consistent(st, id_max),
    ensures
        remove_data_defined(st, name),
        writer_consistent(remove_data_state(st, name), id_max),
{
    let ids = entry_ids(st.formats);
    let names = data_names(st.data);
    lemma_first_index(names, name);
    let j = first_index(names, name);
    if j >= 0 {
        let idj = st.data[j].data_id;
        assert(ids.contains(idj));
        lemma_first_index(ids, idj);
        let k = first_index(ids, idj);
        lemma_ref_count_remove(ids, st.data, j, k);
        assert(ref_count(ids, st.data, k) >= 1);
        let next = remove_data_state(st, name);
        let f = st.formats[k];
        let data2 = st.data.remove(j);
        assert(next.data == data2);
        if f.refs == 1 {
            let nids = entry_ids(next.formats);
            assert(nids =~= ids.remove(k));
            assert(ref_count(ids, data2, k) == 0);
            // no remaining entry refers to the removed format
            assert forall|a: int| 0 <= a < data2.len() implies first_index(ids, #[trigger] data2[a].data_id) != k by {
                if first_index(ids, data2[a].data_id) == k {
                    lemma_ref_count_remove(ids, data2, a, k);
                }
            }
            assert(ids_distinct(nids)) by {
                assert forall|a: int, b: int| #![trigger nids[a], nids[b]] 0 <= a < nids.len() && 0 <= b < nids.len() && a != b implies nids[a] != nids[b] by {
                    let a2 = if a < k { a } else { a + 1 };
                    let b2 = if b < k { b } else { b + 1 };
                    assert(nids[a] == ids[a2] && nids[b] == ids[b2]);
                }
            }
            assert forall|a: int| 0 <= a < nids.len() implies #[trigger] nids[a] <= next.id_last by {
                let a2 = if a < k { a } else { a + 1 };
                assert(nids[a] == ids[a2]);
            }
            let pool = next.id_pool;
            assert(pool =~= st.id_pool.push(f.data_id));
            assert(!nids.contains(f.data_id)) by {
                if nids.contains(f.data_id) {
                    let w = choose|w: int| 0 <= w < nids.len() && nids[w] == f.data_id;
                    let w2 = if w < k { w } else { w + 1 };
                    assert(nids[w] == ids[w2]);
                    assert(ids[k] == f.data_id);
                }
            }
            assert(!st.id_pool.contains(f.data_id)) by {
                if st.id_pool.contains(f.data_id) {
                    let w = choose|w: int| 0 <= w < st.id_pool.len() && st.id_pool[w] == f.data_id;
                    assert(ids[k] == f.data_id);
                    assert(ids.contains(st.id_pool[w]));
                }
            }
            assert(ids_distinct(pool)) by {
                assert forall|a: int, b: int| #![trigger pool[a], pool[b]] 0 <= a < pool.len() && 0 <= b < pool.len() && a != b implies pool[a] != pool[b] by {
                    let n = st.id_pool.len() as int;
                    if a < n && b < n {
                        assert(pool[a] == st.id_pool[a] && pool[b] == st.id_pool[b]);
                    } else if a < n {
                        assert(pool[a] == st.id_pool[a]);
                        assert(st.id_pool.contains(st.id_pool[a]));
                    } else if b < n {
                        assert(pool[b] == st.id_pool[b]);
                        assert(st.id_pool.contains(st.id_pool[b]));
                    }
                }
            }
            assert forall|a: int| 0 <= a < pool.len() implies #[trigger] pool[a] <= next.id_last && !nids.contains(pool[a]) by {
                if a < st.id_pool.len() {
                    assert(pool[a] == st.id_pool[a]);
                    if nids.contains(pool[a]) {
                        let w = choose|w: int| 0 <= w < nids.len() && nids[w] == pool[a];
                        let w2 = if w < k { w } else { w + 1 };
                        assert(nids[w] == ids[w2]);
                        assert(ids.contains(st.id_pool[a]));
                    }
                } else {
                    assert(ids[k] <= st.id_last);
                }
            }
            assert forall|a: int| 0 <= a < data2.len() implies nids.contains(#[trigger] data2[a].data_id) by {
                let aid = data2[a].data_id;
                let o = if a < j { a } else { a + 1 };
                assert(data2[a] == st.data[o]);
                assert(ids.contains(aid));
                lemma_first_index(ids, aid);
                let p = first_index(ids, aid);
                lemma_first_index_remove(ids, k, p);
                lemma_first_index(nids, aid);
            }
            assert forall|q: int| 0 <= q < next.formats.len() implies ref_count(nids, next.data, q) <= #[trigger] next.formats[q].refs by {
                let q2 = if q < k { q } else { q + 1 };
                assert(next.formats[q] == st.formats[q2]);
                assert forall|a: int| 0 <= a < data2.len() implies (first_index(nids, #[trigger] data2[a].data_id) == q) == (first_index(ids, data2[a].data_id) == q2) by {
                    let aid = data2[a].data_id;
                    let o = if a < j { a } else { a + 1 };
                    assert(data2[a] == st.data[o]);
                    assert(ids.contains(aid));
                    lemma_first_index(ids, aid);
                    let p = first_index(ids, aid);
                    lemma_first_index_remove(ids, k, p);
                }
                lemma_ref_count_congruent(nids, ids, data2, q, q2);
                lemma_ref_count_remove(ids, st.data, j, q2);
            }
        } else {
            let nids = entry_ids(next.formats);
            assert(nids =~= ids);
            assert forall|a: int| 0 <= a < data2.len() implies nids.contains(#[trigger] data2[a].data_id) by {
                let o = if a < j { a } else { a + 1 };
                assert(data2[a] == st.data[o]);
            }
            assert forall|q: int| 0 <= q < next.formats.len() implies ref_count(nids, next.data, q) <= #[trigger] next.formats[q].refs by {
                lemma_ref_count_remove(ids, st.data, j, q);
            }
        }
    }
}

/// A writer made from a file whose format ids are distinct and within the
/// family's range is consistent.
pub proof fn lemma_content_consistent(c: FileContent, id_max: u32)
    requires
        data_ids_listed(c.formats, c.data),
        ref_counts_fit(c),
        ids_distinct(view_ids(c.formats)),
        max_id(view_ids(c.formats), 0xFF) <= id_max,
    ensures
        writer_consistent(writer_state_of_content(c), id_max),
{
    let st = writer_state_of_content(c);
    let ids = view_ids(c.formats);
    lemma_writer_of_content_formats(c);
    lemma_max_id_bounds(ids, 0xFF, id_max);
    assert forall|k: int| 0 <= k < st.formats.len() implies ref_count(entry_ids(st.formats), st.data, k) <= #[trigger] st.formats[k].refs by {
        assert(ref_count(ids, c.data, k) <= u32::MAX);
    }
}

/// Adding entries one after the other to a consistent writer, without
/// overflow, keeps it consistent.
pub proof fn lemma_add_entries_consistent(st: WriterState, es: Seq<(Seq<char>, Seq<char>, Seq<u8>)>, id_max: u32)
    requires
        writer_consistent(st, id_max),
        !add_entries_overflow(st, es, id_max),
        add_entries(st, es) is Ok,
    ensures
        writer_consistent(add_entries(st, es)->Ok_0, id_max),
    decreases es.len(),
{
    if es.len() > 0 {
        let prefix = es.drop_last();
        assert(add_entries(st, prefix) is Ok);
        assert forall|k: int| 0 <= k < prefix.len() implies !(#[trigger] add_entries(st, prefix.take(k)) matches Ok(s)
            && add_data_overflows(s, prefix[k].0, prefix[k].1, id_max)) by {
            assert(prefix.take(k) =~= es.take(k));
            if add_entries(st, es.take(k)) matches Ok(s) && add_data_overflows(s, es[k].0, es[k].1, id_max) {
                assert(add_entries_overflow(st, es, id_max));
            }
        }
        lemma_add_entries_consistent(st, prefix, id_max);
        let s = add_entries(st, prefix)->Ok_0;
        let last = es.last();
        assert(es.take(es.len() - 1) =~= prefix);
        if add_data_overflows(s, last.0, last.1, id_max) {
            assert(add_entries(st, es.take(es.len() - 1)) matches Ok(s0) && add_data_overflows(s0, es[es.len() - 1].0, es[es.len() - 1].1, id_max));
        }
        lemma_add_consistent(s, last.0, last.1, last.2, id_max);
    }
}

} // verus!
