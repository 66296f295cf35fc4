//! Which files the family readers return on, and a check of it: a file on
//! which a reader neither slices past the end of the bytes, overflows a
//! length nor follows a cycle of offsets. The walk follows the record
//! structure of each layout (the build strings, then the chain of format
//! records, then the chain of entry records, whose format ids it looks up)
//! and stops at every point at which the readers return an error, in the
//! order in which they check them, UTF-8 checks of names included.
use vstd::prelude::*;
use crate::model::{first_index, is_first_index, lemma_first_index};
use vstd::set_lib::{lemma_int_range, lemma_len_subset, set_int_range};

verus! {

/// Where the fields of a layout sit, and how wide they are.
#[derive(Clone, Copy)]
pub struct Layout {
    /// Numbers are stored most significant byte first.
    pub be: bool,
    /// Strings end with a zero byte instead of carrying a length.
    pub unaligned: bool,
    /// Lengths are rounded up to a multiple of this (2, 4 or 8).
    pub align: usize,
    /// Position of the build name's length.
    pub hp: usize,
    /// Width of the build strings' lengths.
    pub hw: usize,
    /// Width of the two list heads, stored from byte 8.
    pub hdw: usize,
    /// Width of a record's next offset.
    pub nw: usize,
    /// Width of a format's name length.
    pub flw: usize,
    /// Width of an id.
    pub idw: usize,
    /// Width of an entry's data length.
    pub dw: usize,
    /// Width of an entry's name length.
    pub dlw: usize,
}

/// How one record of a chain ends: the reader stops with an error, it
/// panics, or it goes on at the next offset.
pub enum Step {
    Stop,
    Fail,
    Next(usize),
}

/// How a part of the walk ends: it is done and the reader goes on, the
/// reader stops with an error, or it panics or never ends.
#[derive(PartialEq, Eq, Structural)]
pub enum Walk {
    Done,
    Stopped,
    Fails,
}

/// The layout of the type byte `code` of an SPBF file.
pub open spec fn spbf_layout(code: u8) -> Layout {
    if code < 2 {
        Layout { be: code == 1, unaligned: true, align: 2, hp: 0x10, hw: 2, hdw: 4, nw: 4, flw: 2, idw: 2, dw: 2, dlw: 2 }
    } else {
        Layout { be: code == 3, unaligned: false, align: 2, hp: 0x10, hw: 2, hdw: 4, nw: 4, flw: 2, idw: 2, dw: 2, dlw: 2 }
    }
}

/// The layout of the type byte `code` of a UPBF file.
pub open spec fn upbf_layout(code: u8) -> Layout {
    if code < 2 {
        Layout { be: code == 1, unaligned: false, align: 4, hp: 0x10, hw: 4, hdw: 4, nw: 4, flw: 4, idw: 4, dw: 4, dlw: 4 }
    } else {
        Layout { be: code == 3, unaligned: false, align: 8, hp: 0x18, hw: 4, hdw: 8, nw: 8, flw: 4, idw: 4, dw: 8, dlw: 4 }
    }
}

/// The widths of a layout are 2, 4 or 8 and its header is short.
pub open spec fn layout_wf(l: Layout) -> bool {
    &&& l.align == 2 || l.align == 4 || l.align == 8
    &&& l.hp <= 0x18 && 2 <= l.hw <= 4
    &&& l.hdw == 4 || l.hdw == 8
    &&& l.nw == 4 || l.nw == 8
    &&& 2 <= l.flw <= 4 && 2 <= l.idw <= 4 && 2 <= l.dlw <= 4
    &&& l.dw == 2 || l.dw == 4 || l.dw == 8
    &&& 8 + 2 * l.hdw <= l.hp + 2 * l.hw
    &&& l.unaligned ==> l.hdw == 4
}

/// `256` to the power `k`.
pub open spec fn pow256(k: nat) -> nat
    decreases k,
{
    if k == 0 {
        1
    } else {
        256 * pow256((k - 1) as nat)
    }
}

/// The bytes `b[i..i + k]` read most significant first.
pub open spec fn be_prefix(b: Seq<u8>, i: int, k: nat) -> int
    decreases k,
{
    if k == 0 {
        0
    } else {
        be_prefix(b, i, (k - 1) as nat) * 256 + b[i + k - 1]
    }
}

/// The bytes `b[i + k..i + w]` read least significant first.
pub open spec fn le_from(b: Seq<u8>, i: int, w: int, k: int) -> int
    decreases w - k,
{
    if k >= w {
        0
    } else {
        b[i + k] + 256 * le_from(b, i, w, k + 1)
    }
}

/// The unsigned number of width `w` stored at `i`.
pub open spec fn uint_at(b: Seq<u8>, i: int, w: int, be: bool) -> int {
    if be {
        be_prefix(b, i, w as nat)
    } else {
        le_from(b, i, w, 0)
    }
}

/// `x` can be computed in a `usize`.
pub open spec fn fits(x: int) -> bool {
    x <= usize::MAX
}

/// `x` rounded up to a multiple of `a`.
pub open spec fn align_up(x: int, a: int) -> int {
    (x + a - 1) / a * a
}

/// The first zero byte of `b` from `from` on, counted from `from`, or -1.
pub open spec fn zero_from(b: Seq<u8>, from: int) -> int {
    first_index(b.subrange(from, b.len() as int), 0u8)
}

/// A UTF-8 continuation byte.
pub open spec fn cont(x: u8) -> bool {
    0x80 <= x <= 0xBF
}

/// The length of the well-formed UTF-8 sequence at `i` within `b[..end]`,
/// or 0 when there is none.
pub open spec fn utf8_width(b: Seq<u8>, i: int, end: int) -> int {
    let c = b[i];
    if c <= 0x7F {
        1
    } else if 0xC2 <= c <= 0xDF {
        if i + 1 < end && cont(b[i + 1]) { 2 } else { 0 }
    } else if 0xE0 <= c <= 0xEF {
        let second = if c == 0xE0 {
            0xA0 <= b[i + 1] <= 0xBF
        } else if c == 0xED {
            0x80 <= b[i + 1] <= 0x9F
        } else {
            cont(b[i + 1])
        };
        if i + 2 < end && second && cont(b[i + 2]) { 3 } else { 0 }
    } else if 0xF0 <= c <= 0xF4 {
        let second = if c == 0xF0 {
            0x90 <= b[i + 1] <= 0xBF
        } else if c == 0xF4 {
            0x80 <= b[i + 1] <= 0x8F
        } else {
            cont(b[i + 1])
        };
        if i + 3 < end && second && cont(b[i + 2]) && cont(b[i + 3]) { 4 } else { 0 }
    } else {
        0
    }
}

/// `b[i..end]` is well-formed UTF-8, as `String::from_utf8` accepts it.
pub open spec fn utf8_valid(b: Seq<u8>, i: int, end: int) -> bool
    decreases end - i,
{
    if i >= end {
        true
    } else {
        let w = utf8_width(b, i, end);
        if w <= 0 {
            false
        } else {
            utf8_valid(b, i + w, end)
        }
    }
}

/// The format record at `o`.
pub open spec fn format_step(b: Seq<u8>, l: Layout, o: int) -> Step {
    let n = b.len() as int;
    if n < o {
        Step::Stop
    } else if l.unaligned {
        if o + 6 > n {
            Step::Fail
        } else if zero_from(b, o + 6) < 0 {
            Step::Stop
        } else {
            Step::Next(uint_at(b, o, 4, l.be) as usize)
        }
    } else if o + l.nw > n {
        Step::Fail
    } else if l.nw == 8 && uint_at(b, o, 8, l.be) >= usize::MAX {
        Step::Stop
    } else if o + l.nw + l.flw > n {
        Step::Fail
    } else {
        let nl = uint_at(b, o + l.nw, l.flw as int, l.be);
        let start = o + l.nw + l.flw + l.idw;
        let s = start + align_up(nl, l.align as int);
        if !fits(nl + l.align - 1) || !fits(s) {
            Step::Fail
        } else if n < s {
            Step::Stop
        } else if !utf8_valid(b, start, start + nl) {
            Step::Stop
        } else {
            Step::Next(uint_at(b, o, l.nw as int, l.be) as usize)
        }
    }
}

/// The id of the format record at `o`.
pub open spec fn format_id(b: Seq<u8>, l: Layout, o: int) -> u64 {
    if l.unaligned {
        uint_at(b, o + 4, 2, l.be) as u64
    } else {
        uint_at(b, o + l.nw + l.flw, l.idw as int, l.be) as u64
    }
}

/// The entry record at `o`, with `ids` the ids of the formats read.
pub open spec fn data_step(b: Seq<u8>, l: Layout, o: int, ids: Seq<u64>) -> Step {
    let n = b.len() as int;
    if n < o {
        Step::Stop
    } else if l.unaligned {
        if o + 8 > n {
            Step::Fail
        } else if !ids.contains(uint_at(b, o + 6, 2, l.be) as u64) {
            Step::Stop
        } else {
            let dl = uint_at(b, o + 4, 2, l.be);
            if !fits(o + 8 + dl) {
                Step::Fail
            } else if n < o + 8 + dl {
                Step::Stop
            } else {
                let p = zero_from(b, o + 8);
                if p < 0 {
                    Step::Stop
                } else if !fits(o + 8 + p + 1 + dl) || o + 8 + p + 1 + dl > n {
                    Step::Fail
                } else {
                    Step::Next(uint_at(b, o, 4, l.be) as usize)
                }
            }
        }
    } else if o + l.nw > n {
        Step::Fail
    } else if l.nw == 8 && uint_at(b, o, 8, l.be) >= usize::MAX {
        Step::Stop
    } else if o + l.nw + l.dw > n {
        Step::Fail
    } else {
        let dl = uint_at(b, o + l.nw, l.dw as int, l.be);
        let ide = o + l.nw + l.dw + l.idw;
        if l.dw == 8 && dl >= usize::MAX {
            Step::Stop
        } else if !fits(dl + l.align - 1) || ide > n {
            Step::Fail
        } else if !ids.contains(uint_at(b, o + l.nw + l.dw, l.idw as int, l.be) as u64) {
            Step::Stop
        } else if ide + l.dlw > n {
            Step::Fail
        } else {
            let nl = uint_at(b, ide, l.dlw as int, l.be);
            let start = ide + l.dlw;
            let s1 = start + align_up(nl, l.align as int);
            let s2 = s1 + align_up(dl, l.align as int);
            if !fits(nl + l.align - 1) || !fits(s1) {
                Step::Fail
            } else if n < s1 {
                Step::Stop
            } else if !fits(s2) {
                Step::Fail
            } else if n < s2 {
                Step::Stop
            } else if !utf8_valid(b, start, start + nl) {
                Step::Stop
            } else {
                Step::Next(uint_at(b, o, l.nw as int, l.be) as usize)
            }
        }
    }
}

/// The build strings after the fixed header.
pub open spec fn header_walk(b: Seq<u8>, l: Layout) -> Walk {
    let n = b.len() as int;
    if l.unaligned {
        if n < 0x10 {
            Walk::Fails
        } else {
            let p1 = zero_from(b, 0x10);
            if p1 < 0 {
                Walk::Stopped
            } else if zero_from(b, 0x10 + p1 + 1) < 0 {
                Walk::Stopped
            } else {
                Walk::Done
            }
        }
    } else if n < l.hp + l.hw {
        Walk::Fails
    } else {
        let ss = l.hp + 2 * l.hw;
        let bnl = uint_at(b, l.hp as int, l.hw as int, l.be);
        let a = align_up(bnl, l.align as int);
        if !fits(bnl + l.align - 1) || !fits(ss + a) {
            Walk::Fails
        } else if n < ss + a {
            Walk::Stopped
        } else if !utf8_valid(b, ss, ss + bnl) {
            Walk::Stopped
        } else {
            let bvl = uint_at(b, l.hp + l.hw, l.hw as int, l.be);
            let s2 = a + ss + align_up(bvl, l.align as int);
            if !fits(bvl + l.align - 1) || !fits(s2) {
                Walk::Fails
            } else if n < s2 {
                Walk::Stopped
            } else if !utf8_valid(b, a + ss, a + ss + bvl) {
                Walk::Stopped
            } else {
                Walk::Done
            }
        }
    }
}

/// The chain of format records from `o`, with at most `fuel` records, and
/// the ids of the records read, in order.
pub open spec fn format_walk(b: Seq<u8>, l: Layout, o: usize, fuel: nat) -> (Walk, Seq<u64>)
    decreases fuel,
{
    if o == 0 {
        (Walk::Done, Seq::empty())
    } else if fuel == 0 {
        (Walk::Fails, Seq::empty())
    } else {
        match format_step(b, l, o as int) {
            Step::Stop => (Walk::Stopped, Seq::empty()),
            Step::Fail => (Walk::Fails, Seq::empty()),
            Step::Next(x) => {
                let rest = format_walk(b, l, x, (fuel - 1) as nat);
                (rest.0, seq![format_id(b, l, o as int)] + rest.1)
            },
        }
    }
}

/// The chain of entry records from `o`, with at most `fuel` records, `ids`
/// the ids of the formats read.
pub open spec fn data_walk(b: Seq<u8>, l: Layout, o: usize, fuel: nat, ids: Seq<u64>) -> Walk
    decreases fuel,
{
    if o == 0 {
        Walk::Done
    } else if fuel == 0 {
        Walk::Fails
    } else {
        match data_step(b, l, o as int, ids) {
            Step::Stop => Walk::Stopped,
            Step::Fail => Walk::Fails,
            Step::Next(x) => data_walk(b, l, x, (fuel - 1) as nat, ids),
        }
    }
}

/// The walk of a file with layout `l`, allowing each chain `fuel` records:
/// `Fails` stands for a slice past the end of the bytes or a length
/// overflowing a `usize`, where the reader panics, or for a chain longer
/// than `fuel`; `Stopped` for each point at which the reader returns an
/// error, in the order in which it checks them.
pub open spec fn read_walk_with(b: Seq<u8>, l: Layout, fuel: nat) -> bool {
    match header_walk(b, l) {
        Walk::Fails => false,
        Walk::Stopped => true,
        Walk::Done => {
            let fh = uint_at(b, 8, l.hdw as int, l.be);
            if l.hdw == 8 && fh >= usize::MAX {
                true
            } else {
                let (fw, ids) = format_walk(b, l, fh as usize, fuel);
                match fw {
                    Walk::Fails => false,
                    Walk::Stopped => true,
                    Walk::Done => {
                        let dh = uint_at(b, 8 + l.hdw, l.hdw as int, l.be);
                        (l.hdw == 8 && dh >= usize::MAX) || data_walk(b, l, dh as usize, fuel, ids) != Walk::Fails
                    },
                }
            }
        },
    }
}

/// The reader of layout `l` returns on `b`. A chain of more records than
/// the file has bytes repeats an offset and so never ends
/// (`lemma_read_walk_fuel`).
pub open spec fn read_walk_safe(b: Seq<u8>, l: Layout) -> bool {
    read_walk_with(b, l, (b.len() + 1) as nat)
}

/// The offset reached after `k` records of a chain from `o` whose records
/// are read by `step`, while every record read leads on to a next one.
pub open spec fn chain_after(step: spec_fn(usize) -> Step, o: usize, k: nat) -> Option<usize>
    decreases k,
{
    if k == 0 {
        Some(o)
    } else {
        match chain_after(step, o, (k - 1) as nat) {
            Some(p) => if p != 0 && step(p) is Next {
                Some(step(p)->Next_0)
            } else {
                None
            },
            None => None,
        }
    }
}

proof fn lemma_chain_shift(step: spec_fn(usize) -> Step, o: usize, k: nat)
    requires
        o != 0,
        step(o) is Next,
    ensures
        chain_after(step, o, k + 1) == chain_after(step, step(o)->Next_0, k),
    decreases k,
{
    let x = step(o)->Next_0;
    assert(chain_after(step, o, 0) == Some(o));
    assert(chain_after(step, o, 1) == Some(x));
    if k > 0 {
        lemma_chain_shift(step, o, (k - 1) as nat);
        assert(((k + 1) - 1) as nat == k);
        assert(chain_after(step, o, (k - 1) as nat + 1) == chain_after(step, o, k));
    }
}

proof fn lemma_chain_prefix(step: spec_fn(usize) -> Step, o: usize, j: nat, k: nat)
    requires
        j <= k,
        chain_after(step, o, k) is Some,
    ensures
        chain_after(step, o, j) is Some,
    decreases k - j,
{
    if j < k {
        lemma_chain_prefix(step, o, j + 1, k);
    }
}

proof fn lemma_chain_periodic(step: spec_fn(usize) -> Step, o: usize, i: nat, j: nat, m: nat)
    requires
        chain_after(step, o, i) == chain_after(step, o, j),
    ensures
        chain_after(step, o, i + m) == chain_after(step, o, j + m),
    decreases m,
{
    if m > 0 {
        lemma_chain_periodic(step, o, i, j, (m - 1) as nat);
        assert(((i + m) - 1) as nat == i + (m - 1) as nat);
        assert(((j + m) - 1) as nat == j + (m - 1) as nat);
    }
}

/// Among `m + 1` numbers from 1 to `m`, two are equal.
proof fn lemma_pigeonhole(s: Seq<int>, m: int)
    requires
        m >= 0,
        s.len() == m + 1,
        forall|k: int| 0 <= k < s.len() ==> 1 <= #[trigger] s[k] <= m,
    ensures
        exists|i: int, j: int| 0 <= i < j < s.len() && s[i] == s[j],
{
    if s.no_duplicates() {
        s.unique_seq_to_set();
        lemma_int_range(1, m + 1);
        assert forall|x: int| s.to_set().contains(x) implies set_int_range(1, m + 1).contains(x) by {
            let k = choose|k: int| 0 <= k < s.len() && s[k] == x;
            assert(1 <= s[k] <= m);
        }
        lemma_len_subset(s.to_set(), set_int_range(1, m + 1));
    } else {
        let (i, j) = choose|i: int, j: int| 0 <= i < s.len() && 0 <= j < s.len() && i != j && s[i] == s[j];
        if i < j {
            assert(s[i] == s[j]);
        } else {
            assert(s[j] == s[i]);
        }
    }
}

/// A chain that leads on for more records than there are offsets up to `n`,
/// where no record past `n` leads on, repeats an offset and leads on forever.
proof fn lemma_chain_forever(step: spec_fn(usize) -> Step, o: usize, n: nat)
    requires
        chain_after(step, o, n + 1) is Some,
        forall|p: usize| p > n ==> !(#[trigger] step(p) is Next),
    ensures
        forall|k: nat| #[trigger] chain_after(step, o, k) is Some,
{
    assert forall|k: nat| #![trigger chain_after(step, o, k)] k <= n implies 1 <= chain_after(step, o, k)->Some_0 <= n by {
        lemma_chain_prefix(step, o, k + 1, n + 1);
        let p = chain_after(step, o, k)->Some_0;
        assert(p != 0 && step(p) is Next);
    }
    let s = Seq::new(n + 1, |k: int| chain_after(step, o, k as nat)->Some_0 as int);
    assert forall|k: int| 0 <= k < s.len() implies 1 <= #[trigger] s[k] <= n by {
        assert(1 <= chain_after(step, o, k as nat)->Some_0 <= n);
    }
    lemma_pigeonhole(s, n as int);
    let (i, j) = choose|i: int, j: int| 0 <= i < j < s.len() && s[i] == s[j];
    lemma_chain_prefix(step, o, i as nat, n + 1);
    lemma_chain_prefix(step, o, j as nat, n + 1);
    assert(chain_after(step, o, i as nat) == chain_after(step, o, j as nat));
    assert forall|k: nat| #[trigger] chain_after(step, o, k) is Some by {
        lemma_chain_all_some(step, o, n, i as nat, j as nat, k);
    }
}

proof fn lemma_chain_all_some(step: spec_fn(usize) -> Step, o: usize, n: nat, i: nat, j: nat, k: nat)
    requires
        i < j <= n,
        chain_after(step, o, n + 1) is Some,
        chain_after(step, o, i) == chain_after(step, o, j),
    ensures
        chain_after(step, o, k) is Some,
    decreases k,
{
    if k <= n + 1 {
        lemma_chain_prefix(step, o, k, n + 1);
    } else {
        let m = (k - j) as nat;
        lemma_chain_periodic(step, o, i, j, m);
        lemma_chain_all_some(step, o, n, i, j, i + m);
    }
}

/// The record steps of the format chains of `b`.
pub open spec fn format_steps(b: Seq<u8>, l: Layout) -> spec_fn(usize) -> Step {
    |p: usize| format_step(b, l, p as int)
}

/// The record steps of the entry chains of `b`.
pub open spec fn data_steps(b: Seq<u8>, l: Layout, ids: Seq<u64>) -> spec_fn(usize) -> Step {
    |p: usize| data_step(b, l, p as int, ids)
}

proof fn lemma_format_walk_ends(b: Seq<u8>, l: Layout, o: usize, k: nat, f: nat, g: nat)
    requires
        chain_after(format_steps(b, l), o, k + 1) is None,
        k < f,
        k < g,
    ensures
        format_walk(b, l, o, f) == format_walk(b, l, o, g),
    decreases k,
{
    let st = format_steps(b, l);
    if o != 0 && st(o) is Next {
        lemma_chain_shift(st, o, k);
        assert(k > 0);
        lemma_format_walk_ends(b, l, st(o)->Next_0, (k - 1) as nat, (f - 1) as nat, (g - 1) as nat);
    }
}

proof fn lemma_format_walk_forever(b: Seq<u8>, l: Layout, o: usize, f: nat)
    requires
        forall|k: nat| #[trigger] chain_after(format_steps(b, l), o, k) is Some,
    ensures
        format_walk(b, l, o, f).0 == Walk::Fails,
    decreases f,
{
    let st = format_steps(b, l);
    assert(chain_after(st, o, 1) is Some);
    assert(chain_after(st, o, 0) == Some(o));
    assert(o != 0 && st(o) is Next);
    if f > 0 {
        let x = st(o)->Next_0;
        assert forall|k: nat| #[trigger] chain_after(st, x, k) is Some by {
            lemma_chain_shift(st, o, k);
            assert(chain_after(st, o, k + 1) is Some);
        }
        lemma_format_walk_forever(b, l, x, (f - 1) as nat);
    }
}

proof fn lemma_data_walk_ends(b: Seq<u8>, l: Layout, ids: Seq<u64>, o: usize, k: nat, f: nat, g: nat)
    requires
        chain_after(data_steps(b, l, ids), o, k + 1) is None,
        k < f,
        k < g,
    ensures
        data_walk(b, l, o, f, ids) == data_walk(b, l, o, g, ids),
    decreases k,
{
    let st = data_steps(b, l, ids);
    if o != 0 && st(o) is Next {
        lemma_chain_shift(st, o, k);
        assert(k > 0);
        lemma_data_walk_ends(b, l, ids, st(o)->Next_0, (k - 1) as nat, (f - 1) as nat, (g - 1) as nat);
    }
}

proof fn lemma_data_walk_forever(b: Seq<u8>, l: Layout, ids: Seq<u64>, o: usize, f: nat)
    requires
        forall|k: nat| #[trigger] chain_after(data_steps(b, l, ids), o, k) is Some,
    ensures
        data_walk(b, l, o, f, ids) == Walk::Fails,
    decreases f,
{
    let st = data_steps(b, l, ids);
    assert(chain_after(st, o, 1) is Some);
    assert(chain_after(st, o, 0) == Some(o));
    assert(o != 0 && st(o) is Next);
    if f > 0 {
        let x = st(o)->Next_0;
        assert forall|k: nat| #[trigger] chain_after(st, x, k) is Some by {
            lemma_chain_shift(st, o, k);
            assert(chain_after(st, o, k + 1) is Some);
        }
        lemma_data_walk_forever(b, l, ids, x, (f - 1) as nat);
    }
}

/// The read check allows each chain as many records as the file has bytes,
/// plus one; allowing more changes nothing: the check declares a chain
/// endless only when the chain repeats an offset, and then the reader
/// follows it forever.
pub proof fn lemma_read_walk_fuel(b: Seq<u8>, l: Layout, fuel: nat)
    requires
        fuel > b.len(),
    ensures
        read_walk_safe(b, l) == read_walk_with(b, l, fuel),
{
    let n = b.len() as nat;
    let f0 = (b.len() + 1) as nat;
    let fh = uint_at(b, 8, l.hdw as int, l.be);
    let fs = format_steps(b, l);
    assert forall|p: usize| p > n implies !(#[trigger] fs(p) is Next) by {}
    if chain_after(fs, fh as usize, n + 1) is None {
        lemma_format_walk_ends(b, l, fh as usize, n, f0, fuel);
    } else {
        lemma_chain_forever(fs, fh as usize, n);
        lemma_format_walk_forever(b, l, fh as usize, f0);
        lemma_format_walk_forever(b, l, fh as usize, fuel);
    }
    let ids = format_walk(b, l, fh as usize, f0).1;
    let dh = uint_at(b, 8 + l.hdw, l.hdw as int, l.be);
    let ds = data_steps(b, l, ids);
    assert forall|p: usize| p > n implies !(#[trigger] ds(p) is Next) by {}
    if chain_after(ds, dh as usize, n + 1) is None {
        lemma_data_walk_ends(b, l, ids, dh as usize, n, f0, fuel);
    } else {
        lemma_chain_forever(ds, dh as usize, n);
        lemma_data_walk_forever(b, l, ids, dh as usize, f0);
        lemma_data_walk_forever(b, l, ids, dh as usize, fuel);
    }
}

/// The SPBF reader returns on the file `b` of version 1.
pub open spec fn spbf_read_safe(b: Seq<u8>) -> bool {
    8 <= b.len() && b.len() + 64 <= usize::MAX && read_walk_safe(b, spbf_layout(b[6]))
}

/// The UPBF reader returns on the file `b` of version 1.
pub open spec fn upbf_read_safe(b: Seq<u8>) -> bool {
    8 <= b.len() && b.len() + 64 <= usize::MAX && read_walk_safe(b, upbf_layout(b[6]))
}

proof fn lemma_pow256_bound(k: nat)
    requires
        k <= 8,
    ensures
        pow256(k) <= 0x1_0000_0000_0000_0000,
        pow256(k) >= 1,
{
    reveal_with_fuel(pow256, 9);
    assert(pow256(8) == 0x1_0000_0000_0000_0000);
    lemma_pow256_mono(k, 8);
    lemma_pow256_pos(k);
}

proof fn lemma_pow256_mono(j: nat, k: nat)
    requires
        j <= k,
    ensures
        pow256(j) <= pow256(k),
    decreases k,
{
    if j < k {
        lemma_pow256_mono(j, (k - 1) as nat);
        lemma_pow256_pos((k - 1) as nat);
    }
}

proof fn lemma_pow256_pos(k: nat)
    ensures
        pow256(k) >= 1,
    decreases k,
{
    if k > 0 {
        lemma_pow256_pos((k - 1) as nat);
    }
}

proof fn lemma_be_prefix_bound(b: Seq<u8>, i: int, k: nat)
    ensures
        0 <= be_prefix(b, i, k) < pow256(k),
    decreases k,
{
    if k > 0 {
        lemma_be_prefix_bound(b, i, (k - 1) as nat);
    }
}

proof fn lemma_le_from_bound(b: Seq<u8>, i: int, w: int, k: int)
    requires
        k <= w,
    ensures
        0 <= le_from(b, i, w, k) < pow256((w - k) as nat),
    decreases w - k,
{
    if k < w {
        lemma_le_from_bound(b, i, w, k + 1);
    }
}

proof fn lemma_uint_nonneg(b: Seq<u8>, i: int, w: int, be: bool)
    requires
        0 <= w <= 8,
    ensures
        uint_at(b, i, w, be) >= 0,
{
    lemma_be_prefix_bound(b, i, w as nat);
    lemma_le_from_bound(b, i, w, 0);
}

proof fn lemma_align_up_nonneg(x: int, a: int)
    requires
        x >= 0,
        a >= 1,
    ensures
        align_up(x, a) >= 0,
{
    assert((x + a - 1) / a * a >= 0) by (nonlinear_arith)
        requires
            x >= 0,
            a >= 1,
    ;
}

/// The number of width `w` stored at `i`.
fn read_uint(b: &[u8], i: usize, w: usize, be: bool) -> (r: u64)
    requires
        i + w <= b@.len(),
        b@.len() + 64 <= usize::MAX,
        w <= 8,
    ensures
        r == uint_at(b@, i as int, w as int, be),
{
    if be {
        let mut acc: u64 = 0;
        let mut k: usize = 0;
        while k < w
            invariant
                k <= w <= 8,
                i + w <= b@.len(),
                b@.len() + 64 <= usize::MAX,
                acc == be_prefix(b@, i as int, k as nat),
            decreases w - k,
        {
            proof {
                lemma_be_prefix_bound(b@, i as int, (k + 1) as nat);
                lemma_pow256_bound((k + 1) as nat);
                lemma_be_prefix_bound(b@, i as int, k as nat);
            }
            acc = acc * 256 + b[i + k] as u64;
            k += 1;
        }
        acc
    } else {
        let mut acc: u64 = 0;
        let mut k: usize = w;
        while k > 0
            invariant
                k <= w <= 8,
                i + w <= b@.len(),
                b@.len() + 64 <= usize::MAX,
                acc == le_from(b@, i as int, w as int, k as int),
            decreases k,
        {
            proof {
                lemma_le_from_bound(b@, i as int, w as int, k - 1);
                lemma_pow256_bound((w - (k - 1)) as nat);
                lemma_le_from_bound(b@, i as int, w as int, k as int);
            }
            acc = b[i + k - 1] as u64 + 256 * acc;
            k -= 1;
        }
        acc
    }
}

/// The first zero byte of `b` from `from` on, counted from `from`.
fn find_zero(b: &[u8], from: usize) -> (r: Option<usize>)
    requires
        from <= b@.len(),
        b@.len() + 64 <= usize::MAX,
    ensures
        match r {
            Some(p) => zero_from(b@, from as int) == p as int && from + p < b@.len(),
            None => zero_from(b@, from as int) < 0,
        },
{
    let ghost s = b@.subrange(from as int, b@.len() as int);
    proof {
        lemma_first_index(s, 0u8);
    }
    let mut i: usize = from;
    while i < b.len()
        invariant
            from <= i <= b@.len(),
            s == b@.subrange(from as int, b@.len() as int),
            forall|k: int| 0 <= k < i - from ==> #[trigger] s[k] != 0u8,
        decreases b@.len() - i,
    {
        if b[i] == 0 {
            proof {
                assert(s[i - from] == 0u8);
                assert(is_first_index(s, 0u8, i - from));
            }
            return Some(i - from);
        }
        assert(s[i - from] != 0u8);
        i += 1;
    }
    proof {
        if s.contains(0u8) {
            let k = choose|k: int| 0 <= k < s.len() && s[k] == 0u8;
            assert(s[k] != 0u8);
        }
    }
    None
}

/// `x` rounded up to a multiple of `a`, in a wide integer.
fn align_wide(x: u128, a: usize) -> (r: u128)
    requires
        x < 0x1_0000_0000_0000_0000,
        a == 2 || a == 4 || a == 8,
    ensures
        r == align_up(x as int, a as int),
        r <= x + a,
{
    let y = x + (a as u128) - 1;
    assert(y / (a as u128) * (a as u128) <= y) by (nonlinear_arith)
        requires
            a >= 1,
            y >= 0,
    ;
    y / (a as u128) * (a as u128)
}

proof fn lemma_align_up_ge(x: int, a: int)
    requires
        x >= 0,
        a >= 1,
    ensures
        align_up(x, a) >= x,
{
    assert((x + a - 1) / a * a >= x) by (nonlinear_arith)
        requires
            x >= 0,
            a >= 1,
    ;
}

/// The length of the UTF-8 sequence at `i` (see `utf8_width`).
fn utf8_width_check(b: &[u8], i: usize, end: usize) -> (r: usize)
    requires
        i < end <= b@.len(),
        b@.len() + 64 <= usize::MAX,
    ensures
        r == utf8_width(b@, i as int, end as int),
{
    let c = b[i];
    if c <= 0x7F {
        1
    } else if 0xC2 <= c && c <= 0xDF {
        if i + 1 < end && 0x80 <= b[i + 1] && b[i + 1] <= 0xBF { 2 } else { 0 }
    } else if 0xE0 <= c && c <= 0xEF {
        if i + 2 < end {
            let x = b[i + 1];
            let second = if c == 0xE0 {
                0xA0 <= x && x <= 0xBF
            } else if c == 0xED {
                0x80 <= x && x <= 0x9F
            } else {
                0x80 <= x && x <= 0xBF
            };
            if second && 0x80 <= b[i + 2] && b[i + 2] <= 0xBF { 3 } else { 0 }
        } else {
            0
        }
    } else if 0xF0 <= c && c <= 0xF4 {
        if i + 3 < end {
            let x = b[i + 1];
            let second = if c == 0xF0 {
                0x90 <= x && x <= 0xBF
            } else if c == 0xF4 {
                0x80 <= x && x <= 0x8F
            } else {
                0x80 <= x && x <= 0xBF
            };
            if second && 0x80 <= b[i + 2] && b[i + 2] <= 0xBF && 0x80 <= b[i + 3] && b[i + 3] <= 0xBF { 4 } else { 0 }
        } else {
            0
        }
    } else {
        0
    }
}

/// Whether `b[from..end]` is well-formed UTF-8 (see `utf8_valid`).
fn utf8_check(b: &[u8], from: usize, end: usize) -> (r: bool)
    requires
        from <= end <= b@.len(),
        b@.len() + 64 <= usize::MAX,
    ensures
        r == utf8_valid(b@, from as int, end as int),
{
    let mut i = from;
    while i < end
        invariant
            from <= i <= end <= b@.len(),
            b@.len() + 64 <= usize::MAX,
            utf8_valid(b@, i as int, end as int) == utf8_valid(b@, from as int, end as int),
        decreases end - i,
    {
        let w = utf8_width_check(b, i, end);
        if w == 0 {
            return false;
        }
        i = i + w;
    }
    true
}

/// Whether `id` is among `ids`.
fn ids_contain(ids: &Vec<u64>, id: u64) -> (r: bool)
    ensures
        r == ids@.contains(id),
{
    let mut i: usize = 0;
    while i < ids.len()
        invariant
            0 <= i <= ids@.len(),
            forall|k: int| 0 <= k < i ==> ids@[k] != id,
        decreases ids@.len() - i,
    {
        if ids[i] == id {
            return true;
        }
        i += 1;
    }
    false
}

/// The format record at `o` (see `format_step`).
fn format_step_check(b: &[u8], l: Layout, o: usize) -> (r: Step)
    requires
        layout_wf(l),
        b@.len() + 64 <= usize::MAX,
    ensures
        r == format_step(b@, l, o as int),
{
    let n = b.len();
    if n < o {
        return Step::Stop;
    }
    if l.unaligned {
        if o + 6 > n {
            return Step::Fail;
        }
        return match find_zero(b, o + 6) {
            None => Step::Stop,
            Some(_) => {
                let nx = read_uint(b, o, 4, l.be);
                Step::Next(nx as usize)
            },
        };
    }
    if o + l.nw > n {
        return Step::Fail;
    }
    let nx = read_uint(b, o, l.nw, l.be);
    if l.nw == 8 && nx as u128 >= usize::MAX as u128 {
        return Step::Stop;
    }
    if o + l.nw + l.flw > n {
        return Step::Fail;
    }
    let nl = read_uint(b, o + l.nw, l.flw, l.be) as u128;
    let max = usize::MAX as u128;
    let a = align_wide(nl, l.align);
    let start = o + l.nw + l.flw + l.idw;
    let s = start as u128 + a;
    if nl + l.align as u128 - 1 > max || s > max {
        return Step::Fail;
    }
    if (n as u128) < s {
        return Step::Stop;
    }
    proof {
        lemma_uint_nonneg(b@, o + l.nw, l.flw as int, l.be);
        lemma_align_up_ge(nl as int, l.align as int);
    }
    if !utf8_check(b, start, start + nl as usize) {
        return Step::Stop;
    }
    Step::Next(nx as usize)
}

/// The id of the format record at `o` (see `format_id`).
fn format_id_check(b: &[u8], l: Layout, o: usize) -> (r: u64)
    requires
        layout_wf(l),
        b@.len() + 64 <= usize::MAX,
        format_step(b@, l, o as int) is Next,
    ensures
        r == format_id(b@, l, o as int),
{
    if l.unaligned {
        read_uint(b, o + 4, 2, l.be)
    } else {
        proof {
            let nl = uint_at(b@, o + l.nw, l.flw as int, l.be);
            lemma_uint_nonneg(b@, o + l.nw, l.flw as int, l.be);
            lemma_align_up_nonneg(nl, l.align as int);
        }
        read_uint(b, o + l.nw + l.flw, l.idw, l.be)
    }
}

/// The entry record at `o` (see `data_step`).
fn data_step_check(b: &[u8], l: Layout, o: usize, ids: &Vec<u64>) -> (r: Step)
    requires
        layout_wf(l),
        b@.len() + 64 <= usize::MAX,
    ensures
        r == data_step(b@, l, o as int, ids@),
{
    let n = b.len();
    let max = usize::MAX as u128;
    if n < o {
        return Step::Stop;
    }
    if l.unaligned {
        if o + 8 > n {
            return Step::Fail;
        }
        let id = read_uint(b, o + 6, 2, l.be);
        if !ids_contain(ids, id) {
            return Step::Stop;
        }
        let dl = read_uint(b, o + 4, 2, l.be) as u128;
        let end = (o + 8) as u128 + dl;
        if end > max {
            return Step::Fail;
        }
        if (n as u128) < end {
            return Step::Stop;
        }
        return match find_zero(b, o + 8) {
            None => Step::Stop,
            Some(p) => {
                let last = (o + 8) as u128 + p as u128 + 1 + dl;
                if last > max || last > n as u128 {
                    Step::Fail
                } else {
                    let nx = read_uint(b, o, 4, l.be);
                    Step::Next(nx as usize)
                }
            },
        };
    }
    if o + l.nw > n {
        return Step::Fail;
    }
    let nx = read_uint(b, o, l.nw, l.be);
    if l.nw == 8 && nx as u128 >= max {
        return Step::Stop;
    }
    if o + l.nw + l.dw > n {
        return Step::Fail;
    }
    let dl = read_uint(b, o + l.nw, l.dw, l.be) as u128;
    let ide = o + l.nw + l.dw + l.idw;
    if l.dw == 8 && dl >= max {
        return Step::Stop;
    }
    if dl + l.align as u128 - 1 > max || ide > n {
        return Step::Fail;
    }
    let id = read_uint(b, o + l.nw + l.dw, l.idw, l.be);
    if !ids_contain(ids, id) {
        return Step::Stop;
    }
    if ide + l.dlw > n {
        return Step::Fail;
    }
    let nl = read_uint(b, ide, l.dlw, l.be) as u128;
    let start = ide + l.dlw;
    let s1 = start as u128 + align_wide(nl, l.align);
    if nl + l.align as u128 - 1 > max || s1 > max {
        return Step::Fail;
    }
    if (n as u128) < s1 {
        return Step::Stop;
    }
    let s2 = s1 + align_wide(dl, l.align);
    if s2 > max {
        return Step::Fail;
    }
    if (n as u128) < s2 {
        return Step::Stop;
    }
    proof {
        lemma_uint_nonneg(b@, ide as int, l.dlw as int, l.be);
        lemma_align_up_ge(nl as int, l.align as int);
    }
    if !utf8_check(b, start, start + nl as usize) {
        return Step::Stop;
    }
    Step::Next(nx as usize)
}

/// The build strings (see `header_walk`).
fn header_check(b: &[u8], l: Layout) -> (r: Walk)
    requires
        layout_wf(l),
        b@.len() + 64 <= usize::MAX,
    ensures
        r == header_walk(b@, l),
{
    let n = b.len();
    let max = usize::MAX as u128;
    if l.unaligned {
        if n < 0x10 {
            return Walk::Fails;
        }
        return match find_zero(b, 0x10) {
            None => Walk::Stopped,
            Some(p1) => match find_zero(b, 0x10 + p1 + 1) {
                None => Walk::Stopped,
                Some(_) => Walk::Done,
            },
        };
    }
    if n < l.hp + l.hw {
        return Walk::Fails;
    }
    let ss = l.hp + 2 * l.hw;
    let bnl = read_uint(b, l.hp, l.hw, l.be) as u128;
    let a = align_wide(bnl, l.align);
    if bnl + l.align as u128 - 1 > max || ss as u128 + a > max {
        return Walk::Fails;
    }
    if (n as u128) < ss as u128 + a {
        return Walk::Stopped;
    }
    proof {
        lemma_uint_nonneg(b@, l.hp as int, l.hw as int, l.be);
        lemma_align_up_ge(bnl as int, l.align as int);
    }
    if !utf8_check(b, ss, ss + bnl as usize) {
        return Walk::Stopped;
    }
    let bvl = read_uint(b, l.hp + l.hw, l.hw, l.be) as u128;
    let s2 = a + ss as u128 + align_wide(bvl, l.align);
    if bvl + l.align as u128 - 1 > max || s2 > max {
        return Walk::Fails;
    }
    if (n as u128) < s2 {
        return Walk::Stopped;
    }
    proof {
        lemma_uint_nonneg(b@, l.hp + l.hw, l.hw as int, l.be);
        lemma_align_up_ge(bvl as int, l.align as int);
    }
    let vs = ss + a as usize;
    if !utf8_check(b, vs, vs + bvl as usize) {
        return Walk::Stopped;
    }
    Walk::Done
}

/// The chain of format records from `o` and their ids (see `format_walk`).
fn format_walk_check(b: &[u8], l: Layout, o: usize, fuel: usize) -> (r: (Walk, Vec<u64>))
    requires
        layout_wf(l),
        b@.len() + 64 <= usize::MAX,
    ensures
        (r.0, r.1@) == format_walk(b@, l, o, fuel as nat),
{
    let mut cur = o;
    let mut left = fuel;
    let mut ids: Vec<u64> = Vec::new();
    while cur != 0
        invariant
            layout_wf(l),
            b@.len() + 64 <= usize::MAX,
            format_walk(b@, l, o, fuel as nat) == (format_walk(b@, l, cur, left as nat).0, ids@ + format_walk(b@, l, cur, left as nat).1),
        decreases left,
    {
        if left == 0 {
            assert(ids@ + Seq::<u64>::empty() =~= ids@);
            return (Walk::Fails, ids);
        }
        match format_step_check(b, l, cur) {
            Step::Stop => {
                assert(ids@ + Seq::<u64>::empty() =~= ids@);
                return (Walk::Stopped, ids);
            },
            Step::Fail => {
                assert(ids@ + Seq::<u64>::empty() =~= ids@);
                return (Walk::Fails, ids);
            },
            Step::Next(x) => {
                let id = format_id_check(b, l, cur);
                let ghost rest = format_walk(b@, l, x, (left - 1) as nat).1;
                assert(ids@ + (seq![id] + rest) =~= ids@.push(id) + rest);
                ids.push(id);
                cur = x;
                left = left - 1;
            },
        }
    }
    assert(ids@ + Seq::<u64>::empty() =~= ids@);
    (Walk::Done, ids)
}

/// The chain of entry records from `o` (see `data_walk`).
fn data_walk_check(b: &[u8], l: Layout, o: usize, fuel: usize, ids: &Vec<u64>) -> (r: Walk)
    requires
        layout_wf(l),
        b@.len() + 64 <= usize::MAX,
    ensures
        r == data_walk(b@, l, o, fuel as nat, ids@),
{
    let mut cur = o;
    let mut left = fuel;
    while cur != 0
        invariant
            layout_wf(l),
            b@.len() + 64 <= usize::MAX,
            data_walk(b@, l, cur, left as nat, ids@) == data_walk(b@, l, o, fuel as nat, ids@),
        decreases left,
    {
        if left == 0 {
            return Walk::Fails;
        }
        match data_step_check(b, l, cur, ids) {
            Step::Stop => {
                return Walk::Stopped;
            },
            Step::Fail => {
                return Walk::Fails;
            },
            Step::Next(x) => {
                cur = x;
                left = left - 1;
            },
        }
    }
    Walk::Done
}

/// Whether the reader of layout `l` returns on `b` (see `read_walk_safe`).
fn read_walk_check(b: &[u8], l: Layout) -> (r: bool)
    requires
        layout_wf(l),
        8 <= b@.len(),
        b@.len() + 64 <= usize::MAX,
    ensures
        r == read_walk_safe(b@, l),
{
    let fuel = b.len() + 1;
    match header_check(b, l) {
        Walk::Fails => false,
        Walk::Stopped => true,
        Walk::Done => {
            proof {
                if !l.unaligned {
                    let bnl = uint_at(b@, l.hp as int, l.hw as int, l.be);
                    lemma_uint_nonneg(b@, l.hp as int, l.hw as int, l.be);
                    lemma_align_up_nonneg(bnl, l.align as int);
                    assert(b@.len() >= l.hp + 2 * l.hw + align_up(bnl, l.align as int));
                }
            }
            let fh = read_uint(b, 8, l.hdw, l.be);
            if l.hdw == 8 && fh as u128 >= usize::MAX as u128 {
                return true;
            }
            let (fw, ids) = format_walk_check(b, l, fh as usize, fuel);
            match fw {
                Walk::Fails => false,
                Walk::Stopped => true,
                Walk::Done => {
                    let dh = read_uint(b, 8 + l.hdw, l.hdw, l.be);
                    if l.hdw == 8 && dh as u128 >= usize::MAX as u128 {
                        return true;
                    }
                    match data_walk_check(b, l, dh as usize, fuel, &ids) {
                        Walk::Fails => false,
                        _ => true,
                    }
                },
            }
        },
    }
}

/// The reader of the family (SPBF when `spbf`) returns on the version-1 file
/// `file`.
pub open spec fn read_safe(file: Seq<u8>, spbf: bool) -> bool {
    if spbf {
        spbf_read_safe(file)
    } else {
        upbf_read_safe(file)
    }
}

/// The layout of an SPBF type byte (see `spbf_layout`).
fn spbf_layout_of(code: u8) -> (r: Layout)
    ensures
        r == spbf_layout(code),
        layout_wf(r),
{
    if code < 2 {
        Layout { be: code == 1, unaligned: true, align: 2, hp: 0x10, hw: 2, hdw: 4, nw: 4, flw: 2, idw: 2, dw: 2, dlw: 2 }
    } else {
        Layout { be: code == 3, unaligned: false, align: 2, hp: 0x10, hw: 2, hdw: 4, nw: 4, flw: 2, idw: 2, dw: 2, dlw: 2 }
    }
}

/// The layout of a UPBF type byte (see `upbf_layout`).
fn upbf_layout_of(code: u8) -> (r: Layout)
    ensures
        r == upbf_layout(code),
        layout_wf(r),
{
    if code < 2 {
        Layout { be: code == 1, unaligned: false, align: 4, hp: 0x10, hw: 4, hdw: 4, nw: 4, flw: 4, idw: 4, dw: 4, dlw: 4 }
    } else {
        Layout { be: code == 3, unaligned: false, align: 8, hp: 0x18, hw: 4, hdw: 8, nw: 8, flw: 4, idw: 4, dw: 8, dlw: 4 }
    }
}

/// Whether the reader of the family (SPBF when `spbf`) returns on the
/// version-1 file `b`.
pub fn check_read_safe(b: &[u8], spbf: bool) -> (r: bool)
    ensures
        r == read_safe(b@, spbf),
{
    if b.len() < 8 || b.len() > usize::MAX - 64 {
        return false;
    }
    let l = if spbf { spbf_layout_of(b[6]) } else { upbf_layout_of(b[6]) };
    read_walk_check(b, l)
}

} // verus!
