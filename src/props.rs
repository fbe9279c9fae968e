use vstd::prelude::*;

use crate::bytes::{be_u32_at, read_be_u32};
use crate::token::{find_nul, first_nul, lemma_first_nul_bounds};

verus! {

/// A string-list property: one or more NUL-terminated strings packed together.
#[derive(Clone, Copy)]
pub struct StrSeq<'a> {
    pub bytes: &'a [u8],
}

/// The bytes form a string list: they are empty (no strings) or end with a NUL.
pub open spec fn str_seq_ok(b: Seq<u8>) -> bool {
    b.len() == 0 || b[b.len() - 1] == 0
}

/// The strings of `b` from position `i` on, the current one having begun at
/// `start`: each ends at a NUL, and trailing bytes without one form a last string.
pub open spec fn str_list_from(b: Seq<u8>, start: int, i: int) -> Seq<Seq<u8>>
    decreases b.len() - i,
{
    if i < 0 || i >= b.len() {
        if 0 <= start < b.len() {
            seq![b.subrange(start, b.len() as int)]
        } else {
            seq![]
        }
    } else if b[i] == 0 {
        seq![b.subrange(start, i)] + str_list_from(b, i + 1, i + 1)
    } else {
        str_list_from(b, start, i + 1)
    }
}

/// The strings of a string list, in order.
pub open spec fn str_list(b: Seq<u8>) -> Seq<Seq<u8>> {
    str_list_from(b, 0, 0)
}

impl<'a> StrSeq<'a> {
    /// Reads a property value as a string list; `None` where it is not one.
    pub fn decode(v: &'a [u8]) -> (r: Option<StrSeq<'a>>)
        ensures
            r is Some <==> str_seq_ok(v@),
            r matches Some(s) ==> s.bytes@ == v@,
    {
        if v.len() == 0 || v[v.len() - 1] == 0 {
            Some(StrSeq { bytes: v })
        } else {
            None
        }
    }

    /// The first string of the list, without its NUL.
    pub fn first(&self) -> (r: &'a [u8])
        ensures
            r@ == self.bytes@.subrange(0, first_nul(self.bytes@, 0)),
    {
        proof {
            lemma_first_nul_bounds(self.bytes@, 0);
        }
        let end = find_nul(self.bytes, 0);
        vstd::slice::slice_subrange(self.bytes, 0, end)
    }
}

impl<'a> StrSeq<'a> {
    /// Every string of the list, in order, each without its NUL.
    pub fn strings(&self) -> (r: Vec<&'a [u8]>)
        ensures
            r@.len() == str_list(self.bytes@).len(),
            forall|k: int| 0 <= k < r@.len() ==> (#[trigger] r@[k])@ == str_list(self.bytes@)[k],
    {
        let b = self.bytes;
        let ghost all = str_list(b@);
        let ghost mut acc: Seq<Seq<u8>> = seq![];
        let mut out: Vec<&'a [u8]> = Vec::new();
        let mut start: usize = 0;
        let mut i: usize = 0;
        while i < b.len()
            invariant
                b == self.bytes,
                all == str_list(b@),
                start <= i <= b@.len(),
                acc + str_list_from(b@, start as int, i as int) == all,
                out@.len() == acc.len(),
                forall|k: int| 0 <= k < out@.len() ==> (#[trigger] out@[k])@ == acc[k],
            decreases b@.len() - i,
        {
            if b[i] == 0 {
                out.push(vstd::slice::slice_subrange(b, start, i));
                proof {
                    acc = acc + seq![b@.subrange(start as int, i as int)];
                    assert(acc + str_list_from(b@, i + 1, i + 1) =~= all);
                }
                start = i + 1;
            }
            i = i + 1;
        }
        if start < b.len() {
            out.push(vstd::slice::slice_subrange(b, start, b.len()));
            proof {
                acc = acc + seq![b@.subrange(start as int, b@.len() as int)];
            }
        }
        assert(acc =~= all);
        out
    }
}

/// The number `n` cells at `off` stand for (at most two cells, big-endian).
pub open spec fn cells_value(b: Seq<u8>, off: int, n: int) -> int {
    if n == 0 {
        0
    } else if n == 1 {
        be_u32_at(b, off)
    } else {
        be_u32_at(b, off) * 0x1_0000_0000 + be_u32_at(b, off + 4)
    }
}

/// Bytes in one `(address, length)` entry.
pub open spec fn entry_width(ac: int, sc: int) -> int {
    4 * (ac + sc)
}

/// Entry `i` of a `reg` value as `(address, length)`.
pub open spec fn reg_entry(b: Seq<u8>, ac: int, sc: int, i: int) -> (int, int) {
    let off = i * entry_width(ac, sc);
    (cells_value(b, off, ac), cells_value(b, off + 4 * ac, sc))
}

pub open spec fn reg_count(b: Seq<u8>, ac: int, sc: int) -> int {
    b.len() as int / entry_width(ac, sc)
}

/// The cell widths are supported (at most two cells each, not both zero) and `b`
/// holds a whole number of entries.
pub open spec fn reg_shape_ok(b: Seq<u8>, ac: int, sc: int) -> bool {
    &&& 0 <= ac <= 2
    &&& 0 <= sc <= 2
    &&& ac + sc >= 1
    &&& b.len() as int % entry_width(ac, sc) == 0
}

/// A `reg` value that decodes with `ac` address and `sc` size cells: a supported
/// shape, and every range ending within 64 bits.
pub open spec fn reg_ok(b: Seq<u8>, ac: int, sc: int) -> bool {
    &&& reg_shape_ok(b, ac, sc)
    &&& forall|i: int|
        0 <= i < reg_count(b, ac, sc) ==> #[trigger] reg_entry(b, ac, sc, i).0 + reg_entry(
            b,
            ac,
            sc,
            i,
        ).1 <= u64::MAX
}

/// The first entry of a `reg` value decodes: a supported shape, at least one
/// entry, and the first range ending within 64 bits. Later entries play no part.
pub open spec fn first_entry_ok(b: Seq<u8>, ac: int, sc: int) -> bool {
    &&& reg_shape_ok(b, ac, sc)
    &&& b.len() >= entry_width(ac, sc)
    &&& reg_entry(b, ac, sc, 0).0 + reg_entry(b, ac, sc, 0).1 <= u64::MAX
}

/// The half-open range that an entry stands for.
pub open spec fn entry_range(e: (int, int)) -> (int, int) {
    (e.0, e.0 + e.1)
}

/// A `reg` property: `(address, length)` entries with the cell widths that the
/// node's ancestors declare.
#[derive(Clone, Copy)]
pub struct Reg<'a> {
    pub bytes: &'a [u8],
    pub address_cells: u32,
    pub size_cells: u32,
}

proof fn lemma_entry_in_bounds(len: int, w: int, i: int)
    requires
        w >= 4,
        len % w == 0,
        0 <= i < len / w,
    ensures
        0 <= i * w,
        i * w + w <= len,
{
    assert(i * w + w <= (len / w) * w) by (nonlinear_arith)
        requires
            0 <= i < len / w,
            w >= 4,
    ;
    assert((len / w) * w == len) by (nonlinear_arith)
        requires
            len % w == 0,
            w >= 4,
    ;
    assert(0 <= i * w) by (nonlinear_arith)
        requires
            0 <= i,
            w >= 4,
    ;
}

/// Reads `n` cells at `off` as one number.
fn read_cells_value(b: &[u8], off: usize, n: u32) -> (r: u64)
    requires
        n <= 2,
        off + 4 * n <= b@.len(),
        b@.len() <= usize::MAX,
    ensures
        r as int == cells_value(b@, off as int, n as int),
{
    if n == 0 {
        0
    } else if n == 1 {
        read_be_u32(b, off) as u64
    } else {
        let hi = read_be_u32(b, off) as u64;
        let lo = read_be_u32(b, off + 4) as u64;
        assert(hi * 0x1_0000_0000 + lo <= u64::MAX) by (nonlinear_arith)
            requires
                hi <= u32::MAX,
                lo <= u32::MAX,
        ;
        hi * 0x1_0000_0000 + lo
    }
}

impl<'a> Reg<'a> {
    pub open spec fn wf(&self) -> bool {
        &&& reg_ok(self.bytes@, self.address_cells as int, self.size_cells as int)
        &&& self.bytes@.len() <= usize::MAX
    }

    /// The decoded ranges, in document order.
    pub open spec fn view_ranges(&self) -> Seq<(int, int)> {
        Seq::new(
            reg_count(self.bytes@, self.address_cells as int, self.size_cells as int) as nat,
            |i: int|
                entry_range(
                    reg_entry(self.bytes@, self.address_cells as int, self.size_cells as int, i),
                ),
        )
    }

    /// Reads a property value as `reg` entries of the given cell widths; `None`
    /// where it does not decode.
    pub fn decode(v: &'a [u8], address_cells: u32, size_cells: u32) -> (r: Option<Reg<'a>>)
        ensures
            r is Some <==> reg_ok(v@, address_cells as int, size_cells as int),
            r matches Some(g) ==> g.wf() && g.bytes@ == v@ && g.address_cells == address_cells
                && g.size_cells == size_cells,
    {
        if address_cells > 2 || size_cells > 2 || address_cells + size_cells == 0 {
            return None;
        }
        let w: usize = 4 * (address_cells as usize + size_cells as usize);
        if v.len() % w != 0 {
            return None;
        }
        let len = v.len();
        let count = len / w;
        let ghost ac = address_cells as int;
        let ghost sc = size_cells as int;
        let mut i: usize = 0;
        while i < count
            invariant
                w as int == entry_width(ac, sc),
                ac == address_cells as int,
                sc == size_cells as int,
                0 <= ac <= 2,
                0 <= sc <= 2,
                w >= 4,
                v@.len() as int % (w as int) == 0,
                count as int == reg_count(v@, ac, sc),
                i <= count,
                len == v@.len(),
                forall|j: int|
                    0 <= j < i ==> #[trigger] reg_entry(v@, ac, sc, j).0 + reg_entry(
                        v@,
                        ac,
                        sc,
                        j,
                    ).1 <= u64::MAX,
            decreases count - i,
        {
            proof {
                lemma_entry_in_bounds(v@.len() as int, w as int, i as int);
            }
            let off = i * w;
            let a = read_cells_value(v, off, address_cells);
            let l = read_cells_value(v, off + 4 * address_cells as usize, size_cells);
            if a > u64::MAX - l {
                assert(reg_entry(v@, ac, sc, i as int) == (a as int, l as int));
                assert(0 <= i < reg_count(v@, ac, sc));
                assert(reg_entry(v@, ac, sc, i as int).0 + reg_entry(v@, ac, sc, i as int).1 > u64::MAX);
                return None;
            }
            i = i + 1;
        }
        Some(Reg { bytes: v, address_cells, size_cells })
    }

    /// Number of entries.
    pub fn len(&self) -> (r: usize)
        requires
            self.wf(),
        ensures
            r == self.view_ranges().len(),
    {
        self.bytes.len() / (4 * (self.address_cells as usize + self.size_cells as usize))
    }

    /// Entry `i` as the range `[address, address + length)`.
    pub fn get(&self, i: usize) -> (r: core::ops::Range<u64>)
        requires
            self.wf(),
            i < self.view_ranges().len(),
        ensures
            (r.start as int, r.end as int) == self.view_ranges()[i as int],
    {
        let ghost ac = self.address_cells as int;
        let ghost sc = self.size_cells as int;
        let w: usize = 4 * (self.address_cells as usize + self.size_cells as usize);
        proof {
            lemma_entry_in_bounds(self.bytes@.len() as int, w as int, i as int);
            assert(reg_entry(self.bytes@, ac, sc, i as int).0 + reg_entry(self.bytes@, ac, sc, i as int).1 <= u64::MAX);
        }
        let off = i * w;
        let a = read_cells_value(self.bytes, off, self.address_cells);
        let l = read_cells_value(self.bytes, off + 4 * self.address_cells as usize, self.size_cells);
        core::ops::Range { start: a, end: a + l }
    }

    /// The first entry, if there is one.
    pub fn first(&self) -> (r: Option<core::ops::Range<u64>>)
        requires
            self.wf(),
        ensures
            match r {
                Some(g) => self.view_ranges().len() > 0 && (g.start as int, g.end as int)
                    == self.view_ranges()[0],
                None => self.view_ranges().len() == 0,
            },
    {
        if self.len() == 0 {
            None
        } else {
            Some(self.get(0))
        }
    }

    /// All entries, in document order.
    pub fn ranges(&self) -> (r: Vec<core::ops::Range<u64>>)
        requires
            self.wf(),
        ensures
            r@.len() == self.view_ranges().len(),
            forall|i: int|
                0 <= i < r@.len() ==> (#[trigger] r@[i].start as int, r@[i].end as int)
                    == self.view_ranges()[i],
    {
        let n = self.len();
        let mut out: Vec<core::ops::Range<u64>> = Vec::new();
        let mut i: usize = 0;
        while i < n
            invariant
                self.wf(),
                n == self.view_ranges().len(),
                i <= n,
                out@.len() == i,
                forall|j: int|
                    0 <= j < i ==> (#[trigger] out@[j].start as int, out@[j].end as int)
                        == self.view_ranges()[j],
            decreases n - i,
        {
            out.push(self.get(i));
            i = i + 1;
        }
        out
    }
}

/// The first range of a `reg` value, reading entry 0 alone; `None` where the
/// value has an unsupported shape, no entry, or a first range past 64 bits.
pub fn first_range(v: &[u8], address_cells: u32, size_cells: u32) -> (r: Option<
    core::ops::Range<u64>,
>)
    ensures
        r is Some <==> first_entry_ok(v@, address_cells as int, size_cells as int),
        r matches Some(g) ==> (g.start as int, g.end as int) == entry_range(
            reg_entry(v@, address_cells as int, size_cells as int, 0),
        ),
{
    if address_cells > 2 || size_cells > 2 || address_cells + size_cells == 0 {
        return None;
    }
    let w: usize = 4 * (address_cells as usize + size_cells as usize);
    if v.len() % w != 0 || v.len() < w {
        return None;
    }
    let a = read_cells_value(v, 0, address_cells);
    let l = read_cells_value(v, 4 * address_cells as usize, size_cells);
    assert(reg_entry(v@, address_cells as int, size_cells as int, 0) == (a as int, l as int));
    if a > u64::MAX - l {
        return None;
    }
    Some(core::ops::Range { start: a, end: a + l })
}

/// A table of rows of `width` cells each, as the PMU event-mapping properties hold.
#[derive(Clone, Copy)]
pub struct CellTable<'a> {
    pub bytes: &'a [u8],
    pub width: usize,
}

pub open spec fn table_ok(b: Seq<u8>, width: int) -> bool {
    1 <= width <= 8 && b.len() as int % (4 * width) == 0
}

impl<'a> CellTable<'a> {
    pub open spec fn wf(&self) -> bool {
        &&& table_ok(self.bytes@, self.width as int)
        &&& self.bytes@.len() <= usize::MAX
    }

    pub open spec fn view_rows(&self) -> int {
        self.bytes@.len() as int / (4 * self.width as int)
    }

    /// The cell at `row`, `col`.
    pub open spec fn view_cell(&self, row: int, col: int) -> int {
        be_u32_at(self.bytes@, 4 * (row * self.width + col))
    }

    /// Reads a property value as rows of `width` cells; `None` where the length is
    /// not a whole number of rows.
    pub fn decode(v: &'a [u8], width: usize) -> (r: Option<CellTable<'a>>)
        ensures
            r is Some <==> table_ok(v@, width as int),
            r matches Some(t) ==> t.wf() && t.bytes@ == v@ && t.width == width,
    {
        if width < 1 || width > 8 || v.len() % (4 * width) != 0 {
            None
        } else {
            Some(CellTable { bytes: v, width })
        }
    }

    /// Number of rows.
    pub fn rows(&self) -> (r: usize)
        requires
            self.wf(),
        ensures
            r == self.view_rows(),
    {
        self.bytes.len() / (4 * self.width)
    }

    /// The cell at `row`, `col`.
    pub fn cell(&self, row: usize, col: usize) -> (r: u32)
        requires
            self.wf(),
            row < self.view_rows(),
            col < self.width,
        ensures
            r == self.view_cell(row as int, col as int),
    {
        let w = self.width;
        proof {
            lemma_entry_in_bounds(self.bytes@.len() as int, 4 * w as int, row as int);
            assert(4 * (row * w + col) + 4 <= row * (4 * w) + 4 * w) by (nonlinear_arith)
                requires
                    col < w,
            ;
        }
        read_be_u32(self.bytes, 4 * (row * w + col))
    }
}

} // verus!
