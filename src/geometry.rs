//! The sector-geometry model: the old and new bounds of a partition and the
//! quantities derived from them.
use vstd::prelude::*;

verus! {

/// Bytes in a mebibyte.
pub const MEBIBYTE: u64 = 1_048_576;

/// Bytes in a megabyte.
pub const MEGABYTE: u64 = 1_000_000;

/// A range of sectors: `start` is the first sector, `end` the sector where
/// the range stops.
#[derive(PartialEq, Eq, Structural, Clone, Copy, Debug)]
pub struct Coordinates {
    pub start: u64,
    pub end: u64,
}

impl Coordinates {
    pub fn new(start: u64, end: u64) -> (r: Coordinates)
        ensures
            r.start == start,
            r.end == end,
    {
        Coordinates { start, end }
    }

    /// Number of sectors in the range.
    pub open spec fn len(&self) -> int {
        self.end - self.start
    }
}

/// One resize or move transaction: the partition's bounds before and after,
/// and the size of a sector in bytes.
#[derive(PartialEq, Eq, Structural, Clone, Copy, Debug)]
pub struct ResizeOperation {
    pub sector_size: u64,
    pub old: Coordinates,
    pub new: Coordinates,
}

/// Division that rounds toward zero, as integer division does on machine
/// integers.
pub open spec fn div_toward_zero(a: int, b: int) -> int {
    if a >= 0 {
        a / b
    } else {
        -((-a) / b)
    }
}

impl ResizeOperation {
    pub fn new(sector_size: u64, old: Coordinates, new: Coordinates) -> (r: ResizeOperation)
        ensures
            r.sector_size == sector_size,
            r.old == old,
            r.new == new,
    {
        ResizeOperation { sector_size, old, new }
    }

    /// How far the first sector moves.
    pub open spec fn start_shift(&self) -> int {
        self.new.start - self.old.start
    }

    /// How far the last sector moves.
    pub open spec fn end_shift(&self) -> int {
        self.new.end - self.old.end
    }

    /// The net change in size, in sectors: the end's shift when the start
    /// stays, nothing for a pure translation, and otherwise the end's shift
    /// less the start's.
    pub open spec fn size_change(&self) -> int {
        if self.start_shift() == 0 {
            self.end_shift()
        } else if self.start_shift() == self.end_shift() {
            0
        } else {
            self.end_shift() - self.start_shift()
        }
    }

    /// The net change in size is the new length less the old one.
    pub proof fn lemma_size_change_is_length_difference(&self)
        ensures
            self.size_change() == self.new.len() - self.old.len(),
    {
    }

    /// The size change over the full range of the coordinates; no bound is
    /// needed since each shift fits in 65 bits.
    fn size_change_wide(&self) -> (r: i128)
        ensures
            r == self.size_change(),
    {
        let diff_start: i128 = self.new.start as i128 - self.old.start as i128;
        let diff_end: i128 = self.new.end as i128 - self.old.end as i128;
        if diff_start == 0 {
            diff_end
        } else if diff_start == diff_end {
            0
        } else {
            diff_end - diff_start
        }
    }

    pub fn is_shrinking(&self) -> (r: bool)
        ensures
            r == (self.size_change() < 0),
    {
        self.size_change_wide() < 0
    }

    pub fn is_growing(&self) -> (r: bool)
        ensures
            r == (self.size_change() > 0),
    {
        self.size_change_wide() > 0
    }

    pub fn is_moving(&self) -> (r: bool)
        ensures
            r == (self.old.start != self.new.start),
    {
        self.old.start != self.new.start
    }

    /// The final size of the partition, in sectors.
    pub fn absolute_sectors(&self) -> (r: u64)
        requires
            self.new.start <= self.new.end,
        ensures
            r == self.new.len(),
    {
        self.new.end - self.new.start
    }

    /// The net change in size, in sectors.
    pub fn relative_sectors(&self) -> (r: i64)
        requires
            i64::MIN <= self.size_change() <= i64::MAX,
        ensures
            r == self.size_change(),
    {
        self.size_change_wide() as i64
    }

    pub fn as_absolute_mebibyte(&self) -> (r: u64)
        requires
            self.new.start <= self.new.end,
            self.new.len() * self.sector_size <= u64::MAX,
        ensures
            r == self.new.len() * self.sector_size / MEBIBYTE as int,
    {
        self.absolute_sectors() * self.sector_size / MEBIBYTE
    }

    pub fn as_absolute_megabyte(&self) -> (r: u64)
        requires
            self.new.start <= self.new.end,
            self.new.len() * self.sector_size <= u64::MAX,
        ensures
            r == self.new.len() * self.sector_size / MEGABYTE as int,
    {
        self.absolute_sectors() * self.sector_size / MEGABYTE
    }

    /// The signed change in bytes divided by `unit`, rounded toward zero.
    fn relative_in_unit(&self, unit: u64) -> (r: i64)
        requires
            unit >= 2,
            i64::MIN <= self.size_change() * self.sector_size <= i64::MAX,
        ensures
            r == div_toward_zero(self.size_change() * self.sector_size, unit as int),
    {
        let rel = self.size_change_wide();
        let ss = self.sector_size;
        let magnitude: u128 = if rel < 0 { (-rel) as u128 } else { rel as u128 };
        let ghost p = self.size_change() * ss;
        proof {
            assert(magnitude * ss == if rel < 0 { -p } else { p }) by (nonlinear_arith)
                requires
                    magnitude == if rel < 0 { -rel } else { rel as int },
                    rel == self.size_change(),
                    p == self.size_change() * ss,
            ;
            assert(rel < 0 ==> p <= 0) by (nonlinear_arith)
                requires
                    rel == self.size_change(),
                    p == self.size_change() * ss,
                    ss >= 0,
            ;
            assert(rel >= 0 ==> p >= 0) by (nonlinear_arith)
                requires
                    rel == self.size_change(),
                    p == self.size_change() * ss,
                    ss >= 0,
            ;
        }
        let quotient: u128 = magnitude * (ss as u128) / (unit as u128);
        proof {
            assert(quotient * 2 <= magnitude * ss) by (nonlinear_arith)
                requires
                    quotient == magnitude * ss / unit as int,
                    unit >= 2,
                    magnitude * ss >= 0,
            ;
        }
        if rel < 0 {
            -(quotient as i64)
        } else {
            quotient as i64
        }
    }

    pub fn as_relative_megabyte(&self) -> (r: i64)
        requires
            i64::MIN <= self.size_change() * self.sector_size <= i64::MAX,
        ensures
            r == div_toward_zero(self.size_change() * self.sector_size, MEGABYTE as int),
    {
        self.relative_in_unit(MEGABYTE)
    }

    pub fn as_relative_mebibyte(&self) -> (r: i64)
        requires
            i64::MIN <= self.size_change() * self.sector_size <= i64::MAX,
        ensures
            r == div_toward_zero(self.size_change() * self.sector_size, MEBIBYTE as int),
    {
        self.relative_in_unit(MEBIBYTE)
    }
}


/// Growing in place: when the start stays and the end moves out, the
/// partition grows by exactly the end's shift, shrinks not, and does not move.
pub proof fn lemma_growing_in_place(op: ResizeOperation)
    requires
        op.new.start == op.old.start,
        op.new.end > op.old.end,
    ensures
        op.size_change() > 0,
        !(op.size_change() < 0),
        op.old.start == op.new.start,
        op.size_change() == op.new.end - op.old.end,
{
}

/// A pure translation: when start and end move by the same amount `k`, the
/// size does not change, the partition neither grows nor shrinks, and it
/// moves exactly when `k` is not zero.
pub proof fn lemma_translation_keeps_size(op: ResizeOperation, k: int)
    requires
        op.new.start == op.old.start + k,
        op.new.end == op.old.end + k,
    ensures
        op.size_change() == 0,
        !(op.size_change() > 0),
        !(op.size_change() < 0),
        (op.old.start != op.new.start) == (k != 0),
{
}

} // verus!
