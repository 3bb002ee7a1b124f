//! Relocation of a partition's data: the ranges of sectors to copy, the
//! order in which to copy them, and a copier over an in-memory image.
use vstd::prelude::*;
use crate::geometry::ResizeOperation;

verus! {

/// A range of sectors of the old layout: the first sector and a count.
#[derive(PartialEq, Eq, Structural, Clone, Copy, Debug)]
pub struct OffsetCoordinates {
    pub skip: u64,
    pub length: u64,
}

/// The plan of a relocation: the data in `inner`, followed by the data in
/// `overlap` when there is any, moves by `offset` sectors.
///
/// When the partition moves toward higher sectors and the range that moves
/// intersects its destination, `overlap` holds the part of that range that
/// the new extent covers, and `inner` the part before it. The overlap is copied
/// first, and every range is copied from its last sector down to its first,
/// so that no sector is written before it has been read. When moving toward
/// lower sectors, the single range is copied from its first sector up.
#[derive(PartialEq, Eq, Structural, Clone, Copy, Debug)]
pub struct Offset {
    pub offset: i64,
    pub inner: OffsetCoordinates,
    pub overlap: Option<OffsetCoordinates>,
}

impl Offset {
    /// First sector of the data that moves.
    pub open spec fn source_start(&self) -> int {
        self.inner.skip as int
    }

    pub open spec fn overlap_len(&self) -> int {
        match self.overlap {
            Some(o) => o.length as int,
            None => 0,
        }
    }

    /// Number of sectors that move.
    pub open spec fn moved_len(&self) -> int {
        self.inner.length + self.overlap_len()
    }

    /// First sector the data moves to.
    pub open spec fn target_start(&self) -> int {
        self.inner.skip + self.offset
    }

    /// The plan describes one contiguous range: an overlap only when moving
    /// toward higher sectors, right after the inner range, and old and new
    /// extents within the sectors a `u64` can address.
    pub open spec fn wf(&self) -> bool {
        &&& (self.overlap matches Some(o) ==> self.offset > 0 && o.skip == self.inner.skip
            + self.inner.length)
        &&& self.source_start() + self.moved_len() <= u64::MAX
        &&& 0 <= self.target_start()
        &&& self.target_start() + self.moved_len() <= u64::MAX
    }

    /// Source sector of the `k`-th copy: from the last sector down when
    /// moving toward higher sectors, from the first up otherwise.
    pub open spec fn copy_source(&self, k: int) -> int {
        if self.offset > 0 {
            self.source_start() + self.moved_len() - 1 - k
        } else {
            self.source_start() + k
        }
    }

    /// Target sector of the `k`-th copy.
    pub open spec fn copy_target(&self, k: int) -> int {
        self.copy_source(k) + self.offset
    }

    /// Number of sector copies the relocation takes.
    pub fn copy_count(&self) -> (r: u64)
        requires
            self.wf(),
        ensures
            r == self.moved_len(),
    {
        match &self.overlap {
            Some(o) => self.inner.length + o.length,
            None => self.inner.length,
        }
    }

    /// The `k`-th copy, as a pair of source and target sectors. The copies of
    /// the overlap come first.
    pub fn copy_step(&self, k: u64) -> (r: (u64, u64))
        requires
            self.wf(),
            k < self.moved_len(),
        ensures
            r.0 == self.copy_source(k as int),
            r.1 == self.copy_target(k as int),
            k < self.overlap_len() ==> (self.overlap matches Some(o) && o.skip <= r.0 < o.skip
                + o.length),
    {
        let source: u64 = match &self.overlap {
            Some(o) if k < o.length => o.skip + (o.length - 1 - k),
            Some(o) => self.inner.skip + (self.inner.length - 1 - (k - o.length)),
            None => if self.offset > 0 {
                self.inner.skip + (self.inner.length - 1 - k)
            } else {
                self.inner.skip + k
            },
        };
        let target: u64 = if self.offset >= 0 {
            source + self.offset as u64
        } else {
            source - (-(self.offset as i128)) as u64
        };
        (source, target)
    }

    /// The `k`-th copy as byte positions on a device of `bs`-byte sectors:
    /// where to read `bs` bytes and where to write them. `None` when a
    /// position does not fit in a `u64`.
    pub fn copy_step_bytes(&self, k: u64, bs: u64) -> (r: Option<(u64, u64)>)
        requires
            self.wf(),
            k < self.moved_len(),
        ensures
            r is Some <==> self.copy_source(k as int) * bs <= u64::MAX && self.copy_target(
                k as int,
            ) * bs <= u64::MAX,
            r matches Some(p) ==> p.0 == self.copy_source(k as int) * bs && p.1 == self.copy_target(
                k as int,
            ) * bs,
    {
        let (source, target) = self.copy_step(k);
        match (source.checked_mul(bs), target.checked_mul(bs)) {
            (Some(from), Some(to)) => Some((from, to)),
            _ => None,
        }
    }
}

impl ResizeOperation {
    /// Number of sectors a move carries: the filesystem fits in the smaller
    /// of the two extents, since a shrink comes before the move and a grow
    /// only fills the larger extent later.
    pub open spec fn moved_sectors(&self) -> int {
        if self.old.len() <= self.new.len() {
            self.old.len()
        } else {
            self.new.len()
        }
    }

    /// The relocation that carries the first `moved_sectors()` sectors of
    /// the old extent to the new start. When moving toward higher sectors
    /// into an intersecting range, the intersection
    /// `[new.start, old.start + moved_sectors())` is the overlap and
    /// `[old.start, new.start)` the inner range; otherwise the whole moved
    /// range is the inner range.
    pub open spec fn relocation(&self) -> Offset {
        let shift = self.new.start - self.old.start;
        let moved = self.moved_sectors();
        if self.old.start < self.new.start < self.old.start + moved {
            Offset {
                offset: shift as i64,
                inner: OffsetCoordinates { skip: self.old.start, length: shift as u64 },
                overlap: Some(
                    OffsetCoordinates {
                        skip: self.new.start,
                        length: (self.old.start + moved - self.new.start) as u64,
                    },
                ),
            }
        } else {
            Offset {
                offset: shift as i64,
                inner: OffsetCoordinates { skip: self.old.start, length: moved as u64 },
                overlap: None,
            }
        }
    }

    /// The relocation of this resize. It reads only from the old extent and
    /// writes only into the new one; an overlap lies within both extents.
    pub fn offset(&self) -> (r: Offset)
        requires
            self.old.start <= self.old.end,
            self.new.start <= self.new.end,
            i64::MIN <= self.start_shift() <= i64::MAX,
        ensures
            r == self.relocation(),
            r.wf(),
            r.offset == self.start_shift(),
            r.source_start() == self.old.start,
            r.target_start() == self.new.start,
            r.moved_len() == self.moved_sectors(),
            r.source_start() + r.moved_len() <= self.old.end,
            r.target_start() + r.moved_len() <= self.new.end,
            r.overlap is Some <==> self.old.start < self.new.start < self.old.start
                + r.moved_len(),
            r.overlap matches Some(o) ==> self.old.start <= self.new.start <= o.skip && o.skip
                + o.length <= self.old.end && o.skip + o.length <= self.new.end,
    {
        proof {
            lemma_relocation_within_extents(*self);
        }
        let offset: i64 = (self.new.start as i128 - self.old.start as i128) as i64;
        let old_len = self.old.end - self.old.start;
        let new_len = self.new.end - self.new.start;
        let moved: u64 = if old_len <= new_len { old_len } else { new_len };
        if self.new.start > self.old.start && self.new.start - self.old.start < moved {
            Offset {
                offset,
                inner: OffsetCoordinates {
                    skip: self.old.start,
                    length: self.new.start - self.old.start,
                },
                overlap: Some(
                    OffsetCoordinates {
                        skip: self.new.start,
                        length: moved - (self.new.start - self.old.start),
                    },
                ),
            }
        } else {
            Offset {
                offset,
                inner: OffsetCoordinates { skip: self.old.start, length: moved },
                overlap: None,
            }
        }
    }
}

/// `before` with the bytes of `[lo, hi)` replaced by those `shift` bytes
/// earlier.
pub open spec fn shifted(before: Seq<u8>, lo: int, hi: int, shift: int) -> Seq<u8> {
    Seq::new(before.len(), |b: int| if lo <= b < hi { before[b - shift] } else { before[b] })
}

/// The image after `plan` is carried out with sectors of `bs` bytes: the
/// target extent holds what the source extent held, every other byte is as
/// it was.
pub open spec fn relocated(before: Seq<u8>, plan: Offset, bs: int) -> Seq<u8> {
    shifted(
        before,
        plan.target_start() * bs,
        (plan.target_start() + plan.moved_len()) * bs,
        plan.offset * bs,
    )
}

impl Offset {
    /// Target sectors written by the first `k` copies: `[lo, hi)`.
    pub open spec fn done_lo(&self, k: int) -> int {
        if self.offset > 0 {
            self.target_start() + self.moved_len() - k
        } else {
            self.target_start()
        }
    }

    pub open spec fn done_hi(&self, k: int) -> int {
        if self.offset > 0 {
            self.target_start() + self.moved_len()
        } else {
            self.target_start() + k
        }
    }
}

/// Copies the `bs` bytes of sector `source` over those of sector `target`.
fn copy_sector(disk: &mut Vec<u8>, source: usize, target: usize, bs: usize)
    requires
        bs > 0,
        (source + 1) * bs <= old(disk)@.len(),
        (target + 1) * bs <= old(disk)@.len(),
    ensures
        final(disk)@ == shifted(
            old(disk)@,
            target * bs,
            target * bs + bs,
            target * bs - source * bs,
        ),
{
    let n = disk.len();
    proof {
        assert((source + 1) * bs == source * bs + bs) by (nonlinear_arith);
        assert((target + 1) * bs == target * bs + bs) by (nonlinear_arith);
        assert(0 <= source * bs && 0 <= target * bs) by (nonlinear_arith)
            requires
                bs > 0,
        ;
    }
    let from = source * bs;
    let to = target * bs;
    let mut buffer: Vec<u8> = Vec::with_capacity(bs);
    let mut j: usize = 0;
    while j < bs
        invariant
            j <= bs,
            from + bs <= disk@.len(),
            disk@.len() == n,
            buffer@ == disk@.subrange(from as int, from + j),
        decreases bs - j,
    {
        buffer.push(disk[from + j]);
        j += 1;
        proof {
            assert(buffer@ =~= disk@.subrange(from as int, from + j));
        }
    }
    let ghost before = disk@;
    let mut j: usize = 0;
    while j < bs
        invariant
            j <= bs,
            to + bs <= before.len(),
            before.len() == n,
            from + bs <= before.len(),
            buffer@ == before.subrange(from as int, from + bs),
            disk@ == shifted(before, to as int, to + j, to - from),
        decreases bs - j,
    {
        disk.set(to + j, buffer[j]);
        j += 1;
        proof {
            assert(disk@ =~= shifted(before, to as int, to + j, to - from));
        }
    }
}

proof fn lemma_mul_le(a: int, b: int, c: int)
    requires
        0 <= a <= b,
        0 <= c,
    ensures
        a * c <= b * c,
{
    assert(a * c <= b * c) by (nonlinear_arith)
        requires
            0 <= a <= b,
            0 <= c,
    ;
}

/// Carries out `plan` on an image of `bs`-byte sectors held in memory, one
/// sector at a time in the order of `copy_step`. Whichever way the data
/// moves, the target extent ends up holding exactly what the source extent
/// held, and no byte outside the target extent changes.
pub fn relocate(disk: &mut Vec<u8>, plan: &Offset, bs: usize)
    requires
        bs > 0,
        plan.wf(),
        (plan.source_start() + plan.moved_len()) * bs <= old(disk)@.len(),
        (plan.target_start() + plan.moved_len()) * bs <= old(disk)@.len(),
    ensures
        final(disk)@ == relocated(old(disk)@, *plan, bs as int),
{
    let ghost orig = disk@;
    let n = disk.len();
    let count = plan.copy_count();
    let mut k: u64 = 0;
    proof {
        assert(disk@ =~= shifted(orig, plan.done_lo(0) * bs, plan.done_hi(0) * bs, plan.offset * bs));
    }
    while k < count
        invariant
            k <= count,
            count == plan.moved_len(),
            plan.wf(),
            bs > 0,
            disk@.len() == orig.len(),
            orig.len() == n,
            (plan.source_start() + plan.moved_len()) * bs <= orig.len(),
            (plan.target_start() + plan.moved_len()) * bs <= orig.len(),
            disk@ == shifted(
                orig,
                plan.done_lo(k as int) * bs,
                plan.done_hi(k as int) * bs,
                plan.offset * bs,
            ),
        decreases count - k,
    {
        let (source, target) = plan.copy_step(k);
        let ghost s = source as int;
        let ghost t = target as int;
        let ghost d = plan.offset as int;
        let ghost cur = disk@;
        proof {
            lemma_mul_le(s + 1, plan.source_start() + plan.moved_len(), bs as int);
            lemma_mul_le(t + 1, plan.target_start() + plan.moved_len(), bs as int);
            lemma_mul_le(s, s + 1, bs as int);
            lemma_mul_le(t, t + 1, bs as int);
            assert(s + 1 <= (s + 1) * bs && t + 1 <= (t + 1) * bs) by (nonlinear_arith)
                requires
                    bs > 0,
                    s >= 0,
                    t >= 0,
            ;
        }
        copy_sector(disk, source as usize, target as usize, bs);
        proof {
            let sb = s * bs;
            let tb = t * bs;
            assert(tb - sb == d * bs) by (nonlinear_arith)
                requires
                    t == s + d,
                    sb == s * bs,
                    tb == t * bs,
            ;
            assert((t + 1) * bs == tb + bs) by (nonlinear_arith)
                requires
                    tb == t * bs,
            ;
            assert((s + 1) * bs == sb + bs) by (nonlinear_arith)
                requires
                    sb == s * bs,
            ;
            assert(sb >= 0 && tb >= 0) by (nonlinear_arith)
                requires
                    sb == s * bs,
                    tb == t * bs,
                    s >= 0,
                    t >= 0,
                    bs > 0,
            ;
            assert(d > 0 ==> d * bs >= bs) by (nonlinear_arith)
                requires
                    bs > 0,
            ;
            assert(d <= 0 ==> d * bs <= 0) by (nonlinear_arith)
                requires
                    bs > 0,
            ;
            let lo = plan.done_lo(k as int) * bs;
            let hi = plan.done_hi(k as int) * bs;
            let next_lo = plan.done_lo(k + 1) * bs;
            let next_hi = plan.done_hi(k + 1) * bs;
            assert(d > 0 ==> next_lo == tb && next_hi == hi && lo == tb + bs) by {
                if d > 0 {
                    assert(plan.done_lo(k as int) == t + 1);
                    assert(plan.done_lo(k + 1) == t);
                }
            }
            assert(d <= 0 ==> next_lo == lo && next_hi == tb + bs && hi == tb) by {
                if d <= 0 {
                    assert(plan.done_hi(k as int) == t);
                    assert(plan.done_hi(k + 1) == t + 1);
                }
            }
            lemma_mul_le(plan.done_lo(k as int), plan.done_hi(k as int), bs as int);
            lemma_mul_le(plan.done_lo(k + 1), plan.done_hi(k + 1), bs as int);
            assert(cur == shifted(orig, lo, hi, d * bs));
            assert(disk@ == shifted(cur, tb, tb + bs, tb - sb));
            assert forall|b: int| 0 <= b < orig.len() implies #[trigger] disk@[b] == shifted(
                orig,
                next_lo,
                next_hi,
                d * bs,
            )[b] by {
                if tb <= b < tb + bs {
                    assert(disk@[b] == cur[b - (tb - sb)]);
                    assert(!(lo <= b - (tb - sb) < hi));
                    assert(next_lo <= b < next_hi);
                } else {
                    assert(disk@[b] == cur[b]);
                    assert((lo <= b < hi) == (next_lo <= b < next_hi));
                }
            }
            assert(disk@ =~= shifted(orig, next_lo, next_hi, d * bs));
        }
        k += 1;
    }
    proof {
        assert(plan.done_lo(count as int) == plan.target_start());
        assert(plan.done_hi(count as int) == plan.target_start() + plan.moved_len());
    }
}

/// The relocation of a resize is a consistent plan that reads only from the
/// old extent and writes only into the new one: it carries the first
/// `moved_sectors()` sectors of the old extent to the new start, and an
/// overlap, when there is one, lies within both extents.
pub proof fn lemma_relocation_within_extents(op: ResizeOperation)
    requires
        op.old.start <= op.old.end,
        op.new.start <= op.new.end,
        i64::MIN <= op.start_shift() <= i64::MAX,
    ensures
        op.relocation().wf(),
        op.relocation().offset == op.start_shift(),
        op.relocation().source_start() == op.old.start,
        op.relocation().target_start() == op.new.start,
        op.relocation().moved_len() == op.moved_sectors(),
        op.old.start + op.moved_sectors() <= op.old.end,
        op.new.start + op.moved_sectors() <= op.new.end,
        op.relocation().overlap is Some <==> op.old.start < op.new.start < op.old.start
            + op.moved_sectors(),
        op.relocation().overlap matches Some(o) ==> op.old.start <= op.new.start <= o.skip
            && o.skip + o.length <= op.old.end && o.skip + o.length <= op.new.end,
{
}

/// Relocating the data of a resize: on an image of `bs`-byte sectors, the
/// first `moved_sectors()` sectors of the new extent end up holding, byte for
/// byte, what the first `moved_sectors()` sectors of the old extent held, and
/// every other byte keeps its value, whichever way the partition moves and
/// however the two extents intersect. The written range lies within the new
/// extent.
pub proof fn lemma_relocation_round_trip(before: Seq<u8>, op: ResizeOperation, bs: int)
    requires
        bs > 0,
        op.old.start <= op.old.end,
        op.new.start <= op.new.end,
        i64::MIN <= op.start_shift() <= i64::MAX,
    ensures
        ({
            let after = relocated(before, op.relocation(), bs);
            &&& after.len() == before.len()
            &&& op.new.start + op.moved_sectors() <= op.new.end
            &&& forall|b: int|
                op.new.start * bs <= b < (op.new.start + op.moved_sectors()) * bs && b
                    < before.len() ==> #[trigger] after[b] == before[b - op.new.start * bs
                    + op.old.start * bs]
            &&& forall|b: int|
                0 <= b < before.len() && !(op.new.start * bs <= b < (op.new.start
                    + op.moved_sectors()) * bs) ==> #[trigger] after[b] == before[b]
        }),
{
    lemma_relocation_within_extents(op);
    let plan = op.relocation();
    assert(plan.offset * bs == op.new.start * bs - op.old.start * bs) by (nonlinear_arith)
        requires
            plan.offset == op.new.start - op.old.start,
    ;
}

} // verus!
