//! Data cache maintenance: the set/way operands that walk a whole cache level, and the cache
//! lines that cover an address range.
use vstd::prelude::*;
use vstd::std_specs::bits::{u64_leading_zeros, axiom_u64_leading_zeros};

verus! {

/// A maintenance operation on the data cache.
#[derive(Debug, Clone, Copy, PartialEq, Eq)]
pub enum CacheOperation {
    Clean,
    Invalidate,
    Flush,
}

/// A cache level.
#[derive(Debug, Clone, Copy, PartialEq, Eq)]
pub enum CacheLevel {
    L1,
    L2,
    L3,
}

/// The number the hardware gives a cache level (L1 is 0).
pub open spec fn level_number(level: CacheLevel) -> u64 {
    match level {
        CacheLevel::L1 => 0,
        CacheLevel::L2 => 1,
        CacheLevel::L3 => 2,
    }
}

impl CacheLevel {
    /// The number the hardware gives this level (L1 is 0).
    pub fn number(&self) -> (n: u64)
        ensures
            n == level_number(*self),
    {
        match self {
            CacheLevel::L1 => 0,
            CacheLevel::L2 => 1,
            CacheLevel::L3 => 2,
        }
    }
}

/// The levels a whole-cache operation walks: all three when the level of coherency `loc` is
/// not zero, none otherwise.
pub open spec fn whole_cache_levels_spec(loc: u64) -> Seq<CacheLevel> {
    if loc != 0 {
        seq![CacheLevel::L1, CacheLevel::L2, CacheLevel::L3]
    } else {
        Seq::empty()
    }
}

/// The levels a whole-cache clean, invalidate or flush walks, given the level of coherency.
pub fn whole_cache_levels(loc: u64) -> (levels: Vec<CacheLevel>)
    ensures
        levels@ == whole_cache_levels_spec(loc),
        levels@ == (if loc != 0 {
            seq![CacheLevel::L1, CacheLevel::L2, CacheLevel::L3]
        } else {
            Seq::<CacheLevel>::empty()
        }),
{
    if loc != 0 {
        let v = vec![CacheLevel::L1, CacheLevel::L2, CacheLevel::L3];
        assert(v@ =~= whole_cache_levels_spec(loc));
        v
    } else {
        let v: Vec<CacheLevel> = Vec::new();
        assert(v@ =~= whole_cache_levels_spec(loc));
        v
    }
}

/// A whole-cache operation walks every level, from L1 (number 0) up to L3 (number 2), for
/// every non-zero level of coherency, and no level when it is zero; so any two non-zero levels
/// of coherency walk the same levels.
pub proof fn lemma_whole_cache_levels(loc: u64, other: u64)
    ensures
        loc != 0 ==> whole_cache_levels_spec(loc).len() == 3,
        loc != 0 ==> forall|i: int|
            0 <= i < 3 ==> level_number(#[trigger] whole_cache_levels_spec(loc)[i]) == i,
        loc == 0 ==> whole_cache_levels_spec(loc).len() == 0,
        loc != 0 && other != 0 ==> whole_cache_levels_spec(loc) == whole_cache_levels_spec(other),
{
}

/// Whether a level whose cache type field is `cache_type` holds data (type 2 or more): only
/// those levels are maintained.
pub fn holds_data(cache_type: u64) -> (b: bool)
    ensures
        b == (cache_type >= 2),
{
    cache_type >= 0x2
}

/// The way bits of a set/way operand: `way` shifted left by the leading zeros of the
/// associativity field; when the field is 0 the cache has a single way, way 0, and the bits are 0.
pub open spec fn way_bits(way: u64, assoc: u64) -> u64 {
    if u64_leading_zeros(assoc) < 64 {
        way << (u64_leading_zeros(assoc) as u64)
    } else {
        0
    }
}

/// The set/way operand of `way` in `set` of `level`: the level number shifted left by one,
/// the way bits, and the set shifted left by the line size field plus four, combined with `|`.
pub open spec fn set_way_operand(level: CacheLevel, way: u64, set: u64, assoc: u64, line_size: u64) -> u64 {
    ((level_number(level) << 1u64) | way_bits(way, assoc)) | (set << (line_size + 4) as u64)
}

/// The operands of a walk of `level`, as cells of a grid: row `r` is set `num_sets - r`,
/// column `c` is way `assoc - c`.
pub open spec fn set_way_cell(level: CacheLevel, line_size: u64, assoc: u64, num_sets: u64) -> spec_fn(
    int,
    int,
) -> Seq<u64> {
    |r: int, c: int|
        seq![set_way_operand(level, (assoc - c) as u64, (num_sets - r) as u64, assoc, line_size)]
}

/// The set/way operands that maintain every line of `level`. `line_size`, `assoc` and
/// `num_sets` are the fields that the cache size register gives for the level: `assoc` is the
/// number of ways less one and `num_sets` the number of sets less one. The walk goes through
/// the sets from `num_sets` down to 0, and within a set through the ways from `assoc` down to 0:
/// `(num_sets + 1) * (assoc + 1)` operands, one for every line of the level.
pub fn set_way_operands(level: CacheLevel, line_size: u64, assoc: u64, num_sets: u64) -> (ops: Vec<u64>)
    requires
        line_size + 4 < 64,
    ensures
        ops@ == crate::grid::grid_cells(
            (num_sets + 1) as nat,
            (assoc + 1) as nat,
            set_way_cell(level, line_size, assoc, num_sets),
        ),
        ops@.len() == (num_sets + 1) * (assoc + 1),
        forall|set: u64, way: u64|
            set <= num_sets && way <= assoc ==> #[trigger] ops@[(num_sets - set) * (assoc + 1) + (assoc
                - way)] == set_way_operand(level, way, set, assoc, line_size),
{
    let ghost cell = set_way_cell(level, line_size, assoc, num_sets);
    let ghost cols: nat = (assoc + 1) as nat;
    let cache_line_size_x2 = line_size + 4;
    let assoc_bit_x5 = assoc.leading_zeros() as u64;
    let level_bits = level.number() << 1;
    let mut ops: Vec<u64> = Vec::new();
    let mut set = num_sets;
    let mut more_sets = true;
    while more_sets
        invariant
            set <= num_sets,
            cache_line_size_x2 == line_size + 4,
            line_size + 4 < 64,
            assoc_bit_x5 as int == u64_leading_zeros(assoc),
            level_bits == level_number(level) << 1u64,
            cell == set_way_cell(level, line_size, assoc, num_sets),
            cols == assoc + 1,
            more_sets ==> ops@ == crate::grid::grid_cells((num_sets - set) as nat, cols, cell),
            !more_sets ==> ops@ == crate::grid::grid_cells((num_sets + 1) as nat, cols, cell),
        decreases (if more_sets { set + 1 } else { 0 }),
    {
        let ghost r: int = num_sets - set;
        let mut way = assoc;
        let mut more_ways = true;
        while more_ways
            invariant
                set <= num_sets,
                r == num_sets - set,
                way <= assoc,
                cache_line_size_x2 == line_size + 4,
                line_size + 4 < 64,
                assoc_bit_x5 as int == u64_leading_zeros(assoc),
                level_bits == level_number(level) << 1u64,
                cell == set_way_cell(level, line_size, assoc, num_sets),
                cols == assoc + 1,
                more_ways ==> ops@ == crate::grid::grid_cells(r as nat, cols, cell)
                    + crate::grid::row_cells(r, (assoc - way) as nat, cell),
                !more_ways ==> ops@ == crate::grid::grid_cells(r as nat, cols, cell)
                    + crate::grid::row_cells(r, cols, cell),
            decreases (if more_ways { way + 1 } else { 0 }),
        {
            let ghost before = ops@;
            proof {
                axiom_u64_leading_zeros(assoc);
                crate::grid::lemma_row_step(
                    crate::grid::grid_cells(r as nat, cols, cell),
                    r,
                    (assoc - way) as nat,
                    cell,
                );
            }
            let x6 = if assoc_bit_x5 < 64 {
                way << assoc_bit_x5
            } else {
                0
            };
            let x11 = level_bits | x6;
            let x6 = set << cache_line_size_x2;
            let x11 = x11 | x6;
            ops.push(x11);
            assert(ops@ =~= before + cell(r, assoc - way));
            if way == 0 {
                more_ways = false;
            } else {
                way = way - 1;
            }
        }
        proof {
            crate::grid::lemma_grid_step(r as nat, cols, cell);
        }
        if set == 0 {
            more_sets = false;
        } else {
            set = set - 1;
        }
    }
    proof {
        assert forall|rr: int, cc: int| 0 <= rr < num_sets + 1 && 0 <= cc < cols implies #[trigger] cell(rr, cc).len() == 1 by {}
        crate::grid::lemma_grid_unit((num_sets + 1) as nat, cols, cell);
        assert forall|set: u64, way: u64| set <= num_sets && way <= assoc implies #[trigger] ops@[(
        num_sets - set) * (assoc + 1) + (assoc - way)] == set_way_operand(level, way, set, assoc, line_size) by {
            let rr = num_sets - set;
            let cc = assoc - way;
            assert(ops@[rr * cols + cc] == cell(rr, cc)[0]);
        }
    }
    ops
}

/// The size in bytes of the smallest data cache line: four bytes shifted left by the
/// `DminLine` field of the cache type register.
pub fn dcache_line_size(dminline: u64) -> (size: usize)
    requires
        dminline < 64,
    ensures
        size == ((4u64 << dminline) as usize),
{
    (4u64 << dminline) as usize
}

/// The lines `cur, cur + dcls, ...` that start below `end`.
pub open spec fn lines_from(cur: int, end: int, dcls: int) -> Seq<usize>
    decreases (if cur < end { end - cur } else { 0 }),
    when dcls > 0
{
    if cur < end {
        seq![#[verifier::truncate] (cur as usize)] + lines_from(cur + dcls, end, dcls)
    } else {
        Seq::empty()
    }
}

/// Whether stepping from `cur` by `dcls` until `end` is reached never passes `usize::MAX`.
pub open spec fn steps_fit(cur: int, end: int, dcls: int) -> bool
    decreases (if cur < end { end - cur } else { 0 }),
    when dcls > 0
{
    cur < end ==> cur + dcls <= usize::MAX && steps_fit(cur + dcls, end, dcls)
}

/// The first address of the line that holds `from`, for a power-of-two line size.
pub open spec fn line_start(from: usize, dcls: usize) -> usize {
    from & !((dcls - 1) as usize)
}

/// The line addresses that a clean and invalidate of `size` bytes from `from` works on: from
/// the line that holds `from`, one line size at a time, while below `from + size`.
pub fn flush_dcache_range_lines(from: usize, size: usize, dcls: usize) -> (lines: Vec<usize>)
    requires
        from + size <= usize::MAX,
        dcls > 0,
        steps_fit(line_start(from, dcls) as int, from + size, dcls as int),
    ensures
        lines@ == lines_from(line_start(from, dcls) as int, from + size, dcls as int),
{
    let end = from + size;
    let start = from & !(dcls - 1);
    let mut lines: Vec<usize> = Vec::new();
    let mut current = start;
    while current < end
        invariant
            dcls > 0,
            end == from + size,
            steps_fit(current as int, end as int, dcls as int),
            lines@ + lines_from(current as int, end as int, dcls as int) == lines_from(
                start as int,
                end as int,
                dcls as int,
            ),
            start == line_start(from, dcls),
        decreases (if current < end { end - current } else { 0 }),
    {
        let ghost before = lines@;
        lines.push(current);
        assert(lines@ + lines_from(current + dcls, end as int, dcls as int) =~= before + lines_from(
            current as int,
            end as int,
            dcls as int,
        ));
        current += dcls;
    }
    assert(lines@ =~= lines@ + lines_from(current as int, end as int, dcls as int));
    lines
}

/// Every line of `lines_from(cur, end, dcls)` lies at `cur` plus a multiple of `dcls`, and every
/// address from `cur` up to `end` lies in one of them.
pub proof fn lemma_lines_cover(cur: int, end: int, dcls: int, a: int)
    requires
        dcls > 0,
        0 <= cur,
        steps_fit(cur, end, dcls),
        cur <= a < end,
    ensures
        exists|i: int|
            0 <= i < lines_from(cur, end, dcls).len() && #[trigger] lines_from(cur, end, dcls)[i] <= a
                < lines_from(cur, end, dcls)[i] + dcls,
    decreases end - cur,
{
    let s = lines_from(cur, end, dcls);
    if a < cur + dcls {
        assert(s[0] == cur as usize);
        assert(s[0] <= a < s[0] + dcls);
    } else {
        lemma_lines_cover(cur + dcls, end, dcls, a);
        let t = lines_from(cur + dcls, end, dcls);
        let i = choose|i: int| 0 <= i < t.len() && #[trigger] t[i] <= a < t[i] + dcls;
        assert(s[i + 1] == t[i]);
    }
}

/// A clean and invalidate by address range works on every line that holds a byte of the
/// range: for a power-of-two line size, each address from `from` to `from + size - 1` lies in
/// one of the lines that `flush_dcache_range_lines` gives.
pub proof fn lemma_flush_range_covers(from: usize, size: usize, dcls: usize, a: int)
    requires
        from + size <= usize::MAX,
        dcls > 0,
        dcls & ((dcls - 1) as usize) == 0,
        steps_fit(line_start(from, dcls) as int, from + size, dcls as int),
        from <= a < from + size,
    ensures
        exists|i: int|
            0 <= i < lines_from(line_start(from, dcls) as int, from + size, dcls as int).len()
                && #[trigger] lines_from(line_start(from, dcls) as int, from + size, dcls as int)[i] <= a
                < lines_from(line_start(from, dcls) as int, from + size, dcls as int)[i] + dcls,
{
    let m = (dcls - 1) as usize;
    assert(from & !m <= from) by (bit_vector);
    lemma_lines_cover(line_start(from, dcls) as int, from + size, dcls as int, a);
}

/// A set/way operand holds the level number in bits 1 to 3 and 0 in bit 0, as long as the way
/// bits start at bit 4 or above (an associativity field below 2^60).
pub proof fn lemma_operand_level_bits(level: CacheLevel, way: u64, set: u64, assoc: u64, line_size: u64)
    requires
        line_size + 4 < 64,
        u64_leading_zeros(assoc) >= 4,
    ensures
        set_way_operand(level, way, set, assoc, line_size) & 0xFu64 == level_number(level) << 1u64,
{
    let l = level_number(level);
    let k = (line_size + 4) as u64;
    let wb = way_bits(way, assoc);
    if u64_leading_zeros(assoc) < 64 {
        let lz = u64_leading_zeros(assoc) as u64;
        assert(wb == way << lz);
        assert(lz >= 4 && lz < 64 ==> (way << lz) & 0xFu64 == 0) by (bit_vector);
    } else {
        assert(wb == 0);
        assert(0u64 & 0xFu64 == 0) by (bit_vector);
    }
    assert(k >= 4 && k < 64 ==> (set << k) & 0xFu64 == 0) by (bit_vector);
    assert(l <= 2 && wb & 0xFu64 == 0 && (set << k) & 0xFu64 == 0 ==> (((l << 1u64) | wb) | (set << k))
        & 0xFu64 == l << 1u64) by (bit_vector);
}

/// For a power-of-two line size, the first line of a range starts on a line boundary, at
/// `from` or less than one line below it.
pub proof fn lemma_line_start(from: usize, dcls: usize)
    requires
        dcls > 0,
        dcls & ((dcls - 1) as usize) == 0,
    ensures
        line_start(from, dcls) & ((dcls - 1) as usize) == 0,
        line_start(from, dcls) <= from,
        from - line_start(from, dcls) < dcls,
{
    let m = (dcls - 1) as usize;
    assert((from & !m) & m == 0) by (bit_vector);
    assert(from & !m <= from) by (bit_vector);
    assert(from - (from & !m) <= m) by (bit_vector);
}

} // verus!
