//! Register arithmetic of a few x86 instructions (`mov`, `add`, which wraps
//! around), and the cache size computed from the `cpuid` cache parameters.

use vstd::prelude::*;

verus! {

/// `mov o, i; add o, 5` with `i = 3`.
pub fn f() -> (o: u64)
    ensures
        o == 8,
{
    let i: u64 = 3;
    let o: u64 = i.wrapping_add(5);
    o
}

/// `add a, b; add a, c` with `a = b = c = 4`.
pub fn f1() -> (a: u64)
    ensures
        a == 12,
{
    let mut a: u64 = 4;
    let b: u64 = 4;
    let c: u64 = 4;
    a = a.wrapping_add(b);
    a = a.wrapping_add(c);
    a
}

/// The cache size that `cpuid` leaf 4 describes: ways (bits 22..31 of `ebx`, plus
/// one) times partitions (bits 12..21, plus one) times line size (bits 0..11,
/// plus one) times sets (`ecx` plus one).
pub open spec fn cache_size_spec(ebx: u32, ecx: u32) -> int {
    ((ebx / 0x400000) + 1) * (((ebx / 0x1000) % 0x400) + 1) * ((ebx % 0x1000) + 1) * (ecx + 1)
}

/// The fields of `ebx` that shifts and masks pick out are its quotients and
/// remainders by powers of two.
proof fn lemma_cpuid_fields(ebx: u32)
    by (bit_vector)
    ensures
        ebx >> 22u32 == ebx / 0x400000,
        (ebx >> 12u32) & 0x3ffu32 == (ebx / 0x1000) % 0x400,
        ebx & 0xfffu32 == ebx % 0x1000,
{
}

/// The cache size in bytes from the `cpuid` leaf 4 registers.
pub fn cache(ebx: u32, ecx: u32) -> (r: u32)
    requires
        cache_size_spec(ebx, ecx) <= u32::MAX,
    ensures
        r == cache_size_spec(ebx, ecx),
{
    let w0 = ebx >> 22;
    let p0 = (ebx >> 12) & 0x3ff;
    let l0 = ebx & 0xfff;
    proof {
        lemma_cpuid_fields(ebx);
    }
    let ways = w0 + 1;
    let parts = p0 + 1;
    let line = l0 + 1;
    let sets: u64 = ecx as u64 + 1;
    assert(1 <= ways <= 1024 && 1 <= parts <= 1024 && 1 <= line <= 4096);
    assert(1 <= ways * parts <= 1024 * 1024) by (nonlinear_arith)
        requires
            1 <= ways <= 1024,
            1 <= parts <= 1024,
    ;
    let wp = ways * parts;
    assert(wp * line <= 1024 * 1024 * 4096) by (nonlinear_arith)
        requires
            1 <= wp <= 1024 * 1024,
            1 <= line <= 4096,
    ;
    let wpl: u64 = (wp as u64) * (line as u64);
    assert(wpl * sets == cache_size_spec(ebx, ecx)) by (nonlinear_arith)
        requires
            wpl == wp * line,
            wp == ways * parts,
            sets == ecx + 1,
            ways == (ebx / 0x400000) + 1,
            parts == ((ebx / 0x1000) % 0x400) + 1,
            line == (ebx % 0x1000) + 1,
    ;
    assert(wpl * sets <= u32::MAX);
    let total = wpl * sets;
    total as u32
}

/// Whether the cache size of these registers fits in 32 bits.
pub fn cache_size_fits(ebx: u32, ecx: u32) -> (r: bool)
    ensures
        r == (cache_size_spec(ebx, ecx) <= u32::MAX),
{
    let w0 = ebx >> 22;
    let p0 = (ebx >> 12) & 0x3ff;
    let l0 = ebx & 0xfff;
    proof {
        lemma_cpuid_fields(ebx);
    }
    let ways = (w0 as u64) + 1;
    let parts = (p0 as u64) + 1;
    let line = (l0 as u64) + 1;
    let sets = (ecx as u64) + 1;
    assert(ways * parts <= 1024 * 1024) by (nonlinear_arith)
        requires
            1 <= ways <= 1024,
            1 <= parts <= 1024,
    ;
    let wp = ways * parts;
    assert(wp * line <= 1024 * 1024 * 4096) by (nonlinear_arith)
        requires
            wp <= 1024 * 1024,
            1 <= line <= 4096,
    ;
    let wpl = wp * line;
    match wpl.checked_mul(sets) {
        Some(total) => {
            assert(total == cache_size_spec(ebx, ecx)) by (nonlinear_arith)
                requires
                    total == wpl * sets,
                    wpl == wp * line,
                    wp == ways * parts,
                    sets == ecx + 1,
                    ways == (ebx / 0x400000) + 1,
                    parts == ((ebx / 0x1000) % 0x400) + 1,
                    line == (ebx % 0x1000) + 1,
            ;
            total <= 0xffff_ffff
        },
        None => {
            assert(wpl * sets == cache_size_spec(ebx, ecx)) by (nonlinear_arith)
                requires
                    wpl == wp * line,
                    wp == ways * parts,
                    sets == ecx + 1,
                    ways == (ebx / 0x400000) + 1,
                    parts == ((ebx / 0x1000) % 0x400) + 1,
                    line == (ebx % 0x1000) + 1,
            ;
            false
        },
    }
}

} // verus!
