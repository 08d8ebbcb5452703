//! What holds of the parts into which references are cut for the workers.
use crate::util::address::ObjectReference;
use crate::util::reference_model::{cut_into, part_end, part_size};
use crate::util::reference_processor::ReferenceProcessor;
use crate::util::rounding::{
    closest, last_bit, quotient_up, scale_up, single, single_quotient_up, to_single,
};
use vstd::arithmetic::div_mod::{
    lemma_div_pos_is_pos, lemma_fundamental_div_mod, lemma_fundamental_div_mod_converse,
};
use vstd::arithmetic::power2::{lemma2_to64, lemma_pow2_pos, lemma_pow2_unfold, pow2};
use vstd::prelude::*;

verus! {

/// The last bit of a number stands for a power of two, of which fewer than 2^24 make up the number, and not
/// for a smaller one than needed.
proof fn lemma_last_bit(n: int, k: nat)
    requires
        n >= 0,
        k == 0 || 0x80_0000 * pow2(k) <= n,
    ensures
        exists|j: nat|
            {
                &&& last_bit(n, pow2(k) as int) == #[trigger] pow2(j)
                &&& n < 0x100_0000 * pow2(j)
                &&& j == 0 || 0x80_0000 * pow2(j) <= n
            },
    decreases n - pow2(k),
{
    lemma_pow2_pos(k);
    if n < 0x100_0000 * pow2(k) {
        assert(last_bit(n, pow2(k) as int) == pow2(k));
    } else {
        lemma_pow2_unfold(k + 1);
        assert(pow2(k + 1) == 2 * pow2(k));
        lemma_last_bit(n, k + 1);
    }
}

/// A number is `d` times the integer closest to the quotient, up to half of `d`.
proof fn lemma_closest(n: int, d: int)
    requires
        d > 0,
    ensures
        2 * (closest(n, d) * d - n) <= d,
        2 * (n - closest(n, d) * d) <= d,
        2 * (closest(n, d) * d - n) == d || 2 * (n - closest(n, d) * d) == d ==> closest(n, d) % 2
            == 0,
        n % d == 0 ==> closest(n, d) * d == n,
{
    lemma_fundamental_div_mod(n, d);
    let below = n / d;
    let rest = n % d;
    assert(below * d + rest == n) by (nonlinear_arith)
        requires
            n == d * below + rest,
    ;
    assert((below + 1) * d == below * d + d) by (nonlinear_arith);
}

/// A number in single precision is the closest one that has 24 bits: some count `m` of units that are a power
/// of two, no smaller than needed, and off by half a unit at most. Of two as close it is the even one. A
/// number of up to 24 bits is itself.
pub proof fn law_single_precision_is_closest(n: u64, r: u128)
    requires
        call_ensures(to_single, (n,), r),
    ensures
        exists|m: int, j: nat|
            {
                &&& r == #[trigger] (m * pow2(j))
                &&& 0 <= m <= 0x100_0000
                &&& n < 0x100_0000 * pow2(j)
                &&& j == 0 || 0x80_0000 * pow2(j) <= n
                &&& 2 * (r - n) <= pow2(j)
                &&& 2 * (n - r) <= pow2(j)
                &&& 2 * (r - n) == pow2(j) || 2 * (n - r) == pow2(j) ==> m % 2 == 0
            },
        n <= 0x100_0000 ==> r == n,
{
    lemma2_to64();
    lemma_last_bit(n as int, 0);
    let j = choose|j: nat|
        {
            &&& last_bit(n as int, 1) == #[trigger] pow2(j)
            &&& n < 0x100_0000 * pow2(j)
            &&& j == 0 || 0x80_0000 * pow2(j) <= n
        };
    lemma_pow2_pos(j);
    let unit = pow2(j) as int;
    let m = closest(n as int, unit);
    lemma_closest(n as int, unit);
    assert(r == m * pow2(j));
    assert(0 <= m <= 0x100_0000) by (nonlinear_arith)
        requires
            2 * (m * unit - n) <= unit,
            2 * (n - m * unit) <= unit,
            0 <= n < 0x100_0000 * unit,
            unit > 0,
    ;
    if n < 0x100_0000 {
        lemma_single_is_itself(n as int);
    } else if n == 0x100_0000 {
        assert(last_bit(n as int, 1) == last_bit(n as int, 2));
        assert(last_bit(n as int, 2) == 2);
        assert(n as int % 2 == 0);
        lemma_closest(n as int, 2);
    }
}

/// A number of 24 bits is itself in single precision.
proof fn lemma_single_is_itself(n: int)
    requires
        0 <= n < 0x100_0000,
    ensures
        single(n) == n,
{
    assert(last_bit(n, 1) == 1);
    assert(n / 1 == n && n % 1 == 0);
}

/// The scale makes the quotient large enough.
proof fn lemma_scale(n: int, d: int, scale: int)
    requires
        n > 0,
        d > 0,
        scale > 0,
    ensures
        scale_up(n, d, scale) > 0,
        n * scale_up(n, d, scale) >= 0x80_0000 * d,
    decreases 0x100_0000 * d - scale,
{
    if n * scale < 0x80_0000 * d {
        assert(n * scale >= scale) by (nonlinear_arith)
            requires
                n > 0,
                scale > 0,
        ;
        lemma_scale(n, d, 2 * scale);
    }
}

/// The share of small numbers is the exact quotient rounded up.
#[verifier::spinoff_prover]
proof fn lemma_small_share(n: int, d: int)
    requires
        0 < n < 0x100_0000,
        0 < d < 0x100_0000,
    ensures
        single_quotient_up(n, d) * d >= n,
        (single_quotient_up(n, d) - 1) * d < n,
{
    let s = scale_up(n, d, 1);
    lemma_scale(n, d, 1);
    assert(2 * s > d) by (nonlinear_arith)
        requires
            n * s >= 0x80_0000 * d,
            0 < n < 0x100_0000,
            s > 0,
            d > 0,
    ;
    lemma_fundamental_div_mod(n, d);
    let c = n / d;
    let r = n % d;
    let a = c * s;
    let b = r * s;
    assert(n * s == a * d + b) by (nonlinear_arith)
        requires
            n == d * c + r,
            a == c * s,
            b == r * s,
    ;
    let whole = b / d;
    let rest = b % d;
    lemma_fundamental_div_mod(b, d);
    assert(b >= 0) by (nonlinear_arith)
        requires
            b == r * s,
            r >= 0,
            s > 0,
    ;
    lemma_div_pos_is_pos(b, d);
    assert(n * s == (a + whole) * d + rest) by (nonlinear_arith)
        requires
            n * s == a * d + b,
            b == d * whole + rest,
    ;
    lemma_fundamental_div_mod_converse(n * s, d, a + whole, rest);
    let bits = closest(n * s, d);
    let e = bits - a;
    assert(bits == a + whole || bits == a + whole + 1);
    if r == 0 {
        assert(b == 0) by (nonlinear_arith)
            requires
                b == r * s,
                r == 0,
        ;
        assert(whole == 0 && rest == 0) by {
            lemma_fundamental_div_mod_converse(0, d, 0, 0);
        }
        assert(e == 0);
        assert(bits == s * c + 0) by (nonlinear_arith)
            requires
                bits == c * s,
        ;
        lemma_fundamental_div_mod_converse(bits, s, c, 0);
    } else {
        assert(whole < s) by (nonlinear_arith)
            requires
                b == r * s,
                r < d,
                b == d * whole + rest,
                rest >= 0,
                d > 0,
                s > 0,
        ;
        assert(b >= s) by (nonlinear_arith)
            requires
                b == r * s,
                r >= 1,
                s > 0,
        ;
        if whole == 0 {
            assert(rest == b) by (nonlinear_arith)
                requires
                    b == d * whole + rest,
                    whole == 0,
            ;
            assert(bits == a + 1);
        }
        assert(1 <= e <= s);
        if e == s {
            assert(bits == s * (c + 1) + 0) by (nonlinear_arith)
                requires
                    bits == c * s + s,
            ;
            lemma_fundamental_div_mod_converse(bits, s, c + 1, 0);
        } else {
            assert(bits == s * c + e) by (nonlinear_arith)
                requires
                    bits == c * s + e,
            ;
            lemma_fundamental_div_mod_converse(bits, s, c, e);
        }
        assert(single_quotient_up(n, d) == c + 1);
    }
    assert((c + 1) * d == d * c + d) by (nonlinear_arith);
    assert(c * d == d * c) by (nonlinear_arith);
    assert((c - 1) * d == d * c - d) by (nonlinear_arith);
}

/// The share of any numbers, as they are in single precision, rounded up, is off by one part in 2^24 at most.
#[verifier::spinoff_prover]
proof fn lemma_share_is_close(a: int, b: int)
    requires
        0 < a,
        0 < b,
    ensures
        (single_quotient_up(a, b) - 1) * b * 0x100_0000 < a * 0x100_0001,
        single_quotient_up(a, b) * b * 0x100_0000 >= a * 0xff_ffff,
{
    let s = scale_up(a, b, 1);
    lemma_scale(a, b, 1);
    let bits = closest(a * s, b);
    lemma_closest(a * s, b);
    lemma_fundamental_div_mod(bits, s);
    let r = single_quotient_up(a, b);
    let whole = bits / s;
    assert((r - 1) * s < bits <= r * s) by (nonlinear_arith)
        requires
            bits == s * whole + bits % s,
            0 <= bits % s < s,
            bits % s == 0 ==> r == whole,
            bits % s != 0 ==> r == whole + 1,
            s > 0,
    ;
    let x = a * s;
    let y = bits * b;
    assert(0x100_0000 * y <= x * 0x100_0001 && 0x100_0000 * y >= x * 0xff_ffff) by {
        assert(2 * (y - x) <= b && 2 * (x - y) <= b);
        assert(x >= 0x80_0000 * b);
    }
    assert((r - 1) * b * 0x100_0000 < a * 0x100_0001) by (nonlinear_arith)
        requires
            (r - 1) * s < bits,
            0x100_0000 * (bits * b) <= (a * s) * 0x100_0001,
            b > 0,
            s > 0,
    {
        assert((r - 1) * s * b < bits * b) by (nonlinear_arith)
            requires
                (r - 1) * s < bits,
                b > 0,
        ;
        assert(((r - 1) * b * 0x100_0000) * s < (a * 0x100_0001) * s) by (nonlinear_arith)
            requires
                (r - 1) * s * b < bits * b,
                0x100_0000 * (bits * b) <= (a * s) * 0x100_0001,
        ;
    }
    assert(r * b * 0x100_0000 >= a * 0xff_ffff) by (nonlinear_arith)
        requires
            bits <= r * s,
            0x100_0000 * (bits * b) >= (a * s) * 0xff_ffff,
            b > 0,
            s > 0,
    {
        assert(r * s * b >= bits * b) by (nonlinear_arith)
            requires
                bits <= r * s,
                b > 0,
        ;
        assert((r * b * 0x100_0000) * s >= (a * 0xff_ffff) * s) by (nonlinear_arith)
            requires
                r * s * b >= bits * b,
                0x100_0000 * (bits * b) >= (a * s) * 0xff_ffff,
        ;
    }
}

/// A quotient rounded up: of numbers of up to 24 bits, it is exact, so many times the divisor reach the number
/// and once less do not. Of any numbers, each in single precision, it is off by one part in 2^24 at most.
pub proof fn law_share_is_the_quotient_rounded_up(
    n: u64,
    d: u64,
    r: u64,
    n_single: u128,
    d_single: u128,
)
    requires
        0 < n,
        n <= 4096 * d,
        call_ensures(quotient_up, (n, d), r),
        call_ensures(to_single, (n,), n_single),
        call_ensures(to_single, (d,), d_single),
    ensures
        n < 0x100_0000 && d < 0x100_0000 ==> r * d >= n && (r - 1) * d < n,
        (r - 1) * d_single * 0x100_0000 < n_single * 0x100_0001,
        r * d_single * 0x100_0000 >= n_single * 0xff_ffff,
{
    if n < 0x100_0000 && d < 0x100_0000 {
        lemma_single_is_itself(n as int);
        lemma_single_is_itself(d as int);
        lemma_small_share(n as int, d as int);
    }
    lemma_share_is_close(n_single as int, d_single as int);
}

/// How many references make a part: the greatest number allowed where there are more than that for each worker,
/// and otherwise as few as leave no more parts than workers.
pub proof fn law_part_is_a_workers_share(len: usize, n_threads: usize, size: usize)
    requires
        len > 0,
        4096 * n_threads <= usize::MAX,
        call_ensures(ReferenceProcessor::refs_per_work_packet, (len, n_threads), size),
    ensures
        size > 0,
        4096 * n_threads < len ==> size == 4096,
        len <= 4096 * n_threads && len < 0x100_0000 && n_threads < 0x100_0000 ==> size * n_threads
            >= len && (size - 1) * n_threads < len,
{
    lemma_part_size(len as int, n_threads as int);
}

proof fn lemma_part_size(len: int, n_threads: int)
    requires
        len > 0,
        n_threads >= 0,
    ensures
        4096 * n_threads < len ==> part_size(len, n_threads) == 4096,
        len <= 4096 * n_threads && len < 0x100_0000 && n_threads < 0x100_0000 ==> part_size(
            len,
            n_threads,
        ) * n_threads >= len && (part_size(len, n_threads) - 1) * n_threads < len,
{
    if len <= 4096 * n_threads && len < 0x100_0000 && n_threads < 0x100_0000 {
        lemma_single_is_itself(len);
        lemma_single_is_itself(n_threads);
        lemma_small_share(len, n_threads);
    }
}

/// Where a part of the references begins and ends.
proof fn lemma_part_bounds(len: int, size: int, parts: int, k: int)
    requires
        size > 0,
        (parts - 1) * size < len <= parts * size,
        0 <= k < parts,
    ensures
        0 <= k * size < part_end(len, size, k) <= len,
        k < parts - 1 ==> part_end(len, size, k) == k * size + size,
        k == parts - 1 ==> part_end(len, size, k) == len,
        part_end(len, size, k) <= k * size + size,
{
    assert((k + 1) * size == k * size + size) by (nonlinear_arith);
    assert(0 <= k * size) by (nonlinear_arith)
        requires
            0 <= k,
            size > 0,
    ;
    assert(k * size <= (parts - 1) * size) by (nonlinear_arith)
        requires
            k <= parts - 1,
            size > 0,
    ;
    if k < parts - 1 {
        assert((k + 1) * size <= (parts - 1) * size) by (nonlinear_arith)
            requires
                k + 1 <= parts - 1,
                size > 0,
        ;
    } else {
        assert((k + 1) * size == parts * size);
    }
}

/// The parts together are the table: every reference of it is in a part, and nothing else is. With `drain` the
/// table is empty afterwards, otherwise it is as before.
#[verifier::spinoff_prover]
pub proof fn law_parts_make_up_the_table(
    p: &mut ReferenceProcessor,
    n_threads: usize,
    drain: bool,
    parts: Vec<Vec<ObjectReference>>,
    a: ObjectReference,
    k: int,
    j: int,
)
    requires
        4096 * n_threads <= usize::MAX,
        call_ensures(ReferenceProcessor::split_ref_table, (p, n_threads, drain), parts),
    ensures
        old(p).references@.contains(a.0) ==> exists|k: int, j: int|
            0 <= k < parts@.len() && 0 <= j < parts@[k]@.len() && #[trigger] parts@[k]@[j] == a,
        0 <= k < parts@.len() && 0 <= j < parts@[k]@.len() ==> old(p).references@.contains(
            parts@[k]@[j].0,
        ),
        final(p).references@.contains(a.0) == (!drain && old(p).references@.contains(a.0)),
        final(p).enqueued_references == old(p).enqueued_references,
        final(p).allow_new_candidate == old(p).allow_new_candidate,
{
    assert(final(p).table().contains(a) == final(p).references@.contains(a.0));
    assert(p.table().contains(a) == p.references@.contains(a.0));
    let refs = choose|refs: Seq<ObjectReference>|
        {
            &&& refs.no_duplicates()
            &&& refs.to_set() == p.table()
            &&& #[trigger] cut_into(refs, part_size(refs.len() as int, n_threads as int), parts@)
        };
    let len = refs.len() as int;
    let size = part_size(len, n_threads as int);
    if p.references@.contains(a.0) {
        assert(refs.to_set().contains(a));
        let i = refs.index_of(a);
        assert(refs[i] == a);
        lemma_fundamental_div_mod(i, size);
        let q = i / size;
        let r = i % size;
        assert(0 <= q < parts@.len()) by (nonlinear_arith)
            requires
                i == size * q + r,
                0 <= r < size,
                0 <= i < len,
                len <= parts@.len() * size,
        ;
        lemma_part_bounds(len, size, parts@.len() as int, q);
        assert(q * size == size * q) by (nonlinear_arith);
        assert(parts@[q]@[r] == refs[q * size + r]);
    }
    if 0 <= k < parts@.len() && 0 <= j < parts@[k]@.len() {
        lemma_part_bounds(len, size, parts@.len() as int, k);
        let b = parts@[k]@[j];
        assert(b == refs[k * size + j]);
        assert(refs.to_set().contains(b));
        assert(p.table().contains(b));
    }
}

/// No reference is in two parts, or twice in one; no part is empty, all but the last have as many references,
/// and the last no more; and each has a worker's share.
#[verifier::spinoff_prover]
pub proof fn law_parts_are_even_and_apart(
    p: &mut ReferenceProcessor,
    n_threads: usize,
    drain: bool,
    parts: Vec<Vec<ObjectReference>>,
    k: int,
    j: int,
    l: int,
    m: int,
)
    requires
        4096 * n_threads <= usize::MAX,
        call_ensures(ReferenceProcessor::split_ref_table, (p, n_threads, drain), parts),
        0 <= k <= l < parts@.len(),
    ensures
        0 <= j < parts@[k]@.len() && 0 <= m < parts@[l]@.len() && (k != l || j != m)
            ==> parts@[k]@[j] != parts@[l]@[m],
        parts@[k]@.len() > 0,
        k < l ==> parts@[k]@.len() == parts@[0]@.len(),
        parts@[k]@.len() <= parts@[0]@.len(),
        ({
            let share = parts@[0]@.len();
            let total = (parts@.len() - 1) * share + parts@.last()@.len();
            &&& 4096 * n_threads < total ==> share <= 4096 && (n_threads > 0 || parts@.len() > 1 ==> share
                == 4096)
            &&& total <= 4096 * n_threads && total < 0x100_0000 && n_threads < 0x100_0000 ==> share
                * n_threads >= total && (share - 1) * n_threads < total && parts@.len() <= n_threads
        }),
{
    let refs = choose|refs: Seq<ObjectReference>|
        {
            &&& refs.no_duplicates()
            &&& refs.to_set() == p.table()
            &&& #[trigger] cut_into(refs, part_size(refs.len() as int, n_threads as int), parts@)
        };
    let len = refs.len() as int;
    let size = part_size(len, n_threads as int);
    let count = parts@.len() as int;
    lemma_part_bounds(len, size, count, k);
    lemma_part_bounds(len, size, count, l);
    lemma_part_bounds(len, size, count, 0);
    lemma_part_bounds(len, size, count, count - 1);
    assert(parts@[k]@.len() > 0 && parts@[l]@.len() > 0);
    if 0 <= j < parts@[k]@.len() && 0 <= m < parts@[l]@.len() && (k != l || j != m) {
        assert(parts@[k]@[j] == refs[k * size + j]);
        assert(parts@[l]@[m] == refs[l * size + m]);
        if k < l {
            assert(k * size + size <= l * size) by (nonlinear_arith)
                requires
                    k + 1 <= l,
                    size > 0,
            ;
        }
    }
    let share = parts@[0]@.len() as int;
    let total = (count - 1) * share + parts@.last()@.len();
    if count == 1 {
        assert(total == len) by (nonlinear_arith)
            requires
                count == 1,
                total == (count - 1) * share + len,
        ;
        assert(share == len && share <= size);
    } else {
        assert(share == size);
        assert(total == len);
    }
    lemma_part_size(len, n_threads as int);
    if total <= 4096 * n_threads && total < 0x100_0000 && n_threads < 0x100_0000 {
        let t = n_threads as int;
        assert((share - 1) * t <= (size - 1) * t) by (nonlinear_arith)
            requires
                share <= size,
                t >= 0,
        ;
        if count == 1 {
            assert(share * t >= total) by (nonlinear_arith)
                requires
                    share == total,
                    t >= 1,
                    total > 0,
            ;
        } else {
            assert(count <= t) by (nonlinear_arith)
                requires
                    size * t >= len,
                    (count - 1) * size < len,
                    size > 0,
            ;
        }
    }
}

} // verus!
