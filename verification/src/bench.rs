//! Repeated-decode benchmarking over one input buffer.

use vstd::prelude::*;
use vstd::arithmetic::div_mod::lemma_div_is_ordered;
use vstd::arithmetic::div_mod::lemma_div_multiples_vanish;

use crate::clock::clock_elapsed_ms;
use crate::clock::clock_now;
use crate::codec::decode_binary_internal;
use crate::codec::decode_ok;

verus! {

/// Timing distribution and success count over repeated decodes. Times are in
/// whole milliseconds; the average is the integer quotient of total by
/// iterations, defined as zero when there were no iterations at all.
pub struct BenchmarkResult {
    pub iterations: u32,
    pub total_time_ms: u128,
    pub avg_time_ms: u128,
    pub min_time_ms: u64,
    pub max_time_ms: u64,
    pub successes: u32,
}

/// Decodes the buffer `iterations` times and reports the timing distribution.
/// With zero iterations every field is zero: no division happens on that
/// boundary. Decoding is deterministic in the input, so either every run
/// succeeds or none does. The clock decides the individual readings, but the
/// distribution is internally consistent on every outcome: the total lies
/// between `min` and `max` times the iteration count, so the average lies
/// between `min` and `max`.
pub fn benchmark_decode(data: &[u8], iterations: u32) -> (r: BenchmarkResult)
    requires
        data@.len() <= u32::MAX,
    ensures
        r.iterations == iterations,
        r.successes == if decode_ok(data@) {
            iterations
        } else {
            0u32
        },
        iterations == 0 ==> r.total_time_ms == 0 && r.avg_time_ms == 0 && r.min_time_ms == 0
            && r.max_time_ms == 0,
        iterations > 0 ==> r.avg_time_ms == r.total_time_ms / (iterations as u128),
        iterations > 0 ==> (r.min_time_ms as int) * (iterations as int) <= r.total_time_ms as int
            <= (r.max_time_ms as int) * (iterations as int),
        iterations > 0 ==> r.min_time_ms as u128 <= r.avg_time_ms <= r.max_time_ms as u128,
{
    if iterations == 0 {
        return BenchmarkResult {
            iterations: 0,
            total_time_ms: 0,
            avg_time_ms: 0,
            min_time_ms: 0,
            max_time_ms: 0,
            successes: 0,
        };
    }
    let mut total: u128 = 0;
    let mut min_t: u64 = u64::MAX;
    let mut max_t: u64 = 0;
    let mut successes: u32 = 0;
    let mut i: u32 = 0;
    while i < iterations
        invariant
            i <= iterations,
            data@.len() <= u32::MAX,
            total <= (i as u128) * (u64::MAX as u128),
            successes == if decode_ok(data@) {
                i
            } else {
                0u32
            },
            i == 0 ==> total == 0,
            i > 0 ==> min_t <= max_t,
            total as int <= (i as int) * (max_t as int),
            i > 0 ==> total as int >= (i as int) * (min_t as int),
        decreases iterations - i,
    {
        let start = clock_now();
        let outcome = decode_binary_internal(data);
        let t = clock_elapsed_ms(&start);
        if outcome.is_ok() {
            successes = successes + 1;
        }
        let ghost total0 = total as int;
        let ghost min0 = min_t as int;
        let ghost max0 = max_t as int;
        total = total + (t as u128);
        if t < min_t {
            min_t = t;
        }
        if t > max_t {
            max_t = t;
        }
        proof {
            let ii = i as int;
            let tt = t as int;
            let mn = min_t as int;
            let mx = max_t as int;
            assert(mn <= tt && tt <= mx);
            assert(mn <= min0 && max0 <= mx);
            assert(total0 + tt <= (ii + 1) * mx) by (nonlinear_arith)
                requires
                    total0 <= ii * max0,
                    max0 <= mx,
                    tt <= mx,
                    ii >= 0,
            ;
            if i == 0 {
                assert(total0 + tt >= (ii + 1) * mn);
            } else {
                assert(total0 + tt >= (ii + 1) * mn) by (nonlinear_arith)
                    requires
                        total0 >= ii * min0,
                        mn <= min0,
                        tt >= mn,
                        ii >= 0,
                ;
            }
        }
        i = i + 1;
    }
    let avg = total / (iterations as u128);
    proof {
        let n = iterations as int;
        let mn = min_t as int;
        let mx = max_t as int;
        lemma_div_multiples_vanish(mn, n);
        lemma_div_multiples_vanish(mx, n);
        lemma_div_is_ordered(n * mn, total as int, n);
        lemma_div_is_ordered(total as int, n * mx, n);
        assert(n * mn == mn * n && n * mx == mx * n) by (nonlinear_arith);
    }
    BenchmarkResult {
        iterations,
        total_time_ms: total,
        avg_time_ms: avg,
        min_time_ms: min_t,
        max_time_ms: max_t,
        successes,
    }
}

} // verus!
