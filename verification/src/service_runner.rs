//! A bounded Fibonacci calculator.

use vstd::prelude::*;

verus! {

/// The largest index whose Fibonacci number fits in a `u64`.
pub const LARGEST_INDEX: i32 = 93;

/// The largest index whose Fibonacci number still fits in a `u32`; results
/// for larger indices are marked as cautionary.
pub const LARGEST_NARROW_INDEX: i32 = 47;

/// The `n`-th Fibonacci number: 0, 1, 1, 2, 3, 5, ...
pub open spec fn fib(n: nat) -> nat
    decreases n,
{
    if n == 0 {
        0
    } else if n == 1 {
        1
    } else {
        fib((n - 1) as nat) + fib((n - 2) as nat)
    }
}

/// `a` and `b` advanced `k` times by the step `(a, b) -> (b, a + b)`.
spec fn advance(k: nat, a: nat, b: nat) -> nat
    decreases k,
{
    if k == 0 {
        a
    } else {
        advance((k - 1) as nat, b, a + b)
    }
}

proof fn lemma_advance_is_fib(k: nat, m: nat)
    ensures
        advance(k, fib(m), fib(m + 1)) == fib(m + k),
    decreases k,
{
    if k > 0 {
        lemma_advance_is_fib((k - 1) as nat, m + 1);
    }
}

/// Fibonacci numbers never decrease.
pub proof fn lemma_fib_monotonic(i: nat, j: nat)
    requires
        i <= j,
    ensures
        fib(i) <= fib(j),
    decreases j,
{
    if i < j {
        lemma_fib_monotonic(i, (j - 1) as nat);
    }
}

/// The Fibonacci numbers at the two bounds and just above them. The steps
/// from 0 are taken in stretches of at most 32, which keeps each unfolding
/// short.
proof fn lemma_fib_landmarks()
    ensures
        fib(47) == 2971215073,
        fib(48) == 4807526976,
        fib(93) == 12200160415121876738,
        fib(94) == 19740274219868223167,
{
    reveal_with_fuel(advance, 33);
    lemma_advance_is_fib(31, 0);
    lemma_advance_is_fib(32, 0);
    assert(fib(31) == 1346269 && fib(32) == 2178309) by {
        assert(advance(31, 0, 1) == 1346269);
        assert(advance(32, 0, 1) == 2178309);
    }
    lemma_advance_is_fib(16, 31);
    lemma_advance_is_fib(17, 31);
    assert(advance(16, 1346269, 2178309) == 2971215073);
    assert(advance(17, 1346269, 2178309) == 4807526976);
    lemma_advance_is_fib(31, 31);
    lemma_advance_is_fib(32, 31);
    assert(fib(62) == 4052739537881 && fib(63) == 6557470319842) by {
        assert(advance(31, 1346269, 2178309) == 4052739537881);
        assert(advance(32, 1346269, 2178309) == 6557470319842);
    }
    lemma_advance_is_fib(31, 62);
    lemma_advance_is_fib(32, 62);
    assert(advance(31, 4052739537881, 6557470319842) == 12200160415121876738);
    assert(advance(32, 4052739537881, 6557470319842) == 19740274219868223167);
}

/// Every Fibonacci number up to the largest supported index fits in a
/// `u64`, and the next one does not.
pub proof fn lemma_fib_fits(n: nat)
    ensures
        n <= LARGEST_INDEX <==> fib(n) <= u64::MAX,
        n <= LARGEST_INDEX ==> fib(n) <= fib(93) == 12200160415121876738,
{
    lemma_fib_landmarks();
    if n <= 93 {
        lemma_fib_monotonic(n, 93);
    } else {
        lemma_fib_monotonic(94, n);
    }
}

/// Within the supported indices, the results that do not fit in a `u32` are
/// exactly those of the indices above the largest narrow one.
pub proof fn lemma_fib_wide(n: nat)
    ensures
        n > LARGEST_NARROW_INDEX <==> fib(n) > u32::MAX,
{
    lemma_fib_landmarks();
    if n <= 47 {
        lemma_fib_monotonic(n, 47);
    } else {
        lemma_fib_monotonic(48, n);
    }
}

/// The service that computes Fibonacci numbers on request.
#[derive(Debug, Default)]
pub struct ServiceRunner {}

/// Why a request was refused.
#[derive(Clone, Copy, Debug, PartialEq, Eq)]
pub enum InvalidArgument {
    /// The requested index is below zero.
    Negative,
    /// The requested index is above `LARGEST_INDEX`: the result would not fit.
    Unsupported,
}

/// The answer to a request that was accepted.
#[derive(Clone, Copy, Debug, PartialEq, Eq)]
pub struct Computation {
    /// The Fibonacci number that was asked for.
    pub result: u64,
    /// Whether the index lies above `LARGEST_NARROW_INDEX`.
    pub cautionary: bool,
}

impl InvalidArgument {
    /// The text shown to the caller.
    pub fn message(&self) -> (text: &'static str)
        ensures
            text@ == match *self {
                InvalidArgument::Negative => "Negative values not allowed"@,
                InvalidArgument::Unsupported => "Values over 93 are not supported"@,
            },
    {
        match self {
            InvalidArgument::Negative => "Negative values not allowed",
            InvalidArgument::Unsupported => "Values over 93 are not supported",
        }
    }
}

impl ServiceRunner {
    /// Computes the `val`-th Fibonacci number by iteration.
    pub fn fibonacci(val: u32) -> (result: u64)
        requires
            val <= LARGEST_INDEX,
        ensures
            result == fib(val as nat),
    {
        if val == 0 {
            return 0;
        }
        let mut a: u64 = 0;
        let mut b: u64 = 1;
        let mut i: u32 = 1;
        while i < val
            invariant
                1 <= i <= val <= LARGEST_INDEX,
                a == fib((i - 1) as nat),
                b == fib(i as nat),
            decreases val - i,
        {
            proof {
                lemma_fib_fits((i + 1) as nat);
            }
            let c: u64 = a + b;
            a = b;
            b = c;
            i = i + 1;
        }
        b
    }

    /// Answers one request: refuses an index outside `0..=LARGEST_INDEX`,
    /// otherwise computes the number and marks the answer as cautionary when
    /// the index is above `LARGEST_NARROW_INDEX`, which is when the number
    /// does not fit in a `u32`.
    pub fn run_service(&self, value: i32) -> (outcome: Result<Computation, InvalidArgument>)
        ensures
            value < 0 <==> outcome == Err::<Computation, InvalidArgument>(
                InvalidArgument::Negative,
            ),
            value > LARGEST_INDEX <==> outcome == Err::<Computation, InvalidArgument>(
                InvalidArgument::Unsupported,
            ),
            0 <= value <= LARGEST_INDEX <==> outcome == Ok::<Computation, InvalidArgument>(
                (Computation {
                    result: fib(value as nat) as u64,
                    cautionary: value > LARGEST_NARROW_INDEX,
                }),
            ),
            outcome matches Ok(computation) ==> (computation.cautionary <==> computation.result
                > u32::MAX),
    {
        if value < 0 {
            return Err(InvalidArgument::Negative);
        }
        if value > LARGEST_INDEX {
            return Err(InvalidArgument::Unsupported);
        }
        proof {
            lemma_fib_fits(value as nat);
            lemma_fib_wide(value as nat);
        }
        let result = ServiceRunner::fibonacci(value as u32);
        Ok(Computation { result, cautionary: value > LARGEST_NARROW_INDEX })
    }
}

} // verus!
