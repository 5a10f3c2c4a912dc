//! Planning of file transfers: deciding between one streaming fetch and a
//! chunked one, and splitting a resource into disjoint byte ranges.

use crate::text::{chars_of, opt_view};
use vstd::prelude::*;

verus! {

/// Number of workers used when the caller gives no thread count.
pub const DEFAULT_THREADS: usize = 4;

/// An inclusive span of bytes `[start, end]` of a remote resource.
#[derive(Clone, Copy, Debug, PartialEq, Eq, Structural)]
pub struct ByteRange {
    pub start: u64,
    pub end: u64,
}

/// The worker count that a requested thread count resolves to: the default
/// when none is given, and never below one.
pub open spec fn spec_worker_count(threads: Option<usize>) -> nat {
    match threads {
        Some(t) => if t == 0 { 1 } else { t as nat },
        None => DEFAULT_THREADS as nat,
    }
}

/// `ceil(size / workers)`, the length of every range but possibly the last.
pub open spec fn spec_chunk_len(size: nat, workers: nat) -> nat
    recommends
        workers > 0,
{
    size / workers + if size % workers == 0 { 0nat } else { 1nat }
}

/// The `i`-th range of the plan: it starts at `i * chunk` and is clipped to
/// the last byte of the resource.
pub open spec fn spec_range_at(size: nat, chunk: nat, i: nat) -> (nat, nat) {
    let start = i * chunk;
    let stop = if start + chunk <= size { start + chunk } else { size };
    (start, (stop - 1) as nat)
}

/// `r` is exactly the plan for `size` bytes and the given thread count: one
/// range per worker whose start offset lies inside the resource, in order.
pub open spec fn is_range_plan(r: Seq<ByteRange>, size: nat, threads: Option<usize>) -> bool {
    let workers = spec_worker_count(threads);
    let chunk = spec_chunk_len(size, workers);
    &&& r.len() <= workers
    &&& forall|i: int|
        0 <= i < r.len() ==> {
            &&& (#[trigger] r[i]).start < size
            &&& (r[i].start as nat, r[i].end as nat) == spec_range_at(size, chunk, i as nat)
        }
    &&& (r.len() < workers ==> r.len() * chunk >= size)
}

/// Byte `b` lies in the inclusive range `r`.
pub open spec fn range_holds(r: ByteRange, b: nat) -> bool {
    r.start <= b <= r.end
}

/// Some range of `r` holds byte `b`.
pub open spec fn covered(r: Seq<ByteRange>, b: nat) -> bool {
    exists|i: int| 0 <= i < r.len() && #[trigger] range_holds(r[i], b)
}

/// Whatever the size and thread count, the planned ranges lie inside the
/// resource, cover every byte of it, and never overlap: each byte of
/// `[0, size)` is fetched by exactly one worker.
pub proof fn lemma_plan_partitions(r: Seq<ByteRange>, size: nat, threads: Option<usize>)
    requires
        is_range_plan(r, size, threads),
    ensures
        forall|i: int| 0 <= i < r.len() ==> (#[trigger] r[i]).start <= r[i].end < size,
        forall|b: nat| b < size ==> #[trigger] covered(r, b),
        forall|i: int, j: int, b: nat|
            0 <= i < r.len() && 0 <= j < r.len() && #[trigger] range_holds(r[i], b)
                && #[trigger] range_holds(r[j], b) ==> i == j,
{
    let w = spec_worker_count(threads);
    let chunk = spec_chunk_len(size, w);
    assert(w * chunk >= size) by (nonlinear_arith)
        requires
            w > 0,
            chunk == size / w + if size % w == 0 { 0nat } else { 1nat },
    {
        assert(size == w * (size / w) + size % w);
    }
    assert forall|i: int| 0 <= i < r.len() implies (#[trigger] r[i]).start <= r[i].end < size by {
        assert(r[i].start < size);
        assert(chunk >= 1) by (nonlinear_arith)
            requires
                w * chunk >= size,
                size > 0,
        ;
    }
    assert forall|b: nat| b < size implies #[trigger] covered(r, b) by {
        assert(chunk >= 1) by (nonlinear_arith)
            requires
                w * chunk >= size,
                size > b,
        ;
        let k = b / chunk;
        assert(k * chunk <= b < k * chunk + chunk) by (nonlinear_arith)
            requires
                chunk >= 1,
                k == b / chunk,
        ;
        assert(k < r.len()) by (nonlinear_arith)
            requires
                k * chunk <= b,
                b < size,
                r.len() <= w,
                r.len() < w ==> r.len() * chunk >= size,
                w * chunk >= size,
        ;
        assert(range_holds(r[k as int], b));
    }
    assert forall|i: int, j: int, b: nat|
        0 <= i < r.len() && 0 <= j < r.len() && #[trigger] range_holds(r[i], b)
            && #[trigger] range_holds(r[j], b) implies i == j by {
        if i < j {
            assert(i * chunk + chunk <= j * chunk) by (nonlinear_arith)
                requires
                    i < j,
            ;
        } else if j < i {
            assert(j * chunk + chunk <= i * chunk) by (nonlinear_arith)
                requires
                    j < i,
            ;
        }
    }
}

/// Resolves an optional thread count to the number of workers.
pub fn worker_count(threads: Option<usize>) -> (n: usize)
    ensures
        n as nat == spec_worker_count(threads),
        n >= 1,
{
    match threads {
        Some(t) => if t == 0 { 1 } else { t },
        None => DEFAULT_THREADS,
    }
}

/// Splits `size` bytes into the contiguous ranges that the workers of a
/// chunked transfer fetch: `ceil(size / workers)` bytes each, the last one
/// clipped to the end, and no range for a worker whose start offset would lie
/// at or beyond `size`.
pub fn chunk_ranges(size: u64, threads: Option<usize>) -> (r: Vec<ByteRange>)
    ensures
        is_range_plan(r@, size as nat, threads),
        forall|i: int| 0 <= i < r@.len() ==> (#[trigger] r@[i]).start <= r@[i].end < size,
        forall|b: nat| b < size ==> #[trigger] covered(r@, b),
        forall|i: int, j: int, b: nat|
            0 <= i < r@.len() && 0 <= j < r@.len() && #[trigger] range_holds(r@[i], b)
                && #[trigger] range_holds(r@[j], b) ==> i == j,
{
    let workers = worker_count(threads);
    let w = workers as u64;
    assert(size % w != 0 ==> size / w < u64::MAX) by (nonlinear_arith)
        requires
            w > 0,
    ;
    let chunk: u64 = size / w + if size % w == 0 { 0 } else { 1 };
    let ghost c = spec_chunk_len(size as nat, workers as nat);
    assert(chunk == c);
    proof {
        if size > 0 {
            assert(size / w >= 1 || size % w != 0) by (nonlinear_arith)
                requires
                    size > 0,
                    w > 0,
            ;
        }
    }
    let mut ranges: Vec<ByteRange> = Vec::new();
    let mut start: u64 = 0;
    let mut i: usize = 0;
    while i < workers && start < size
        invariant
            w == workers,
            workers as nat == spec_worker_count(threads),
            chunk == c,
            c == spec_chunk_len(size as nat, workers as nat),
            size > 0 ==> chunk >= 1,
            i <= workers,
            ranges@.len() == i,
            start as int == if i * chunk <= size { i * chunk } else { size as int },
            forall|j: int|
                0 <= j < i ==> {
                    &&& (#[trigger] ranges@[j]).start < size
                    &&& (ranges@[j].start as nat, ranges@[j].end as nat) == spec_range_at(
                        size as nat,
                        c,
                        j as nat,
                    )
                },
        decreases workers - i,
    {
        assert((i + 1) * chunk == i * chunk + chunk) by (nonlinear_arith);
        let end: u64 = if chunk <= size - start {
            start + chunk - 1
        } else {
            size - 1
        };
        ranges.push(ByteRange { start, end });
        start = end + 1;
        i = i + 1;
    }
    proof {
        lemma_plan_partitions(ranges@, size as nat, threads);
    }
    ranges
}

/// `c` is an ASCII decimal digit.
pub open spec fn is_digit(c: char) -> bool {
    '0' <= c && c <= '9'
}

/// The value of the decimal numeral `d` (digits only, most significant
/// first).
pub open spec fn digits_value(d: Seq<char>) -> nat
    decreases d.len(),
{
    if d.len() == 0 {
        0
    } else {
        digits_value(d.drop_last()) * 10 + (d.last() as nat - '0' as nat) as nat
    }
}

/// What parsing `s` as a `u64` gives, as `str::parse::<u64>` does it: an
/// optional `+`, then one or more decimal digits whose value fits.
pub open spec fn parse_u64(s: Seq<char>) -> Option<u64> {
    parse_digits(
        if s.len() > 0 && s[0] == '+' {
            s.drop_first()
        } else {
            s
        },
    )
}

/// The value of `d` when it is a non-empty run of decimal digits whose value
/// fits in a `u64`.
pub open spec fn parse_digits(d: Seq<char>) -> Option<u64> {
    if d.len() > 0 && (forall|i: int| 0 <= i < d.len() ==> is_digit(#[trigger] d[i]))
        && digits_value(d) <= u64::MAX {
        Some(digits_value(d) as u64)
    } else {
        None
    }
}

proof fn lemma_digits_value_grows(d: Seq<char>, k: int)
    requires
        0 <= k <= d.len(),
        forall|i: int| 0 <= i < d.len() ==> is_digit(#[trigger] d[i]),
    ensures
        digits_value(d) >= digits_value(d.subrange(0, k)),
    decreases d.len(),
{
    if k < d.len() {
        let t = d.drop_last();
        assert(forall|i: int| 0 <= i < t.len() ==> is_digit(#[trigger] t[i]) && t[i] == d[i]);
        lemma_digits_value_grows(t, k);
        assert(t.subrange(0, k) =~= d.subrange(0, k));
    } else {
        assert(d.subrange(0, k) =~= d);
    }
}

/// Parses a decimal `u64` as `str::parse::<u64>` does.
pub fn parse_decimal_u64(s: &str) -> (r: Option<u64>)
    ensures
        r == parse_u64(s@),
{
    let cs = chars_of(s);
    let n = cs.len();
    let first: usize = if n > 0 && cs[0] == '+' {
        1
    } else {
        0
    };
    let ghost d = cs@.subrange(first as int, n as int);
    assert(d =~= (if s@.len() > 0 && s@[0] == '+' {
        s@.drop_first()
    } else {
        s@
    }));
    if first == n {
        return None;
    }
    let mut v: u64 = 0;
    let mut i: usize = first;
    while i < n
        invariant
            first <= i <= n,
            n == cs@.len(),
            d == cs@.subrange(first as int, n as int),
            parse_u64(s@) == parse_digits(d),
            forall|j: int| first <= j < i ==> is_digit(#[trigger] cs@[j]),
            v as nat == digits_value(cs@.subrange(first as int, i as int)),
        decreases n - i,
    {
        let c = cs[i];
        if !('0' <= c && c <= '9') {
            assert(d[i - first] == c);
            return None;
        }
        let digit = (c as u32 - '0' as u32) as u64;
        let ghost next = cs@.subrange(first as int, i + 1);
        assert(next.drop_last() =~= cs@.subrange(first as int, i as int));
        assert(digits_value(next) == v * 10 + digit);
        if v > (u64::MAX - digit) / 10 {
            proof {
                assert(v * 10 + digit > u64::MAX) by (nonlinear_arith)
                    requires
                        v > (u64::MAX - digit) / 10,
                        digit <= 9,
                ;
                if forall|j: int| 0 <= j < d.len() ==> is_digit(#[trigger] d[j]) {
                    lemma_digits_value_grows(d, i + 1 - first);
                    assert(d.subrange(0, i + 1 - first) =~= next);
                }
            }
            return None;
        }
        v = v * 10 + digit;
        i = i + 1;
    }
    proof {
        assert(forall|j: int| 0 <= j < d.len() ==> is_digit(#[trigger] d[j])) by {
            assert forall|j: int| 0 <= j < d.len() implies is_digit(#[trigger] d[j]) by {
                assert(d[j] == cs@[first + j]);
            }
        }
    }
    Some(v)
}

/// The character of the decimal digit `d`.
pub open spec fn digit_char(d: nat) -> char {
    if d == 0 {
        '0'
    } else if d == 1 {
        '1'
    } else if d == 2 {
        '2'
    } else if d == 3 {
        '3'
    } else if d == 4 {
        '4'
    } else if d == 5 {
        '5'
    } else if d == 6 {
        '6'
    } else if d == 7 {
        '7'
    } else if d == 8 {
        '8'
    } else {
        '9'
    }
}

/// The decimal numeral of `n`, without leading zeros.
pub open spec fn decimal_text(n: nat) -> Seq<char>
    decreases n,
{
    if n < 10 {
        seq![digit_char(n)]
    } else {
        decimal_text(n / 10).push(digit_char(n % 10))
    }
}

fn digit_str(d: u64) -> (r: &'static str)
    requires
        d < 10,
    ensures
        r@ == seq![digit_char(d as nat)],
{
    proof {
        reveal_strlit("0");
        reveal_strlit("1");
        reveal_strlit("2");
        reveal_strlit("3");
        reveal_strlit("4");
        reveal_strlit("5");
        reveal_strlit("6");
        reveal_strlit("7");
        reveal_strlit("8");
        reveal_strlit("9");
    }
    if d == 0 {
        "0"
    } else if d == 1 {
        "1"
    } else if d == 2 {
        "2"
    } else if d == 3 {
        "3"
    } else if d == 4 {
        "4"
    } else if d == 5 {
        "5"
    } else if d == 6 {
        "6"
    } else if d == 7 {
        "7"
    } else if d == 8 {
        "8"
    } else {
        "9"
    }
}

/// Writes `n` in decimal.
pub fn decimal(n: u64) -> (r: String)
    ensures
        r@ == decimal_text(n as nat),
    decreases n,
{
    if n < 10 {
        String::from_str(digit_str(n))
    } else {
        let mut s = decimal(n / 10);
        s.append(digit_str(n % 10));
        s
    }
}

/// The value of the `Range` header that asks for the inclusive span `r`.
pub open spec fn range_header_text(r: ByteRange) -> Seq<char> {
    "bytes="@ + decimal_text(r.start as nat) + "-"@ + decimal_text(r.end as nat)
}

/// The `Range` header value of a worker's request: `bytes=<start>-<end>`.
pub fn range_header(r: ByteRange) -> (h: String)
    ensures
        h@ == range_header_text(r),
{
    let mut h = String::from_str("bytes=");
    let start = decimal(r.start);
    h.append(start.as_str());
    h.append("-");
    let end = decimal(r.end);
    h.append(end.as_str());
    h
}

/// `c` is the letter `lower` in either ASCII case.
pub open spec fn is_letter_either_case(c: char, lower: char, upper: char) -> bool {
    c == lower || c == upper
}

/// The `Accept-Ranges` value announces byte ranges: it is `bytes`, in any
/// ASCII case.
pub open spec fn announces_bytes(v: Seq<char>) -> bool {
    &&& v.len() == 5
    &&& is_letter_either_case(v[0], 'b', 'B')
    &&& is_letter_either_case(v[1], 'y', 'Y')
    &&& is_letter_either_case(v[2], 't', 'T')
    &&& is_letter_either_case(v[3], 'e', 'E')
    &&& is_letter_either_case(v[4], 's', 'S')
}

/// Whether an `Accept-Ranges` header, if present, says that byte ranges are
/// honoured. A missing header means they are not.
pub fn accepts_byte_ranges(accept_ranges: Option<&str>) -> (r: bool)
    ensures
        r == match accept_ranges {
            Some(v) => announces_bytes(v@),
            None => false,
        },
{
    match accept_ranges {
        Some(v) => {
            let cs = chars_of(v);
            cs.len() == 5 && (cs[0] == 'b' || cs[0] == 'B') && (cs[1] == 'y' || cs[1] == 'Y') && (
            cs[2] == 't' || cs[2] == 'T') && (cs[3] == 'e' || cs[3] == 'E') && (cs[4] == 's'
                || cs[4] == 'S')
        },
        None => false,
    }
}

/// How a resource is fetched.
#[derive(Clone, Copy, Debug, PartialEq, Eq, Structural)]
pub enum TransferPlan {
    /// One streaming fetch of the whole body.
    Single,
    /// Concurrent ranged fetches into a file preallocated to `size` bytes.
    Chunked { size: u64 },
}

/// The plan that the probe's two headers call for: chunked when the size is
/// known and byte ranges are honoured, a single stream otherwise.
pub open spec fn spec_plan(content_length: Option<Seq<char>>, accept_ranges: Option<Seq<char>>) -> TransferPlan {
    let size = match content_length {
        Some(v) => parse_u64(v),
        None => None,
    };
    let ranges = match accept_ranges {
        Some(v) => announces_bytes(v),
        None => false,
    };
    match size {
        Some(n) => if ranges {
            TransferPlan::Chunked { size: n }
        } else {
            TransferPlan::Single
        },
        None => TransferPlan::Single,
    }
}

/// Decides, from the `Content-Length` and `Accept-Ranges` values of the
/// probe's response, how the resource is fetched.
pub fn plan_transfer(content_length: Option<&str>, accept_ranges: Option<&str>) -> (r: TransferPlan)
    ensures
        r == spec_plan(opt_view(content_length), opt_view(accept_ranges)),
{
    let size = match content_length {
        Some(v) => parse_decimal_u64(v),
        None => None,
    };
    let ranges = accepts_byte_ranges(accept_ranges);
    match size {
        Some(n) => if ranges {
            TransferPlan::Chunked { size: n }
        } else {
            TransferPlan::Single
        },
        None => TransferPlan::Single,
    }
}

/// The outcome of a transfer whose workers ended with `results`: success
/// when all succeeded, else the error of the first one that failed, in the
/// order the workers were started. Only that one error is reported.
pub fn first_failure<E>(results: Vec<Result<(), E>>) -> (r: Result<(), E>)
    ensures
        match r {
            Ok(_) => forall|i: int| 0 <= i < results@.len() ==> (#[trigger] results@[i]) is Ok,
            Err(e) => exists|i: int|
                0 <= i < results@.len() && results@[i] == Err::<(), E>(e) && forall|j: int|
                    0 <= j < i ==> (#[trigger] results@[j]) is Ok,
        },
{
    let mut i: usize = 0;
    while i < results.len()
        invariant
            i <= results@.len(),
            forall|j: int| 0 <= j < i ==> (#[trigger] results@[j]) is Ok,
        decreases results@.len() - i,
    {
        if results[i].is_err() {
            let ghost all = results@;
            let mut rest = results;
            let failed = rest.remove(i);
            assert(failed == all[i as int]);
            return failed;
        }
        i = i + 1;
    }
    Ok(())
}

} // verus!
