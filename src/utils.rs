//! Time spans, clocks, pacing and small formatting helpers.
use vstd::prelude::*;
use crate::text::{chars_of, decimal, digit_char, push_decimal, string_of};
use crate::address::{literal_spec, parse_literal};
use rand::seq::SliceRandom;
use rand::Rng;

verus! {

/// A span of time in whole milliseconds.
#[derive(Debug, Clone, Copy, PartialEq, Eq, Structural)]
pub struct TimeSpan {
    pub millis: u64,
}

impl TimeSpan {
    pub fn from_millis(millis: u64) -> (r: TimeSpan)
        ensures
            r.millis == millis,
    {
        TimeSpan { millis }
    }

    pub fn from_secs(secs: u64) -> (r: TimeSpan)
        requires
            secs * 1000 <= u64::MAX,
        ensures
            r.millis == secs * 1000,
    {
        TimeSpan { millis: secs * 1000 }
    }

    pub fn as_secs(&self) -> (r: u64)
        ensures
            r == self.millis / 1000,
    {
        self.millis / 1000
    }

    pub fn subsec_millis(&self) -> (r: u32)
        ensures
            r == self.millis % 1000,
    {
        (self.millis % 1000) as u32
    }

    pub fn as_millis(&self) -> (r: u64)
        ensures
            r == self.millis,
    {
        self.millis
    }
}

/// Relies on `SystemTime::now` measured from `UNIX_EPOCH`, in whole seconds;
/// a clock set before the epoch reads as 0.
#[verifier::external_body]
pub fn current_timestamp() -> u64 {
    match std::time::SystemTime::now().duration_since(std::time::UNIX_EPOCH) {
        Ok(d) => d.as_secs(),
        Err(_) => 0,
    }
}

/// Relies on `SystemTime::now` measured from `UNIX_EPOCH`, in microseconds
/// (cut to 64 bits); a clock set before the epoch reads as 0.
#[verifier::external_body]
pub fn current_timestamp_micros() -> u64 {
    match std::time::SystemTime::now().duration_since(std::time::UNIX_EPOCH) {
        Ok(d) => d.as_micros() as u64,
        Err(_) => 0,
    }
}

pub open spec fn elapsed_spec(start: u64, now: u64) -> u64 {
    if now >= start {
        (now - start) as u64
    } else {
        0
    }
}

/// The time from `start` to `now`; zero when the clock went back.
pub fn elapsed(start: u64, now: u64) -> (r: u64)
    ensures
        r == elapsed_spec(start, now),
{
    if now >= start {
        now - start
    } else {
        0
    }
}

/// Microseconds from `start`, an earlier reading of
/// `current_timestamp_micros`, to a reading taken now.
pub fn micros_since(start: u64) -> (r: u64)
    ensures
        exists|now: u64| r == elapsed_spec(start, now),
{
    let now = current_timestamp_micros();
    elapsed(start, now)
}

pub open spec fn three_digits(n: nat) -> Seq<char> {
    seq![digit_char(n / 100), digit_char((n / 10) % 10), digit_char(n % 10)]
}

/// A span as `"Hh Mm Ss"`, `"Mm Ss"`, `"S.mmms"` or `"Nms"`, by its largest unit.
pub open spec fn duration_text(ms: nat) -> Seq<char> {
    let secs = ms / 1000;
    let h = secs / 3600;
    let m = (secs % 3600) / 60;
    let s = secs % 60;
    let sub = ms % 1000;
    if h > 0 {
        decimal(h) + seq!['h', ' '] + decimal(m) + seq!['m', ' '] + decimal(s) + seq!['s']
    } else if m > 0 {
        decimal(m) + seq!['m', ' '] + decimal(s) + seq!['s']
    } else if s > 0 {
        decimal(s) + seq!['.'] + three_digits(sub) + seq!['s']
    } else {
        decimal(sub) + seq!['m', 's']
    }
}

fn push_digit(out: &mut Vec<char>, d: u64)
    requires
        d < 10,
    ensures
        final(out)@ == old(out)@.push(digit_char(d as nat)),
{
    out.push((48u8 + d as u8) as char);
}

/// Formats an elapsed span for people.
pub fn format_duration(duration: TimeSpan) -> (r: String)
    ensures
        r@ == duration_text(duration.millis as nat),
{
    let secs = duration.millis / 1000;
    let h = secs / 3600;
    let m = (secs % 3600) / 60;
    let s = secs % 60;
    let sub = duration.millis % 1000;
    let mut out: Vec<char> = Vec::new();
    if h > 0 {
        push_decimal(h, &mut out);
        out.push('h');
        out.push(' ');
        push_decimal(m, &mut out);
        out.push('m');
        out.push(' ');
        push_decimal(s, &mut out);
        out.push('s');
        assert(out@ =~= decimal(h as nat) + seq!['h', ' '] + decimal(m as nat) + seq!['m', ' ']
            + decimal(s as nat) + seq!['s']);
    } else if m > 0 {
        push_decimal(m, &mut out);
        out.push('m');
        out.push(' ');
        push_decimal(s, &mut out);
        out.push('s');
        assert(out@ =~= decimal(m as nat) + seq!['m', ' '] + decimal(s as nat) + seq!['s']);
    } else if s > 0 {
        push_decimal(s, &mut out);
        out.push('.');
        push_digit(&mut out, sub / 100);
        push_digit(&mut out, (sub / 10) % 10);
        push_digit(&mut out, sub % 10);
        out.push('s');
        assert(out@ =~= decimal(s as nat) + seq!['.'] + three_digits(sub as nat) + seq!['s']);
    } else {
        push_decimal(sub, &mut out);
        out.push('m');
        out.push('s');
        assert(out@ =~= decimal(sub as nat) + seq!['m', 's']);
    }
    string_of(&out)
}

/// Whether the text is an IPv4 or IPv6 address literal.
pub fn is_valid_ip(ip: &str) -> (r: bool)
    ensures
        r == literal_spec(ip@) is Some,
{
    parse_literal(&chars_of(ip)).is_some()
}

/// Port 0 is reserved; every other 16-bit port is valid.
pub fn is_valid_port(port: u16) -> (r: bool)
    ensures
        r == (port > 0),
{
    port > 0
}

/// Relies on `rand`'s `SliceRandom::shuffle` with the thread generator: the
/// slice is put in a random order, so its items stay the same.
#[verifier::external_body]
pub fn shuffle(vec: &mut Vec<u16>)
    ensures
        final(vec)@.to_multiset() == old(vec)@.to_multiset(),
{
    vec.shuffle(&mut rand::rng());
}

/// Relies on `rand`'s `Rng::random_range` over `lo..=hi` with the thread
/// generator: a value in the range.
#[verifier::external_body]
fn random_in(lo: u64, hi: u64) -> (r: u64)
    requires
        lo <= hi,
    ensures
        lo <= r <= hi,
{
    rand::rng().random_range(lo..=hi)
}

/// A random span between `min` and `max`, both included.
pub fn random_delay(min: TimeSpan, max: TimeSpan) -> (r: TimeSpan)
    requires
        min.millis <= max.millis,
    ensures
        min.millis <= r.millis <= max.millis,
{
    TimeSpan::from_millis(random_in(min.millis, max.millis))
}

/// The UTC date and time of a Unix timestamp as `%Y-%m-%d %H:%M:%S`, where
/// the calendar can hold it.
pub uninterp spec fn utc_text_of(secs: i64) -> Option<Seq<char>>;

/// Relies on `chrono::DateTime::from_timestamp` and `format`: `None` out of
/// range, else the formatted date; both depend on the seconds alone.
#[verifier::external_body]
fn utc_text(secs: i64) -> (r: Option<String>)
    ensures
        match r {
            Some(t) => utc_text_of(secs) == Some(t@),
            None => utc_text_of(secs) is None,
        },
{
    match chrono::DateTime::from_timestamp(secs, 0) {
        Some(dt) => Some(dt.format("%Y-%m-%d %H:%M:%S").to_string()),
        None => None,
    }
}

/// A Unix timestamp as UTC date and time, or "Unknown" out of range.
pub fn format_timestamp(timestamp: u64) -> (r: String)
    ensures
        r@ == match utc_text_of(timestamp as i64) {
            Some(t) => t,
            None => "Unknown"@,
        },
{
    match utc_text(timestamp as i64) {
        Some(t) => t,
        None => "Unknown".to_owned(),
    }
}

/// The `i`-th piece of `v` cut into pieces of `size`; the last may be shorter.
pub open spec fn chunk_spec<T>(v: Seq<T>, size: nat, i: int) -> Seq<T> {
    let a = i * size;
    let b = if (i + 1) * size <= v.len() {
        (i + 1) * size
    } else {
        v.len() as int
    };
    v.subrange(a, b)
}

/// The number of pieces of `size` that `n` items make.
pub open spec fn chunk_count(n: nat, size: nat) -> nat {
    if n == 0 {
        0
    } else {
        ((n - 1) as nat / size + 1) as nat
    }
}

/// Cuts `vec` into consecutive pieces of `chunk_size`; the last may be shorter.
pub fn chunks<T>(vec: Vec<T>, chunk_size: usize) -> (r: Vec<Vec<T>>)
    requires
        chunk_size > 0,
    ensures
        r@.len() == chunk_count(vec@.len(), chunk_size as nat),
        forall|i: int| 0 <= i < r@.len() ==> (#[trigger] r@[i])@ == chunk_spec(vec@, chunk_size as nat, i),
{
    let ghost orig = vec@;
    let ghost n = orig.len();
    let mut rest = vec;
    let total = rest.len();
    let mut r: Vec<Vec<T>> = Vec::new();
    let mut start: usize = 0;
    assert(r@.len() * chunk_size == 0) by (nonlinear_arith)
        requires
            r@.len() == 0,
    ;
    while rest.len() > chunk_size
        invariant
            chunk_size > 0,
            n == total,
            n == orig.len(),
            start as int == r@.len() * chunk_size,
            start + rest@.len() == n,
            rest@ == orig.subrange(start as int, n as int),
            forall|i: int|
                0 <= i < r@.len() ==> (#[trigger] r@[i])@ == chunk_spec(orig, chunk_size as nat, i),
        decreases rest.len(),
    {
        let ghost k = r@.len() as int;
        let ghost before = rest@;
        let tail = rest.split_off(chunk_size);
        let ghost sz = chunk_size as nat;
        assert(k * sz == start);
        assert((k + 1) * sz == k * sz + sz) by (nonlinear_arith);
        assert(start + chunk_size <= n);
        assert(chunk_spec(orig, sz, k) == orig.subrange(start as int, start + chunk_size));
        assert(rest@ =~= chunk_spec(orig, sz, k));
        r.push(rest);
        rest = tail;
        start = start + chunk_size;
        assert(rest@ =~= orig.subrange(start as int, n as int));
        assert(start as int == r@.len() * chunk_size);
    }
    let ghost k = r@.len() as int;
    let ghost sz = chunk_size as nat;
    assert(k * sz == start);
    if rest.len() > 0 {
        assert((k + 1) * sz == k * sz + sz) by (nonlinear_arith);
        assert(chunk_spec(orig, sz, k) == orig.subrange(start as int, n as int));
        assert(rest@ =~= chunk_spec(orig, sz, k));
        r.push(rest);
        assert(0 <= n - 1 - k * sz < sz);
        proof {
            vstd::arithmetic::div_mod::lemma_fundamental_div_mod_converse_div(
                n - 1,
                sz as int,
                k,
                n - 1 - k * sz,
            );
        }
        assert((n - 1) as nat / sz == k);
    } else if total > 0 {
        assert(k >= 1) by (nonlinear_arith)
            requires
                n == k * chunk_size,
                n > 0,
                chunk_size > 0,
        ;
        assert((k - 1) * chunk_size == k * chunk_size - chunk_size) by (nonlinear_arith);
        proof {
            vstd::arithmetic::div_mod::lemma_fundamental_div_mod_converse_div(
                n - 1,
                sz as int,
                k - 1,
                sz - 1,
            );
        }
        assert((n - 1) as nat / sz == k - 1);
    } else {
        assert(k == 0) by (nonlinear_arith)
            requires
                k * sz == 0,
                sz > 0,
                k >= 0,
        ;
    }
    r
}

/// Spaces calls at least `delay` apart. Times are milliseconds on a
/// monotonic clock read by the caller.
pub struct RateLimiter {
    pub delay: TimeSpan,
    pub last_call: Option<u64>,
}

impl RateLimiter {
    pub fn new(delay: TimeSpan) -> (r: RateLimiter)
        ensures
            r.delay == delay && r.last_call is None,
    {
        RateLimiter { delay, last_call: None }
    }

    /// How long to pause at `now` before the next call may go: what remains
    /// of the delay since the last call, or nothing.
    pub fn pause_needed(&self, now: u64) -> (r: u64)
        ensures
            r == match self.last_call {
                None => 0,
                Some(last) => {
                    let elapsed = if now >= last {
                        now - last
                    } else {
                        0
                    };
                    if elapsed < self.delay.millis {
                        (self.delay.millis - elapsed) as u64
                    } else {
                        0
                    }
                },
            },
    {
        match self.last_call {
            None => 0,
            Some(last) => {
                let elapsed = if now >= last {
                    now - last
                } else {
                    0
                };
                if elapsed < self.delay.millis {
                    self.delay.millis - elapsed
                } else {
                    0
                }
            },
        }
    }

    /// Records a call made at `now`.
    pub fn record_call(&mut self, now: u64)
        ensures
            final(self).last_call == Some(now),
            final(self).delay == old(self).delay,
    {
        self.last_call = Some(now);
    }
}

/// `1024^k`.
pub open spec fn kib_pow(k: nat) -> nat
    decreases k,
{
    if k == 0 {
        1
    } else {
        1024 * kib_pow((k - 1) as nat)
    }
}

/// The largest unit, up to TB, that a byte count reaches.
pub open spec fn byte_unit(b: nat) -> nat {
    if b >= kib_pow(4) {
        4
    } else if b >= kib_pow(3) {
        3
    } else if b >= kib_pow(2) {
        2
    } else if b >= kib_pow(1) {
        1
    } else {
        0
    }
}

pub open spec fn unit_name(k: nat) -> Seq<char> {
    if k == 0 {
        seq!['B']
    } else if k == 1 {
        seq!['K', 'B']
    } else if k == 2 {
        seq!['M', 'B']
    } else if k == 3 {
        seq!['G', 'B']
    } else {
        seq!['T', 'B']
    }
}

/// `b / d` in tenths, rounded to nearest with ties to even.
pub open spec fn tenths(b: nat, d: nat) -> nat {
    let q = (b * 10) / d;
    let r = (b * 10) % d;
    if 2 * r > d || (2 * r == d && q % 2 == 1) {
        q + 1
    } else {
        q
    }
}

/// A byte count in its largest unit: whole bytes, or the unit with one decimal.
pub open spec fn bytes_text(b: nat) -> Seq<char> {
    let k = byte_unit(b);
    if k == 0 {
        decimal(b) + seq![' ', 'B']
    } else {
        let t = tenths(b, kib_pow(k));
        decimal(t / 10) + seq!['.', digit_char(t % 10), ' '] + unit_name(k)
    }
}

/// Formats a byte count for people.
pub fn format_bytes(bytes: u64) -> (r: String)
    ensures
        r@ == bytes_text(bytes as nat),
{
    assert(kib_pow(1) == 1024 && kib_pow(2) == 1048576 && kib_pow(3) == 1073741824 && kib_pow(4)
        == 1099511627776) by {
        reveal_with_fuel(kib_pow, 5);
    }
    let mut out: Vec<char> = Vec::new();
    if bytes < 1024 {
        push_decimal(bytes, &mut out);
        out.push(' ');
        out.push('B');
        assert(out@ =~= bytes_text(bytes as nat));
        return string_of(&out);
    }
    let d: u128 = if bytes >= 1099511627776 {
        1099511627776
    } else if bytes >= 1073741824 {
        1073741824
    } else if bytes >= 1048576 {
        1048576
    } else {
        1024
    };
    let ghost k = byte_unit(bytes as nat);
    assert(d == kib_pow(k));
    let x: u128 = bytes as u128 * 10;
    let q = x / d;
    let rem = x % d;
    let t: u128 = if 2 * rem > d || (2 * rem == d && q % 2 == 1) {
        q + 1
    } else {
        q
    };
    assert(t == tenths(bytes as nat, d as nat));
    assert(q <= x / 1024) by {
        vstd::arithmetic::div_mod::lemma_div_is_ordered_by_denominator(x as int, 1024, d as int);
    }
    assert(t / 10 <= 0xffff_ffff_ffff_ffff) by (nonlinear_arith)
        requires
            t <= q + 1,
            q <= x / 1024,
            x == bytes * 10,
            bytes <= 0xffff_ffff_ffff_ffff,
    ;
    push_decimal((t / 10) as u64, &mut out);
    out.push('.');
    push_digit(&mut out, (t % 10) as u64);
    out.push(' ');
    if d == 1024 {
        out.push('K');
    } else if d == 1048576 {
        out.push('M');
    } else if d == 1073741824 {
        out.push('G');
    } else {
        out.push('T');
    }
    out.push('B');
    assert(out@ =~= bytes_text(bytes as nat));
    string_of(&out)
}

} // verus!
