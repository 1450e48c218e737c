//! Binary arithmetic (range) coder: the entropy back end for predictive
//! compression.
//!
//! The coder works one bit at a time against an externally supplied
//! probability. A model says "the next bit is 1 with probability p", the coder
//! turns the prediction into a fraction of a bit, and the decoder, given the
//! same prediction, recovers the bit. Probabilities are 12-bit (`1..=4095`,
//! p(bit = 1) scaled by 4096).
//!
//! # Model
//!
//! An encoder stands for an interval `[value, value + range)` of numbers with
//! `bytes + 4` base-256 digits ([`EncModel`]). Coding a bit narrows the
//! interval; renormalizing appends a digit. The emitted stream is `value`
//! itself, written big-endian. The carry cache of the implementation does not
//! appear in the model: it is one way to compute the digits of `value`.
//!
//! A decoder holds the distance `code` of the stream's number from the lower
//! end of the interval ([`DecModel`]).
//!
//! [`lossless`] ties the two together.

use vstd::prelude::*;

verus! {

/// Renormalize when the range drops below this.
pub const TOP: u32 = 0x100_0000;

/// p(1) = 1/2.
pub const INIT_PROB: u16 = 2048;

// ---------------------------------------------------------------------------
// Numbers as byte sequences
// ---------------------------------------------------------------------------

/// The number whose big-endian base-256 digits are `s`.
pub open spec fn be_value(s: Seq<u8>) -> nat
    decreases s.len(),
{
    if s.len() == 0 {
        0
    } else {
        be_value(s.drop_last()) * 256 + s.last() as nat
    }
}

/// The `k` lowest base-256 digits of `n`, most significant first.
pub open spec fn be_bytes(n: nat, k: nat) -> Seq<u8>
    decreases k,
{
    if k == 0 {
        Seq::empty()
    } else {
        be_bytes(n / 256, (k - 1) as nat).push((n % 256) as u8)
    }
}

/// The number whose little-endian base-256 digits are `s`.
pub open spec fn le_value(s: Seq<u8>) -> nat
    decreases s.len(),
{
    if s.len() == 0 {
        0
    } else {
        s[0] as nat + 256 * le_value(s.drop_first())
    }
}

/// The `k` lowest base-256 digits of `n`, least significant first.
pub open spec fn le_bytes(n: nat, k: nat) -> Seq<u8>
    decreases k,
{
    if k == 0 {
        Seq::empty()
    } else {
        seq![(n % 256) as u8] + le_bytes(n / 256, (k - 1) as nat)
    }
}

/// 256 to the power `k`.
pub open spec fn pow256(k: nat) -> nat
    decreases k,
{
    if k == 0 {
        1
    } else {
        256 * pow256((k - 1) as nat)
    }
}

/// `k` copies of the byte `b`.
pub open spec fn run_of(b: u8, k: nat) -> Seq<u8> {
    Seq::new(k, |i: int| b)
}

// ---------------------------------------------------------------------------
// The coder's model
// ---------------------------------------------------------------------------

/// The encoder's interval: `[value, value + range)`, where `value` has
/// `bytes + 4` base-256 digits.
pub struct EncModel {
    pub value: nat,
    pub bytes: nat,
    pub range: nat,
}

/// A probability forced into `1..=4095`.
pub open spec fn clamp_prob(p: int) -> nat {
    if p < 1 {
        1
    } else if p > 4095 {
        4095
    } else {
        p as nat
    }
}

/// The part of a range that stands for a 1 bit of probability `prob`.
pub open spec fn one_share(range: nat, prob: int) -> nat {
    range * clamp_prob(prob) / 4096
}

/// The interval after renormalization: digits are appended until the range is
/// at least `TOP`.
pub open spec fn enc_renorm(m: EncModel) -> EncModel
    decreases (if m.range < TOP { TOP - m.range } else { 0 }),
{
    if 0 < m.range < TOP {
        enc_renorm(
            EncModel { value: m.value * 256, bytes: m.bytes + 1, range: m.range * 256 },
        )
    } else {
        m
    }
}

/// The part of the interval that stands for `bit`: a 1 bit takes the lower
/// part, a 0 bit the rest.
pub open spec fn enc_narrow(m: EncModel, prob: int, bit: bool) -> EncModel {
    let r1 = one_share(m.range, prob);
    if bit {
        EncModel { range: r1, ..m }
    } else {
        EncModel { value: m.value + r1, range: (m.range - r1) as nat, ..m }
    }
}

/// One coding step.
pub open spec fn enc_step(m: EncModel, prob: int, bit: bool) -> EncModel {
    enc_renorm(enc_narrow(m, prob, bit))
}

/// The interval before any bit: all numbers of 32 bits but the last, below one
/// leading zero digit.
pub open spec fn enc_start() -> EncModel {
    EncModel { value: 0, bytes: 1, range: 0xFFFF_FFFF }
}

/// What holds of the interval between two coding steps.
pub open spec fn enc_valid(m: EncModel) -> bool {
    TOP <= m.range <= 0xFFFF_FFFF
}

/// The stream that an encoder with interval `m` finishes with.
pub open spec fn enc_stream(m: EncModel) -> Seq<u8> {
    be_bytes(m.value, m.bytes + 4)
}

/// The decoder's state: the current range, the distance of the stream's number
/// from the interval's lower end, and the number of stream bytes consumed.
pub struct DecModel {
    pub range: nat,
    pub code: nat,
    pub pos: nat,
}

/// The stream byte at `pos`; past the end the stream reads as zeros.
pub open spec fn byte_at(data: Seq<u8>, pos: nat) -> u8 {
    if pos < data.len() {
        data[pos as int]
    } else {
        0
    }
}

/// The position after the byte at `pos` was read: it stays at the end.
pub open spec fn next_pos(data: Seq<u8>, pos: nat) -> nat {
    if pos < data.len() {
        pos + 1
    } else {
        pos
    }
}

/// One stream byte moved into `code`, which keeps its 32 lowest bits.
pub open spec fn dec_feed(data: Seq<u8>, m: DecModel) -> DecModel {
    DecModel {
        code: (m.code * 256 + byte_at(data, m.pos)) as nat % 0x1_0000_0000,
        pos: next_pos(data, m.pos),
        ..m
    }
}

/// The decoder's renormalization: the range grows by a digit and a stream byte
/// is moved in, until the range is at least `TOP`.
pub open spec fn dec_renorm(data: Seq<u8>, m: DecModel) -> DecModel
    decreases (if m.range < TOP { TOP - m.range } else { 0 }),
{
    if 0 < m.range < TOP {
        dec_renorm(data, DecModel { range: m.range * 256, ..dec_feed(data, m) })
    } else {
        m
    }
}

/// The bit that the decoder reads: 1 exactly if `code` lies in the part of the
/// range that stands for a 1 bit.
pub open spec fn dec_bit(m: DecModel, prob: int) -> bool {
    m.code < one_share(m.range, prob)
}

/// The decoder's range and code after the bit, before renormalization.
pub open spec fn dec_narrow(m: DecModel, prob: int) -> DecModel {
    let r1 = one_share(m.range, prob);
    if dec_bit(m, prob) {
        DecModel { range: r1, ..m }
    } else {
        DecModel { range: (m.range - r1) as nat, code: (m.code - r1) as nat, ..m }
    }
}

/// One decoding step.
pub open spec fn dec_step(data: Seq<u8>, m: DecModel, prob: int) -> DecModel {
    dec_renorm(data, dec_narrow(m, prob))
}

/// The decoder before any bit: the leading byte is dropped and four bytes are
/// moved into `code`.
pub open spec fn dec_start(data: Seq<u8>) -> DecModel {
    let m = DecModel { range: 0xFFFF_FFFF, code: 0, pos: next_pos(data, 0) };
    dec_feed(data, dec_feed(data, dec_feed(data, dec_feed(data, m))))
}

/// What holds of the decoder's state between two decoding steps.
pub open spec fn dec_valid(data: Seq<u8>, m: DecModel) -> bool {
    TOP <= m.range <= 0xFFFF_FFFF && m.code <= 0xFFFF_FFFF && m.pos <= data.len()
}

// ---------------------------------------------------------------------------
// Facts about the digits
// ---------------------------------------------------------------------------

proof fn lemma_be_push(s: Seq<u8>, b: u8)
    ensures
        be_value(s.push(b)) == be_value(s) * 256 + b as nat,
{
    assert(s.push(b).drop_last() =~= s);
}

proof fn lemma_run_push(s: Seq<u8>, b: u8, k: nat)
    ensures
        s + run_of(b, k + 1) == (s + run_of(b, k)).push(b),
        s + run_of(b, 0) == s,
{
    assert(s + run_of(b, k + 1) =~= (s + run_of(b, k)).push(b));
    assert(s + run_of(b, 0) =~= s);
}

/// A run of 0xFF digits is one short of the next multiple.
proof fn lemma_be_ffs(s: Seq<u8>, k: nat)
    ensures
        be_value(s + run_of(0xFF, k)) + 1 == (be_value(s) + 1) * pow256(k),
    decreases k,
{
    if k == 0 {
        lemma_run_push(s, 0xFF, 0);
        assert(pow256(0) == 1);
    } else {
        let j = (k - 1) as nat;
        lemma_be_ffs(s, j);
        lemma_run_push(s, 0xFF, j);
        lemma_be_push(s + run_of(0xFF, j), 0xFF);
        let a = be_value(s) + 1;
        let p = pow256(j);
        assert(a * (256 * p) == 256 * (a * p)) by (nonlinear_arith);
    }
}

/// Adding one to a digit followed by 0xFF digits turns those into zeros.
proof fn lemma_be_carry(s: Seq<u8>, c: u8, k: nat)
    requires
        c < 0xFF,
    ensures
        be_value(s.push((c + 1) as u8) + run_of(0, k)) == be_value(s.push(c) + run_of(0xFF, k)) + 1,
    decreases k,
{
    let up = s.push((c + 1) as u8);
    let lo = s.push(c);
    if k == 0 {
        lemma_run_push(up, 0, 0);
        lemma_run_push(lo, 0xFF, 0);
        lemma_be_push(s, (c + 1) as u8);
        lemma_be_push(s, c);
    } else {
        let j = (k - 1) as nat;
        lemma_be_carry(s, c, j);
        lemma_run_push(up, 0, j);
        lemma_run_push(lo, 0xFF, j);
        lemma_be_push(up + run_of(0, j), 0);
        lemma_be_push(lo + run_of(0xFF, j), 0xFF);
    }
}

/// The digits of a sequence's number are the sequence.
proof fn lemma_be_bytes_of_value(s: Seq<u8>)
    ensures
        be_bytes(be_value(s), s.len()) == s,
    decreases s.len(),
{
    if s.len() > 0 {
        let t = s.drop_last();
        lemma_be_bytes_of_value(t);
        let n = be_value(s);
        assert(n / 256 == be_value(t));
        assert(n % 256 == s.last() as nat);
        assert(t.push(s.last()) =~= s);
    } else {
        assert(be_bytes(0, 0) =~= s);
    }
}

// ---------------------------------------------------------------------------
// The encoder
// ---------------------------------------------------------------------------

/// Arithmetic encoder. Feed bits with `encode_bit`, then call `finish`.
pub struct ArithEncoder {
    /// The logical low end; bit 32 holds an outstanding carry.
    low: u64,
    /// The current range width.
    range: u32,
    /// The last withheld byte (pending carry resolution).
    cache: u8,
    /// The number of withheld bytes (the cache and a run of 0xFF).
    cache_size: u64,
    out: Vec<u8>,
}

/// The digits above `low`: those written, the withheld byte and the run.
spec fn digits(out: Seq<u8>, cache: u8, cache_size: nat) -> Seq<u8> {
    out.push(cache) + run_of(0xFF, (cache_size - 1) as nat)
}

impl ArithEncoder {
    /// The interval that the encoder stands for.
    pub closed spec fn view(&self) -> EncModel {
        EncModel {
            value: be_value(digits(self.out@, self.cache, self.cache_size as nat)) * 0x1_0000_0000
                + self.low as nat,
            bytes: self.out@.len() + self.cache_size as nat,
            range: self.range as nat,
        }
    }

    /// The interval of width `w` above the encoder's value ends below the next
    /// value of the digits already written, so a carry stays among the withheld
    /// digits.
    spec fn fits(&self, w: nat) -> bool {
        &&& self.cache_size >= 1
        &&& self.low + w <= 0x2_0000_0000
        &&& self@.value + w <= (be_value(self.out@) + 1) * pow256(self.cache_size as nat)
            * 0x1_0000_0000
    }

    /// What the encoder keeps between two bits.
    pub closed spec fn wf(&self) -> bool {
        &&& TOP <= self.range
        &&& self.fits(self.range as nat)
    }

    /// An encoder that has seen no bit: one pending zero byte, which the decoder
    /// reads and discards to stay aligned.
    pub fn new() -> (r: Self)
        ensures
            r.wf(),
            r@ == enc_start(),
    {
        let r = ArithEncoder {
            low: 0,
            range: 0xFFFF_FFFF,
            cache: 0,
            cache_size: 1,
            out: Vec::new(),
        };
        proof {
            let d = digits(r.out@, 0, 1);
            lemma_run_push(r.out@.push(0), 0xFF, 0);
            lemma_be_push(r.out@, 0);
            reveal_with_fuel(pow256, 2);
            assert(r.out@.len() == 0);
            assert(be_value(r.out@) == 0);
        }
        r
    }

    /// A valid interval is all that a caller sees of `wf`.
    pub proof fn lemma_valid(&self)
        requires
            self.wf(),
        ensures
            enc_valid(self@),
    {
    }

    /// Moves the top byte of `low` among the withheld digits: the value gains a
    /// digit and stays the same number otherwise.
    fn shift_low(&mut self, Ghost(w): Ghost<nat>)
        requires
            0 < w <= TOP,
            old(self).fits(w),
            old(self).cache_size < u64::MAX,
        ensures
            final(self)@.value == old(self)@.value * 256,
            final(self)@.bytes == old(self)@.bytes + 1,
            final(self).range == old(self).range,
            final(self).low == (old(self).low as nat * 256) % 0x1_0000_0000,
            final(self).fits(w * 256),
            old(self).low == 0 ==> final(self).out@ == digits(
                old(self).out@,
                old(self).cache,
                old(self).cache_size as nat,
            ),
    {
        let low: u64 = self.low;
        let ghost out0 = self.out@;
        let ghost cs = self.cache_size as nat;
        let ghost cache0 = self.cache;
        let ghost d = digits(out0, cache0, cs);
        proof {
            assert((low << 8u64) & 0xFFFF_FFFFu64 == (low * 256) % 0x1_0000_0000) by (bit_vector)
                requires
                    low <= 0x2_0000_0000u64,
            ;
            assert((low >> 24u64) & 0xFFu64 == (low % 0x1_0000_0000) / 0x100_0000) by (bit_vector);
            assert(low >> 32u64 == low / 0x1_0000_0000) by (bit_vector);
        }
        if low < 0xFF00_0000u64 || low > 0xFFFF_FFFFu64 {
            let carry: u8 = (low >> 32) as u8;
            proof {
                assert(low < 0x2_0000_0000u64);
                assert(carry == 0 || carry == 1);
                if carry == 1 && cache0 == 0xFF {
                    assert(d =~= out0 + run_of(0xFF, cs));
                    lemma_be_ffs(out0, cs);
                }
            }
            let ghost fill: u8 = if carry == 1 { 0 } else { 0xFF };
            let ghost first: u8 = (cache0 + carry) as u8;
            let mut temp: u8 = self.cache;
            let mut first_done: bool = false;
            proof {
                lemma_run_push(out0.push(first), fill, 0);
            }
            while self.cache_size > 0
                invariant
                    first_done == (self.cache_size < cs),
                    self.cache_size <= cs,
                    cs >= 1,
                    carry <= 1,
                    carry == 1 ==> cache0 < 0xFF,
                    first == cache0 + carry,
                    fill == (if carry == 1u8 { 0u8 } else { 0xFFu8 }),
                    temp == (if first_done { 0xFFu8 } else { cache0 }),
                    self.low == low,
                    self.range == old(self).range,
                    self.cache == cache0,
                    !first_done ==> self.out@ == out0,
                    first_done ==> self.out@ == out0.push(first) + run_of(
                        fill,
                        (cs - self.cache_size - 1) as nat,
                    ),
                decreases self.cache_size,
            {
                proof {
                    if first_done {
                        lemma_run_push(out0.push(first), fill, (cs - self.cache_size - 1) as nat);
                    } else {
                        lemma_run_push(out0.push(first), fill, 0);
                    }
                }
                self.out.push(temp.wrapping_add(carry));
                temp = 0xFF;
                first_done = true;
                self.cache_size = self.cache_size - 1;
            }
            self.cache = ((low >> 24) & 0xFF) as u8;
            proof {
                let top = (low as nat % 0x1_0000_0000) / 0x100_0000;
                assert(self.cache as nat == top);
                let o = self.out@;
                assert(o == out0.push(first) + run_of(fill, (cs - 1) as nat));
                if carry == 1 {
                    lemma_be_carry(out0, cache0, (cs - 1) as nat);
                } else {
                    assert(o == d);
                }
                assert(be_value(o) == be_value(d) + carry as nat);
                lemma_be_push(o, self.cache);
                lemma_run_push(o.push(self.cache), 0xFF, 0);
                reveal_with_fuel(pow256, 2);
                let a = be_value(o) + 1;
                assert(a * pow256(1) == a * 256) by (nonlinear_arith)
                    requires
                        pow256(1) == 256,
                ;
            }
        } else {
            proof {
                lemma_run_push(out0.push(cache0), 0xFF, (cs - 1) as nat);
                lemma_be_push(d, 0xFF);
                let a = be_value(out0) + 1;
                let p = pow256(cs);
                assert(a * (256 * p) == 256 * (a * p)) by (nonlinear_arith);
                assert(pow256(cs + 1) == 256 * p);
            }
        }
        self.cache_size = self.cache_size + 1;
        self.low = (low << 8) & 0xFFFF_FFFF;
    }

    /// Encode one bit. `prob_one` is the 12-bit probability that `bit == 1`; a
    /// value outside `1..=4095` is clamped, so an external model cannot spin the
    /// renormalize loop or exhaust the range. `bit` must be 0 or 1.
    pub fn encode_bit(&mut self, prob_one: u16, bit: u8)
        requires
            old(self).wf(),
            bit <= 1,
            old(self)@.bytes <= u64::MAX - 8,
        ensures
            final(self).wf(),
            final(self)@ == enc_step(old(self)@, prob_one as int, bit == 1),
            final(self)@.bytes <= old(self)@.bytes + 2,
    {
        let prob: u16 = clamped(prob_one);
        let r1: u32 = share(self.range, prob);
        proof {
            lemma_share(self.range as nat, prob_one as int);
        }
        let ghost narrowed = enc_narrow(self@, prob_one as int, bit == 1);
        if bit == 1 {
            self.range = r1;
        } else {
            self.low = self.low + r1 as u64;
            self.range = self.range - r1;
        }
        assert(self@ == narrowed);
        let ghost mut k: nat = 0;
        while self.range < TOP
            invariant
                self.fits(self.range as nat),
                k <= 2,
                self@.bytes == old(self)@.bytes + k,
                old(self)@.bytes <= u64::MAX - 8,
                self.range >= 4096,
                k == 1 ==> self.range >= 0x10_0000,
                k == 2 ==> self.range >= TOP,
                enc_renorm(self@) == enc_renorm(narrowed),
            decreases (if self.range < TOP { TOP - self.range } else { 0 }),
        {
            let ghost before = self@;
            let range: u32 = self.range;
            self.shift_low(Ghost(range as nat));
            assert(range << 8u32 == range * 256) by (bit_vector)
                requires
                    range < 0x100_0000u32,
            ;
            self.range = range << 8;
            proof {
                k = k + 1;
                assert(self@ == EncModel {
                    value: before.value * 256,
                    bytes: before.bytes + 1,
                    range: before.range * 256,
                });
            }
        }
        assert(enc_renorm(self@) == self@);
    }

    /// Moves the top byte of `low` out, whatever the range.
    fn drain_byte(&mut self)
        requires
            old(self).fits(1),
            old(self)@.bytes < u64::MAX,
        ensures
            final(self)@.value == old(self)@.value * 256,
            final(self)@.bytes == old(self)@.bytes + 1,
            final(self).low == (old(self).low as nat * 256) % 0x1_0000_0000,
            final(self).fits(1),
            old(self).low == 0 ==> final(self).out@ == digits(
                old(self).out@,
                old(self).cache,
                old(self).cache_size as nat,
            ),
    {
        self.shift_low(Ghost(1));
    }

    /// Flush the remaining state and return the encoded byte stream.
    pub fn finish(self) -> (out: Vec<u8>)
        requires
            self.wf(),
            self@.bytes <= u64::MAX - 8,
        ensures
            out@ == enc_stream(self@),
    {
        let mut enc = self;
        let ghost low0 = enc.low;
        enc.drain_byte();
        let ghost low1 = enc.low;
        enc.drain_byte();
        let ghost low2 = enc.low;
        enc.drain_byte();
        let ghost low3 = enc.low;
        enc.drain_byte();
        let ghost held = digits(enc.out@, enc.cache, enc.cache_size as nat);
        proof {
            lemma_four_shifts(low0, low1, low2, low3, enc.low);
            assert(be_value(held) == self@.value);
            assert(held.len() == self@.bytes + 4);
            lemma_be_bytes_of_value(held);
        }
        enc.drain_byte();
        enc.out
    }
}

/// Four byte shifts empty a 32-bit register.
proof fn lemma_four_shifts(a: u64, b: u64, c: u64, d: u64, e: u64)
    by (bit_vector)
    requires
        a <= 0x2_0000_0000,
        b == (a * 256) % 0x1_0000_0000,
        c == (b * 256) % 0x1_0000_0000,
        d == (c * 256) % 0x1_0000_0000,
        e == (d * 256) % 0x1_0000_0000,
    ensures
        e == 0,
{
}

impl Default for ArithEncoder {
    fn default() -> (r: Self)
        ensures
            r.wf(),
            r@ == enc_start(),
    {
        ArithEncoder::new()
    }
}

/// A probability forced into `1..=4095`.
fn clamped(prob_one: u16) -> (r: u16)
    ensures
        r == clamp_prob(prob_one as int),
        1 <= r <= 4095,
{
    if prob_one < 1 {
        1
    } else if prob_one > 4095 {
        4095
    } else {
        prob_one
    }
}

/// The sub-range assigned to a 1 bit; it sits at the bottom of the interval.
fn share(range: u32, prob: u16) -> (r: u32)
    requires
        1 <= prob <= 4095,
    ensures
        r == one_share(range as nat, prob as int),
{
    assert(range as nat * prob as nat <= 0xFFFF_FFFF * 4095) by (nonlinear_arith)
        requires
            range <= 0xFFFF_FFFF,
            prob <= 4095,
    ;
    let product: u64 = range as u64 * prob as u64;
    assert(product >> 12u64 == product / 4096) by (bit_vector);
    (product >> 12) as u32
}

/// Both parts of a valid range are at least 4096.
proof fn lemma_share(range: nat, prob: int)
    requires
        TOP <= range <= 0xFFFF_FFFF,
    ensures
        4096 <= one_share(range, prob) <= range - 4096,
{
    let p = clamp_prob(prob);
    assert(range <= range * p <= range * 4096 - range) by (nonlinear_arith)
        requires
            1 <= p <= 4095,
    ;
}

// ---------------------------------------------------------------------------
// The decoder
// ---------------------------------------------------------------------------

/// Arithmetic decoder. Mirror of `ArithEncoder`; feed the same probabilities.
pub struct ArithDecoder<'a> {
    range: u32,
    code: u32,
    data: &'a [u8],
    pos: usize,
}

impl<'a> ArithDecoder<'a> {
    /// The decoder's state.
    pub closed spec fn view(&self) -> DecModel {
        DecModel { range: self.range as nat, code: self.code as nat, pos: self.pos as nat }
    }

    /// The stream that is decoded.
    pub closed spec fn stream(&self) -> Seq<u8> {
        self.data@
    }

    /// What the decoder keeps between two bits.
    pub open spec fn wf(&self) -> bool {
        dec_valid(self.stream(), self@)
    }

    /// A decoder at the start of `data`. The very first byte is the encoder's
    /// leading cache byte and is discarded.
    pub fn new(data: &'a [u8]) -> (r: Self)
        ensures
            r.wf(),
            r.stream() == data@,
            r@ == dec_start(data@),
    {
        let mut d = ArithDecoder { range: 0xFFFF_FFFF, code: 0, data, pos: 0 };
        let _first: u8 = d.next_byte();
        d.feed();
        d.feed();
        d.feed();
        d.feed();
        d
    }

    /// The next stream byte, zero past the end.
    fn next_byte(&mut self) -> (b: u8)
        requires
            old(self).pos <= old(self).data@.len(),
        ensures
            final(self).data == old(self).data,
            final(self).range == old(self).range,
            final(self).code == old(self).code,
            final(self).pos == next_pos(old(self).data@, old(self).pos as nat),
            b == byte_at(old(self).data@, old(self).pos as nat),
    {
        if self.pos < self.data.len() {
            let b: u8 = self.data[self.pos];
            self.pos = self.pos + 1;
            b
        } else {
            0
        }
    }

    /// Moves one stream byte into `code`.
    fn feed(&mut self)
        requires
            old(self).pos <= old(self).data@.len(),
        ensures
            final(self).data == old(self).data,
            final(self)@ == dec_feed(old(self).data@, old(self)@),
            final(self).pos <= final(self).data@.len(),
    {
        let code: u32 = self.code;
        let b: u8 = self.next_byte();
        let wide: u32 = b as u32;
        assert((code << 8u32) | wide == (code * 256 + wide) % 0x1_0000_0000) by (bit_vector)
            requires
                wide <= 0xFFu32,
        ;
        self.code = (code << 8) | wide;
    }

    /// Decode one bit using the same `prob_one` the encoder used at this step.
    pub fn decode_bit(&mut self, prob_one: u16) -> (bit: u8)
        requires
            old(self).wf(),
        ensures
            final(self).wf(),
            final(self).stream() == old(self).stream(),
            bit == (if dec_bit(old(self)@, prob_one as int) { 1u8 } else { 0u8 }),
            final(self)@ == dec_step(old(self).stream(), old(self)@, prob_one as int),
    {
        let prob: u16 = clamped(prob_one);
        let r1: u32 = share(self.range, prob);
        proof {
            lemma_share(self.range as nat, prob_one as int);
        }
        let ghost narrowed = dec_narrow(self@, prob_one as int);
        let ghost data = self.data@;
        let bit: u8 = if self.code < r1 {
            self.range = r1;
            1
        } else {
            self.code = self.code - r1;
            self.range = self.range - r1;
            0
        };
        assert(self@ == narrowed);
        while self.range < TOP
            invariant
                self.pos <= self.data@.len(),
                self.data == old(self).data,
                data == self.data@,
                self.range >= 4096,
                dec_renorm(data, self@) == dec_renorm(data, narrowed),
            decreases (if self.range < TOP { TOP - self.range } else { 0 }),
        {
            let ghost before = self@;
            let range: u32 = self.range;
            assert(range << 8u32 == range * 256) by (bit_vector)
                requires
                    range < 0x100_0000u32,
            ;
            self.range = range << 8;
            self.feed();
            assert(self@ == DecModel { range: before.range * 256, ..dec_feed(data, before) });
        }
        assert(dec_renorm(data, self@) == self@);
        bit
    }
}

// ---------------------------------------------------------------------------
// The adaptive order-0 bit model
// ---------------------------------------------------------------------------
//
// Each of the 256 possible "tree contexts" (a node in the per-byte binary tree
// of already-seen high bits) carries one adaptive probability. The model is fed
// identically on both sides, so no table is transmitted.

/// The probability after `bit` was seen: it moves towards the bit by a 32nd of
/// the distance and stays in `1..=4095`.
pub open spec fn adapt(p: int, bit: bool) -> nat {
    clamp_prob(
        if bit {
            p + (4096 - p) / 32
        } else {
            p - p / 32
        },
    )
}

/// The context below `ctx` on the side of `bit`, within the table.
pub open spec fn next_ctx(ctx: nat, bit: bool) -> nat {
    (ctx * 2 + (if bit { 1nat } else { 0nat })) % 256
}

/// All contexts at p(1) = 1/2.
pub open spec fn init_probs() -> Seq<u16> {
    Seq::new(256, |i: int| INIT_PROB)
}

/// The probabilities after `bit` was seen in context `ctx`.
pub open spec fn probs_after(probs: Seq<u16>, ctx: nat, bit: bool) -> Seq<u16> {
    probs.update(ctx as int, adapt(probs[ctx as int] as int, bit) as u16)
}

/// A table of legal probabilities, one for each context.
pub open spec fn probs_valid(probs: Seq<u16>) -> bool {
    probs.len() == 256 && forall|i: int| 0 <= i < 256 ==> 1 <= #[trigger] probs[i] <= 4095
}

struct BitModel {
    /// Index 1 is the tree root, then `2 * ctx + bit` walks down.
    probs: [u16; 256],
}

impl BitModel {
    spec fn view(&self) -> Seq<u16> {
        self.probs@
    }

    fn new() -> (r: Self)
        ensures
            r@ == init_probs(),
            probs_valid(r@),
    {
        let r = BitModel { probs: [2048u16; 256] };
        assert(r@ =~= init_probs());
        r
    }

    fn get(&self, ctx: usize) -> (p: u16)
        requires
            ctx < 256,
        ensures
            p == self@[ctx as int],
    {
        self.probs[ctx]
    }

    fn update(&mut self, ctx: usize, bit: u8)
        requires
            ctx < 256,
            bit <= 1,
            probs_valid(old(self)@),
        ensures
            final(self)@ == probs_after(old(self)@, ctx as nat, bit == 1),
            probs_valid(final(self)@),
            bit == 1 ==> final(self)@[ctx as int] >= old(self)@[ctx as int],
            bit == 0 ==> final(self)@[ctx as int] <= old(self)@[ctx as int],
            forall|j: int|
                0 <= j < 256 && j != ctx ==> #[trigger] final(self)@[j] == old(self)@[j],
    {
        let p: u16 = self.probs[ctx];
        let np: u16 = if bit == 1 {
            p + (4096 - p) / 32
        } else {
            p - p / 32
        };
        self.probs[ctx] = clamped(np);
    }
}

/// The context below `ctx` on the side of `bit`.
fn step_ctx(ctx: usize, bit: u8) -> (r: usize)
    requires
        ctx < 256,
        bit <= 1,
    ensures
        r == next_ctx(ctx as nat, bit == 1),
        r < 256,
{
    (ctx * 2 + bit as usize) % 256
}

// ---------------------------------------------------------------------------
// Whole buffers
// ---------------------------------------------------------------------------

/// Bit `i` of a byte.
pub open spec fn byte_bit(byte: u8, i: nat) -> bool {
    (byte >> (i as u8)) & 1 == 1
}

/// The `k` lowest bits of `byte`, coded from the highest down, from context
/// `ctx`.
pub open spec fn enc_bits(
    m: EncModel,
    probs: Seq<u16>,
    ctx: nat,
    byte: u8,
    k: nat,
) -> (EncModel, Seq<u16>)
    decreases k,
{
    if k == 0 {
        (m, probs)
    } else {
        let bit = byte_bit(byte, (k - 1) as nat);
        enc_bits(
            enc_step(m, probs[ctx as int] as int, bit),
            probs_after(probs, ctx, bit),
            next_ctx(ctx, bit),
            byte,
            (k - 1) as nat,
        )
    }
}

/// The coder and the model after all of `data`.
pub open spec fn enc_all(data: Seq<u8>) -> (EncModel, Seq<u16>)
    decreases data.len(),
{
    if data.len() == 0 {
        (enc_start(), init_probs())
    } else {
        let (m, probs) = enc_all(data.drop_last());
        enc_bits(m, probs, 1, data.last(), 8)
    }
}

/// The four bytes "ARB1" that every compressed buffer starts with.
pub open spec fn magic() -> Seq<u8> {
    seq![0x41, 0x52, 0x42, 0x31]
}

/// The compressed form of `data`: the magic, the length in eight little-endian
/// bytes, and the arithmetic stream unless `data` is empty.
pub open spec fn compressed(data: Seq<u8>) -> Seq<u8> {
    let header = magic() + le_bytes(data.len(), 8);
    if data.len() == 0 {
        header
    } else {
        header + enc_stream(enc_all(data).0)
    }
}

/// `k` bits decoded from context `ctx` and appended to the bits of `acc`.
pub open spec fn dec_bits(
    data: Seq<u8>,
    m: DecModel,
    probs: Seq<u16>,
    ctx: nat,
    acc: nat,
    k: nat,
) -> (DecModel, Seq<u16>, nat)
    decreases k,
{
    if k == 0 {
        (m, probs, acc)
    } else {
        let p = probs[ctx as int] as int;
        let bit = dec_bit(m, p);
        dec_bits(
            data,
            dec_step(data, m, p),
            probs_after(probs, ctx, bit),
            next_ctx(ctx, bit),
            acc * 2 + (if bit { 1nat } else { 0nat }),
            (k - 1) as nat,
        )
    }
}

/// The coder, the model and the output after `n` bytes were decoded from the
/// stream `data`.
pub open spec fn dec_all(data: Seq<u8>, n: nat) -> (DecModel, Seq<u16>, Seq<u8>)
    decreases n,
{
    if n == 0 {
        (dec_start(data), init_probs(), Seq::empty())
    } else {
        let (m, probs, out) = dec_all(data, (n - 1) as nat);
        let (m2, probs2, byte) = dec_bits(data, m, probs, 1, 0, 8);
        (m2, probs2, out.push(byte as u8))
    }
}

/// Whether `blob` starts with a whole header.
pub open spec fn has_header(blob: Seq<u8>) -> bool {
    blob.len() >= 12 && blob.subrange(0, 4) == magic()
}

/// The original length that the header of `blob` gives.
pub open spec fn header_len(blob: Seq<u8>) -> nat {
    le_value(blob.subrange(4, 12)) as u64 as usize as nat
}

/// The original buffer that `blob` stands for.
pub open spec fn decompressed(blob: Seq<u8>) -> Seq<u8> {
    dec_all(blob.subrange(12, blob.len() as int), header_len(blob)).2
}

/// Appends the eight little-endian bytes of `n`.
fn push_le(out: &mut Vec<u8>, n: u64)
    ensures
        final(out)@ == old(out)@ + le_bytes(n as nat, 8),
{
    let mut rest: u64 = n;
    let mut i: usize = 0;
    let ghost start = out@;
    while i < 8
        invariant
            i <= 8,
            out@ + le_bytes(rest as nat, (8 - i) as nat) == start + le_bytes(n as nat, 8),
        decreases 8 - i,
    {
        let ghost before = out@;
        let ghost r0 = rest as nat;
        out.push((rest % 256) as u8);
        rest = rest / 256;
        i = i + 1;
        proof {
            assert(le_bytes(r0, (9 - i) as nat) == seq![(r0 % 256) as u8] + le_bytes(
                rest as nat,
                (8 - i) as nat,
            ));
            assert(before + (seq![(r0 % 256) as u8] + le_bytes(rest as nat, (8 - i) as nat))
                =~= out@ + le_bytes(rest as nat, (8 - i) as nat));
        }
    }
    assert(out@ + le_bytes(rest as nat, 0) =~= out@);
}

/// The number in the eight little-endian bytes at `at`.
fn read_le(blob: &[u8], at: usize) -> (n: u64)
    requires
        at + 8 <= blob@.len(),
    ensures
        n == le_value(blob@.subrange(at as int, at + 8)),
{
    let mut n: u64 = 0;
    let mut i: usize = 8;
    let len: usize = blob.len();
    let ghost s = blob@.subrange(at as int, at + 8);
    assert(s.subrange(8, 8).len() == 0);
    while i > 0
        invariant
            i <= 8,
            at + 8 <= blob@.len(),
            len == blob@.len(),
            s == blob@.subrange(at as int, at + 8),
            n == le_value(s.subrange(i as int, 8)),
            n < pow256((8 - i) as nat),
        decreases i,
    {
        let b: u8 = blob[at + (i - 1)];
        proof {
            reveal_with_fuel(pow256, 9);
            let t = s.subrange(i - 1, 8);
            assert(t.drop_first() =~= s.subrange(i as int, 8));
            assert(t[0] == b);
            assert(pow256((8 - i) as nat) <= pow256(7));
        }
        n = n * 256 + b as u64;
        i = i - 1;
    }
    assert(s.subrange(0, 8) =~= s);
    n
}

/// Coding the bits of a byte keeps the interval and the table valid and adds at
/// most two digits for each bit.
proof fn lemma_enc_bits_valid(m: EncModel, probs: Seq<u16>, ctx: nat, byte: u8, k: nat)
    requires
        enc_valid(m),
        probs_valid(probs),
        ctx < 256,
    ensures
        enc_valid(enc_bits(m, probs, ctx, byte, k).0),
        probs_valid(enc_bits(m, probs, ctx, byte, k).1),
        m.bytes <= enc_bits(m, probs, ctx, byte, k).0.bytes <= m.bytes + 2 * k,
    decreases k,
{
    if k > 0 {
        let bit = byte_bit(byte, (k - 1) as nat);
        let p = probs[ctx as int] as int;
        lemma_enc_step_valid(m, p, bit);
        lemma_enc_bits_valid(
            enc_step(m, p, bit),
            probs_after(probs, ctx, bit),
            next_ctx(ctx, bit),
            byte,
            (k - 1) as nat,
        );
    }
}

proof fn lemma_enc_step_valid(m: EncModel, prob: int, bit: bool)
    requires
        enc_valid(m),
    ensures
        enc_valid(enc_step(m, prob, bit)),
        m.bytes <= enc_step(m, prob, bit).bytes <= m.bytes + 2,
{
    lemma_share(m.range, prob);
    reveal_with_fuel(enc_renorm, 3);
}

proof fn lemma_enc_all_valid(data: Seq<u8>)
    ensures
        enc_valid(enc_all(data).0),
        probs_valid(enc_all(data).1),
        enc_all(data).0.bytes <= 1 + 16 * data.len(),
    decreases data.len(),
{
    if data.len() > 0 {
        lemma_enc_all_valid(data.drop_last());
        let (m, probs) = enc_all(data.drop_last());
        lemma_enc_bits_valid(m, probs, 1, data.last(), 8);
    }
}

/// Compress arbitrary bytes with an adaptive order-0 bit model. The output is a
/// 4-byte magic and an 8-byte length header followed by the arithmetic stream.
/// Lossless: see [`lossless`].
pub fn compress_adaptive(data: &[u8]) -> (out: Vec<u8>)
    requires
        data@.len() <= 0x0FFF_FFFF_FFFF_FF00,
    ensures
        out@ == compressed(data@),
{
    let mut out: Vec<u8> = Vec::new();
    out.push(0x41);
    out.push(0x52);
    out.push(0x42);
    out.push(0x31);
    assert(out@ =~= magic());
    push_le(&mut out, data.len() as u64);
    if data.len() == 0 {
        return out;
    }
    let mut model = BitModel::new();
    let mut enc = ArithEncoder::new();
    let mut i: usize = 0;
    assert(data@.take(0).len() == 0);
    while i < data.len()
        invariant
            i <= data@.len(),
            data@.len() <= 0x0FFF_FFFF_FFFF_FF00,
            enc.wf(),
            probs_valid(model@),
            enc_all(data@.take(i as int)) == (enc@, model@),
        decreases data@.len() - i,
    {
        let byte: u8 = data[i];
        let ghost done = data@.take(i as int);
        let ghost start = (enc@, model@);
        proof {
            lemma_enc_all_valid(done);
            assert(data@.take(i + 1).drop_last() =~= done);
        }
        let mut ctx: usize = 1;
        let mut k: u8 = 8;
        while k > 0
            invariant
                k <= 8,
                ctx < 256,
                enc.wf(),
                probs_valid(model@),
                start.0.bytes <= 1 + 16 * i,
                i < data@.len() <= 0x0FFF_FFFF_FFFF_FF00,
                enc@.bytes <= start.0.bytes + 2 * (8 - k),
                enc_bits(enc@, model@, ctx as nat, byte, k as nat) == enc_bits(
                    start.0,
                    start.1,
                    1,
                    byte,
                    8,
                ),
            decreases k,
        {
            k = k - 1;
            let bit: u8 = (byte >> k) & 1;
            assert((byte >> k) & 1 <= 1) by (bit_vector);
            let p: u16 = model.get(ctx);
            enc.encode_bit(p, bit);
            model.update(ctx, bit);
            ctx = step_ctx(ctx, bit);
        }
        i = i + 1;
    }
    proof {
        lemma_enc_all_valid(data@);
        assert(data@.take(data@.len() as int) =~= data@);
    }
    let mut stream: Vec<u8> = enc.finish();
    out.append(&mut stream);
    out
}

/// Decompress a blob produced by `compress_adaptive`. The original length is
/// read from the header (`_out_len` is ignored; pass 0 if unknown).
pub fn decompress_adaptive(blob: &[u8], _out_len: usize) -> (r: Result<Vec<u8>, String>)
    ensures
        r is Ok <==> has_header(blob@),
        r matches Ok(data) ==> data@ == decompressed(blob@),
        r matches Err(e) ==> e@ == "not an ARB1 stream"@,
{
    if blob.len() < 12 || blob[0] != 0x41 || blob[1] != 0x52 || blob[2] != 0x42 || blob[3] != 0x31 {
        proof {
            if blob@.len() >= 12 {
                let s = blob@.subrange(0, 4);
                assert(s[0] == blob@[0] && s[1] == blob@[1] && s[2] == blob@[2] && s[3] == blob@[3]);
                let m = magic();
                assert(m[0] == 0x41 && m[1] == 0x52 && m[2] == 0x42 && m[3] == 0x31);
            }
        }
        return Err("not an ARB1 stream".to_owned());
    }
    assert(blob@.subrange(0, 4) =~= magic());
    let orig_len: usize = read_le(blob, 4) as usize;
    let data: &[u8] = &blob[12..blob.len()];
    let mut model = BitModel::new();
    let mut dec = ArithDecoder::new(data);
    let mut out: Vec<u8> = Vec::new();
    let mut i: usize = 0;
    while i < orig_len
        invariant
            i <= orig_len,
            dec.wf(),
            dec.stream() == data@,
            probs_valid(model@),
            dec_all(data@, i as nat) == (dec@, model@, out@),
        decreases orig_len - i,
    {
        let ghost start = (dec@, model@);
        let mut ctx: usize = 1;
        let mut byte: u8 = 0;
        let mut k: u8 = 8;
        while k > 0
            invariant
                k <= 8,
                ctx < 256,
                dec.wf(),
                dec.stream() == data@,
                probs_valid(model@),
                (byte as nat) < pow2((8 - k) as nat),
                dec_bits(data@, dec@, model@, ctx as nat, byte as nat, k as nat) == dec_bits(
                    data@,
                    start.0,
                    start.1,
                    1,
                    0,
                    8,
                ),
            decreases k,
        {
            proof {
                reveal_with_fuel(pow2, 9);
            }
            let p: u16 = model.get(ctx);
            let bit: u8 = dec.decode_bit(p);
            model.update(ctx, bit);
            byte = byte * 2 + bit;
            ctx = step_ctx(ctx, bit);
            k = k - 1;
        }
        out.push(byte);
        i = i + 1;
    }
    Ok(out)
}

/// Two to the power `k`.
spec fn pow2(k: nat) -> nat
    decreases k,
{
    if k == 0 {
        1
    } else {
        2 * pow2((k - 1) as nat)
    }
}

// ---------------------------------------------------------------------------
// Losslessness
// ---------------------------------------------------------------------------

/// The number in the first `k` bytes of the stream, which reads as zeros past
/// its end.
spec fn prefix_value(data: Seq<u8>, k: nat) -> nat
    decreases k,
{
    if k == 0 {
        0
    } else {
        prefix_value(data, (k - 1) as nat) * 256 + byte_at(data, (k - 1) as nat) as nat
    }
}

/// The stream's number lies in the interval.
spec fn within(data: Seq<u8>, m: EncModel) -> bool {
    m.value <= prefix_value(data, m.bytes + 4) < m.value + m.range
}

/// The decoder mirrors the encoder: the same range, and `code` is the distance
/// of the stream's number from the interval's lower end.
spec fn lockstep(data: Seq<u8>, e: EncModel, d: DecModel) -> bool {
    &&& within(data, e)
    &&& d.range == e.range
    &&& d.code == prefix_value(data, e.bytes + 4) - e.value
    &&& d.pos == (if e.bytes + 4 <= data.len() { e.bytes + 4 } else { data.len() })
}

/// The interval lies below the first number with more digits.
spec fn bounded(m: EncModel) -> bool {
    m.value + m.range <= pow256(m.bytes + 4)
}

proof fn lemma_prefix_is_be(data: Seq<u8>, k: nat)
    requires
        k <= data.len(),
    ensures
        prefix_value(data, k) == be_value(data.take(k as int)),
    decreases k,
{
    if k > 0 {
        lemma_prefix_is_be(data, (k - 1) as nat);
        assert(data.take(k as int).drop_last() =~= data.take(k - 1));
    }
}

proof fn lemma_value_of_be_bytes(n: nat, k: nat)
    requires
        n < pow256(k),
    ensures
        be_value(be_bytes(n, k)) == n,
        be_bytes(n, k).len() == k,
    decreases k,
{
    if k > 0 {
        lemma_value_of_be_bytes(n / 256, (k - 1) as nat);
        lemma_be_push(be_bytes(n / 256, (k - 1) as nat), (n % 256) as u8);
    }
}

proof fn lemma_le_round_trip(n: nat, k: nat)
    requires
        n < pow256(k),
    ensures
        le_value(le_bytes(n, k)) == n,
        le_bytes(n, k).len() == k,
    decreases k,
{
    if k > 0 {
        lemma_le_round_trip(n / 256, (k - 1) as nat);
        assert(le_bytes(n, k).drop_first() =~= le_bytes(n / 256, (k - 1) as nat));
    }
}

proof fn lemma_renorm_within(data: Seq<u8>, m: EncModel)
    requires
        0 < m.range,
        within(data, enc_renorm(m)),
    ensures
        within(data, m),
    decreases (if m.range < TOP { TOP - m.range } else { 0 }),
{
    if m.range < TOP {
        let up = EncModel { value: m.value * 256, bytes: m.bytes + 1, range: m.range * 256 };
        lemma_renorm_within(data, up);
        assert(prefix_value(data, up.bytes + 4) == prefix_value(data, m.bytes + 4) * 256 + byte_at(
            data,
            m.bytes + 4,
        ) as nat);
    }
}

proof fn lemma_renorm_bounded(m: EncModel)
    requires
        0 < m.range,
        bounded(m),
    ensures
        bounded(enc_renorm(m)),
    decreases (if m.range < TOP { TOP - m.range } else { 0 }),
{
    if m.range < TOP {
        let up = EncModel { value: m.value * 256, bytes: m.bytes + 1, range: m.range * 256 };
        assert(pow256(up.bytes + 4) == 256 * pow256(m.bytes + 4));
        lemma_renorm_bounded(up);
    }
}

proof fn lemma_renorm_lockstep(data: Seq<u8>, e: EncModel, d: DecModel)
    requires
        0 < e.range,
        lockstep(data, e, d),
        within(data, enc_renorm(e)),
    ensures
        lockstep(data, enc_renorm(e), dec_renorm(data, d)),
    decreases (if e.range < TOP { TOP - e.range } else { 0 }),
{
    if e.range < TOP {
        let up = EncModel { value: e.value * 256, bytes: e.bytes + 1, range: e.range * 256 };
        lemma_renorm_within(data, up);
        assert(prefix_value(data, up.bytes + 4) == prefix_value(data, e.bytes + 4) * 256 + byte_at(
            data,
            e.bytes + 4,
        ) as nat);
        let du = DecModel { range: d.range * 256, ..dec_feed(data, d) };
        assert(byte_at(data, d.pos) == byte_at(data, e.bytes + 4));
        lemma_renorm_lockstep(data, up, du);
    }
}

proof fn lemma_step_within(data: Seq<u8>, m: EncModel, prob: int, bit: bool)
    requires
        enc_valid(m),
        within(data, enc_step(m, prob, bit)),
    ensures
        within(data, m),
        within(data, enc_narrow(m, prob, bit)),
{
    lemma_share(m.range, prob);
    lemma_renorm_within(data, enc_narrow(m, prob, bit));
}

/// The decoder recovers the bit and keeps mirroring the encoder.
proof fn lemma_step_lockstep(data: Seq<u8>, e: EncModel, d: DecModel, prob: int, bit: bool)
    requires
        enc_valid(e),
        lockstep(data, e, d),
        within(data, enc_step(e, prob, bit)),
    ensures
        dec_bit(d, prob) == bit,
        lockstep(data, enc_step(e, prob, bit), dec_step(data, d, prob)),
{
    lemma_share(e.range, prob);
    lemma_step_within(data, e, prob, bit);
    lemma_renorm_lockstep(data, enc_narrow(e, prob, bit), dec_narrow(d, prob));
}

proof fn lemma_bits_within(data: Seq<u8>, m: EncModel, probs: Seq<u16>, ctx: nat, byte: u8, k: nat)
    requires
        enc_valid(m),
        probs_valid(probs),
        ctx < 256,
        within(data, enc_bits(m, probs, ctx, byte, k).0),
    ensures
        within(data, m),
    decreases k,
{
    if k > 0 {
        let bit = byte_bit(byte, (k - 1) as nat);
        let p = probs[ctx as int] as int;
        lemma_enc_step_valid(m, p, bit);
        lemma_bits_within(
            data,
            enc_step(m, p, bit),
            probs_after(probs, ctx, bit),
            next_ctx(ctx, bit),
            byte,
            (k - 1) as nat,
        );
        lemma_step_within(data, m, p, bit);
    }
}

proof fn lemma_bits_bounded(m: EncModel, probs: Seq<u16>, ctx: nat, byte: u8, k: nat)
    requires
        enc_valid(m),
        bounded(m),
        probs_valid(probs),
        ctx < 256,
    ensures
        bounded(enc_bits(m, probs, ctx, byte, k).0),
    decreases k,
{
    if k > 0 {
        let bit = byte_bit(byte, (k - 1) as nat);
        let p = probs[ctx as int] as int;
        lemma_share(m.range, p);
        lemma_enc_step_valid(m, p, bit);
        lemma_renorm_bounded(enc_narrow(m, p, bit));
        lemma_bits_bounded(
            enc_step(m, p, bit),
            probs_after(probs, ctx, bit),
            next_ctx(ctx, bit),
            byte,
            (k - 1) as nat,
        );
    }
}

/// With the high bits of a byte in `acc`, the decoder appends the low ones.
proof fn lemma_bits_lockstep(
    data: Seq<u8>,
    e: EncModel,
    d: DecModel,
    probs: Seq<u16>,
    ctx: nat,
    byte: u8,
    k: nat,
)
    requires
        enc_valid(e),
        lockstep(data, e, d),
        probs_valid(probs),
        ctx < 256,
        k <= 8,
        within(data, enc_bits(e, probs, ctx, byte, k).0),
    ensures
        ({
            let acc = if k == 8 { 0nat } else { (byte >> (k as u8)) as nat };
            let (e2, probs2) = enc_bits(e, probs, ctx, byte, k);
            let (d2, dprobs2, byte2) = dec_bits(data, d, probs, ctx, acc, k);
            lockstep(data, e2, d2) && dprobs2 == probs2 && byte2 == byte as nat
        }),
    decreases k,
{
    if k == 0 {
        assert(byte >> 0u8 == byte) by (bit_vector);
    } else {
        let j = (k - 1) as nat;
        let bit = byte_bit(byte, j);
        let p = probs[ctx as int] as int;
        let e1 = enc_step(e, p, bit);
        lemma_enc_step_valid(e, p, bit);
        lemma_bits_within(data, e1, probs_after(probs, ctx, bit), next_ctx(ctx, bit), byte, j);
        lemma_step_lockstep(data, e, d, p, bit);
        lemma_bits_lockstep(
            data,
            e1,
            dec_step(data, d, p),
            probs_after(probs, ctx, bit),
            next_ctx(ctx, bit),
            byte,
            j,
        );
        let hi = k as u8;
        let lo = j as u8;
        if k == 8 {
            assert(byte >> 7u8 == (byte >> 7u8) & 1) by (bit_vector);
            assert((byte >> 7u8) & 1 == 0 || (byte >> 7u8) & 1 == 1) by (bit_vector);
        } else {
            assert((byte >> lo) == (byte >> hi) * 2 + ((byte >> lo) & 1)) by (bit_vector)
                requires
                    hi == lo + 1,
                    hi <= 7,
            ;
            assert((byte >> lo) & 1 == 0 || (byte >> lo) & 1 == 1) by (bit_vector);
        }
    }
}

/// Reading a byte of a small code moves it to the next longer prefix.
proof fn lemma_feed_prefix(data: Seq<u8>, m: DecModel, k: nat)
    requires
        m.code == prefix_value(data, k),
        m.code < 0x100_0000,
        m.pos == (if k <= data.len() { k } else { data.len() }),
    ensures
        dec_feed(data, m).code == prefix_value(data, k + 1),
        dec_feed(data, m).pos == (if k + 1 <= data.len() { k + 1 } else { data.len() }),
        dec_feed(data, m).range == m.range,
{
    assert(byte_at(data, m.pos) == byte_at(data, k));
}

proof fn lemma_start_lockstep(stream: Seq<u8>)
    requires
        within(stream, enc_start()),
    ensures
        lockstep(stream, enc_start(), dec_start(stream)),
{
    let m0 = DecModel { range: 0xFFFF_FFFF, code: 0, pos: next_pos(stream, 0) };
    let m1 = dec_feed(stream, m0);
    let m2 = dec_feed(stream, m1);
    let m3 = dec_feed(stream, m2);
    assert(prefix_value(stream, 5) == prefix_value(stream, 4) * 256 + byte_at(stream, 4) as nat);
    assert(prefix_value(stream, 4) == prefix_value(stream, 3) * 256 + byte_at(stream, 3) as nat);
    assert(prefix_value(stream, 3) == prefix_value(stream, 2) * 256 + byte_at(stream, 2) as nat);
    assert(prefix_value(stream, 2) == prefix_value(stream, 1) * 256 + byte_at(stream, 1) as nat);
    assert(prefix_value(stream, 1) == byte_at(stream, 0) as nat) by {
        assert(prefix_value(stream, 0) == 0);
    }
    lemma_feed_prefix(stream, m0, 1);
    lemma_feed_prefix(stream, m1, 2);
    lemma_feed_prefix(stream, m2, 3);
    lemma_feed_prefix(stream, m3, 4);
}

proof fn lemma_all_lockstep(stream: Seq<u8>, data: Seq<u8>)
    requires
        within(stream, enc_all(data).0),
    ensures
        ({
            let (e, probs) = enc_all(data);
            let (d, dprobs, out) = dec_all(stream, data.len());
            lockstep(stream, e, d) && dprobs == probs && out == data
        }),
    decreases data.len(),
{
    if data.len() == 0 {
        lemma_start_lockstep(stream);
        assert(dec_all(stream, 0).2 =~= data);
    } else {
        let init = data.drop_last();
        let (m, probs) = enc_all(init);
        lemma_enc_all_valid(init);
        lemma_bits_within(stream, m, probs, 1, data.last(), 8);
        lemma_all_lockstep(stream, init);
        let (d, dprobs, out) = dec_all(stream, init.len());
        lemma_bits_lockstep(stream, m, d, probs, 1, data.last(), 8);
        assert(init.push(data.last()) =~= data);
    }
}

proof fn lemma_all_bounded(data: Seq<u8>)
    ensures
        bounded(enc_all(data).0),
    decreases data.len(),
{
    if data.len() == 0 {
        reveal_with_fuel(pow256, 6);
    } else {
        let (m, probs) = enc_all(data.drop_last());
        lemma_enc_all_valid(data.drop_last());
        lemma_all_bounded(data.drop_last());
        lemma_bits_bounded(m, probs, 1, data.last(), 8);
    }
}

/// The encoder after the bits of `steps`, each with the probability that was
/// supplied for it.
pub open spec fn enc_run(steps: Seq<(u16, bool)>) -> EncModel
    decreases steps.len(),
{
    if steps.len() == 0 {
        enc_start()
    } else {
        enc_step(enc_run(steps.drop_last()), steps.last().0 as int, steps.last().1)
    }
}

/// The decoder and the bits read after one decoding step for each of `probs`.
pub open spec fn dec_run(stream: Seq<u8>, probs: Seq<u16>) -> (DecModel, Seq<bool>)
    decreases probs.len(),
{
    if probs.len() == 0 {
        (dec_start(stream), Seq::empty())
    } else {
        let (m, bits) = dec_run(stream, probs.drop_last());
        let p = probs.last() as int;
        (dec_step(stream, m, p), bits.push(dec_bit(m, p)))
    }
}

proof fn lemma_run_lockstep(stream: Seq<u8>, steps: Seq<(u16, bool)>, probs: Seq<u16>)
    requires
        within(stream, enc_run(steps)),
        probs.len() == steps.len(),
        forall|i: int| 0 <= i < steps.len() ==> #[trigger] probs[i] == steps[i].0,
    ensures
        lockstep(stream, enc_run(steps), dec_run(stream, probs).0),
        dec_run(stream, probs).1.len() == steps.len(),
        forall|i: int| 0 <= i < steps.len() ==> #[trigger] dec_run(stream, probs).1[i] == steps[i].1,
    decreases steps.len(),
{
    if steps.len() == 0 {
        lemma_start_lockstep(stream);
    } else {
        let init = steps.drop_last();
        let p = steps.last().0 as int;
        lemma_run_valid(init);
        lemma_step_within(stream, enc_run(init), p, steps.last().1);
        lemma_run_lockstep(stream, init, probs.drop_last());
        lemma_step_lockstep(
            stream,
            enc_run(init),
            dec_run(stream, probs.drop_last()).0,
            p,
            steps.last().1,
        );
        assert(probs.last() == steps.last().0);
    }
}

proof fn lemma_run_valid(steps: Seq<(u16, bool)>)
    ensures
        enc_valid(enc_run(steps)),
        bounded(enc_run(steps)),
    decreases steps.len(),
{
    if steps.len() == 0 {
        reveal_with_fuel(pow256, 6);
    } else {
        let m = enc_run(steps.drop_last());
        let p = steps.last().0 as int;
        lemma_run_valid(steps.drop_last());
        lemma_share(m.range, p);
        lemma_enc_step_valid(m, p, steps.last().1);
        lemma_renorm_bounded(enc_narrow(m, p, steps.last().1));
    }
}

/// A probability out of bounds counts as the nearest bound, for the encoder and for
/// the decoder.
pub proof fn probabilities_are_clamped(e: EncModel, data: Seq<u8>, d: DecModel, p: int, bit: bool)
    ensures
        enc_step(e, p, bit) == enc_step(e, clamp_prob(p) as int, bit),
        dec_bit(d, p) == dec_bit(d, clamp_prob(p) as int),
        dec_step(data, d, p) == dec_step(data, d, clamp_prob(p) as int),
{
}

/// The model follows the bits: a 1 never lowers the probability of its context and
/// a 0 never raises it, which stays within bounds, and every other context is left
/// as it was.
pub proof fn adaptation_follows_the_bit(probs: Seq<u16>, ctx: nat, bit: bool)
    requires
        probs_valid(probs),
        ctx < 256,
    ensures
        ({
            let after = probs_after(probs, ctx, bit);
            &&& probs_valid(after)
            &&& bit ==> after[ctx as int] >= probs[ctx as int]
            &&& !bit ==> after[ctx as int] <= probs[ctx as int]
            &&& forall|j: int| 0 <= j < 256 && j != ctx ==> #[trigger] after[j] == probs[j]
        }),
{
}

/// Encoder and decoder stay in lockstep: a decoder that is given the stream of
/// a finished encoder and the same probabilities reads the same bits.
pub proof fn bits_recovered(steps: Seq<(u16, bool)>, probs: Seq<u16>)
    requires
        probs.len() == steps.len(),
        forall|i: int| 0 <= i < steps.len() ==> #[trigger] probs[i] == steps[i].0,
    ensures
        ({
            let read = dec_run(enc_stream(enc_run(steps)), probs).1;
            read.len() == steps.len() && forall|i: int|
                0 <= i < steps.len() ==> #[trigger] read[i] == steps[i].1
        }),
{
    let m = enc_run(steps);
    let stream = enc_stream(m);
    lemma_run_valid(steps);
    lemma_value_of_be_bytes(m.value, m.bytes + 4);
    lemma_prefix_is_be(stream, m.bytes + 4);
    assert(stream.take(stream.len() as int) =~= stream);
    lemma_run_lockstep(stream, steps, probs);
}

/// Compression is lossless: what `compress_adaptive` makes of `data` is a
/// well-formed blob, and `decompress_adaptive` gives `data` back from it.
pub proof fn lossless(data: Seq<u8>)
    requires
        data.len() <= usize::MAX,
    ensures
        has_header(compressed(data)),
        decompressed(compressed(data)) == data,
{
    let blob = compressed(data);
    let header = magic() + le_bytes(data.len(), 8);
    reveal_with_fuel(pow256, 9);
    lemma_le_round_trip(data.len(), 8);
    assert(blob.subrange(0, 4) =~= magic());
    assert(blob.subrange(4, 12) =~= le_bytes(data.len(), 8));
    assert(header_len(blob) == data.len());
    if data.len() == 0 {
        assert(decompressed(blob) =~= data);
    } else {
        let m = enc_all(data).0;
        let stream = enc_stream(m);
        assert(blob.subrange(12, blob.len() as int) =~= stream);
        lemma_enc_all_valid(data);
        lemma_all_bounded(data);
        lemma_value_of_be_bytes(m.value, m.bytes + 4);
        lemma_prefix_is_be(stream, m.bytes + 4);
        assert(stream.take(stream.len() as int) =~= stream);
        lemma_all_lockstep(stream, data);
    }
}

} // verus!
