//! Building strings in a buffer of fixed size.
//!
//! Every label the interface draws is composed from numbers that are only
//! known at run time. What holds them is a fixed buffer with a length: enough
//! to render a duration, a byte count or a frequency, and nothing that can
//! grow without bound.
//!
//! Writes past the end are dropped. A truncated label is a cosmetic fault; a
//! panic in a kernel with no operating system under it stops the machine.
//!
//! The contracts speak of the bytes written: [`clip`] says what of them fits,
//! [`digits`], [`padded`] and [`fixed_point`] what a number looks like, and
//! [`duration_text`], [`bytes_text`] and [`frequency_text`] what the three
//! figures are.

use vstd::arithmetic::power::pow;
use vstd::prelude::*;

verus! {

/// The bytes of a string.
pub open spec fn utf8(s: &str) -> Seq<u8> {
    vstd::utf8::encode_utf8(s@)
}

/// The part of `bytes` that a buffer of `room` bytes keeps.
pub open spec fn clip(bytes: Seq<u8>, room: nat) -> Seq<u8> {
    if bytes.len() <= room {
        bytes
    } else {
        bytes.take(room as int)
    }
}

/// `value` in decimal, with no leading zero.
pub open spec fn digits(value: nat) -> Seq<u8>
    decreases value,
{
    if value < 10 {
        seq![(48 + value) as u8]
    } else {
        digits(value / 10).push((48 + value % 10) as u8)
    }
}

/// `count` zeros.
pub open spec fn zeros(count: int) -> Seq<u8> {
    Seq::new((if count > 0 { count } else { 0 }) as nat, |i: int| 48u8)
}

/// `value` in decimal, zero-padded on the left to at least `width` digits.
pub open spec fn padded(value: nat, width: nat) -> Seq<u8> {
    zeros(width - digits(value).len()) + digits(value)
}

/// `scaled / 10^decimals` with exactly `decimals` digits after the point, and
/// no point at all when there are none.
pub open spec fn fixed_point(scaled: nat, decimals: nat) -> Seq<u8> {
    let divisor = pow(10, decimals);
    let whole = digits((scaled as int / divisor) as nat);
    if decimals == 0 {
        whole
    } else {
        whole.push(46u8) + padded((scaled as int % divisor) as nat, decimals)
    }
}

/// What a reader sees of `bytes`: the text where they are well-formed UTF-8,
/// and a question mark where they are not.
pub open spec fn shown(bytes: Seq<u8>) -> Seq<char> {
    if vstd::utf8::valid_utf8(bytes) {
        vstd::utf8::decode_utf8(bytes)
    } else {
        "?"@
    }
}

/// Clipping early makes no difference: what was dropped stays dropped.
pub broadcast proof fn clip_absorbs(a: Seq<u8>, b: Seq<u8>, room: nat)
    ensures
        #[trigger] clip(clip(a, room) + b, room) == clip(a + b, room),
{
    assert(clip(clip(a, room) + b, room) =~= clip(a + b, room));
}

/// The same for a single byte.
pub broadcast proof fn clip_absorbs_push(a: Seq<u8>, byte: u8, room: nat)
    ensures
        #[trigger] clip(clip(a, room).push(byte), room) == clip(a.push(byte), room),
{
    assert(clip(clip(a, room).push(byte), room) =~= clip(a.push(byte), room));
}

/// Appending to an empty buffer.
pub broadcast proof fn from_nothing(a: Seq<u8>)
    ensures
        #[trigger] (Seq::<u8>::empty() + a) == a,
{
    assert(Seq::<u8>::empty() + a =~= a);
}

/// What a chain of appends to a fresh buffer comes to.
pub broadcast group group_clip {
    clip_absorbs,
    clip_absorbs_push,
    from_nothing,
}

/// A clipped string is never longer than its buffer, and a string that fits
/// is kept whole.
pub proof fn clip_fits(a: Seq<u8>, room: nat)
    ensures
        clip(a, room).len() <= room,
        a.len() <= room ==> clip(a, room) == a,
        clip(a, room).is_prefix_of(a),
{
}

/// The number of decimal digits is bounded by the power of ten above.
pub proof fn digits_len(value: nat, places: nat)
    requires
        value < pow(10, places),
        places > 0,
    ensures
        1 <= digits(value).len() <= places,
    decreases places,
{
    reveal(pow);
    if value >= 10 {
        if places == 1 {
            assert(pow(10, 1) == 10 * pow(10, 0));
            assert(pow(10, 0) == 1);
        } else {
            assert(pow(10, places) == 10 * pow(10, (places - 1) as nat));
            digits_len(value / 10, (places - 1) as nat);
        }
    }
}

/// Ten to the twentieth is more than a `u64` holds.
proof fn u64_has_at_most_twenty_digits()
    ensures
        pow(10, 20) == 100_000_000_000_000_000_000,
        pow(10, 0) == 1,
{
    reveal(pow);
    reveal_with_fuel(pow, 21);
}

/// Whether every byte is a single-byte character.
pub open spec fn is_ascii(bytes: Seq<u8>) -> bool {
    forall|i: int| 0 <= i < bytes.len() ==> bytes[i] < 128
}

/// Decimal digits are ASCII, however many there are.
pub proof fn digits_are_ascii(value: nat)
    ensures
        is_ascii(digits(value)),
        forall|i: int|
            0 <= i < digits(value).len() ==> 48 <= #[trigger] digits(value)[i] <= 57,
    decreases value,
{
    if value >= 10 {
        digits_are_ascii(value / 10);
    }
}

/// A padded number has at least the width it was asked for, and is the number
/// alone where that is wide enough already.
pub proof fn padded_is_at_least_as_wide(value: nat, width: nat)
    ensures
        padded(value, width).len() >= width,
        digits(value).len() >= width ==> padded(value, width) == digits(value),
        digits(value).len() < width ==> padded(value, width).len() == width,
{
    assert(digits(value).len() >= width ==> padded(value, width) =~= digits(value));
}

/// `core::str::from_utf8`: the bytes as text where they are well-formed UTF-8,
/// and nothing where they are not.
#[verifier::external_body]
pub(crate) fn text_of(bytes: &[u8]) -> (r: Option<&str>)
    ensures
        r is Some <==> vstd::utf8::valid_utf8(bytes@),
        r matches Some(s) ==> s@ == vstd::utf8::decode_utf8(bytes@),
{
    core::str::from_utf8(bytes).ok()
}

/// `bytes` as text, or a question mark where they are not well-formed UTF-8.
pub fn readable(bytes: &[u8]) -> (r: &str)
    ensures
        r@ == shown(bytes@),
{
    match text_of(bytes) {
        Some(s) => s,
        None => "?",
    }
}

/// Whether two strings are the same.
pub fn same(a: &str, b: &str) -> (r: bool)
    ensures
        r == (a@ == b@),
{
    let (left, right): (&[u8], &[u8]) = (a.as_bytes(), b.as_bytes());
    proof {
        vstd::utf8::encode_utf8_decode_utf8(a@);
        vstd::utf8::encode_utf8_decode_utf8(b@);
    }
    if left.len() != right.len() {
        return false;
    }
    let mut i: usize = 0;
    while i < left.len()
        invariant
            i <= left@.len() == right@.len(),
            left@ == utf8(a) && right@ == utf8(b),
            forall|k: int| 0 <= k < i ==> left@[k] == right@[k],
        decreases left@.len() - i,
    {
        if left[i] != right[i] {
            return false;
        }
        i += 1;
    }
    assert(left@ =~= right@);
    true
}

/// Ten to the power of `exponent`.
fn ten_to(exponent: usize) -> (r: u64)
    requires
        exponent < 20,
    ensures
        r == pow(10, exponent as nat),
{
    let mut r: u64 = 1;
    let mut k: usize = 0;
    proof {
        reveal(pow);
    }
    while k < exponent
        invariant
            k <= exponent < 20,
            r == pow(10, k as nat),
        decreases exponent - k,
    {
        proof {
            reveal(pow);
            vstd::arithmetic::power::lemma_pow_increases(10, (k + 1) as nat, 19);
            reveal_with_fuel(pow, 20);
            assert(pow(10, 19) == 10_000_000_000_000_000_000);
            assert(pow(10, (k + 1) as nat) == 10 * pow(10, k as nat));
        }
        r = r * 10;
        k += 1;
    }
    r
}

/// A string of at most `N` bytes.
pub struct Text<const N: usize> {
    buf: [u8; N],
    len: usize,
}

impl<const N: usize> View for Text<N> {
    type V = Seq<u8>;

    closed spec fn view(&self) -> Seq<u8> {
        self.buf@.take(self.len as int)
    }
}

impl<const N: usize> Default for Text<N> {
    fn default() -> (r: Text<N>)
        ensures
            r@ == Seq::<u8>::empty(),
    {
        Text::new()
    }
}

impl<const N: usize> Text<N> {
    #[verifier::type_invariant]
    spec fn within(self) -> bool {
        self.len <= N
    }

    /// A buffer with nothing in it.
    pub fn new() -> (r: Text<N>)
        ensures
            r@ == Seq::<u8>::empty(),
    {
        Text { buf: [0u8; N], len: 0 }
    }

    /// Forgets what was written.
    pub fn clear(&mut self)
        ensures
            final(self)@ == Seq::<u8>::empty(),
    {
        self.len = 0;
    }

    /// How many bytes have been written.
    pub fn len(&self) -> (r: usize)
        ensures
            r == self@.len(),
            r <= N,
    {
        proof {
            use_type_invariant(self);
        }
        self.len
    }

    /// Whether nothing has been written.
    pub fn is_empty(&self) -> (r: bool)
        ensures
            r == (self@.len() == 0),
    {
        proof {
            use_type_invariant(self);
        }
        self.len == 0
    }

    /// Whether another `bytes` would fit without being silently dropped.
    ///
    /// [`push`](Self::push) discards past the end, which is right for a kernel
    /// and wrong to rely on: a caller building a list wants to stop at a whole
    /// entry, not half of one.
    pub fn has_room_for(&self, bytes: usize) -> (r: bool)
        ensures
            r == (self@.len() + bytes <= N),
    {
        proof {
            use_type_invariant(self);
        }
        bytes <= N - self.len
    }

    /// Appends one byte, if there is room for it.
    pub fn push(&mut self, byte: u8) -> (r: &mut Self)
        ensures
            r@ == clip(old(self)@.push(byte), N as nat),
            *final(self) == *final(r),
    {
        proof {
            use_type_invariant(&*self);
        }
        if self.len < N {
            self.buf[self.len] = byte;
            self.len += 1;
        }
        assert(self@ =~= clip(old(self)@.push(byte), N as nat));
        self
    }

    /// Appends as much of `s` as there is room for.
    pub fn str(&mut self, s: &str) -> (r: &mut Self)
        ensures
            r@ == clip(old(self)@ + utf8(s), N as nat),
            *final(self) == *final(r),
    {
        let bytes: &[u8] = s.as_bytes();
        let mut i: usize = 0;
        proof {
            use_type_invariant(&*self);
            assert(old(self)@ + bytes@.take(0) =~= old(self)@);
        }
        while i < bytes.len()
            invariant
                i <= bytes@.len(),
                self@ == clip(old(self)@ + bytes@.take(i as int), N as nat),
            decreases bytes@.len() - i,
        {
            self.push(bytes[i]);
            proof {
                let so_far = old(self)@ + bytes@.take(i as int);
                assert(so_far.push(bytes@[i as int]) =~= old(self)@ + bytes@.take(i + 1));
                clip_absorbs_push(so_far, bytes@[i as int], N as nat);
            }
            i += 1;
        }
        assert(bytes@.take(i as int) =~= bytes@);
        self
    }

    /// Appends a decimal number.
    pub fn num(&mut self, value: u64) -> (r: &mut Self)
        ensures
            r@ == clip(old(self)@ + digits(value as nat), N as nat),
            *final(self) == *final(r),
    {
        proof {
            digits_at_least_one(value as nat);
            padded_is_at_least_as_wide(value as nat, 1);
        }
        self.pad(value, 1)
    }

    /// Appends a decimal number, zero-padded to at least `width` digits.
    ///
    /// Built backwards into a scratch array and reversed, because division
    /// yields the least significant digit first. Twenty digits covers `u64`.
    pub fn pad(&mut self, value: u64, width: usize) -> (r: &mut Self)
        ensures
            r@ == clip(old(self)@ + padded(value as nat, width as nat), N as nat),
            *final(self) == *final(r),
    {
        let mut scratch: [u8; 20] = [0u8; 20];
        let mut count: usize = 1;
        let mut rest: u64 = value / 10;
        scratch[0] = 48 + (value % 10) as u8;
        proof {
            u64_has_at_most_twenty_digits();
            reveal(pow);
            assert(pow(10, 20) == 10 * pow(10, 19));
            assert(backwards(scratch@, 1) =~= seq![(48 + value % 10) as u8]);
            if value >= 10 {
                assert(digits(value as nat) =~= digits(rest as nat) + backwards(scratch@, 1));
            }
        }
        while rest != 0
            invariant
                1 <= count <= 20,
                rest < pow(10, (20 - count) as nat),
                pow(10, 0) == 1,
                digits(value as nat) == if rest == 0 {
                    backwards(scratch@, count as int)
                } else {
                    digits(rest as nat) + backwards(scratch@, count as int)
                },
            decreases rest,
        {
            let ghost before = scratch@;
            let ghost was = rest;
            scratch[count] = 48 + (rest % 10) as u8;
            rest = rest / 10;
            count += 1;
            proof {
                reveal(pow);
                assert(pow(10, (21 - count) as nat) == 10 * pow(10, (20 - count) as nat));
                assert(backwards(scratch@, count as int) =~= seq![(48 + was % 10) as u8]
                    + backwards(before, count - 1));
                if rest == 0 {
                    assert(digits(was as nat) =~= seq![(48 + was % 10) as u8]);
                } else {
                    assert(digits(was as nat) =~= digits(rest as nat).push(
                        (48 + was % 10) as u8,
                    ));
                }
                assert(digits(value as nat) =~= if rest == 0 {
                    backwards(scratch@, count as int)
                } else {
                    digits(rest as nat) + backwards(scratch@, count as int)
                });
            }
        }
        let ghost start = self@;
        let mut written: usize = count;
        proof {
            assert(start + zeros(0) =~= start);
            use_type_invariant(&*self);
        }
        while written < width
            invariant
                written >= count,
                written <= width || written == count,
                self@ == clip(start + zeros(written - count), N as nat),
            decreases width - written,
        {
            let ghost had = start + zeros(written - count);
            self.push(48);
            proof {
                assert(had.push(48u8) =~= start + zeros(written + 1 - count));
                clip_absorbs_push(had, 48u8, N as nat);
            }
            written += 1;
        }
        let ghost front = start + zeros(width - count);
        proof {
            assert(start + zeros(written - count) =~= front);
            assert(front + Seq::<u8>::empty() =~= front);
        }
        let mut left: usize = count;
        let ghost all = backwards(scratch@, count as int);
        proof {
            assert(all.take(0) =~= Seq::<u8>::empty());
        }
        while left > 0
            invariant
                left <= count <= 20,
                all == backwards(scratch@, count as int),
                self@ == clip(front + all.take(count - left), N as nat),
            decreases left,
        {
            left -= 1;
            let ghost had = front + all.take(count - left - 1);
            let ghost byte = scratch@[left as int];
            self.push(scratch[left]);
            proof {
                assert(all[count - left - 1] == byte);
                assert(had.push(byte) =~= front + all.take(count - left));
                clip_absorbs_push(had, byte, N as nat);
            }
        }
        proof {
            assert(all.take(count as int) =~= digits(value as nat));
            assert(front + digits(value as nat) =~= start + padded(value as nat, width as nat));
        }
        self
    }

    /// Appends a number with `decimals` digits after a point, given a value
    /// already scaled by `10^decimals`.
    ///
    /// Fixed point rather than floating: a ratio worked out in integers cannot
    /// be a shade wrong in the last place.
    pub fn fixed(&mut self, scaled: u64, decimals: usize) -> (r: &mut Self)
        requires
            decimals < 20,
        ensures
            r@ == clip(old(self)@ + fixed_point(scaled as nat, decimals as nat), N as nat),
            *final(self) == *final(r),
    {
        let divisor: u64 = ten_to(decimals);
        proof {
            vstd::arithmetic::power::lemma_pow_positive(10, decimals as nat);
        }
        let ghost start = self@;
        let ghost whole = digits((scaled / divisor) as nat);
        self.num(scaled / divisor);
        if decimals > 0 {
            self.push(46);
            self.pad(scaled % divisor, decimals);
            proof {
                let part = padded((scaled % divisor) as nat, decimals as nat);
                clip_absorbs_push(start + whole, 46u8, N as nat);
                clip_absorbs((start + whole).push(46u8), part, N as nat);
                assert((start + whole).push(46u8) + part =~= start + fixed_point(
                    scaled as nat,
                    decimals as nat,
                ));
            }
        }
        self
    }

    /// What was written, as bytes.
    pub fn as_bytes(&self) -> (r: &[u8])
        ensures
            r@ == self@,
    {
        proof {
            use_type_invariant(self);
        }
        vstd::slice::slice_subrange(self.buf.as_slice(), 0, self.len)
    }

    /// What was written, as text.
    pub fn as_str(&self) -> (r: &str)
        ensures
            r@ == shown(self@),
    {
        readable(self.as_bytes())
    }
}

/// What a duration of `ns` nanoseconds looks like: `hh:mm:ss:mmm`, and
/// `:uuu:nnn` after it where the nanoseconds are asked for.
pub open spec fn duration_text(ns: nat, nanoseconds: bool) -> Seq<u8> {
    let seconds = ns / 1_000_000_000;
    let fraction = ns % 1_000_000_000;
    let clock = (padded(seconds / 3600, 2).push(58u8) + padded(seconds / 60 % 60, 2)).push(58u8)
        + padded(seconds % 60, 2);
    let coarse = clock.push(58u8) + padded(fraction / 1_000_000, 3);
    if nanoseconds {
        (coarse.push(58u8) + padded(fraction / 1_000 % 1_000, 3)).push(58u8) + padded(
            fraction % 1_000,
            3,
        )
    } else {
        coarse
    }
}

/// A duration as `hh:mm:ss:mmm:uuu:nnn`.
///
/// Colons all the way down, rather than a decimal point and nine run-together
/// digits: the milliseconds, microseconds and nanoseconds each get a field of
/// their own.
pub fn duration(ns: u64, nanoseconds: bool) -> (r: Text<24>)
    ensures
        r@ == clip(duration_text(ns as nat, nanoseconds), 24),
{
    broadcast use group_clip;

    let mut out: Text<24> = Text::new();
    let seconds: u64 = ns / 1_000_000_000;
    let fraction: u64 = ns % 1_000_000_000;
    out.pad(seconds / 3600, 2)
        .push(58)
        .pad(seconds / 60 % 60, 2)
        .push(58)
        .pad(seconds % 60, 2)
        .push(58)
        .pad(fraction / 1_000_000, 3);
    if nanoseconds {
        out.push(58).pad(fraction / 1_000 % 1_000, 3).push(58).pad(fraction % 1_000, 3);
    }
    out
}

/// 1024 to the power of `unit`, for the five units there are.
pub open spec fn unit_size(unit: int) -> nat {
    if unit <= 0 {
        1
    } else if unit == 1 {
        1024
    } else if unit == 2 {
        1_048_576
    } else if unit == 3 {
        1_073_741_824
    } else {
        1_099_511_627_776
    }
}

/// The name of the unit of [`unit_size`].
pub open spec fn unit_name(unit: int) -> Seq<u8> {
    if unit <= 0 {
        utf8("B")
    } else if unit == 1 {
        utf8("KB")
    } else if unit == 2 {
        utf8("MB")
    } else if unit == 3 {
        utf8("GB")
    } else {
        utf8("TB")
    }
}

/// The largest unit that `value` fills at least once; terabytes at most.
pub open spec fn unit_of(value: nat) -> int {
    if value < unit_size(1) {
        0
    } else if value < unit_size(2) {
        1
    } else if value < unit_size(3) {
        2
    } else if value < unit_size(4) {
        3
    } else {
        4
    }
}

/// What a byte count looks like: one decimal below a hundred of its unit, none
/// from there on, and none for plain bytes.
pub open spec fn bytes_text(value: nat) -> Seq<u8> {
    let unit = unit_of(value);
    let tenths = value * 10 / unit_size(unit);
    if unit == 0 {
        digits(value) + utf8(" B")
    } else if tenths < 1000 {
        fixed_point(tenths, 1).push(32u8) + unit_name(unit)
    } else {
        digits(tenths / 10).push(32u8) + unit_name(unit)
    }
}

/// A byte count as a human-sized figure: `2.9 MB`, `31.7 GB`.
///
/// Powers of 1024 with the short unit names, which is what a person reading a
/// status bar expects to see.
pub fn bytes(value: u64) -> (r: Text<16>)
    ensures
        r@ == clip(bytes_text(value as nat), 16),
{
    broadcast use group_clip;

    let mut out: Text<16> = Text::new();
    let mut unit: usize = 0;
    let mut scaled: u64 = value;
    let mut divisor: u64 = 1;
    while scaled >= 1024 && unit < 4
        invariant
            unit <= 4,
            divisor == unit_size(unit as int),
            scaled == value / divisor,
            forall|u: int| 1 <= u <= unit ==> value >= #[trigger] unit_size(u),
        decreases 4 - unit,
    {
        proof {
            vstd::arithmetic::div_mod::lemma_div_denominator(value as int, divisor as int, 1024);
            vstd::arithmetic::div_mod::lemma_fundamental_div_mod(value as int, divisor as int);
            assert(divisor * (value as int / divisor as int) >= divisor * 1024)
                by (nonlinear_arith)
                requires
                    value as int / divisor as int >= 1024,
                    divisor >= 1,
            ;
        }
        scaled = scaled / 1024;
        unit += 1;
        divisor = divisor * 1024;
    }
    proof {
        if unit < 4 {
            vstd::arithmetic::div_mod::lemma_fundamental_div_mod(value as int, divisor as int);
            assert(divisor * (value as int / divisor as int) <= divisor * 1023)
                by (nonlinear_arith)
                requires
                    value as int / divisor as int <= 1023,
                    divisor >= 1,
            ;
            assert(value < unit_size(unit + 1));
        }
        assert(unit >= 1 ==> value >= unit_size(unit as int));
        assert(unit == unit_of(value as nat));
    }
    if unit == 0 {
        out.num(value).str(" B");
        return out;
    }
    // Recomputed from the original value rather than from the truncated one,
    // so the tenth is the real tenth.
    let exact: u128 = value as u128 * 10 / divisor as u128;
    proof {
        let ten = value as int * 10;
        assert(ten / divisor as int <= ten / 1024) by (nonlinear_arith)
            requires
                divisor >= 1024,
                ten >= 0,
        ;
    }
    let tenths: u64 = exact as u64;
    if tenths < 1000 {
        out.fixed(tenths, 1);
    } else {
        out.num(tenths / 10);
    }
    let name: &str = if unit == 1 {
        "KB"
    } else if unit == 2 {
        "MB"
    } else if unit == 3 {
        "GB"
    } else {
        "TB"
    };
    out.push(32).str(name);
    out
}

/// What a frequency looks like: three decimals of a gigahertz, of a megahertz
/// below one, and plain hertz below a megahertz.
pub open spec fn frequency_text(hz: nat) -> Seq<u8> {
    if hz >= 1_000_000_000 {
        fixed_point(hz / 1_000_000, 3) + utf8(" GHz")
    } else if hz >= 1_000_000 {
        fixed_point(hz / 1_000, 3) + utf8(" MHz")
    } else {
        digits(hz) + utf8(" Hz")
    }
}

/// A frequency in hertz as `2.418 GHz`, or megahertz below a gigahertz.
pub fn frequency(hz: u64) -> (r: Text<16>)
    ensures
        r@ == clip(frequency_text(hz as nat), 16),
{
    broadcast use group_clip;

    let mut out: Text<16> = Text::new();
    if hz >= 1_000_000_000 {
        out.fixed(hz / 1_000_000, 3).str(" GHz");
    } else if hz >= 1_000_000 {
        out.fixed(hz / 1_000, 3).str(" MHz");
    } else {
        out.num(hz).str(" Hz");
    }
    out
}

/// ASCII bytes are shown as themselves, one character each.
pub proof fn ascii_is_shown_as_it_is(bytes: Seq<u8>)
    requires
        is_ascii(bytes),
    ensures
        shown(bytes) == Seq::new(bytes.len(), |i: int| bytes[i] as char),
        vstd::utf8::encode_utf8(shown(bytes)) == bytes,
{
    let chars = Seq::new(bytes.len(), |i: int| bytes[i] as char);
    assert(vstd::utf8::is_ascii_chars(chars));
    vstd::utf8::is_ascii_chars_encode_utf8(chars);
    assert(vstd::utf8::encode_utf8(chars) =~= bytes);
    vstd::utf8::encode_utf8_valid_utf8(chars);
    vstd::utf8::encode_utf8_decode_utf8(chars);
}

/// A number has one digit below ten and at least two from there.
pub proof fn digits_are_two(value: nat)
    ensures
        value < 10 ==> digits(value).len() == 1 && padded(value, 2) == seq![48u8] + digits(value),
        value >= 10 ==> digits(value).len() >= 2 && padded(value, 2) == digits(value),
{
    if value >= 10 {
        digits_at_least_one(value / 10);
        assert(padded(value, 2) =~= digits(value));
    } else {
        assert(padded(value, 2) =~= seq![48u8] + digits(value));
    }
}

/// Every number has a digit.
proof fn digits_at_least_one(value: nat)
    ensures
        digits(value).len() >= 1,
{
}

/// A padded number is ASCII.
pub proof fn padded_is_ascii(value: nat, width: nat)
    ensures
        is_ascii(padded(value, width)),
{
    digits_are_ascii(value);
}

/// A number below `10^width` padded to `width` is exactly that wide.
proof fn padded_is_exact(value: nat, width: nat)
    requires
        value < pow(10, width),
        width > 0,
    ensures
        padded(value, width).len() == width,
{
    digits_len(value, width);
}

/// A duration under a hundred hours fills its fields exactly, so it fits its
/// buffer whole and every reading has the same length.
pub proof fn duration_fits(ns: nat)
    requires
        ns < 360_000_000_000_000,
    ensures
        duration_text(ns, true).len() == 20,
        duration_text(ns, false).len() == 12,
        clip(duration_text(ns, true), 24) == duration_text(ns, true),
        clip(duration_text(ns, false), 24) == duration_text(ns, false),
        duration_text(ns, false) == duration_text(ns, true).take(12),
{
    reveal(pow);
    reveal_with_fuel(pow, 4);
    let seconds = ns / 1_000_000_000;
    let fraction = ns % 1_000_000_000;
    padded_is_exact(seconds / 3600, 2);
    padded_is_exact(seconds / 60 % 60, 2);
    padded_is_exact(seconds % 60, 2);
    padded_is_exact(fraction / 1_000_000, 3);
    padded_is_exact(fraction / 1_000 % 1_000, 3);
    padded_is_exact(fraction % 1_000, 3);
    assert(duration_text(ns, false) =~= duration_text(ns, true).take(12));
}

/// Everything the figures write is ASCII, so a reader sees every byte of it.
pub proof fn figures_are_ascii(value: nat, nanoseconds: bool)
    ensures
        is_ascii(duration_text(value, nanoseconds)),
        is_ascii(bytes_text(value)),
        is_ascii(frequency_text(value)),
{
    literals_are_ascii();
    let seconds = value / 1_000_000_000;
    let fraction = value % 1_000_000_000;
    padded_is_ascii(seconds / 3600, 2);
    padded_is_ascii(seconds / 60 % 60, 2);
    padded_is_ascii(seconds % 60, 2);
    padded_is_ascii(fraction / 1_000_000, 3);
    padded_is_ascii(fraction / 1_000 % 1_000, 3);
    padded_is_ascii(fraction % 1_000, 3);
    let tenths = value * 10 / unit_size(unit_of(value));
    digits_are_ascii(value);
    digits_are_ascii(tenths / 10);
    fixed_point_is_ascii(tenths, 1);
    fixed_point_is_ascii(value / 1_000_000, 3);
    fixed_point_is_ascii(value / 1_000, 3);
}

/// A fixed-point number is ASCII.
pub proof fn fixed_point_is_ascii(scaled: nat, decimals: nat)
    ensures
        is_ascii(fixed_point(scaled, decimals)),
{
    let divisor = pow(10, decimals);
    digits_are_ascii((scaled as int / divisor) as nat);
    padded_is_ascii((scaled as int % divisor) as nat, decimals);
}

/// The unit names are ASCII.
proof fn literals_are_ascii()
    ensures
        is_ascii(utf8(" B")),
        is_ascii(utf8(" Hz")),
        is_ascii(utf8(" MHz")),
        is_ascii(utf8(" GHz")),
        forall|unit: int| is_ascii(#[trigger] unit_name(unit)),
{
    reveal_strlit("B");
    reveal_strlit("KB");
    reveal_strlit("MB");
    reveal_strlit("GB");
    reveal_strlit("TB");
    reveal_strlit(" B");
    reveal_strlit(" Hz");
    reveal_strlit(" MHz");
    reveal_strlit(" GHz");
    broadcast use vstd::utf8::is_ascii_chars_encode_utf8;

    assert(vstd::utf8::is_ascii_chars("B"@));
    assert(vstd::utf8::is_ascii_chars("KB"@));
    assert(vstd::utf8::is_ascii_chars("MB"@));
    assert(vstd::utf8::is_ascii_chars("GB"@));
    assert(vstd::utf8::is_ascii_chars("TB"@));
    assert(vstd::utf8::is_ascii_chars(" B"@));
    assert(vstd::utf8::is_ascii_chars(" Hz"@));
    assert(vstd::utf8::is_ascii_chars(" MHz"@));
    assert(vstd::utf8::is_ascii_chars(" GHz"@));
}

/// The first `count` bytes of `s`, last first.
spec fn backwards(s: Seq<u8>, count: int) -> Seq<u8> {
    Seq::new(count as nat, |i: int| s[count - 1 - i])
}

/// The number a run of decimal digits stands for.
pub open spec fn number_in(bytes: Seq<u8>) -> int
    decreases bytes.len(),
{
    if bytes.len() == 0 {
        0
    } else {
        number_in(bytes.drop_last()) * 10 + (bytes.last() - 48)
    }
}

/// Digits stand for the number they were made of, and so do padded ones: no
/// two numbers look the same.
pub proof fn digits_stand_for_their_number(value: nat, width: nat)
    ensures
        number_in(digits(value)) == value,
        number_in(padded(value, width)) == value,
{
    digits_say(value);
    let pad = width - digits(value).len();
    if pad > 0 {
        zeros_say_nothing(zeros(pad), digits(value));
    }
    assert(pad <= 0 ==> padded(value, width) =~= digits(value));
}

proof fn digits_say(value: nat)
    ensures
        number_in(digits(value)) == value,
    decreases value,
{
    if value >= 10 {
        digits_say(value / 10);
        assert(digits(value).drop_last() =~= digits(value / 10));
    } else {
        assert(digits(value).drop_last() =~= Seq::<u8>::empty());
        assert(number_in(Seq::<u8>::empty()) == 0);
    }
}

proof fn zeros_say_nothing(front: Seq<u8>, bytes: Seq<u8>)
    requires
        forall|i: int| 0 <= i < front.len() ==> front[i] == 48,
    ensures
        number_in(front + bytes) == number_in(bytes),
    decreases front.len() + bytes.len(),
{
    let all = front + bytes;
    if bytes.len() > 0 {
        assert(all.drop_last() =~= front + bytes.drop_last());
        zeros_say_nothing(front, bytes.drop_last());
    } else if front.len() > 0 {
        assert(all.drop_last() =~= front.drop_last() + bytes);
        zeros_say_nothing(front.drop_last(), bytes);
    }
}

/// Equal strings with tails of one length have equal tails.
proof fn tails_agree(a: Seq<u8>, b: Seq<u8>, tail_a: Seq<u8>, tail_b: Seq<u8>)
    requires
        a + tail_a == b + tail_b,
        tail_a.len() == tail_b.len(),
    ensures
        a == b,
        tail_a == tail_b,
{
    assert((a + tail_a).len() == a.len() + tail_a.len());
    assert((b + tail_b).len() == b.len() + tail_b.len());
    assert forall|i: int| 0 <= i < a.len() implies a[i] == b[i] by {
        assert((a + tail_a)[i] == a[i]);
        assert((b + tail_b)[i] == b[i]);
    }
    assert(a =~= b);
    assert forall|i: int| 0 <= i < tail_a.len() implies tail_a[i] == tail_b[i] by {
        assert((a + tail_a)[a.len() + i] == tail_a[i]);
        assert((b + tail_b)[a.len() + i] == tail_b[i]);
    }
    assert(tail_a =~= tail_b);
}

/// One field fewer: strings that end in a colon and a field are equal only if
/// what comes before is, and the fields are.
proof fn fields_agree(a: Seq<u8>, b: Seq<u8>, x: nat, y: nat, width: nat)
    requires
        a.push(58u8) + padded(x, width) == b.push(58u8) + padded(y, width),
        x < pow(10, width),
        y < pow(10, width),
        width > 0,
    ensures
        a == b,
        x == y,
{
    padded_is_exact(x, width);
    padded_is_exact(y, width);
    tails_agree(a.push(58u8), b.push(58u8), padded(x, width), padded(y, width));
    digits_stand_for_their_number(x, width);
    digits_stand_for_their_number(y, width);
    assert(a =~= a.push(58u8).drop_last());
    assert(b =~= b.push(58u8).drop_last());
}

/// No two durations look the same at full precision.
pub proof fn durations_differ(a: nat, b: nat)
    requires
        duration_text(a, true) == duration_text(b, true),
    ensures
        a == b,
{
    reveal(pow);
    reveal_with_fuel(pow, 4);
    let (sa, sb) = (a / 1_000_000_000, b / 1_000_000_000);
    let (fa, fb) = (a % 1_000_000_000, b % 1_000_000_000);
    let (ha, hb) = (padded(sa / 3600, 2), padded(sb / 3600, 2));
    let ma = ha.push(58u8) + padded(sa / 60 % 60, 2);
    let mb = hb.push(58u8) + padded(sb / 60 % 60, 2);
    let ta = ma.push(58u8) + padded(sa % 60, 2);
    let tb = mb.push(58u8) + padded(sb % 60, 2);
    let ca = ta.push(58u8) + padded(fa / 1_000_000, 3);
    let cb = tb.push(58u8) + padded(fb / 1_000_000, 3);
    let ua = ca.push(58u8) + padded(fa / 1_000 % 1_000, 3);
    let ub = cb.push(58u8) + padded(fb / 1_000 % 1_000, 3);
    fields_agree(ua, ub, fa % 1_000, fb % 1_000, 3);
    fields_agree(ca, cb, fa / 1_000 % 1_000, fb / 1_000 % 1_000, 3);
    fields_agree(ta, tb, fa / 1_000_000, fb / 1_000_000, 3);
    fields_agree(ma, mb, sa % 60, sb % 60, 2);
    fields_agree(ha, hb, sa / 60 % 60, sb / 60 % 60, 2);
    digits_stand_for_their_number(sa / 3600, 2);
    digits_stand_for_their_number(sb / 3600, 2);
}

/// Digits put together stand for the first number, moved up by as many places
/// as the second has digits, and the second.
pub proof fn numbers_join(a: Seq<u8>, b: Seq<u8>)
    ensures
        number_in(a + b) == number_in(a) * pow(10, b.len()) + number_in(b),
    decreases b.len(),
{
    reveal(pow);
    if b.len() == 0 {
        assert(a + b =~= a);
    } else {
        let c = b.drop_last();
        numbers_join(a, c);
        assert((a + b).drop_last() =~= a + c);
        assert(pow(10, b.len()) == 10 * pow(10, c.len()));
        assert((number_in(a) * pow(10, c.len()) + number_in(c)) * 10 == number_in(a) * (10 * pow(
            10,
            c.len(),
        )) + number_in(c) * 10) by (nonlinear_arith);
    }
}

/// A number starts with no zero, unless it is zero.
pub proof fn digits_do_not_start_with_zero(value: nat)
    ensures
        value > 0 ==> digits(value)[0] != 48,
        value == 0 ==> digits(value) == seq![48u8],
    decreases value,
{
    if value >= 10 {
        digits_do_not_start_with_zero(value / 10);
        digits_at_least_one(value / 10);
    }
}

/// A fixed-point figure has a point and exactly so many digits after it, at
/// least one before it, and without the point it reads as the scaled value.
pub proof fn a_fixed_point_reads_back(scaled: nat, decimals: nat)
    ensures
        decimals == 0 ==> number_in(fixed_point(scaled, 0)) == scaled,
        decimals > 0 ==> {
            let text = fixed_point(scaled, decimals);
            let point = text.len() - decimals - 1;
            &&& point >= 1
            &&& text[point] == 46
            &&& number_in(text.take(point) + text.skip(point + 1)) == scaled
            &&& number_in(text.take(point)) == scaled as int / pow(10, decimals)
        },
{
    reveal(pow);
    let divisor = pow(10, decimals);
    vstd::arithmetic::power::lemma_pow_positive(10, decimals);
    let whole = (scaled as int / divisor) as nat;
    let part = (scaled as int % divisor) as nat;
    vstd::arithmetic::div_mod::lemma_fundamental_div_mod(scaled as int, divisor);
    vstd::arithmetic::div_mod::lemma_mod_bound(scaled as int, divisor);
    vstd::arithmetic::div_mod::lemma_div_pos_is_pos(scaled as int, divisor);
    digits_stand_for_their_number(whole, 0);
    digits_at_least_one(whole);
    if decimals > 0 {
        padded_is_exact(part, decimals);
        digits_stand_for_their_number(part, decimals);
        let text = fixed_point(scaled, decimals);
        let point = text.len() - decimals - 1;
        assert(text.take(point) =~= digits(whole));
        assert(text.skip(point + 1) =~= padded(part, decimals));
        numbers_join(digits(whole), padded(part, decimals));
        assert(divisor * whole == whole * divisor) by (nonlinear_arith);
    } else {
        assert(divisor == 1);
        digits_stand_for_their_number(scaled, 0);
    }
}

/// A duration reads back: the fields between its colons, from hours to
/// nanoseconds, add up to it, and each is below where the next would carry. The
/// shorter form leaves the last two out.
pub proof fn a_duration_reads_back(ns: nat)
    ensures
        ({
            let text = duration_text(ns, true);
            let n = text.len() - 20;
            let hours = number_in(text.take(n + 2));
            let minutes = number_in(text.subrange(n + 3, n + 5));
            let seconds = number_in(text.subrange(n + 6, n + 8));
            let milli = number_in(text.subrange(n + 9, n + 12));
            let micro = number_in(text.subrange(n + 13, n + 16));
            let nano = number_in(text.subrange(n + 17, n + 20));
            &&& n >= 0
            &&& text[n + 2] == 58 && text[n + 5] == 58 && text[n + 8] == 58 && text[n + 12] == 58
                && text[n + 16] == 58
            &&& minutes < 60 && seconds < 60 && milli < 1000 && micro < 1000 && nano < 1000
            &&& ns == ((((hours * 60 + minutes) * 60 + seconds) * 1000 + milli) * 1000 + micro)
                * 1000 + nano
            &&& duration_text(ns, false) == text.take(n + 12)
        }),
{
    reveal(pow);
    reveal_with_fuel(pow, 4);
    let s = ns / 1_000_000_000;
    let f = ns % 1_000_000_000;
    let text = duration_text(ns, true);
    let hours = padded(s / 3600, 2);
    padded_is_at_least_as_wide(s / 3600, 2);
    padded_is_exact(s / 60 % 60, 2);
    padded_is_exact(s % 60, 2);
    padded_is_exact(f / 1_000_000, 3);
    padded_is_exact(f / 1_000 % 1_000, 3);
    padded_is_exact(f % 1_000, 3);
    digits_stand_for_their_number(s / 3600, 2);
    digits_stand_for_their_number(s / 60 % 60, 2);
    digits_stand_for_their_number(s % 60, 2);
    digits_stand_for_their_number(f / 1_000_000, 3);
    digits_stand_for_their_number(f / 1_000 % 1_000, 3);
    digits_stand_for_their_number(f % 1_000, 3);
    let n = text.len() - 20;
    assert(text.take(n + 2) =~= hours);
    assert(text.subrange(n + 3, n + 5) =~= padded(s / 60 % 60, 2));
    assert(text.subrange(n + 6, n + 8) =~= padded(s % 60, 2));
    assert(text.subrange(n + 9, n + 12) =~= padded(f / 1_000_000, 3));
    assert(text.subrange(n + 13, n + 16) =~= padded(f / 1_000 % 1_000, 3));
    assert(text.subrange(n + 17, n + 20) =~= padded(f % 1_000, 3));
    assert(duration_text(ns, false) =~= text.take(n + 12));
    assert(s == (s / 3600 * 60 + s / 60 % 60) * 60 + s % 60);
    assert(f == (f / 1_000_000 * 1000 + f / 1_000 % 1_000) * 1000 + f % 1_000);
}

/// A figure in a unit: the unit's name after a space, and before it the value in
/// that unit, rounded down, to one decimal below a hundred and to none from
/// there on.
pub open spec fn is_figure(text: Seq<u8>, value: nat, size: nat, unit: &str) -> bool {
    let name = utf8(unit);
    let end = text.len() - name.len() - 1;
    let figure = text.take(end);
    &&& end >= 1
    &&& text[end] == 32
    &&& text.skip(end + 1) == name
    &&& value < 100 * size ==> {
        &&& end >= 3
        &&& figure[end - 2] == 46
        &&& number_in(figure.take(end - 2) + figure.skip(end - 1)) == value * 10 / size
    }
    &&& value >= 100 * size ==> number_in(figure) == value / size
}

/// A byte count is in the largest unit it fills, of which each is 1024 of the
/// one below: plain bytes below a kilobyte, terabytes however many there are.
pub proof fn a_byte_count_reads_back(value: nat)
    ensures
        value < 1024 ==> bytes_text(value) == digits(value) + utf8(" B"),
        1024 <= value < 1_048_576 ==> is_figure(bytes_text(value), value, 1024, "KB"),
        1_048_576 <= value < 1_073_741_824 ==> is_figure(
            bytes_text(value),
            value,
            1_048_576,
            "MB",
        ),
        1_073_741_824 <= value < 1_099_511_627_776 ==> is_figure(
            bytes_text(value),
            value,
            1_073_741_824,
            "GB",
        ),
        1_099_511_627_776 <= value ==> is_figure(
            bytes_text(value),
            value,
            1_099_511_627_776,
            "TB",
        ),
{
    if value >= 1024 {
        let unit = unit_of(value);
        let size = unit_size(unit);
        let name = unit_name(unit);
        let tenths = value * 10 / size;
        let text = bytes_text(value);
        let end = text.len() - name.len() - 1;
        assert(text.skip(end + 1) =~= name);
        tenths_round_down(value, unit);
        if tenths < 1000 {
            a_fixed_point_reads_back(tenths, 1);
            assert(text.take(end) =~= fixed_point(tenths, 1));
            assert(end == fixed_point(tenths, 1).len());
        } else {
            digits_stand_for_their_number(tenths / 10, 0);
            digits_at_least_one(tenths / 10);
            assert(text.take(end) =~= digits(tenths / 10));
        }
    }
}

proof fn tenths_round_down(value: nat, unit: int)
    ensures
        value * 10 / unit_size(unit) < 1000 <==> value < 100 * unit_size(unit),
        value * 10 / unit_size(unit) / 10 == value / unit_size(unit),
{
    if unit <= 0 {
        assert(unit_size(unit) == 1);
    } else if unit == 1 {
        assert(unit_size(unit) == 1024);
        assert(value * 10 / 1024 / 10 == value / 1024);
    } else if unit == 2 {
        assert(unit_size(unit) == 1_048_576);
        assert(value * 10 / 1_048_576 / 10 == value / 1_048_576);
    } else if unit == 3 {
        assert(unit_size(unit) == 1_073_741_824);
        assert(value * 10 / 1_073_741_824 / 10 == value / 1_073_741_824);
    } else {
        assert(unit_size(unit) == 1_099_511_627_776);
        assert(value * 10 / 1_099_511_627_776 / 10 == value / 1_099_511_627_776);
    }
}

/// A frequency is in gigahertz from a gigahertz on and in megahertz from a
/// megahertz on, to three decimals and rounded down; below that in plain hertz.
pub proof fn a_frequency_reads_back(hz: nat)
    ensures
        hz < 1_000_000 ==> frequency_text(hz) == digits(hz) + utf8(" Hz"),
        1_000_000 <= hz < 1_000_000_000 ==> is_in_thousandths(
            frequency_text(hz),
            hz / 1000,
            utf8(" MHz"),
        ),
        1_000_000_000 <= hz ==> is_in_thousandths(
            frequency_text(hz),
            hz / 1_000_000,
            utf8(" GHz"),
        ),
{
    if hz >= 1_000_000_000 {
        a_fixed_point_reads_back(hz / 1_000_000, 3);
        let figure = fixed_point(hz / 1_000_000, 3);
        assert((figure + utf8(" GHz")).take(figure.len() as int) =~= figure);
        assert((figure + utf8(" GHz")).skip(figure.len() as int) =~= utf8(" GHz"));
    } else if hz >= 1_000_000 {
        a_fixed_point_reads_back(hz / 1_000, 3);
        let figure = fixed_point(hz / 1_000, 3);
        assert((figure + utf8(" MHz")).take(figure.len() as int) =~= figure);
        assert((figure + utf8(" MHz")).skip(figure.len() as int) =~= utf8(" MHz"));
    }
}

/// A figure with three digits after its point that, without the point, reads as
/// this number, and a name behind it.
pub open spec fn is_in_thousandths(text: Seq<u8>, thousandths: nat, name: Seq<u8>) -> bool {
    let end = text.len() - name.len();
    let figure = text.take(end);
    &&& end >= 5
    &&& text.skip(end) == name
    &&& figure[end - 4] == 46
    &&& number_in(figure.take(end - 4) + figure.skip(end - 3)) == thousandths
}

/// Bytes that are text are shown as that text, and others as a question mark.
pub proof fn what_is_shown(bytes: Seq<u8>)
    ensures
        vstd::utf8::valid_utf8(bytes) ==> shown(bytes) == vstd::utf8::decode_utf8(bytes),
        !vstd::utf8::valid_utf8(bytes) ==> shown(bytes) == seq!['?'],
{
    reveal_strlit("?");
    assert("?"@ =~= seq!['?']);
}

/// A text is a front, a part and a back.
pub open spec fn splits(text: Seq<u8>, front: Seq<u8>, part: Seq<u8>, back: Seq<u8>) -> bool {
    text == front + part + back
}

/// A text has a part in it.
pub open spec fn holds(text: Seq<u8>, part: Seq<u8>) -> bool {
    exists|front: Seq<u8>, back: Seq<u8>| splits(text, front, part, back)
}

/// What a text has in it stays there whatever is written after it.
pub broadcast proof fn held_on(text: Seq<u8>, more: Seq<u8>, part: Seq<u8>)
    requires
        holds(text, part),
    ensures
        #[trigger] holds(text + more, part),
{
    let (front, back) = choose|front: Seq<u8>, back: Seq<u8>| splits(text, front, part, back);
    assert(text + more =~= front + part + (back + more));
    assert(splits(text + more, front, part, back + more));
}

/// The same for a single byte.
pub broadcast proof fn held_past(text: Seq<u8>, byte: u8, part: Seq<u8>)
    requires
        holds(text, part),
    ensures
        #[trigger] holds(text.push(byte), part),
{
    assert(text.push(byte) =~= text + seq![byte]);
    held_on(text, seq![byte], part);
}

/// A label and a value that were written one after the other are there.
pub broadcast proof fn held_there(text: Seq<u8>, label: Seq<u8>, value: Seq<u8>)
    ensures
        #[trigger] holds(text + label + value, label + value),
{
    assert(text + label + value =~= text + (label + value) + Seq::<u8>::empty());
    assert(splits(text + label + value, text, label + value, Seq::<u8>::empty()));
}

/// How what was written is found again.
pub broadcast group group_holds {
    held_on,
    held_past,
    held_there,
}

/// The fields of a duration hold digits, so each reads as a number.
pub proof fn a_duration_is_digits(ns: nat)
    ensures
        ({
            let text = duration_text(ns, true);
            let n = text.len() - 20;
            &&& number_in(text.subrange(n + 13, n + 16)) >= 0
            &&& number_in(text.subrange(n + 17, n + 20)) >= 0
        }),
{
    reveal(pow);
    reveal_with_fuel(pow, 4);
    let f = ns % 1_000_000_000;
    let s = ns / 1_000_000_000;
    padded_is_exact(s / 60 % 60, 2);
    padded_is_exact(s % 60, 2);
    padded_is_exact(f / 1_000_000, 3);
    padded_is_exact(f / 1_000 % 1_000, 3);
    padded_is_exact(f % 1_000, 3);
    digits_stand_for_their_number(f / 1_000 % 1_000, 3);
    digits_stand_for_their_number(f % 1_000, 3);
    let text = duration_text(ns, true);
    let n = text.len() - 20;
    assert(text.subrange(n + 13, n + 16) =~= padded(f / 1_000 % 1_000, 3));
    assert(text.subrange(n + 17, n + 20) =~= padded(f % 1_000, 3));
}

} // verus!
