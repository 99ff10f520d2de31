//! Lines of text for the console, as long as they need to be.

use crate::text::{digits, padded, utf8};
use vstd::prelude::*;

verus! {

/// One hexadecimal digit.
pub open spec fn hex_digit(value: int, upper: bool) -> u8 {
    if value < 10 {
        (48 + value) as u8
    } else if upper {
        (55 + value) as u8
    } else {
        (87 + value) as u8
    }
}

/// A number in hexadecimal, without leading zeros.
pub open spec fn hex(value: nat) -> Seq<u8>
    decreases value,
{
    if value < 16 {
        seq![hex_digit(value as int, false)]
    } else {
        hex(value / 16).push(hex_digit((value % 16) as int, false))
    }
}

/// The last `count` hexadecimal digits of a number, in capitals.
pub open spec fn hex_field(value: nat, count: nat) -> Seq<u8>
    decreases count,
{
    if count == 0 {
        seq![]
    } else {
        hex_field(value / 16, (count - 1) as nat).push(hex_digit((value % 16) as int, true))
    }
}

/// Spaces.
pub open spec fn spaces(count: int) -> Seq<u8> {
    Seq::new(
        if count > 0 {
            count as nat
        } else {
            0
        },
        |i: int| 32u8,
    )
}

/// Yes or no, as a program says it.
pub open spec fn truth(value: bool) -> Seq<u8> {
    if value {
        utf8("true")
    } else {
        utf8("false")
    }
}

/// What has been written so far.
#[derive(Debug)]
pub struct Log {
    pub bytes: Vec<u8>,
}

impl View for Log {
    type V = Seq<u8>;

    open spec fn view(&self) -> Seq<u8> {
        self.bytes@
    }
}

/// The digits of a number.
fn digits_of(value: u64) -> (r: Vec<u8>)
    ensures
        r@ == digits(value as nat),
    decreases value,
{
    if value < 10 {
        let r: Vec<u8> = vec![48u8 + value as u8];
        assert(r@ =~= digits(value as nat));
        r
    } else {
        let mut r: Vec<u8> = digits_of(value / 10);
        r.push(48u8 + (value % 10) as u8);
        assert(r@ =~= digits(value as nat));
        r
    }
}

fn hex_digit_of(value: u8, upper: bool) -> (r: u8)
    requires
        value < 16,
    ensures
        r == hex_digit(value as int, upper),
{
    if value < 10 {
        48 + value
    } else if upper {
        55 + value
    } else {
        87 + value
    }
}

fn hex_of(value: u64) -> (r: Vec<u8>)
    ensures
        r@ == hex(value as nat),
    decreases value,
{
    if value < 16 {
        let r: Vec<u8> = vec![hex_digit_of(value as u8, false)];
        assert(r@ =~= hex(value as nat));
        r
    } else {
        let mut r: Vec<u8> = hex_of(value / 16);
        r.push(hex_digit_of((value % 16) as u8, false));
        r
    }
}

fn hex_field_of(value: u64, count: usize) -> (r: Vec<u8>)
    ensures
        r@ == hex_field(value as nat, count as nat),
    decreases count,
{
    if count == 0 {
        Vec::new()
    } else {
        let mut r: Vec<u8> = hex_field_of(value / 16, count - 1);
        r.push(hex_digit_of((value % 16) as u8, true));
        r
    }
}

impl Log {
    /// Nothing yet.
    pub fn new() -> (r: Log)
        ensures
            r@ == Seq::<u8>::empty(),
    {
        Log { bytes: Vec::new() }
    }

    /// Writes a string.
    pub fn str(&mut self, s: &str) -> (r: &mut Log)
        ensures
            r@ == old(self)@ + utf8(s),
            *final(self) == *final(r),
    {
        let mut more: Vec<u8> = s.as_bytes_vec();
        self.bytes.append(&mut more);
        self
    }

    /// Writes a number.
    pub fn num(&mut self, value: u64) -> (r: &mut Log)
        ensures
            r@ == old(self)@ + digits(value as nat),
            *final(self) == *final(r),
    {
        let mut more: Vec<u8> = digits_of(value);
        self.bytes.append(&mut more);
        self
    }

    /// Writes a number in at least two digits.
    pub fn two(&mut self, value: u64) -> (r: &mut Log)
        ensures
            r@ == old(self)@ + padded(value as nat, 2),
            *final(self) == *final(r),
    {
        let mut more: Vec<u8> = digits_of(value);
        if value < 10 {
            more.insert(0, 48);
        }
        assert(more@ =~= padded(value as nat, 2)) by {
            crate::text::digits_are_two(value as nat);
        }
        self.bytes.append(&mut more);
        self
    }

    /// Writes a number in hexadecimal, marked as one.
    pub fn hex(&mut self, value: u64) -> (r: &mut Log)
        ensures
            r@ == old(self)@ + utf8("0x") + hex(value as nat),
            *final(self) == *final(r),
    {
        let mut mark: Vec<u8> = "0x".as_bytes_vec();
        let mut more: Vec<u8> = hex_of(value);
        self.bytes.append(&mut mark);
        self.bytes.append(&mut more);
        self
    }

    /// Writes a word as sixteen hexadecimal digits.
    pub fn word(&mut self, value: u64) -> (r: &mut Log)
        ensures
            r@ == old(self)@ + hex_field(value as nat, 16),
            *final(self) == *final(r),
    {
        let mut more: Vec<u8> = hex_field_of(value, 16);
        self.bytes.append(&mut more);
        self
    }

    /// Writes yes or no.
    pub fn flag(&mut self, value: bool) -> (r: &mut Log)
        ensures
            r@ == old(self)@ + truth(value),
            *final(self) == *final(r),
    {
        if value {
            self.str("true")
        } else {
            self.str("false")
        }
    }

    /// Writes a name, and spaces after it up to a column.
    pub fn column(&mut self, name: &str, width: usize) -> (r: &mut Log)
        ensures
            r@ == old(self)@ + utf8(name) + spaces(width - name@.len()),
            *final(self) == *final(r),
    {
        let mut more: Vec<u8> = name.as_bytes_vec();
        let length: usize = name.unicode_len();
        let gap: usize = width.saturating_sub(length);
        let mut blank: Vec<u8> = vec![32u8; gap];
        assert(blank@ =~= spaces(width - name@.len()));
        self.bytes.append(&mut more);
        self.bytes.append(&mut blank);
        self
    }

    /// Ends the line.
    pub fn end(&mut self) -> (r: &mut Log)
        ensures
            r@ == old(self)@.push(10u8),
            *final(self) == *final(r),
    {
        self.bytes.push(10);
        self
    }

    /// What was written, as text.
    pub fn as_str(&self) -> (r: &str)
        ensures
            r@ == crate::text::shown(self@),
    {
        crate::text::readable(self.bytes.as_slice())
    }
}

/// The number a hexadecimal digit stands for, in either case.
pub open spec fn hex_value(byte: u8) -> int {
    if byte < 65 {
        byte - 48
    } else if byte < 97 {
        byte - 55
    } else {
        byte - 87
    }
}

/// The number a run of hexadecimal digits stands for.
pub open spec fn hex_number_in(bytes: Seq<u8>) -> int
    decreases bytes.len(),
{
    if bytes.len() == 0 {
        0
    } else {
        hex_number_in(bytes.drop_last()) * 16 + hex_value(bytes.last())
    }
}

/// A digit is one of 0 to 9 or of a to f, or of A to F where capitals are asked
/// for, and stands for its value.
pub proof fn a_hex_digit_is_a_digit(value: int, upper: bool)
    requires
        0 <= value < 16,
    ensures
        hex_value(hex_digit(value, upper)) == value,
        value < 10 ==> 48 <= hex_digit(value, upper) <= 57,
        value >= 10 && !upper ==> 97 <= hex_digit(value, upper) <= 102,
        value >= 10 && upper ==> 65 <= hex_digit(value, upper) <= 70,
{
}

/// A number in hexadecimal reads back as that number, in lower case and without
/// a zero in front.
pub proof fn hex_reads_back(value: nat)
    ensures
        hex_number_in(hex(value)) == value,
        hex(value).len() >= 1,
        value > 0 ==> hex(value)[0] != 48,
        forall|i: int|
            0 <= i < hex(value).len() ==> 48 <= #[trigger] hex(value)[i] <= 57 || 97
                <= hex(value)[i] <= 102,
    decreases value,
{
    if value >= 16 {
        hex_reads_back(value / 16);
        assert(hex(value).drop_last() =~= hex(value / 16));
    } else {
        assert(hex(value).drop_last() =~= Seq::<u8>::empty());
        assert(hex_number_in(Seq::<u8>::empty()) == 0);
    }
}

/// A field has as many digits as it was asked for, in capitals, and reads back
/// as what of the number they can hold; in sixteen digits that is all of a word.
pub proof fn a_hex_field_reads_back(value: nat, count: nat)
    ensures
        hex_field(value, count).len() == count,
        hex_number_in(hex_field(value, count)) == value as int % vstd::arithmetic::power::pow(
            16,
            count,
        ),
        count == 16 && value <= u64::MAX ==> hex_number_in(hex_field(value, count)) == value,
        forall|i: int|
            0 <= i < count ==> 48 <= #[trigger] hex_field(value, count)[i] <= 57 || 65
                <= hex_field(value, count)[i] <= 70,
    decreases count,
{
    reveal(vstd::arithmetic::power::pow);
    if count > 0 {
        let less = (count - 1) as nat;
        a_hex_field_reads_back(value / 16, less);
        assert(hex_field(value, count).drop_last() =~= hex_field(value / 16, less));
        let p = vstd::arithmetic::power::pow(16, less);
        vstd::arithmetic::power::lemma_pow_positive(16, less);
        assert(vstd::arithmetic::power::pow(16, count) == 16 * p);
        vstd::arithmetic::div_mod::lemma_breakdown(value as int, 16, p);
    }
    if count == 16 {
        reveal_with_fuel(vstd::arithmetic::power::pow, 17);
        assert(vstd::arithmetic::power::pow(16, 16) == 0x1_0000_0000_0000_0000);
    }
}

/// A name is followed by spaces up to its column, and by none where it reaches
/// past it.
pub proof fn columns_line_up(count: int)
    ensures
        count >= 0 ==> spaces(count).len() == count,
        count < 0 ==> spaces(count).len() == 0,
        forall|i: int| 0 <= i < count ==> #[trigger] spaces(count)[i] == 32,
        truth(true) == utf8("true") && truth(false) == utf8("false"),
{
}

} // verus!
