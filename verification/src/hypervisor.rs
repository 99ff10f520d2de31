//! Hypervisor detection and host time, from ring 0.
//!
//! Detection rests on the passive leaf *and* on a hypercall, the one source
//! that cannot be spoofed by clearing a bit and the only way to get the
//! host's clock paired with this machine's counter. A hypercall issued where
//! nothing implements it is a fault with no handler, so what has to be seen
//! before one is issued is decided here.

use crate::text::text_of;
use vstd::prelude::*;

verus! {

/// Every hypercall this machine has issued.
///
/// Counted because the measurement depends on it staying small: a hypercall
/// traps into the host and costs a variable number of microseconds. The host
/// clock is asked once, at boot, and from then on the counter is read and
/// nothing else.
pub struct Hypercalls {
    pub issued: u32,
}

impl Default for Hypercalls {
    fn default() -> (r: Hypercalls)
        ensures
            r.issued == 0,
    {
        Hypercalls { issued: 0 }
    }
}

impl Hypercalls {
    /// Counts one.
    pub fn issue(&mut self)
        ensures
            final(self).issued == one_more(old(self).issued),
    {
        self.issued = self.issued.wrapping_add(1);
    }
}

/// How many hypercalls have been issued since power-on.
pub fn hypercalls(calls: &Hypercalls) -> (r: u32)
    ensures
        r == calls.issued,
{
    calls.issued
}

/// One host/guest timestamp pair, captured together by the host.
#[derive(Debug, Clone, Copy, PartialEq, Eq, Structural)]
pub struct ClockPairing {
    /// The host's clock, in nanoseconds.
    pub host_ns: u64,
    /// This machine's counter at the same instant.
    pub counter: u64,
}

/// What was found, and how.
#[derive(Debug, Clone, Copy)]
pub struct Report {
    /// The architectural hypervisor bit. Passive: a hypervisor that wants to
    /// hide clears it.
    pub cpuid_bit: bool,
    /// The twelve-byte signature, when there is one.
    pub signature: [u8; 12],
    /// Highest hypervisor leaf the platform answers.
    pub max_leaf: u32,
    /// A hypercall returned instead of faulting. Proof, not inference.
    pub hypercall_ok: bool,
    /// Host time paired with this machine's counter, if the host offered it.
    pub pairing: Option<ClockPairing>,
    /// How many hypercalls the machine has issued, in total, ever.
    pub hypercalls: u32,
}

/// Where the first zero byte is, or the end.
pub open spec fn first_zero(bytes: Seq<u8>, i: int) -> int
    decreases bytes.len() - i,
{
    if i >= bytes.len() || bytes[i] == 0 {
        i
    } else {
        first_zero(bytes, i + 1)
    }
}

/// The bytes of a signature, up to its first zero.
pub open spec fn signature_bytes(signature: Seq<u8>) -> Seq<u8> {
    signature.take(first_zero(signature, 0))
}

/// A signature as text; empty where it is not text.
pub open spec fn signature_text(signature: Seq<u8>) -> Seq<char> {
    let bytes = signature_bytes(signature);
    if vstd::utf8::valid_utf8(bytes) {
        vstd::utf8::decode_utf8(bytes)
    } else {
        seq![]
    }
}

/// The nine bytes `KVMKVMKVM`.
pub open spec fn kvm_name() -> Seq<u8> {
    seq![75u8, 86, 77, 75, 86, 77, 75, 86, 77]
}

/// Whether a signature is KVM's: its text starts with KVM's name.
pub open spec fn is_kvm(signature: Seq<u8>) -> bool {
    kvm_name().is_prefix_of(vstd::utf8::encode_utf8(signature_text(signature)))
}

impl Report {
    /// A report of nothing.
    pub open spec fn is_blank(self) -> bool {
        &&& !self.cpuid_bit
        &&& self.signature@ == Seq::new(12, |i: int| 0u8)
        &&& self.max_leaf == 0
        &&& !self.hypercall_ok
        &&& self.pairing is None
        &&& self.hypercalls == 0
    }

    fn blank() -> (r: Report)
        ensures
            r.is_blank(),
    {
        let signature: [u8; 12] = [0u8; 12];
        assert(signature@ =~= Seq::new(12, |i: int| 0u8));
        Report {
            cpuid_bit: false,
            signature,
            max_leaf: 0,
            hypercall_ok: false,
            pairing: None,
            hypercalls: 0,
        }
    }

    /// Whether anything says this is a guest.
    pub open spec fn is_guest(self) -> bool {
        self.cpuid_bit || self.hypercall_ok
    }

    /// The report once a hypercall has come to something, or to nothing.
    pub open spec fn with_pairing(self, pairing: Option<ClockPairing>, issued: u32) -> Report {
        Report { pairing, hypercall_ok: pairing is Some, hypercalls: issued, ..self }
    }

    /// Whether anything says this is a guest.
    pub fn is_virtualized(&self) -> (r: bool)
        ensures
            r == self.is_guest(),
    {
        self.cpuid_bit || self.hypercall_ok
    }

    /// The signature as text, empty if there is none.
    pub fn signature_str(&self) -> (r: &str)
        ensures
            r@ == signature_text(self.signature@),
    {
        let mut end: usize = 0;
        while end < 12 && self.signature[end] != 0
            invariant
                end <= 12,
                first_zero(self.signature@, 0) == first_zero(self.signature@, end as int),
            decreases 12 - end,
        {
            end += 1;
        }
        let bytes: &[u8] = vstd::slice::slice_subrange(self.signature.as_slice(), 0, end);
        assert(bytes@ =~= signature_bytes(self.signature@));
        match text_of(bytes) {
            Some(s) => s,
            None => {
                proof {
                    reveal_strlit("");
                    assert(""@ =~= Seq::<char>::empty());
                }
                ""
            },
        }
    }
}

/// The four bytes of a register, lowest first.
pub open spec fn register_bytes(register: u32) -> Seq<u8> {
    seq![
        (register % 256) as u8,
        (register / 256 % 256) as u8,
        (register / 65536 % 256) as u8,
        (register / 16777216) as u8,
    ]
}

/// Three registers, end to end.
pub open spec fn signature_of(a: u32, b: u32, c: u32) -> Seq<u8> {
    register_bytes(a) + register_bytes(b) + register_bytes(c)
}

fn signature_from(a: u32, b: u32, c: u32) -> (r: [u8; 12])
    ensures
        r@ == signature_of(a, b, c),
{
    let r: [u8; 12] = [
        (a % 256) as u8,
        (a / 256 % 256) as u8,
        (a / 65536 % 256) as u8,
        (a / 16777216) as u8,
        (b % 256) as u8,
        (b / 256 % 256) as u8,
        (b / 65536 % 256) as u8,
        (b / 16777216) as u8,
        (c % 256) as u8,
        (c / 256 % 256) as u8,
        (c / 65536 % 256) as u8,
        (c / 16777216) as u8,
    ];
    assert(r@ =~= signature_of(a, b, c));
    r
}

/// Whether a vendor leaf is one: the highest leaf it names is in the range
/// reserved for them.
pub open spec fn is_vendor_leaf(highest: u32) -> bool {
    0x4000_0000 <= highest <= 0x4001_0000
}

/// What the passive detectors say: the hypervisor bit, the highest leaf and the
/// signature.
pub open spec fn passive(features: u32, vendor: Seq<u32>) -> (bool, u32, Seq<u8>) {
    (
        features >= 0x8000_0000,
        if is_vendor_leaf(vendor[0]) {
            vendor[0]
        } else {
            0
        },
        if is_vendor_leaf(vendor[0]) {
            signature_of(vendor[1], vendor[2], vendor[3])
        } else {
            Seq::new(12, |i: int| 0u8)
        },
    )
}

/// The hypervisor bit is the top one. A vendor leaf counts from 0x40000000 to
/// 0x40010000: then its number is the highest leaf and its other registers, each
/// with its lowest byte first, are the signature. Any other leaf is no vendor's,
/// whatever it holds.
pub proof fn what_is_seen_passively(features: u32, vendor: Seq<u32>, i: int)
    requires
        0 <= i < 3,
    ensures
        passive(features, vendor).0 <==> features / 2147483648 == 1,
        0x4000_0000 <= vendor[0] <= 0x4001_0000 ==> {
            let (_, leaf, name) = passive(features, vendor);
            &&& leaf == vendor[0]
            &&& name.len() == 12
            &&& name[4 * i] + 0x100 * name[4 * i + 1] + 0x1_0000 * name[4 * i + 2] + 0x100_0000
                * name[4 * i + 3] == vendor[i + 1]
        },
        vendor[0] < 0x4000_0000 || vendor[0] > 0x4001_0000 ==> {
            let (_, leaf, name) = passive(features, vendor);
            leaf == 0 && name.len() == 12 && forall|j: int| 0 <= j < 12 ==> name[j] == 0
        },
{
    registers_read_back(vendor[i + 1]);
}

proof fn registers_read_back(register: u32)
    ensures
        ({
            let b = register_bytes(register);
            b[0] + 0x100 * b[1] + 0x1_0000 * b[2] + 0x100_0000 * b[3] == register
        }),
{
}

/// What the passive detectors say: the feature word of leaf 1, whose top bit
/// is the hypervisor bit, and the four registers of the vendor leaf. With them
/// goes how many hypercalls have been issued.
///
/// The vendor leaf is present even on some hypervisors that clear the feature
/// bit, which is why both are read.
pub fn detect(features: u32, vendor: [u32; 4], calls: &Hypercalls) -> (r: Report)
    ensures
        (r.cpuid_bit, r.max_leaf, r.signature@) == passive(features, vendor@),
        !r.hypercall_ok,
        r.pairing is None,
        r.hypercalls == calls.issued,
{
    let mut report = Report::blank();
    report.hypercalls = calls.issued;
    report.cpuid_bit = features >= 0x8000_0000;
    if vendor[0] >= 0x4000_0000 && vendor[0] <= 0x4001_0000 {
        report.max_leaf = vendor[0];
        report.signature = signature_from(vendor[1], vendor[2], vendor[3]);
    }
    report
}

impl Report {
    /// Whether the clock-pairing hypercall may be issued: only where the
    /// signature is KVM's. "Something looks like a hypervisor" is not a
    /// sufficient guard: an emulator may advertise the vendor leaf and
    /// implement no hypercall at all.
    pub fn may_pair(&self) -> (r: bool)
        ensures
            r == is_kvm(self.signature@),
    {
        let name: [u8; 9] = [75, 86, 77, 75, 86, 77, 75, 86, 77];
        assert(name@ =~= kvm_name());
        let text: &[u8] = self.signature_str().as_bytes();
        if text.len() < 9 {
            return false;
        }
        let mut i: usize = 0;
        while i < 9
            invariant
                i <= 9,
                text@.len() >= 9,
                name@ == kvm_name(),
                text@ == vstd::utf8::encode_utf8(signature_text(self.signature@)),
                forall|j: int| 0 <= j < i ==> text@[j] == name@[j],
            decreases 9 - i,
        {
            if text[i] != name[i] {
                assert(kvm_name()[i as int] != text@[i as int]);
                return false;
            }
            i += 1;
        }
        assert(kvm_name() =~= text@.take(9));
        true
    }

    /// Takes what the hypercall came to, nothing where none was issued, and
    /// how many have been issued.
    pub fn paired(&mut self, pairing: Option<ClockPairing>, calls: &Hypercalls)
        ensures
            *final(self) == old(self).with_pairing(pairing, calls.issued),
    {
        self.pairing = pairing;
        self.hypercall_ok = pairing.is_some();
        self.hypercalls = calls.issued;
    }
}

/// Nanoseconds in whole seconds, as far as they can be counted.
pub open spec fn seconds_in_ns(seconds: int) -> int {
    if seconds * 1_000_000_000 <= u64::MAX {
        seconds * 1_000_000_000
    } else {
        u64::MAX as int
    }
}

/// The pairing a host left.
pub open spec fn pairing_of(status: i64, seconds: i64, nanoseconds: i64, counter: u64) -> Option<
    ClockPairing,
> {
    if status != 0 || seconds <= 0 {
        None
    } else {
        Some(
            ClockPairing {
                host_ns: (seconds_in_ns(seconds as int) + if nanoseconds > 0 {
                    nanoseconds as int
                } else {
                    0
                }) as u64,
                counter,
            },
        )
    }
}

/// The host's time is its seconds and its nanoseconds together, beside the
/// counter it was taken with; a host that refused, or whose clock is not past the
/// epoch, left none. A pairing is what says that the hypercall worked.
pub proof fn a_pairing_is_the_hosts_time(
    report: Report,
    status: i64,
    seconds: i64,
    nanoseconds: i64,
    counter: u64,
)
    requires
        seconds <= 0 || nanoseconds < 0 || seconds * 1_000_000_000 + nanoseconds <= u64::MAX,
    ensures
        pairing_of(status, seconds, nanoseconds, counter) is Some <==> status == 0 && seconds > 0,
        status == 0 && seconds > 0 && nanoseconds >= 0 ==> {
            let pair = pairing_of(status, seconds, nanoseconds, counter)->0;
            pair.host_ns == seconds * 1_000_000_000 + nanoseconds && pair.counter == counter
        },
        ({
            let pairing = pairing_of(status, seconds, nanoseconds, counter);
            let after = report.with_pairing(pairing, 1);
            &&& after.pairing == pairing
            &&& after.hypercall_ok <==> status == 0 && seconds > 0
            &&& after.hypercalls == 1
            &&& after.signature == report.signature && after.cpuid_bit == report.cpuid_bit
            &&& after.is_guest() <==> report.cpuid_bit || after.pairing is Some
        }),
{
}

/// The pairing a host that returned `status` left: nothing where it refused,
/// or where its clock is not past the epoch.
pub fn clock_pairing(status: i64, seconds: i64, nanoseconds: i64, counter: u64) -> (r: Option<
    ClockPairing,
>)
    requires
        status == 0 && seconds > 0 && nanoseconds > 0 ==> seconds_in_ns(seconds as int)
            + nanoseconds <= u64::MAX,
    ensures
        r == pairing_of(status, seconds, nanoseconds, counter),
{
    if status != 0 || seconds <= 0 {
        return None;
    }
    let whole: u64 = match (seconds as u64).checked_mul(1_000_000_000) {
        Some(ns) => ns,
        None => u64::MAX,
    };
    let part: u64 = if nanoseconds > 0 {
        nanoseconds as u64
    } else {
        0
    };
    Some(ClockPairing { host_ns: whole + part, counter })
}

// ---------------------------------------------------------------------------
// AArch64
// ---------------------------------------------------------------------------

/// Every conforming implementation answers this.
pub const SMCCC_VERSION: u64 = 0x8000_0000;

/// Identifies the hypervisor.
pub const VENDOR_HYP_UID: u64 = 0x8600_FF01;

/// Host time.
pub const KVM_PTP: u64 = 0x8600_0001;

/// The reply that means a function is not supported: minus one.
pub const NOT_SUPPORTED: u64 = 0xFFFF_FFFF_FFFF_FFFF;

/// How far detection has got on AArch64: each step waits for a reply.
#[derive(Debug, Clone, Copy, PartialEq, Eq, Structural)]
pub enum Asking {
    /// Nothing asked yet.
    Start,
    /// The version.
    Version,
    /// The identity.
    Identity,
    /// The host's time.
    Time,
    /// Done.
    Done,
}

/// The call a step waits for the reply of.
pub open spec fn call_of(state: Asking) -> Option<u64> {
    match state {
        Asking::Version => Some(SMCCC_VERSION),
        Asking::Identity => Some(VENDOR_HYP_UID),
        Asking::Time => Some(KVM_PTP),
        _ => None,
    }
}

/// The counter rates a virtual timer is seen to run at. There is no recovery
/// from a call nothing takes, so this is checked first as a cheap filter.
pub open spec fn is_plausible_guest(hz: u64) -> bool {
    hz == 62_500_000 || hz == 1_000_000_000
}

/// The step after one, given the counter's rate and the first register of
/// the reply.
pub open spec fn asked(state: Asking, hz: u64, first: u64) -> Asking {
    match state {
        Asking::Start => if is_plausible_guest(hz) {
            Asking::Version
        } else {
            Asking::Done
        },
        Asking::Version => if first == NOT_SUPPORTED {
            Asking::Done
        } else {
            Asking::Identity
        },
        Asking::Identity => Asking::Time,
        _ => Asking::Done,
    }
}

/// Two registers' low halves, the first one high.
pub open spec fn two_halves(high: u64, low: u64) -> u64 {
    (high << 32) | (low & 0xFFFF_FFFF)
}

/// The low half of a register.
pub open spec fn low_half(register: u64) -> u32 {
    (register % 0x1_0000_0000) as u32
}

/// The pairing there is once a reply has come.
pub open spec fn arm_pairing(
    before: Option<ClockPairing>,
    state: Asking,
    reply: Seq<u64>,
) -> Option<ClockPairing> {
    if state == Asking::Time && reply[0] < 0x8000_0000_0000_0000 {
        Some(
            ClockPairing {
                host_ns: two_halves(reply[0], reply[1]),
                counter: two_halves(reply[2], reply[3]),
            },
        )
    } else {
        before
    }
}

/// The signature there is once a reply has come.
pub open spec fn arm_signature(before: Seq<u8>, state: Asking, reply: Seq<u64>) -> Seq<u8> {
    if state == Asking::Identity && reply[0] != NOT_SUPPORTED {
        signature_of(low_half(reply[0]), low_half(reply[1]), low_half(reply[2]))
    } else {
        before
    }
}

/// A guest is asked for its version, who its host is and what time that has, in
/// that order. The time comes in four registers, two of which make a number,
/// the high half first; a reply with its top bit set is a refusal. The identity
/// is the low halves of the first three registers. Nothing else changes either.
pub proof fn what_a_reply_says(
    pairing: Option<ClockPairing>,
    signature: Seq<u8>,
    state: Asking,
    hz: u64,
    reply: Seq<u64>,
)
    requires
        reply.len() == 4,
    ensures
        hz == 62_500_000 || hz == 1_000_000_000 ==> asked(Asking::Start, hz, reply[0])
            == Asking::Version,
        hz != 62_500_000 && hz != 1_000_000_000 ==> asked(Asking::Start, hz, reply[0])
            == Asking::Done,
        call_of(Asking::Version) == Some(0x8000_0000u64),
        reply[0] != u64::MAX ==> asked(Asking::Version, hz, reply[0]) == Asking::Identity,
        reply[0] == u64::MAX ==> asked(Asking::Version, hz, reply[0]) == Asking::Done,
        call_of(Asking::Identity) == Some(0x8600_FF01u64),
        asked(Asking::Identity, hz, reply[0]) == Asking::Time,
        call_of(Asking::Time) == Some(0x8600_0001u64),
        asked(Asking::Time, hz, reply[0]) == Asking::Done,
        call_of(Asking::Start) is None,
        reply[0] < 0x8000_0000_0000_0000 ==> {
            let pair = arm_pairing(pairing, Asking::Time, reply)->0;
            &&& arm_pairing(pairing, Asking::Time, reply) is Some
            &&& pair.host_ns == reply[0] % 0x1_0000_0000 * 0x1_0000_0000 + reply[1] % 0x1_0000_0000
            &&& pair.counter == reply[2] % 0x1_0000_0000 * 0x1_0000_0000 + reply[3] % 0x1_0000_0000
        },
        reply[0] >= 0x8000_0000_0000_0000 ==> arm_pairing(pairing, Asking::Time, reply) == pairing,
        state != Asking::Time ==> arm_pairing(pairing, state, reply) == pairing,
        reply[0] != u64::MAX ==> arm_signature(signature, Asking::Identity, reply) == signature_of(
            (reply[0] % 0x1_0000_0000) as u32,
            (reply[1] % 0x1_0000_0000) as u32,
            (reply[2] % 0x1_0000_0000) as u32,
        ),
        reply[0] == u64::MAX || state != Asking::Identity ==> arm_signature(signature, state, reply)
            == signature,
{
    halves_join(reply[0], reply[1]);
    halves_join(reply[2], reply[3]);
}

proof fn halves_join(high: u64, low: u64)
    ensures
        two_halves(high, low) == high % 0x1_0000_0000 * 0x1_0000_0000 + low % 0x1_0000_0000,
{
    assert((high << 32) | (low & 0xFFFF_FFFF) == high % 0x1_0000_0000 * 0x1_0000_0000 + low
        % 0x1_0000_0000) by (bit_vector);
}

/// The next call to make, where one is to be made.
pub fn next_call(state: Asking) -> (r: Option<u64>)
    ensures
        r == call_of(state),
{
    match state {
        Asking::Version => Some(SMCCC_VERSION),
        Asking::Identity => Some(VENDOR_HYP_UID),
        Asking::Time => Some(KVM_PTP),
        _ => None,
    }
}

/// Runs the AArch64 detectors, one reply at a time. `hz` is the counter's
/// rate and `reply` the four registers the last call returned. However they
/// end, the report says how many hypercalls have been issued.
pub fn detect_arm(
    report: &mut Report,
    state: Asking,
    hz: u64,
    reply: [u64; 4],
    calls: &Hypercalls,
) -> (r: Asking)
    requires
        state == Asking::Start ==> old(report).is_blank(),
    ensures
        r == asked(state, hz, reply@[0]),
        final(report).cpuid_bit == old(report).cpuid_bit,
        final(report).max_leaf == old(report).max_leaf,
        final(report).hypercall_ok == arm_ok(old(report).hypercall_ok, r),
        final(report).signature@ == arm_signature(old(report).signature@, state, reply@),
        final(report).pairing == arm_pairing(old(report).pairing, state, reply@),
        final(report).hypercalls == arm_calls(old(report).hypercalls, r, calls.issued),
{
    let next: Asking = match state {
        Asking::Start => {
            if hz == 62_500_000 || hz == 1_000_000_000 {
                Asking::Version
            } else {
                Asking::Done
            }
        },
        Asking::Version => {
            if reply[0] == NOT_SUPPORTED {
                Asking::Done
            } else {
                report.hypercall_ok = true;
                Asking::Identity
            }
        },
        Asking::Identity => {
            if reply[0] != NOT_SUPPORTED {
                report.signature = signature_from(
                    (reply[0] % 0x1_0000_0000) as u32,
                    (reply[1] % 0x1_0000_0000) as u32,
                    (reply[2] % 0x1_0000_0000) as u32,
                );
            }
            Asking::Time
        },
        Asking::Time => {
            if reply[0] < 0x8000_0000_0000_0000 {
                report.pairing = Some(
                    ClockPairing {
                        host_ns: (reply[0] << 32) | (reply[1] & 0xFFFF_FFFF),
                        counter: (reply[2] << 32) | (reply[3] & 0xFFFF_FFFF),
                    },
                );
            }
            Asking::Done
        },
        Asking::Done => Asking::Done,
    };
    if matches!(next, Asking::Done) {
        report.hypercalls = calls.issued;
    }
    next
}

/// A machine whose counter does not run at a virtual timer's rate is asked
/// nothing; one that does not answer the first call is asked nothing more;
/// and no machine is asked more than three times.
pub proof fn little_is_asked(hz: u64, a: u64, b: u64, c: u64)
    ensures
        ({
            let one = asked(Asking::Start, hz, 0);
            let two = asked(one, hz, a);
            let three = asked(two, hz, b);
            &&& !is_plausible_guest(hz) ==> call_of(one) is None && one == Asking::Done
            &&& a == NOT_SUPPORTED ==> two == Asking::Done && call_of(two) is None
            &&& asked(three, hz, c) == Asking::Done
        }),
        call_of(Asking::Done) is None,
        asked(Asking::Done, hz, a) == Asking::Done,
{
}

/// A signature that does not begin with KVM's name, byte for byte, is never
/// taken for KVM's.
pub proof fn only_kvm_is_kvm(signature: Seq<u8>)
    requires
        is_kvm(signature),
        signature.len() == 12,
    ensures
        kvm_name().is_prefix_of(signature),
{
    let bytes = signature_bytes(signature);
    first_zero_is_within(signature, 0);
    if vstd::utf8::valid_utf8(bytes) {
        vstd::utf8::decode_utf8_encode_utf8(bytes);
        assert(vstd::utf8::encode_utf8(signature_text(signature)) == bytes);
        assert(kvm_name() =~= signature.take(9));
    } else {
        assert(vstd::utf8::encode_utf8(Seq::<char>::empty()) =~= Seq::<u8>::empty());
    }
}

proof fn first_zero_is_within(bytes: Seq<u8>, i: int)
    requires
        0 <= i <= bytes.len(),
    ensures
        i <= first_zero(bytes, i) <= bytes.len(),
        forall|j: int| i <= j < first_zero(bytes, i) ==> bytes[j] != 0,
    decreases bytes.len() - i,
{
    if i < bytes.len() && bytes[i] != 0 {
        first_zero_is_within(bytes, i + 1);
    }
}

/// A signature's text ends before its first zero and leaves nothing out before
/// it; all of it is text where there is no zero.
pub proof fn a_signature_ends_at_its_first_zero(signature: Seq<u8>)
    ensures
        signature_bytes(signature).is_prefix_of(signature),
        forall|i: int| 0 <= i < signature_bytes(signature).len() ==> signature[i] != 0,
        signature_bytes(signature).len() < signature.len() ==> signature[signature_bytes(
            signature,
        ).len() as int] == 0,
        vstd::utf8::valid_utf8(signature_bytes(signature)) ==> vstd::utf8::encode_utf8(
            signature_text(signature),
        ) == signature_bytes(signature),
        !vstd::utf8::valid_utf8(signature_bytes(signature)) ==> signature_text(signature).len()
            == 0,
{
    first_zero_is_within(signature, 0);
    the_first_zero_is_one(signature, 0);
    let bytes = signature_bytes(signature);
    assert(bytes =~= signature.take(bytes.len() as int));
    if vstd::utf8::valid_utf8(bytes) {
        vstd::utf8::decode_utf8_encode_utf8(bytes);
    }
}

proof fn the_first_zero_is_one(bytes: Seq<u8>, i: int)
    requires
        0 <= i <= bytes.len(),
    ensures
        first_zero(bytes, i) < bytes.len() ==> bytes[first_zero(bytes, i)] == 0,
    decreases bytes.len() - i,
{
    if i < bytes.len() && bytes[i] != 0 {
        the_first_zero_is_one(bytes, i + 1);
    }
}

/// KVM is recognised by the name it gives: the nine letters `KVMKVMKVM`,
/// whatever text there is behind them.
pub proof fn kvm_is_recognised(signature: Seq<u8>)
    requires
        signature.len() == 12,
        signature.take(9) == seq![75u8, 86, 77, 75, 86, 77, 75, 86, 77],
        crate::text::is_ascii(signature),
    ensures
        is_kvm(signature),
{
    a_signature_ends_at_its_first_zero(signature);
    let bytes = signature_bytes(signature);
    assert(forall|i: int| 0 <= i < 9 ==> signature[i] == signature.take(9)[i]);
    assert(bytes.len() >= 9) by {
        if bytes.len() < 9 {
            assert(signature[bytes.len() as int] == signature.take(9)[bytes.len() as int]);
        }
    }
    assert(bytes =~= signature.take(bytes.len() as int));
    crate::text::ascii_is_shown_as_it_is(bytes);
    vstd::utf8::encode_utf8_valid_utf8(crate::text::shown(bytes));
    assert(kvm_name() =~= bytes.take(9));
}

/// A count of calls once one more has been issued, in the arithmetic it is kept
/// in.
pub open spec fn one_more(issued: u32) -> int {
    (issued + 1) % 0x1_0000_0000
}

/// Whether calls are known to be answered, once the next one has been settled on:
/// the identity is asked for only where they are.
pub open spec fn arm_ok(before: bool, next: Asking) -> bool {
    before || next == Asking::Identity
}

/// How many calls the report says were issued: as many as were, once there are no
/// more to come.
pub open spec fn arm_calls(before: u32, next: Asking, issued: u32) -> u32 {
    if next == Asking::Done {
        issued
    } else {
        before
    }
}

/// Every call is counted once, and the report has the count when it is over. The
/// calls are known to be answered from the first reply that names a version on,
/// and not before.
pub proof fn every_call_is_counted(before: u32, issued: u32, ok: bool, next: Asking)
    ensures
        issued < u32::MAX ==> one_more(issued) == issued + 1,
        one_more(u32::MAX) == 0,
        arm_calls(before, Asking::Done, issued) == issued,
        next != Asking::Done ==> arm_calls(before, next, issued) == before,
        arm_ok(true, next),
        arm_ok(ok, Asking::Identity),
        next != Asking::Identity ==> arm_ok(ok, next) == ok,
{
}

} // verus!
