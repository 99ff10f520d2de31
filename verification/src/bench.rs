//! Benchmark modes, kernels and the three-pass harness.
//!
//! Each run does three passes with increasing iteration counts. The first is
//! partly warm-up: caches are cold, the frequency governor has not responded
//! and the branch predictor is untrained. Reporting best, worst and average
//! across all three makes that visible instead of hiding it behind a single
//! number.
//!
//! What is run and what is said is decided here. Running a kernel, reading the
//! counter and turning counts into rates is the caller's.

use crate::log::{hex_field, Log};
use crate::text::{digits, from_nothing, holds, utf8};
use vstd::prelude::*;
use vstd::string::*;

verus! {

/// Which family of work a benchmark run exercises.
#[derive(Debug, Clone, Copy, PartialEq, Eq, Structural)]
pub enum BenchMode {
    /// Microbenchmarks per instruction set family.
    CpuIsa,
    /// Cryptographic primitives.
    Crypto,
    /// Full TLS handshakes against a remote host.
    TlsHandshake,
}

impl Default for BenchMode {
    fn default() -> (r: BenchMode)
        ensures
            r == BenchMode::CpuIsa,
    {
        BenchMode::CpuIsa
    }
}

impl BenchMode {
    pub open spec fn title(self) -> Seq<char> {
        match self {
            BenchMode::CpuIsa => "CPU ISA kernels"@,
            BenchMode::Crypto => "Crypto (rustls/ring)"@,
            BenchMode::TlsHandshake => "TLS handshake (rustls)"@,
        }
    }

    pub fn name(self) -> (r: &'static str)
        ensures
            r@ == self.title(),
    {
        match self {
            BenchMode::CpuIsa => "CPU ISA kernels",
            BenchMode::Crypto => "Crypto (rustls/ring)",
            BenchMode::TlsHandshake => "TLS handshake (rustls)",
        }
    }

    /// Short label for the mode row in the benchmark panel.
    pub open spec fn caption(self) -> Seq<char> {
        match self {
            BenchMode::CpuIsa => "Mode 1: CPU ISA kernels"@,
            BenchMode::Crypto => "Mode 2: Crypto (rustls/ring)"@,
            BenchMode::TlsHandshake => "Mode 3: TLS handshake (rustls)"@,
        }
    }

    pub fn label(self) -> (r: &'static str)
        ensures
            r@ == self.caption(),
    {
        match self {
            BenchMode::CpuIsa => "Mode 1: CPU ISA kernels",
            BenchMode::Crypto => "Mode 2: Crypto (rustls/ring)",
            BenchMode::TlsHandshake => "Mode 3: TLS handshake (rustls)",
        }
    }

    /// Whether the mode can run here. The first two always can; a handshake
    /// needs a network, which cannot be established without trying, so it is
    /// reported as available and allowed to fail with a message.
    pub fn is_available(self) -> (r: bool)
        ensures
            r,
    {
        true
    }

    /// Every mode, in display order.
    pub open spec fn in_order() -> Seq<BenchMode> {
        seq![BenchMode::CpuIsa, BenchMode::Crypto, BenchMode::TlsHandshake]
    }

    pub fn all() -> (r: [BenchMode; 3])
        ensures
            r@ == BenchMode::in_order(),
    {
        let r: [BenchMode; 3] = [BenchMode::CpuIsa, BenchMode::Crypto, BenchMode::TlsHandshake];
        assert(r@ =~= seq![BenchMode::CpuIsa, BenchMode::Crypto, BenchMode::TlsHandshake]);
        r
    }
}

/// An instruction set family: what it is called, and whether this machine has
/// it.
#[derive(Debug, Clone, Copy)]
pub struct Backend {
    pub name: &'static str,
    pub available: bool,
}

/// What kind of work a primitive is.
#[derive(Debug, Clone, Copy, PartialEq, Eq, Structural)]
pub enum Primitive {
    Sha256,
    HmacSha256,
    /// A cipher that authenticates.
    Aead,
}

/// A cryptographic primitive.
#[derive(Debug, Clone, Copy)]
pub struct Algorithm {
    pub name: &'static str,
    pub primitive: Primitive,
}

/// Everything there is to benchmark on this machine.
pub struct Catalogue {
    pub backends: Vec<Backend>,
    pub algorithms: Vec<Algorithm>,
}

/// One selectable row in the benchmark panel.
#[derive(Debug, Clone, Copy)]
pub enum BenchKernel {
    /// Portable scalar baseline.
    Scalar,
    /// One family's kernel.
    Isa(Backend),
    /// One cryptographic primitive.
    Crypto(Algorithm),
    /// A TLS handshake against the configured host.
    Tls,
}

/// What `str::to_uppercase` makes of a string.
pub uninterp spec fn uppercased(s: Seq<char>) -> Seq<char>;

/// A letter of the ASCII alphabet in capitals; anything else as it is.
pub open spec fn capital(c: char) -> char {
    if 'a' <= c <= 'z' {
        (c as u32 - 32) as char
    } else {
        c
    }
}

/// `str::to_uppercase`: the capitals of a string, by the Unicode tables. Of
/// those only the ASCII part is stated: its letters become their capitals, and
/// nothing else of it changes. What happens beyond ASCII is left to the name.
#[verifier::external_body]
fn to_uppercase(s: &str) -> (r: String)
    ensures
        r@ == uppercased(s@),
        vstd::utf8::is_ascii_chars(s@) ==> r@ == Seq::new(s@.len(), |i: int| capital(s@[i])),
{
    s.to_uppercase()
}

impl BenchKernel {
    pub open spec fn title(self) -> Seq<char> {
        match self {
            BenchKernel::Scalar => "Scalar baseline"@,
            BenchKernel::Isa(b) => uppercased(b.name@),
            BenchKernel::Crypto(a) => a.name@,
            BenchKernel::Tls => "TLS 1.3 handshake"@,
        }
    }

    pub fn name(self) -> (r: String)
        ensures
            r@ == self.title(),
            self matches BenchKernel::Isa(b) ==> vstd::utf8::is_ascii_chars(b.name@) ==> r@
                == Seq::new(b.name@.len(), |i: int| capital(b.name@[i])),
    {
        match self {
            BenchKernel::Scalar => "Scalar baseline".to_owned(),
            BenchKernel::Isa(b) => to_uppercase(b.name),
            BenchKernel::Crypto(a) => a.name.to_owned(),
            BenchKernel::Tls => "TLS 1.3 handshake".to_owned(),
        }
    }

    pub open spec fn runs_here(self) -> bool {
        self matches BenchKernel::Isa(b) ==> b.available
    }

    /// Whether this machine can run the kernel.
    pub fn is_available(self) -> (r: bool)
        ensures
            r == self.runs_here(),
    {
        match self {
            BenchKernel::Isa(b) => b.available,
            _ => true,
        }
    }

    pub open spec fn belongs_to(self) -> BenchMode {
        match self {
            BenchKernel::Scalar => BenchMode::CpuIsa,
            BenchKernel::Isa(_) => BenchMode::CpuIsa,
            BenchKernel::Crypto(_) => BenchMode::Crypto,
            BenchKernel::Tls => BenchMode::TlsHandshake,
        }
    }

    /// Which mode this kernel belongs to.
    pub fn mode(self) -> (r: BenchMode)
        ensures
            r == self.belongs_to(),
    {
        match self {
            BenchKernel::Scalar => BenchMode::CpuIsa,
            BenchKernel::Isa(_) => BenchMode::CpuIsa,
            BenchKernel::Crypto(_) => BenchMode::Crypto,
            BenchKernel::Tls => BenchMode::TlsHandshake,
        }
    }

    /// The rows a mode offers, in display order.
    pub open spec fn rows(mode: BenchMode, catalogue: Catalogue) -> Seq<BenchKernel> {
        match mode {
            BenchMode::CpuIsa => seq![BenchKernel::Scalar] + Seq::new(
                catalogue.backends@.len(),
                |i: int| BenchKernel::Isa(catalogue.backends@[i]),
            ),
            BenchMode::Crypto => Seq::new(
                catalogue.algorithms@.len(),
                |i: int| BenchKernel::Crypto(catalogue.algorithms@[i]),
            ),
            BenchMode::TlsHandshake => seq![BenchKernel::Tls],
        }
    }

    /// The rows a given mode offers, in display order.
    pub fn rows_for(mode: BenchMode, catalogue: &Catalogue) -> (r: Vec<BenchKernel>)
        ensures
            r@ == BenchKernel::rows(mode, *catalogue),
    {
        let mut out: Vec<BenchKernel> = Vec::new();
        match mode {
            BenchMode::CpuIsa => {
                out.push(BenchKernel::Scalar);
                let mut i: usize = 0;
                while i < catalogue.backends.len()
                    invariant
                        i <= catalogue.backends@.len(),
                        out@ =~= seq![BenchKernel::Scalar] + Seq::new(
                            i as nat,
                            |k: int| BenchKernel::Isa(catalogue.backends@[k]),
                        ),
                    decreases catalogue.backends@.len() - i,
                {
                    out.push(BenchKernel::Isa(catalogue.backends[i]));
                    i += 1;
                }
            },
            BenchMode::Crypto => {
                let mut i: usize = 0;
                while i < catalogue.algorithms.len()
                    invariant
                        i <= catalogue.algorithms@.len(),
                        out@ =~= Seq::new(
                            i as nat,
                            |k: int| BenchKernel::Crypto(catalogue.algorithms@[k]),
                        ),
                    decreases catalogue.algorithms@.len() - i,
                {
                    out.push(BenchKernel::Crypto(catalogue.algorithms[i]));
                    i += 1;
                }
            },
            BenchMode::TlsHandshake => {
                out.push(BenchKernel::Tls);
            },
        }
        assert(out@ =~= BenchKernel::rows(mode, *catalogue));
        out
    }
}

/// Every mode offers rows, and every row reports the mode it came from.
pub proof fn rows_report_their_mode(mode: BenchMode, catalogue: Catalogue, i: int)
    requires
        catalogue.algorithms@.len() > 0,
        0 <= i < BenchKernel::rows(mode, catalogue).len(),
    ensures
        BenchKernel::rows(mode, catalogue).len() > 0,
        BenchKernel::rows(mode, catalogue)[i].belongs_to() == mode,
{
}

// ---------------------------------------------------------------------------
// The schedule
// ---------------------------------------------------------------------------

/// Payload size for a crypto kernel. Large enough that per-call setup does not
/// dominate, small enough to stay in L2 so the number reflects the cipher
/// rather than memory bandwidth.
pub const CRYPTO_PAYLOAD_BYTES: usize = 16_384;

/// Iteration schedule and unit accounting for one kernel.
#[derive(Debug)]
pub struct BenchProfile {
    pub title: String,
    /// What the kernel actually executes, in one sentence.
    pub description: String,
    /// What "one op" means, so a rate figure can be interpreted.
    pub unit: String,
    pub ops_per_loop: u64,
    pub bytes_per_op: u64,
    /// Loop counts for the three passes.
    pub loops: [usize; 3],
    /// Repeat counts for the three passes.
    pub repeats: [u32; 3],
}

/// What a kernel does, in one sentence. `size` is how the payload's size is
/// written.
pub open spec fn description_of(kernel: BenchKernel, size: Seq<char>) -> Seq<char> {
    match kernel {
        BenchKernel::Crypto(a) => "real "@ + a.name@ + " over a "@ + size
            + " buffer, through the rustls crypto provider"@,
        BenchKernel::Tls =>
            "full rustls handshake: TCP connect, ClientHello, certificate verification, key exchange"@,
        _ =>
            "inline-asm ISA microbenchmark; dispatch is gated by CPUID + XGETBV before the kernel is reached"@,
    }
}

/// What one operation of a kernel is.
pub open spec fn unit_of(kernel: BenchKernel) -> Seq<char> {
    match kernel {
        BenchKernel::Crypto(a) => "1 op = 1 "@ + a.name@ + " call over the payload"@,
        BenchKernel::Tls => "1 op = 1 complete handshake"@,
        _ => "1 op = 1 kernel iteration"@,
    }
}

/// How often the `i`th pass loops, and how often it repeats that.
pub open spec fn loops_of(kernel: BenchKernel, i: int) -> int {
    match kernel {
        BenchKernel::Crypto(_) => 1_500 * (i + 1),
        BenchKernel::Tls => i + 1,
        _ => 300_000 * (i + 1),
    }
}

pub open spec fn repeats_of(kernel: BenchKernel, i: int) -> int {
    match kernel {
        BenchKernel::Tls => 1,
        _ => i + 1,
    }
}

/// How many bytes an operation handles.
pub open spec fn bytes_of(kernel: BenchKernel, payload_bytes: int) -> int {
    match kernel {
        BenchKernel::Crypto(_) => payload_bytes,
        BenchKernel::Tls => 0,
        _ => 8,
    }
}

impl BenchProfile {
    /// Whether this is the profile of a kernel over a payload, of a size said
    /// in words.
    pub open spec fn is_of(self, kernel: BenchKernel, payload_bytes: int, size: Seq<char>) -> bool {
        &&& self.title@ == kernel.title()
        &&& self.description@ == description_of(kernel, size)
        &&& self.unit@ == unit_of(kernel)
        &&& self.ops_per_loop == 1
        &&& self.bytes_per_op == bytes_of(kernel, payload_bytes)
        &&& forall|i: int| 0 <= i < 3 ==> #[trigger] self.loops@[i] == loops_of(kernel, i)
        &&& forall|i: int| 0 <= i < 3 ==> #[trigger] self.repeats@[i] == repeats_of(kernel, i)
    }

    /// Schedule for `kernel`, sized so each pass runs long enough to dominate
    /// counter overhead but stays under a second. Handshakes are seconds-scale
    /// and network-bound, so their schedule is tiny.
    pub fn for_kernel(kernel: BenchKernel, payload_bytes: usize, size: &str) -> (r: BenchProfile)
        ensures
            r.is_of(kernel, payload_bytes as int, size@),
    {
        let title: String = kernel.name();
        match kernel {
            BenchKernel::Crypto(algorithm) => {
                let description: String = "real ".to_owned().concat(algorithm.name).concat(
                    " over a ",
                ).concat(size).concat(" buffer, through the rustls crypto provider");
                let unit: String = "1 op = 1 ".to_owned().concat(algorithm.name).concat(
                    " call over the payload",
                );
                BenchProfile {
                    title,
                    description,
                    unit,
                    ops_per_loop: 1,
                    bytes_per_op: payload_bytes as u64,
                    loops: [1_500, 3_000, 4_500],
                    repeats: [1, 2, 3],
                }
            },
            BenchKernel::Tls => BenchProfile {
                title,
                description:
                    "full rustls handshake: TCP connect, ClientHello, certificate verification, key exchange".to_owned(),
                unit: "1 op = 1 complete handshake".to_owned(),
                ops_per_loop: 1,
                bytes_per_op: 0,
                loops: [1, 2, 3],
                repeats: [1, 1, 1],
            },
            _ => BenchProfile {
                title,
                description:
                    "inline-asm ISA microbenchmark; dispatch is gated by CPUID + XGETBV before the kernel is reached".to_owned(),
                unit: "1 op = 1 kernel iteration".to_owned(),
                ops_per_loop: 1,
                bytes_per_op: 8,
                loops: [300_000, 600_000, 900_000],
                repeats: [1, 2, 3],
            },
        }
    }
}

/// A mode's rows are all there is to run in it, in the order they are listed:
/// the baseline and then every family, every primitive, or the handshake. Only a
/// family that this machine lacks cannot run.
pub proof fn rows_are_what_there_is(catalogue: Catalogue, i: int, kernel: BenchKernel)
    ensures
        ({
            let isa = BenchKernel::rows(BenchMode::CpuIsa, catalogue);
            let crypto = BenchKernel::rows(BenchMode::Crypto, catalogue);
            let tls = BenchKernel::rows(BenchMode::TlsHandshake, catalogue);
            &&& isa.len() == catalogue.backends@.len() + 1 && isa[0] is Scalar
            &&& 0 <= i < catalogue.backends@.len() ==> isa[i + 1] == BenchKernel::Isa(
                catalogue.backends@[i],
            )
            &&& crypto.len() == catalogue.algorithms@.len()
            &&& 0 <= i < catalogue.algorithms@.len() ==> crypto[i] == BenchKernel::Crypto(
                catalogue.algorithms@[i],
            )
            &&& tls.len() == 1 && tls[0] is Tls
        }),
        kernel matches BenchKernel::Isa(b) ==> kernel.runs_here() == b.available,
        !(kernel is Isa) ==> kernel.runs_here(),
        kernel.belongs_to() == (if kernel is Crypto {
            BenchMode::Crypto
        } else if kernel is Tls {
            BenchMode::TlsHandshake
        } else {
            BenchMode::CpuIsa
        }),
{
}

/// What a kernel is called and how it is scheduled: 300, 600 and 900 thousand
/// loops of eight bytes for a family, 1500, 3000 and 4500 over the payload for a
/// primitive, each repeated once, twice and three times; and one handshake a
/// pass.
pub proof fn the_schedule_is_the_kernels(kernel: BenchKernel, payload: int)
    ensures
        kernel is Scalar || kernel is Isa ==> loops_of(kernel, 0) == 300_000 && loops_of(kernel, 1)
            == 600_000 && loops_of(kernel, 2) == 900_000 && bytes_of(kernel, payload) == 8,
        kernel is Crypto ==> loops_of(kernel, 0) == 1_500 && loops_of(kernel, 1) == 3_000
            && loops_of(kernel, 2) == 4_500 && bytes_of(kernel, payload) == payload,
        kernel is Tls ==> loops_of(kernel, 0) == 1 && loops_of(kernel, 1) == 2 && loops_of(kernel, 2)
            == 3 && bytes_of(kernel, payload) == 0,
        kernel is Tls ==> repeats_of(kernel, 0) == 1 && repeats_of(kernel, 1) == 1 && repeats_of(
            kernel,
            2,
        ) == 1,
        !(kernel is Tls) ==> repeats_of(kernel, 0) == 1 && repeats_of(kernel, 1) == 2
            && repeats_of(kernel, 2) == 3,
        kernel matches BenchKernel::Crypto(a) ==> kernel.title() == a.name@ && unit_of(kernel)
            == "1 op = 1 "@ + a.name@ + " call over the payload"@,
        kernel matches BenchKernel::Isa(b) ==> kernel.title() == uppercased(b.name@),
        kernel is Scalar ==> kernel.title() == "Scalar baseline"@,
        kernel is Tls ==> kernel.title() == "TLS 1.3 handshake"@,
{
}

/// Every pass does something, and every pass does more than the one before
/// it.
pub proof fn passes_grow(kernel: BenchKernel, i: int)
    requires
        0 <= i < 2,
    ensures
        0 < loops_of(kernel, i) < loops_of(kernel, i + 1),
        0 < repeats_of(kernel, i) <= repeats_of(kernel, i + 1),
{
}

// ---------------------------------------------------------------------------
// The work
// ---------------------------------------------------------------------------

/// A byte of the payload.
pub open spec fn payload_byte(i: int) -> int {
    i * 31 % 256
}

/// What a crypto kernel works on.
pub fn payload() -> (r: Vec<u8>)
    ensures
        r@.len() == CRYPTO_PAYLOAD_BYTES,
        forall|i: int| 0 <= i < r@.len() ==> #[trigger] r@[i] == payload_byte(i),
{
    let mut out: Vec<u8> = Vec::new();
    let mut i: usize = 0;
    while i < CRYPTO_PAYLOAD_BYTES
        invariant
            i <= CRYPTO_PAYLOAD_BYTES,
            out@.len() == i,
            forall|k: int| 0 <= k < i ==> #[trigger] out@[k] == payload_byte(k),
        decreases CRYPTO_PAYLOAD_BYTES - i,
    {
        out.push((i * 31 % 256) as u8);
        i += 1;
    }
    out
}

/// What a kernel needs besides the kernel, so that setting it up does not land
/// inside the timed region.
#[derive(Debug)]
pub enum Workload {
    Isa(BenchKernel),
    Hash { payload: Vec<u8>, hmac: bool },
    /// `begun` counts the iterations that a nonce was set aside for.
    Aead { algorithm: Algorithm, payload: Vec<u8>, nonce: [u8; 12], begun: u64 },
}

/// Whether this is what a kernel's work is set up as.
pub open spec fn is_work_of(r: Result<Workload, &'static str>, kernel: BenchKernel) -> bool {
    match kernel {
        BenchKernel::Crypto(a) => match a.primitive {
            Primitive::Aead => r matches Ok(Workload::Aead { algorithm, payload, nonce, begun })
                && algorithm == a && nonce@ == Seq::new(12, |i: int| 0u8) && begun == 0
                && is_payload(payload@),
            _ => r matches Ok(Workload::Hash { payload, hmac }) && hmac == (a.primitive
                == Primitive::HmacSha256) && is_payload(payload@),
        },
        BenchKernel::Tls => r matches Err(reason) && reason@ == "TLS is measured by run_tls"@,
        _ => r matches Ok(Workload::Isa(k)) && k == kernel,
    }
}

/// A hash is worked with or without a key as its name says, a cipher from a
/// nonce of zeros with nothing sealed yet, both over 16 KiB of which each byte is
/// thirty-one more than the one before; a handshake has no work of its own.
pub proof fn what_a_kernel_works_on(r: Result<Workload, &'static str>, kernel: BenchKernel, i: int)
    requires
        is_work_of(r, kernel),
        0 <= i < 16_383,
    ensures
        kernel is Tls <==> r is Err,
        kernel is Scalar || kernel is Isa ==> (r matches Ok(Workload::Isa(k)) && k == kernel),
        kernel matches BenchKernel::Crypto(a) ==> match r {
            Ok(Workload::Aead { algorithm, payload, nonce, begun }) => a.primitive
                == Primitive::Aead && algorithm == a && payload@.len() == 16_384 && payload@[0] == 0
                && payload@[i + 1] == (payload@[i] + 31) % 256 && nonce@[11] == 0 && nonce@[0] == 0
                && begun == 0,
            Ok(Workload::Hash { payload, hmac }) => a.primitive != Primitive::Aead && hmac == (
            a.primitive == Primitive::HmacSha256) && payload@.len() == 16_384 && payload@[0] == 0
                && payload@[i + 1] == (payload@[i] + 31) % 256,
            _ => false,
        },
{
    assert(payload_byte(i + 1) == (payload_byte(i) + 31) % 256) by {
        assert((i + 1) * 31 == i * 31 + 31);
    }
    assert(payload_byte(0) == 0);
}

impl Workload {
    /// The work of a kernel. A handshake is not timed by the counter, so it
    /// has none.
    pub fn new(kernel: BenchKernel) -> (r: Result<Workload, &'static str>)
        ensures
            is_work_of(r, kernel),
    {
        match kernel {
            BenchKernel::Crypto(algorithm) => {
                if algorithm.primitive == Primitive::Aead {
                    let nonce: [u8; 12] = [0u8; 12];
                    assert(nonce@ =~= Seq::new(12, |i: int| 0u8));
                    Ok(Workload::Aead { algorithm, payload: payload(), nonce, begun: 0 })
                } else {
                    Ok(
                        Workload::Hash {
                            payload: payload(),
                            hmac: algorithm.primitive == Primitive::HmacSha256,
                        },
                    )
                }
            },
            BenchKernel::Tls => Err("TLS is measured by run_tls"),
            _ => Ok(Workload::Isa(kernel)),
        }
    }

    /// How many iterations a nonce was set aside for. Only a cipher has any.
    pub open spec fn begun(self) -> u64 {
        match self {
            Workload::Aead { begun, .. } => begun,
            _ => 0,
        }
    }

    /// The same work with a nonce set aside for `loops` iterations more.
    pub open spec fn with_reserved(self, loops: usize) -> Workload {
        match self {
            Workload::Aead { algorithm, payload, nonce, begun } => Workload::Aead {
                algorithm,
                payload,
                nonce,
                begun: (begun + loops) as u64,
            },
            other => other,
        }
    }

    /// Sets nonces aside for the next `loops` iterations and returns the number
    /// of the first. The numbers go on from one repeat and one pass to the
    /// next, since all of them seal under one key.
    pub fn reserve(&mut self, loops: usize) -> (first: u64)
        requires
            old(self).begun() + loops <= u64::MAX,
        ensures
            first == old(self).begun(),
            *final(self) == old(self).with_reserved(loops),
    {
        match self {
            Workload::Aead { begun, .. } => {
                let first: u64 = *begun;
                *begun = first + loops as u64;
                first
            },
            _ => 0,
        }
    }
}

/// Whether bytes are the payload.
pub open spec fn is_payload(bytes: Seq<u8>) -> bool {
    &&& bytes.len() == CRYPTO_PAYLOAD_BYTES
    &&& forall|i: int| 0 <= i < bytes.len() ==> #[trigger] bytes[i] == payload_byte(i)
}

/// What is said where a key could not be built.
pub fn key_failure(algorithm: &Algorithm, reason: &str) -> (r: String)
    ensures
        r@ == "could not build "@ + algorithm.name@ + " key: "@ + reason@,
{
    "could not build ".to_owned().concat(algorithm.name).concat(" key: ").concat(reason)
}

/// The number eight bytes stand for, least significant first.
pub open spec fn word_of(bytes: Seq<u8>) -> int {
    bytes[0] + 0x100 * bytes[1] + 0x1_0000 * bytes[2] + 0x100_0000 * bytes[3] + 0x1_0000_0000
        * bytes[4] + 0x100_0000_0000 * bytes[5] + 0x1_0000_0000_0000 * bytes[6]
        + 0x100_0000_0000_0000 * bytes[7]
}

/// The number eight bytes stand for, from a place on.
fn word_at(bytes: &[u8], at: usize) -> (r: u64)
    requires
        at + 8 <= bytes@.len(),
    ensures
        r == word_of(bytes@.subrange(at as int, at + 8)),
{
    bytes[at] as u64 + 0x100 * bytes[at + 1] as u64 + 0x1_0000 * bytes[at + 2] as u64 + 0x100_0000
        * bytes[at + 3] as u64 + 0x1_0000_0000 * bytes[at + 4] as u64 + 0x100_0000_0000 * bytes[at
        + 5] as u64 + 0x1_0000_0000_0000 * bytes[at + 6] as u64 + 0x100_0000_0000_0000 * bytes[at
        + 7] as u64
}

/// The word a digest starts with.
pub fn leading_word(digest: &[u8]) -> (r: u64)
    requires
        digest@.len() >= 8,
    ensures
        r == word_of(digest@.take(8)),
{
    assert(digest@.subrange(0, 8) =~= digest@.take(8));
    word_at(digest, 0)
}

/// The word a sealed buffer ends with.
pub fn trailing_word(sealed: &[u8]) -> (r: u64)
    requires
        sealed@.len() >= 8,
    ensures
        r == word_of(sealed@.skip(sealed@.len() - 8)),
{
    assert(sealed@.subrange(sealed@.len() - 8, sealed@.len() as int) =~= sealed@.skip(
        sealed@.len() - 8,
    ));
    word_at(sealed, sealed.len() - 8)
}

/// Puts an iteration's number into a nonce. A fresh nonce per iteration: reuse
/// under one key would be a real vulnerability even in a benchmark.
pub fn stamp(nonce: &mut [u8; 12], i: u64)
    ensures
        final(nonce)@ == stamped(old(nonce)@, i),
{
    nonce[0] = (i % 0x100) as u8;
    nonce[1] = (i / 0x100 % 0x100) as u8;
    nonce[2] = (i / 0x1_0000 % 0x100) as u8;
    nonce[3] = (i / 0x100_0000 % 0x100) as u8;
    nonce[4] = (i / 0x1_0000_0000 % 0x100) as u8;
    nonce[5] = (i / 0x100_0000_0000 % 0x100) as u8;
    nonce[6] = (i / 0x1_0000_0000_0000 % 0x100) as u8;
    nonce[7] = (i / 0x100_0000_0000_0000 % 0x100) as u8;
    assert(nonce@ =~= stamped(old(nonce)@, i));
}

/// A nonce with a number in its first eight bytes, least significant first.
pub open spec fn stamped(nonce: Seq<u8>, i: u64) -> Seq<u8> {
    seq![
        (i % 0x100) as u8,
        (i / 0x100 % 0x100) as u8,
        (i / 0x1_0000 % 0x100) as u8,
        (i / 0x100_0000 % 0x100) as u8,
        (i / 0x1_0000_0000 % 0x100) as u8,
        (i / 0x100_0000_0000 % 0x100) as u8,
        (i / 0x1_0000_0000_0000 % 0x100) as u8,
        (i / 0x100_0000_0000_0000 % 0x100) as u8,
    ] + nonce.skip(8)
}

/// Different numbers make different nonces: the number can be read back from a
/// nonce, whatever was there before.
pub proof fn nonces_are_fresh(a: Seq<u8>, b: Seq<u8>, i: u64, j: u64)
    requires
        a.len() == 12,
        b.len() == 12,
    ensures
        word_of(stamped(a, i)) == i,
        i != j ==> stamped(a, i) != stamped(b, j),
{
    stamps_read_back(a, i);
    stamps_read_back(b, j);
}

/// The number goes into the first eight bytes and the last four stay.
pub proof fn a_stamp_keeps_the_rest(nonce: Seq<u8>, i: u64, k: int)
    requires
        nonce.len() == 12,
        8 <= k < 12,
    ensures
        stamped(nonce, i).len() == 12,
        stamped(nonce, i)[k] == nonce[k],
        stamped(nonce, i)[0] == i % 256,
{
}

/// No nonce is used twice under one key: an iteration of one execution and an
/// iteration of any later one have different nonces, whatever was set aside in
/// between.
pub proof fn executions_share_no_nonce(
    before: Workload,
    loops: usize,
    later: Workload,
    nonce: Seq<u8>,
    i: usize,
    j: usize,
)
    requires
        before is Aead,
        nonce.len() == 12,
        before.begun() + loops <= u64::MAX,
        before.with_reserved(loops).begun() <= later.begun(),
        i < loops,
        later.begun() + j <= u64::MAX,
    ensures
        stamped(nonce, (before.begun() + i) as u64) != stamped(nonce, (later.begun() + j) as u64),
{
    nonces_are_fresh(nonce, nonce, (before.begun() + i) as u64, (later.begun() + j) as u64);
}

/// The number in a nonce can be read back from it.
proof fn stamps_read_back(nonce: Seq<u8>, i: u64)
    requires
        nonce.len() == 12,
    ensures
        word_of(stamped(nonce, i)) == i,
{
    let q1 = i / 0x100;
    let q2 = q1 / 0x100;
    let q3 = q2 / 0x100;
    let q4 = q3 / 0x100;
    let q5 = q4 / 0x100;
    let q6 = q5 / 0x100;
    let q7 = q6 / 0x100;
    assert(i / 0x1_0000 == q2);
    assert(i / 0x100_0000 == q3) by {
        assert(i / 0x100_0000 == i / 0x1_0000 / 0x100);
    }
    assert(i / 0x1_0000_0000 == q4) by {
        assert(i / 0x1_0000_0000 == i / 0x100_0000 / 0x100);
    }
    assert(i / 0x100_0000_0000 == q5) by {
        assert(i / 0x100_0000_0000 == i / 0x1_0000_0000 / 0x100);
    }
    assert(i / 0x1_0000_0000_0000 == q6) by {
        assert(i / 0x1_0000_0000_0000 == i / 0x100_0000_0000 / 0x100);
    }
    assert(i / 0x100_0000_0000_0000 == q7) by {
        assert(i / 0x100_0000_0000_0000 == i / 0x1_0000_0000_0000 / 0x100);
    }
    assert(q7 < 0x100);
    let s = stamped(nonce, i);
    assert(s[0] == i % 0x100 && s[1] == q1 % 0x100 && s[2] == q2 % 0x100 && s[3] == q3 % 0x100);
    assert(s[4] == q4 % 0x100 && s[5] == q5 % 0x100 && s[6] == q6 % 0x100 && s[7] == q7);
    assert(q6 == s[6] + 0x100 * s[7]);
    assert(q5 == s[5] + 0x100 * q6);
    assert(q4 == s[4] + 0x100 * q5);
    assert(q3 == s[3] + 0x100 * q4);
    assert(q2 == s[2] + 0x100 * q3);
    assert(q1 == s[1] + 0x100 * q2);
    assert(i == s[0] + 0x100 * q1);
}

/// The outside work of one iteration: the word it left, or nothing where it
/// failed.
pub struct Work<F: Fn(usize) -> Option<u64>> {
    pub step: F,
}

impl<F: Fn(usize) -> Option<u64>> Work<F> {
    /// What an iteration leaves.
    pub open spec fn at(self, i: usize) -> Option<u64> {
        choose|word: Option<u64>| call_ensures(self.step, (i,), word)
    }

    /// Every iteration can be run, and always leaves the same.
    pub open spec fn wf(self) -> bool {
        &&& forall|i: usize| #[trigger] call_requires(self.step, (i,))
        &&& forall|i: usize, word: Option<u64>| #[trigger]
            call_ensures(self.step, (i,), word) ==> word == self.at(i)
    }

    /// What the first `n` iterations accumulate, up to the first that fails.
    /// A hash is mixed with the iteration's number, since its input does not
    /// change; a cipher's nonce does.
    pub open spec fn sink(self, n: nat, numbered: bool) -> u64
        decreases n,
    {
        if n == 0 {
            0
        } else {
            let i = (n - 1) as usize;
            let before = self.sink((n - 1) as nat, numbered);
            match self.at(i) {
                Some(word) => if self.failed_before(i as nat) {
                    before
                } else if numbered {
                    before ^ (word ^ (i as u64))
                } else {
                    before ^ word
                },
                None => before,
            }
        }
    }

    /// Whether one of the first `n` failed.
    pub open spec fn failed_before(self, n: nat) -> bool {
        exists|i: usize| i < n && (#[trigger] self.at(i)) is None
    }

    /// Nothing accumulates after a failure.
    proof fn sink_stops(self, from: nat, to: nat, numbered: bool)
        requires
            from < to <= usize::MAX,
            self.at(from as usize) is None,
        ensures
            self.sink(to, numbered) == self.sink(from, numbered),
        decreases to,
    {
        if to > from + 1 {
            self.sink_stops(from, (to - 1) as nat, numbered);
            assert(self.failed_before((to - 1) as nat)) by {
                assert(self.at(from as usize) is None);
            }
        }
    }

    /// Runs `loops` iterations and returns an accumulator derived from the
    /// output, which the caller keeps live.
    pub fn execute(&self, loops: usize, numbered: bool) -> (r: u64)
        requires
            self.wf(),
        ensures
            r == self.sink(loops as nat, numbered),
    {
        let mut sink: u64 = 0;
        let mut i: usize = 0;
        while i < loops
            invariant
                self.wf(),
                i <= loops,
                !self.failed_before(i as nat),
                sink == self.sink(i as nat, numbered),
            decreases loops - i,
        {
            let word: Option<u64> = (self.step)(i);
            assert(word == self.at(i));
            match word {
                Some(word) => {
                    if numbered {
                        sink = sink ^ (word ^ (i as u64));
                    } else {
                        sink = sink ^ word;
                    }
                },
                None => {
                    proof {
                        self.sink_stops(i as nat, loops as nat, numbered);
                    }
                    return sink;
                },
            }
            i += 1;
        }
        sink
    }
}

/// The words of the iterations are mixed together, each once, and a hash's with
/// its number as well; the first iteration that fails ends it, and what was
/// mixed before stays.
pub proof fn every_word_is_mixed_in<F: Fn(usize) -> Option<u64>>(
    work: Work<F>,
    n: usize,
    m: usize,
    numbered: bool,
)
    requires
        n < m,
    ensures
        work.sink(0, numbered) == 0,
        (forall|i: usize| i <= n ==> (#[trigger] work.at(i)) is Some) ==> work.sink(
            (n + 1) as nat,
            false,
        ) == work.sink(n as nat, false) ^ work.at(n)->0,
        (forall|i: usize| i <= n ==> (#[trigger] work.at(i)) is Some) ==> work.sink(
            (n + 1) as nat,
            true,
        ) == work.sink(n as nat, true) ^ (work.at(n)->0 ^ n as u64),
        work.at(n) is None ==> work.sink(m as nat, numbered) == work.sink(n as nat, numbered),
{
    if forall|i: usize| i <= n ==> (#[trigger] work.at(i)) is Some {
        assert(!work.failed_before(n as nat));
    }
    if work.at(n) is None {
        work.sink_stops(n as nat, m as nat, numbered);
    }
}

// ---------------------------------------------------------------------------
// What a pass counts
// ---------------------------------------------------------------------------

/// What was counted in one pass. Rates are the caller's to work out.
#[derive(Debug, Clone, Copy, PartialEq, Eq, Structural)]
pub struct PassCounts {
    pub pass: u32,
    pub repeats: u32,
    pub loops: usize,
    pub cycles: u64,
    pub total_ops: u64,
    pub total_bytes: u64,
    /// Accumulated output, kept so the work cannot be optimised away.
    pub sink: u64,
}

impl PassCounts {
    /// What a pass that ran from one counter value to another comes to.
    pub open spec fn counted(
        profile: BenchProfile,
        pass: u32,
        repeats: u32,
        loops: usize,
        start: u64,
        end: u64,
        sink: u64,
    ) -> PassCounts {
        PassCounts {
            pass,
            repeats,
            loops,
            cycles: ((end - start) % 0x1_0000_0000_0000_0000) as u64,
            total_ops: (repeats * loops * profile.ops_per_loop) as u64,
            total_bytes: (repeats * loops * profile.ops_per_loop * profile.bytes_per_op) as u64,
            sink,
        }
    }

    /// Counts a pass that ran from one counter value to another.
    pub fn new(
        profile: &BenchProfile,
        pass: u32,
        repeats: u32,
        loops: usize,
        start: u64,
        end: u64,
        sink: u64,
    ) -> (r: PassCounts)
        requires
            repeats * loops * profile.ops_per_loop <= u64::MAX,
            repeats * loops * profile.ops_per_loop * profile.bytes_per_op <= u64::MAX,
            repeats * loops <= u64::MAX,
        ensures
            r == PassCounts::counted(*profile, pass, repeats, loops, start, end, sink),
    {
        let total_ops: u64 = repeats as u64 * loops as u64 * profile.ops_per_loop;
        PassCounts {
            pass,
            repeats,
            loops,
            cycles: end.wrapping_sub(start),
            total_ops,
            total_bytes: total_ops * profile.bytes_per_op,
            sink,
        }
    }
}

/// A pass took what passed on the counter, even where it rolled over; it did
/// its loops as often as they were repeated, each as many operations as the
/// kernel has, and handled the bytes of all of them.
pub proof fn a_pass_counts_what_it_did(
    profile: BenchProfile,
    pass: u32,
    repeats: u32,
    loops: usize,
    start: u64,
    end: u64,
    sink: u64,
)
    requires
        repeats * loops * profile.ops_per_loop <= u64::MAX,
        repeats * loops * profile.ops_per_loop * profile.bytes_per_op <= u64::MAX,
    ensures
        ({
            let c = PassCounts::counted(profile, pass, repeats, loops, start, end, sink);
            &&& start <= end ==> c.cycles == end - start
            &&& end < start ==> c.cycles == 0x1_0000_0000_0000_0000 - (start - end)
            &&& c.total_ops == repeats * loops * profile.ops_per_loop
            &&& c.total_bytes == c.total_ops * profile.bytes_per_op
            &&& c.pass == pass && c.repeats == repeats && c.loops == loops && c.sink == sink
        }),
{
    assert(0 <= repeats * loops) by (nonlinear_arith);
    assert(0 <= repeats * loops * profile.ops_per_loop) by (nonlinear_arith)
        requires
            0 <= repeats * loops,
    ;
    assert(0 <= repeats * loops * profile.ops_per_loop * profile.bytes_per_op) by (nonlinear_arith)
        requires
            0 <= repeats * loops * profile.ops_per_loop,
    ;
}

/// The cycles of a run are those of its passes together, as far as they can be
/// counted.
pub proof fn cycles_add_up(passes: Seq<PassCounts>, more: PassCounts)
    ensures
        cycles_over(seq![]) == 0,
        ({
            let sum = cycles_over(passes) + more.cycles;
            &&& sum <= u64::MAX ==> cycles_over(passes.push(more)) == sum
            &&& sum > u64::MAX ==> cycles_over(passes.push(more)) == u64::MAX
        }),
{
    assert(passes.push(more).drop_last() =~= passes);
}

/// A pass a run asks for can always be counted: what it does, and the bytes it
/// handles, fit the numbers they are counted in.
pub proof fn a_pass_can_be_counted(
    profile: BenchProfile,
    kernel: BenchKernel,
    size: Seq<char>,
    i: int,
)
    requires
        profile.is_of(kernel, CRYPTO_PAYLOAD_BYTES as int, size) || profile.is_of(kernel, 0, size),
        0 <= i < 3,
    ensures
        profile.repeats@[i] * profile.loops@[i] <= u64::MAX,
        profile.repeats@[i] * profile.loops@[i] * profile.ops_per_loop <= u64::MAX,
        profile.repeats@[i] * profile.loops@[i] * profile.ops_per_loop * profile.bytes_per_op
            <= u64::MAX,
{
    let repeats = profile.repeats@[i] as int;
    let loops = profile.loops@[i] as int;
    let bytes = profile.bytes_per_op as int;
    assert(repeats * loops <= 3 * 900_000 && repeats * loops * 1 * bytes <= 3 * 900_000
        * CRYPTO_PAYLOAD_BYTES) by (nonlinear_arith)
        requires
            0 <= repeats <= 3,
            0 <= loops <= 900_000,
            0 <= bytes <= CRYPTO_PAYLOAD_BYTES,
    ;
}

/// Cycles over several passes, saturating.
pub open spec fn cycles_over(passes: Seq<PassCounts>) -> int
    decreases passes.len(),
{
    if passes.len() == 0 {
        0
    } else {
        let sum = cycles_over(passes.drop_last()) + passes.last().cycles;
        if sum > u64::MAX {
            u64::MAX as int
        } else {
            sum
        }
    }
}

/// Cycles over several passes, saturating.
pub fn total_cycles(passes: &Vec<PassCounts>) -> (r: u64)
    ensures
        r == cycles_over(passes@),
{
    let mut total: u64 = 0;
    let mut i: usize = 0;
    assert(passes@.take(0) =~= Seq::<PassCounts>::empty());
    while i < passes.len()
        invariant
            i <= passes@.len(),
            total == cycles_over(passes@.take(i as int)),
        decreases passes@.len() - i,
    {
        assert(passes@.take(i + 1).drop_last() =~= passes@.take(i as int));
        total = total.saturating_add(passes[i].cycles);
        i += 1;
    }
    assert(passes@.take(i as int) =~= passes@);
    total
}

// ---------------------------------------------------------------------------
// What is said
// ---------------------------------------------------------------------------

/// Knobs for a run.
#[derive(Debug)]
pub struct BenchConfig {
    pub mode: BenchMode,
    pub kernel: BenchKernel,
    /// Host for TLS runs.
    pub tls_host: String,
    pub tls_port: u16,
}

impl Default for BenchConfig {
    fn default() -> (r: BenchConfig)
        ensures
            r.mode == BenchMode::CpuIsa,
            r.kernel == BenchKernel::Scalar,
            r.tls_host@ == "www.rust-lang.org"@,
            r.tls_port == 443,
    {
        BenchConfig {
            mode: BenchMode::CpuIsa,
            kernel: BenchKernel::Scalar,
            tls_host: "www.rust-lang.org".to_owned(),
            tls_port: 443,
        }
    }
}

/// What this machine can do, as far as the header says.
#[derive(Debug, Clone, Copy)]
pub struct Flags {
    pub aesni: bool,
    pub shani: bool,
    pub vaes: bool,
    pub pclmulqdq: bool,
    pub avx: bool,
    pub avx2: bool,
    pub avx_vnni: bool,
    pub avx512f: bool,
}

/// What the header says of the machine. The counter's rate is written out in
/// megahertz.
#[derive(Debug, Clone, Copy)]
pub struct Header<'a> {
    pub backend: &'a str,
    pub simd: Option<&'a str>,
    pub mhz: &'a str,
    pub invariant: bool,
    pub provider: &'a str,
    pub flags: Flags,
}

/// One or zero.
pub open spec fn bit(value: bool) -> Seq<u8> {
    digits(
        if value {
            1
        } else {
            0
        },
    )
}

fn bit_of(value: bool) -> (r: u64)
    ensures
        bit(value) == digits(r as nat),
{
    if value {
        1
    } else {
        0
    }
}

/// A string's bytes.
pub open spec fn encoded(s: Seq<char>) -> Seq<u8> {
    vstd::utf8::encode_utf8(s)
}

/// What is said of the processor.
pub open spec fn flags_text(f: Flags) -> Seq<u8> {
    (utf8("cpu flags: AES=") + bit(f.aesni) + utf8(" SHA=") + bit(f.shani) + utf8(" VAES=") + bit(
        f.vaes,
    ) + utf8(" PCLMUL=") + bit(f.pclmulqdq) + utf8(" AVX=") + bit(f.avx) + utf8(" AVX2=") + bit(
        f.avx2,
    ) + utf8(" AVX-VNNI=") + bit(f.avx_vnni) + utf8(" AVX512F=") + bit(f.avx512f)).push(10u8).push(
        10u8,
    )
}

fn write_flags(f: &Flags) -> (r: Log)
    ensures
        r@ == flags_text(*f),
{
    broadcast use from_nothing;

    let mut log = Log::new();
    log.str("cpu flags: AES=").num(bit_of(f.aesni)).str(" SHA=").num(bit_of(f.shani)).str(
        " VAES=",
    ).num(bit_of(f.vaes)).str(" PCLMUL=").num(bit_of(f.pclmulqdq)).str(" AVX=").num(
        bit_of(f.avx),
    ).str(" AVX2=").num(bit_of(f.avx2)).str(" AVX-VNNI=").num(bit_of(f.avx_vnni)).str(
        " AVX512F=",
    ).num(bit_of(f.avx512f)).end().end();
    log
}

/// What is said before anything runs.
pub open spec fn header_text(config: BenchConfig, h: Header) -> Seq<u8> {
    let named = (utf8("=== NanoChronometer benchmark ===").push(10u8) + utf8("operation: ")
        + encoded(config.kernel.title())).push(10u8) + utf8("mode: ") + encoded(
        config.mode.title(),
    );
    let backed = (named.push(10u8) + utf8("backend: ") + utf8(h.backend)).push(10u8) + utf8(
        "simd: ",
    ) + match h.simd {
        Some(name) => utf8(name),
        None => utf8("none"),
    };
    let counted = backed.push(10u8) + utf8("counter: ") + utf8(h.mhz) + utf8(" MHz  invariant=")
        + crate::log::truth(h.invariant);
    (counted.push(10u8) + utf8("crypto provider: ") + utf8(h.provider)).push(10u8) + flags_text(
        h.flags,
    )
}

fn write_header(config: &BenchConfig, h: &Header<'_>) -> (r: Log)
    ensures
        r@ == header_text(*config, *h),
{
    broadcast use from_nothing;

    let mut log = Log::new();
    log.str("=== NanoChronometer benchmark ===").end();
    log.str("operation: ").str(config.kernel.name().as_str()).end();
    log.str("mode: ").str(config.mode.name()).end();
    log.str("backend: ").str(h.backend).end();
    let simd: &str = match h.simd {
        Some(name) => name,
        None => "none",
    };
    log.str("simd: ").str(simd).end();
    log.str("counter: ").str(h.mhz).str(" MHz  invariant=").flag(h.invariant).end();
    log.str("crypto provider: ").str(h.provider).end();
    let mut flags = write_flags(&h.flags);
    log.bytes.append(&mut flags.bytes);
    log
}

/// What is said once the schedule is known.
pub open spec fn opening_text(config: BenchConfig, h: Header, size: Seq<char>) -> Seq<u8> {
    let described = (header_text(config, h) + utf8("warmup: ") + encoded(
        description_of(config.kernel, size),
    )).push(10u8) + utf8("unit: ") + encoded(unit_of(config.kernel));
    if config.kernel is Tls {
        (described.push(10u8) + utf8("target: ") + encoded(config.tls_host@) + utf8(":") + digits(
            config.tls_port as nat,
        )).push(10u8).push(10u8)
    } else {
        described.push(10u8).push(10u8)
    }
}

/// A pass's rates, written out. Throughput is only said where an operation
/// handles bytes.
#[derive(Debug, Clone, Copy)]
pub struct Rates<'a> {
    pub seconds: &'a str,
    pub mops: &'a str,
    pub cycles_per_op: &'a str,
    pub ns_per_op: &'a str,
    pub mib_per_second: &'a str,
}

/// What is said of a pass.
pub open spec fn pass_text(c: PassCounts, rates: Rates, with_bytes: bool) -> Seq<u8> {
    let counts = utf8("pass ") + digits(c.pass as nat) + utf8(": repeats=") + digits(
        c.repeats as nat,
    ) + utf8("  loops=") + digits(c.loops as nat) + utf8("  cycles=") + digits(c.cycles as nat);
    let timed = counts + utf8("  time=") + utf8(rates.seconds) + utf8(" s  rate=") + utf8(
        rates.mops,
    ) + utf8(" Mops/s  cyc/op=") + utf8(rates.cycles_per_op) + utf8("  ns/op=") + utf8(
        rates.ns_per_op,
    );
    let throughput = if with_bytes {
        timed + utf8("  MiB/s=") + utf8(rates.mib_per_second)
    } else {
        timed
    };
    (throughput + utf8("  sink=") + hex_field(c.sink as nat, 16)).push(10u8)
}

fn write_pass(c: &PassCounts, rates: &Rates<'_>, with_bytes: bool) -> (r: Log)
    ensures
        r@ == pass_text(*c, *rates, with_bytes),
{
    broadcast use from_nothing;

    let mut log = Log::new();
    log.str("pass ").num(c.pass as u64).str(": repeats=").num(c.repeats as u64).str(
        "  loops=",
    ).num(c.loops as u64).str("  cycles=").num(c.cycles);
    log.str("  time=").str(rates.seconds).str(" s  rate=").str(rates.mops).str(
        " Mops/s  cyc/op=",
    ).str(rates.cycles_per_op).str("  ns/op=").str(rates.ns_per_op);
    if with_bytes {
        log.str("  MiB/s=").str(rates.mib_per_second);
    }
    log.str("  sink=").word(c.sink).end();
    log
}

/// A run's totals, written out, and the spread between passes where it is
/// worth a note: it is the warm-up signal.
#[derive(Debug, Clone, Copy)]
pub struct Totals<'a> {
    pub mean_mops: &'a str,
    pub best_mops: &'a str,
    pub worst_mops: &'a str,
    pub best_ns: &'a str,
    pub worst_ns: &'a str,
    pub seconds: &'a str,
    pub spread: Option<&'a str>,
}

/// What is said of a run.
pub open spec fn summary_text(unit: Seq<char>, cycles: int, t: Totals) -> Seq<u8> {
    let rates = ((seq![10u8] + utf8("summary:")).push(10u8) + utf8("  unit: ") + encoded(
        unit,
    )).push(10u8) + utf8("  rate: mean ") + utf8(t.mean_mops) + utf8(" Mops/s   best ") + utf8(
        t.best_mops,
    ) + utf8("   worst ") + utf8(t.worst_mops);
    let times = rates.push(10u8) + utf8("  ns/op: best ") + utf8(t.best_ns) + utf8("   worst ")
        + utf8(t.worst_ns);
    let sums = ((times.push(10u8) + utf8("  aggregate cycles: ") + digits(cycles as nat)).push(
        10u8,
    ) + utf8("  aggregate time: ") + utf8(t.seconds) + utf8(" s")).push(10u8);
    match t.spread {
        Some(spread) => (sums + utf8("  note: ") + utf8(spread) + utf8(
            "% spread between passes — the workload is still warming up, so trust the last pass over the mean.",
        )).push(10u8),
        None => sums,
    }
}

fn write_summary(unit: &str, cycles: u64, t: &Totals<'_>) -> (r: Log)
    ensures
        r@ == summary_text(unit@, cycles as int, *t),
{
    let mut log = Log::new();
    log.end();
    assert(log@ =~= seq![10u8]);
    log.str("summary:").end();
    log.str("  unit: ").str(unit).end();
    log.str("  rate: mean ").str(t.mean_mops).str(" Mops/s   best ").str(t.best_mops).str(
        "   worst ",
    ).str(t.worst_mops).end();
    log.str("  ns/op: best ").str(t.best_ns).str("   worst ").str(t.worst_ns).end();
    log.str("  aggregate cycles: ").num(cycles).end();
    log.str("  aggregate time: ").str(t.seconds).str(" s").end();
    if let Some(spread) = t.spread {
        log.str("  note: ").str(spread).str(
            "% spread between passes — the workload is still warming up, so trust the last pass over the mean.",
        ).end();
    }
    log
}

/// What a handshake agreed on; its share of the time is written out.
#[derive(Debug, Clone, Copy)]
pub struct Negotiated<'a> {
    pub protocol: &'a str,
    pub cipher_suite: &'a str,
    pub certificates: u64,
    pub share: &'a str,
}

/// What is said of it.
pub open spec fn negotiated_text(n: Negotiated) -> Seq<u8> {
    (utf8("  negotiated: ") + utf8(n.protocol) + utf8(" / ") + utf8(n.cipher_suite) + utf8(
        "   certificates: ",
    ) + digits(n.certificates as nat) + utf8("   tls share of total: ") + utf8(n.share) + utf8(
        "%",
    )).push(10u8)
}

fn write_negotiated(n: &Negotiated<'_>) -> (r: Log)
    ensures
        r@ == negotiated_text(*n),
{
    broadcast use from_nothing;

    let mut log = Log::new();
    log.str("  negotiated: ").str(n.protocol).str(" / ").str(n.cipher_suite).str(
        "   certificates: ",
    ).num(n.certificates).str("   tls share of total: ").str(n.share).str("%").end();
    log
}

// ---------------------------------------------------------------------------
// A run
// ---------------------------------------------------------------------------

/// What is to be done next.
#[derive(Debug, Clone, Copy, PartialEq, Eq, Structural)]
pub enum Task {
    /// Nothing: the run could not proceed.
    Stop,
    /// Run the kernel, and count the pass.
    Pass { pass: u32, repeats: u32, loops: usize },
    /// Shake hands.
    Handshake { pass: u32 },
    /// All passes are done.
    Summarise,
}

/// A benchmark run: what it has counted, and what it says of it.
#[derive(Debug)]
pub struct BenchReport {
    pub kernel: BenchKernel,
    pub mode: BenchMode,
    pub profile: BenchProfile,
    pub log: Log,
    /// Passes attempted so far.
    pub attempted: u32,
    pub passes: Vec<PassCounts>,
    /// Set when the run could not proceed.
    pub error: Option<String>,
}

/// What is said of a run that could not proceed.
pub open spec fn refusal_text(reason: Seq<char>) -> Seq<u8> {
    (utf8("status: ") + encoded(reason)).push(10u8)
}

/// What follows from where a run stands.
pub open spec fn next_task(r: BenchReport) -> Task {
    if r.error is Some {
        Task::Stop
    } else if r.attempted >= 3 {
        Task::Summarise
    } else if r.kernel is Tls {
        Task::Handshake { pass: (r.attempted + 1) as u32 }
    } else {
        Task::Pass {
            pass: (r.attempted + 1) as u32,
            repeats: r.profile.repeats@[r.attempted as int],
            loops: r.profile.loops@[r.attempted as int],
        }
    }
}

/// The passes of a run once a handshake has been tried.
pub open spec fn passes_with(
    passes: Seq<PassCounts>,
    pass: u32,
    done: bool,
    start: u64,
    end: u64,
) -> Seq<PassCounts> {
    if done {
        passes.push(
            PassCounts {
                pass,
                repeats: 1,
                loops: 1,
                cycles: ((end - start) % 0x1_0000_0000_0000_0000) as u64,
                total_ops: 1,
                total_bytes: 0,
                sink: 0,
            },
        )
    } else {
        passes
    }
}

/// Whether a run is given up once a handshake has been tried.
pub open spec fn is_given_up(passes: Seq<PassCounts>, done: bool) -> bool {
    !done && passes.len() == 0
}

/// A handshake that came off is a pass of one operation that took what passed on
/// the counter; one that did not is none, and ends the run only where nothing was
/// measured before it.
pub proof fn a_handshake_is_one_operation(
    passes: Seq<PassCounts>,
    pass: u32,
    start: u64,
    end: u64,
)
    ensures
        passes_with(passes, pass, false, start, end) == passes,
        ({
            let after = passes_with(passes, pass, true, start, end);
            &&& after.len() == passes.len() + 1
            &&& after.drop_last() == passes
            &&& after.last().pass == pass && after.last().total_ops == 1 && after.last().total_bytes
                == 0 && after.last().loops == 1 && after.last().repeats == 1
            &&& start <= end ==> after.last().cycles == end - start
        }),
        !is_given_up(passes, true),
        is_given_up(passes, false) <==> passes.len() == 0,
{
    assert(passes_with(passes, pass, true, start, end).drop_last() =~= passes);
}

/// A pass runs as its place in the schedule says.
pub proof fn passes_follow_the_schedule(r: BenchReport)
    requires
        r.error is None,
        r.attempted < 3,
        !(r.kernel is Tls),
    ensures
        next_task(r) == (Task::Pass {
            pass: (r.attempted + 1) as u32,
            repeats: r.profile.repeats@[r.attempted as int],
            loops: r.profile.loops@[r.attempted as int],
        }),
{
}

impl BenchReport {
    /// Appends to what is said.
    fn say(&mut self, more: Log)
        ensures
            final(self).log@ == old(self).log@ + more@,
            *final(self) == (BenchReport { log: final(self).log, ..*old(self) }),
    {
        let mut more = more;
        self.log.bytes.append(&mut more.bytes);
    }

    /// Starts a run. One whose kernel this machine does not have is refused
    /// rather than faulting.
    pub fn begin(config: &BenchConfig, header: &Header<'_>, size: &str) -> (r: BenchReport)
        ensures
            r.kernel == config.kernel,
            r.mode == config.mode,
            r.attempted == 0,
            r.passes@ == Seq::<PassCounts>::empty(),
            r.profile.is_of(
                config.kernel,
                if config.kernel is Tls {
                    0
                } else {
                    CRYPTO_PAYLOAD_BYTES as int
                },
                size@,
            ),
            r.error is Some <==> !config.kernel.runs_here(),
            r.error matches Some(reason) ==> reason@ == "NOT AVAILABLE on this CPU"@ && r.log@
                == refusal_text(reason@),
            r.error is None ==> r.log@ == opening_text(*config, *header, size@),
    {
        let kernel: BenchKernel = config.kernel;
        let tls: bool = matches!(kernel, BenchKernel::Tls);
        let bytes: usize = if tls {
            0
        } else {
            CRYPTO_PAYLOAD_BYTES
        };
        let profile = BenchProfile::for_kernel(kernel, bytes, size);
        if !kernel.is_available() {
            return BenchReport::failed(
                kernel,
                config.mode,
                profile,
                "NOT AVAILABLE on this CPU".to_owned(),
            );
        }
        let mut log = write_header(config, header);
        log.str("warmup: ").str(profile.description.as_str()).end();
        log.str("unit: ").str(profile.unit.as_str()).end();
        if tls {
            log.str("target: ").str(config.tls_host.as_str()).str(":").num(
                config.tls_port as u64,
            ).end();
        }
        log.end();
        BenchReport {
            kernel,
            mode: config.mode,
            profile,
            log,
            attempted: 0,
            passes: Vec::new(),
            error: None,
        }
    }

    /// A run that could not proceed.
    fn failed(kernel: BenchKernel, mode: BenchMode, profile: BenchProfile, reason: String) -> (r:
        BenchReport)
        ensures
            r.kernel == kernel,
            r.mode == mode,
            r.profile == profile,
            r.attempted == 0,
            r.passes@ == Seq::<PassCounts>::empty(),
            r.error matches Some(why) && why@ == reason@,
            r.log@ == refusal_text(reason@),
    {
        broadcast use from_nothing;

        let mut log = Log::new();
        log.str("status: ").str(reason.as_str()).end();
        BenchReport {
            kernel,
            mode,
            profile,
            log,
            attempted: 0,
            passes: Vec::new(),
            error: Some(reason),
        }
    }

    /// Gives a run up, for a reason that is all it says.
    pub fn refuse(self, reason: String) -> (r: BenchReport)
        ensures
            r.kernel == self.kernel,
            r.mode == self.mode,
            r.profile == self.profile,
            r.attempted == 0,
            r.passes@ == Seq::<PassCounts>::empty(),
            r.error matches Some(why) && why@ == reason@,
            r.log@ == refusal_text(reason@),
    {
        BenchReport::failed(self.kernel, self.mode, self.profile, reason)
    }

    /// What is to be done next.
    pub fn next(&self) -> (r: Task)
        ensures
            r == next_task(*self),
    {
        if self.error.is_some() {
            return Task::Stop;
        }
        if self.attempted >= 3 {
            return Task::Summarise;
        }
        let pass: u32 = self.attempted + 1;
        if matches!(self.kernel, BenchKernel::Tls) {
            return Task::Handshake { pass };
        }
        let i: usize = self.attempted as usize;
        Task::Pass { pass, repeats: self.profile.repeats[i], loops: self.profile.loops[i] }
    }

    /// Takes a pass into account.
    pub fn pass_done(&mut self, counts: PassCounts, rates: &Rates<'_>)
        requires
            next_task(*old(self)) is Pass,
        ensures
            is_passed(*old(self), *final(self), counts, *rates),
    {
        let line = write_pass(&counts, rates, self.profile.bytes_per_op > 0);
        self.say(line);
        self.passes.push(counts);
        self.attempted = self.attempted + 1;
    }

    /// Takes a handshake into account: what it says of itself, or why it
    /// failed. A run whose first handshake fails is given up; one that has
    /// measured something goes on.
    pub fn handshake_done(&mut self, outcome: Result<&str, &str>, start: u64, end: u64)
        requires
            next_task(*old(self)) is Handshake,
        ensures
            final(self).attempted == old(self).attempted + 1,
            final(self).kernel == old(self).kernel,
            final(self).mode == old(self).mode,
            final(self).profile == old(self).profile,
            final(self).passes@ == passes_with(
                old(self).passes@,
                (old(self).attempted + 1) as u32,
                outcome is Ok,
                start,
                end,
            ),
            final(self).error is Some <==> is_given_up(old(self).passes@, outcome is Ok),
            match outcome {
                Ok(summary) => {
                    &&& final(self).log@ == old(self).log@ + handshake_text(
                        old(self).attempted + 1,
                        utf8(summary),
                    )
                },
                Err(why) => {
                    &&& final(self).log@ == old(self).log@ + handshake_text(
                        old(self).attempted + 1,
                        utf8("handshake failed: ") + utf8(why),
                    )
                    &&& final(self).error matches Some(reason) ==> reason@ == "handshake failed: "@
                        + why@
                },
            },
    {
        broadcast use from_nothing;

        let pass: u32 = self.attempted + 1;
        self.attempted = pass;
        let mut line = Log::new();
        line.str("pass ").num(pass as u64).str(": ");
        match outcome {
            Ok(summary) => {
                line.str(summary).end();
                self.say(line);
                self.passes.push(
                    PassCounts {
                        pass,
                        repeats: 1,
                        loops: 1,
                        cycles: end.wrapping_sub(start),
                        total_ops: 1,
                        total_bytes: 0,
                        sink: 0,
                    },
                );
            },
            Err(why) => {
                let ghost before = line@;
                line.str("handshake failed: ").str(why).end();
                assert(line@ =~= (before + (utf8("handshake failed: ") + utf8(why))).push(10u8));
                self.say(line);
                if self.passes.len() == 0 {
                    self.error = Some("handshake failed: ".to_owned().concat(why));
                }
            },
        }
    }

    /// Ends a run that did its passes: the summary, what the handshake agreed
    /// on where there was one, and that it completed.
    pub fn finish(&mut self, totals: &Totals<'_>, negotiated: Option<&Negotiated<'_>>)
        requires
            next_task(*old(self)) is Summarise,
        ensures
            final(self).log@ == closing_text(
                old(self).log@,
                old(self).profile.unit@,
                cycles_over(old(self).passes@),
                *totals,
                match negotiated {
                    Some(n) => Some(*n),
                    None => None,
                },
            ),
            *final(self) == (BenchReport { log: final(self).log, ..*old(self) }),
    {
        let cycles: u64 = total_cycles(&self.passes);
        let summary = write_summary(self.profile.unit.as_str(), cycles, totals);
        self.say(summary);
        if let Some(n) = negotiated {
            let line = write_negotiated(n);
            self.say(line);
        }
        self.log.end();
        self.log.str("status: completed successfully.").end();
    }
}

/// What is said of a handshake.
pub open spec fn handshake_text(pass: int, outcome: Seq<u8>) -> Seq<u8> {
    (utf8("pass ") + digits(pass as nat) + utf8(": ") + outcome).push(10u8)
}

/// What is said at the end.
pub open spec fn closing_text(
    before: Seq<u8>,
    unit: Seq<char>,
    cycles: int,
    totals: Totals,
    negotiated: Option<Negotiated>,
) -> Seq<u8> {
    let summed = before + summary_text(unit, cycles, totals);
    let agreed = match negotiated {
        Some(n) => summed + negotiated_text(n),
        None => summed,
    };
    (agreed.push(10u8) + utf8("status: completed successfully.")).push(10u8)
}

/// A run that is not refused takes exactly three passes and is then summed up;
/// one that is refused takes none.
pub proof fn three_passes(r: BenchReport)
    requires
        r.attempted <= 3,
    ensures
        r.error is Some ==> next_task(r) == Task::Stop,
        r.error is None ==> (next_task(r) == Task::Summarise <==> r.attempted == 3),
        r.error is None && r.attempted < 3 ==> match next_task(r) {
            Task::Pass { pass, .. } => pass == r.attempted + 1 && !(r.kernel is Tls),
            Task::Handshake { pass } => pass == r.attempted + 1 && r.kernel is Tls,
            _ => false,
        },
{
}

/// Every flag is told as one or zero, under its name.
pub proof fn every_flag_is_told(f: Flags)
    ensures
        bit(true) == seq![49u8] && bit(false) == seq![48u8],
        holds(flags_text(f), utf8("cpu flags: AES=") + bit(f.aesni)),
        holds(flags_text(f), utf8(" SHA=") + bit(f.shani)),
        holds(flags_text(f), utf8(" VAES=") + bit(f.vaes)),
        holds(flags_text(f), utf8(" PCLMUL=") + bit(f.pclmulqdq)),
        holds(flags_text(f), utf8(" AVX=") + bit(f.avx)),
        holds(flags_text(f), utf8(" AVX2=") + bit(f.avx2)),
        holds(flags_text(f), utf8(" AVX-VNNI=") + bit(f.avx_vnni)),
        holds(flags_text(f), utf8(" AVX512F=") + bit(f.avx512f)),
{
    broadcast use crate::text::group_holds;

    assert(utf8("cpu flags: AES=") + bit(f.aesni) =~= Seq::<u8>::empty() + utf8("cpu flags: AES=")
        + bit(f.aesni));
}

/// What runs, in which mode, on what, against which counter and with which
/// provider is told before it does; and so is a handshake's target.
pub proof fn what_runs_is_told(config: BenchConfig, h: Header, size: Seq<char>)
    ensures
        ({
            let text = header_text(config, h);
            &&& holds(text, utf8("operation: ") + encoded(config.kernel.title()))
            &&& holds(text, utf8("mode: ") + encoded(config.mode.title()))
            &&& holds(text, utf8("backend: ") + utf8(h.backend))
            &&& h.simd matches Some(name) ==> holds(text, utf8("simd: ") + utf8(name))
            &&& h.simd is None ==> holds(text, utf8("simd: ") + utf8("none"))
            &&& holds(text, utf8("counter: ") + utf8(h.mhz))
            &&& holds(text, utf8(" MHz  invariant=") + crate::log::truth(h.invariant))
            &&& holds(text, utf8("crypto provider: ") + utf8(h.provider))
        }),
        holds(
            opening_text(config, h, size),
            utf8("warmup: ") + encoded(description_of(config.kernel, size)),
        ),
        holds(opening_text(config, h, size), utf8("unit: ") + encoded(unit_of(config.kernel))),
        config.kernel is Tls ==> holds(
            opening_text(config, h, size),
            utf8("target: ") + encoded(config.tls_host@),
        ) && holds(opening_text(config, h, size), utf8(":") + digits(config.tls_port as nat)),
{
    broadcast use crate::text::group_holds;

}

/// A pass is told with its counts and its rates, each under its name, and with
/// its throughput only where it handles bytes.
pub proof fn a_pass_is_told(c: PassCounts, rates: Rates, with_bytes: bool)
    ensures
        ({
            let text = pass_text(c, rates, with_bytes);
            &&& holds(text, utf8("pass ") + digits(c.pass as nat))
            &&& holds(text, utf8(": repeats=") + digits(c.repeats as nat))
            &&& holds(text, utf8("  loops=") + digits(c.loops as nat))
            &&& holds(text, utf8("  cycles=") + digits(c.cycles as nat))
            &&& holds(text, utf8("  time=") + utf8(rates.seconds))
            &&& holds(text, utf8(" s  rate=") + utf8(rates.mops))
            &&& holds(text, utf8(" Mops/s  cyc/op=") + utf8(rates.cycles_per_op))
            &&& holds(text, utf8("  ns/op=") + utf8(rates.ns_per_op))
            &&& with_bytes ==> holds(text, utf8("  MiB/s=") + utf8(rates.mib_per_second))
            &&& holds(text, utf8("  sink=") + hex_field(c.sink as nat, 16))
        }),
{
    broadcast use crate::text::group_holds;

    assert(utf8("pass ") + digits(c.pass as nat) =~= Seq::<u8>::empty() + utf8("pass ") + digits(
        c.pass as nat,
    ));
}

/// A run is told with its means and extremes, its cycles and its time, and the
/// spread where it is worth a note; what a handshake agreed on is told too.
pub proof fn a_run_is_told(unit: Seq<char>, cycles: int, t: Totals, n: Negotiated)
    ensures
        ({
            let text = summary_text(unit, cycles, t);
            &&& holds(text, utf8("  unit: ") + encoded(unit))
            &&& holds(text, utf8("  rate: mean ") + utf8(t.mean_mops))
            &&& holds(text, utf8(" Mops/s   best ") + utf8(t.best_mops))
            &&& holds(text, utf8("   worst ") + utf8(t.worst_mops))
            &&& holds(text, utf8("  ns/op: best ") + utf8(t.best_ns))
            &&& holds(text, utf8("   worst ") + utf8(t.worst_ns))
            &&& holds(text, utf8("  aggregate cycles: ") + digits(cycles as nat))
            &&& holds(text, utf8("  aggregate time: ") + utf8(t.seconds))
            &&& t.spread matches Some(spread) ==> holds(text, utf8("  note: ") + utf8(spread))
        }),
        holds(negotiated_text(n), utf8("  negotiated: ") + utf8(n.protocol)),
        holds(negotiated_text(n), utf8(" / ") + utf8(n.cipher_suite)),
        holds(negotiated_text(n), utf8("   certificates: ") + digits(n.certificates as nat)),
        holds(negotiated_text(n), utf8("   tls share of total: ") + utf8(n.share)),
{
    broadcast use crate::text::group_holds;

    assert(utf8("  negotiated: ") + utf8(n.protocol) =~= Seq::<u8>::empty() + utf8(
        "  negotiated: ",
    ) + utf8(n.protocol));
}

/// What was said of the passes stays, the summary follows it, then what the
/// handshake agreed on where there was one, and last that it completed.
pub proof fn a_run_ends_with_its_summary(
    before: Seq<u8>,
    unit: Seq<char>,
    cycles: int,
    totals: Totals,
    n: Negotiated,
)
    ensures
        ({
            let end = seq![10u8] + utf8("status: completed successfully.") + seq![10u8];
            &&& closing_text(before, unit, cycles, totals, None) == before + summary_text(
                unit,
                cycles,
                totals,
            ) + end
            &&& closing_text(before, unit, cycles, totals, Some(n)) == before + summary_text(
                unit,
                cycles,
                totals,
            ) + negotiated_text(n) + end
        }),
{
    let end = seq![10u8] + utf8("status: completed successfully.") + seq![10u8];
    let summed = before + summary_text(unit, cycles, totals);
    assert(closing_text(before, unit, cycles, totals, None) =~= summed + end);
    assert(closing_text(before, unit, cycles, totals, Some(n)) =~= summed + negotiated_text(n)
        + end);
}

/// A run has taken one more pass into account.
pub open spec fn is_passed(
    before: BenchReport,
    after: BenchReport,
    counts: PassCounts,
    rates: Rates<'_>,
) -> bool {
    &&& after.log@ == before.log@ + pass_text(counts, rates, before.profile.bytes_per_op > 0)
    &&& after.passes@ == before.passes@.push(counts)
    &&& after == (BenchReport {
        log: after.log,
        passes: after.passes,
        attempted: (before.attempted + 1) as u32,
        ..before
    })
}

/// A mode's caption is its number in the order of display and what it is.
pub proof fn every_mode_is_numbered(i: int)
    requires
        0 <= i < 3,
    ensures
        BenchMode::in_order().len() == 3,
        BenchMode::in_order()[i].caption() == "Mode "@ + seq![((49 + i) as u8) as char] + ": "@
            + BenchMode::in_order()[i].title(),
{
    reveal_strlit("Mode ");
    reveal_strlit(": ");
    reveal_strlit("CPU ISA kernels");
    reveal_strlit("Crypto (rustls/ring)");
    reveal_strlit("TLS handshake (rustls)");
    reveal_strlit("Mode 1: CPU ISA kernels");
    reveal_strlit("Mode 2: Crypto (rustls/ring)");
    reveal_strlit("Mode 3: TLS handshake (rustls)");
    assert(i == 0 || i == 1 || i == 2);
    assert(BenchMode::in_order()[i].caption() =~= "Mode "@ + seq![((49 + i) as u8) as char] + ": "@
        + BenchMode::in_order()[i].title());
}

/// A run of a kernel is three passes, each kept as it was counted and in the order
/// they came, and then the summary.
pub proof fn a_run_is_three_passes(
    a: BenchReport,
    b: BenchReport,
    c: BenchReport,
    d: BenchReport,
    counts: Seq<PassCounts>,
    rates: Rates<'_>,
)
    requires
        counts.len() == 3,
        a.attempted == 0,
        a.passes@.len() == 0,
        a.error is None,
        is_passed(a, b, counts[0], rates),
        is_passed(b, c, counts[1], rates),
        is_passed(c, d, counts[2], rates),
    ensures
        d.passes@ == counts,
        d.attempted == 3,
        next_task(d) is Summarise,
        !(next_task(c) is Summarise),
        d.kernel == a.kernel && d.mode == a.mode && d.profile == a.profile && d.error is None,
        a.log@.is_prefix_of(b.log@) && b.log@.is_prefix_of(c.log@) && c.log@.is_prefix_of(d.log@),
{
    assert(d.passes@ =~= counts);
}

} // verus!
