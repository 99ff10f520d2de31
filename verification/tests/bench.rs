//! The benchmark harness.

use nanochrono::bench::{
    key_failure, leading_word, payload, stamp, total_cycles, trailing_word, Algorithm, Backend,
    BenchConfig, BenchKernel, BenchMode, BenchProfile, BenchReport, Catalogue, Flags, Header,
    Negotiated, PassCounts, Primitive, Rates, Task, Totals, Work, Workload,
    CRYPTO_PAYLOAD_BYTES,
};

const AES: Algorithm = Algorithm { name: "AES-256-GCM", primitive: Primitive::Aead };

const SHA: Algorithm = Algorithm { name: "SHA-256", primitive: Primitive::Sha256 };

const HMAC: Algorithm = Algorithm { name: "HMAC-SHA-256", primitive: Primitive::HmacSha256 };

fn catalogue() -> Catalogue {
    Catalogue {
        backends: vec![
            Backend { name: "sse2", available: true },
            Backend { name: "avx512f", available: false },
        ],
        algorithms: vec![SHA, HMAC, AES],
    }
}

fn header() -> Header<'static> {
    Header {
        backend: "rdtsc",
        simd: None,
        mhz: "2400.000",
        invariant: true,
        provider: "rustls/ring",
        flags: Flags {
            aesni: true,
            shani: false,
            vaes: false,
            pclmulqdq: true,
            avx: true,
            avx2: true,
            avx_vnni: false,
            avx512f: false,
        },
    }
}

fn rates() -> Rates<'static> {
    Rates {
        seconds: "0.500000",
        mops: "1.000",
        cycles_per_op: "2.0000",
        ns_per_op: "3.0000",
        mib_per_second: "4.000",
    }
}

fn totals(spread: Option<&'static str>) -> Totals<'static> {
    Totals {
        mean_mops: "1.000",
        best_mops: "2.000",
        worst_mops: "0.500",
        best_ns: "0.5000",
        worst_ns: "2.0000",
        seconds: "1.500000",
        spread,
    }
}

fn config(kernel: BenchKernel) -> BenchConfig {
    BenchConfig { mode: kernel.mode(), kernel, ..BenchConfig::default() }
}

/// A counter that takes a tenth of a second over every pass.
const TICKS: u64 = 240_000_000;

/// A whole run over that counter, as the loop around the library makes it, and
/// for each pass its rate and its throughput.
fn run(config: &BenchConfig) -> (BenchReport, Vec<f64>, Vec<f64>) {
    let mut report = BenchReport::begin(config, &header(), "16.0 KiB");
    let (mut mops, mut mib) = (Vec::new(), Vec::new());
    let work = Work { step: |i: usize| Some(i as u64) };
    let mut now = 7u64;
    loop {
        match report.next() {
            Task::Stop => return (report, mops, mib),
            Task::Summarise => break,
            Task::Handshake { .. } => report.handshake_done(Ok("10.0 ms"), now, now + TICKS),
            Task::Pass { pass, repeats, loops } => {
                let mut sink = 0u64;
                for _ in 0..repeats {
                    sink ^= work.execute(loops, false);
                }
                let p = &report.profile;
                let counts = PassCounts::new(p, pass, repeats, loops, now, now + TICKS, sink);
                let seconds = counts.cycles as f64 / 2.4e9;
                mops.push(counts.total_ops as f64 / seconds / 1e6);
                mib.push(counts.total_bytes as f64 / seconds / 1048576.0);
                report.pass_done(counts, &rates());
            }
        }
        now += TICKS;
    }
    report.finish(&totals(None), None);
    (report, mops, mib)
}

#[test]
fn scalar_baseline_produces_a_rate() {
    let (report, mops, _) = run(&BenchConfig {
        mode: BenchMode::CpuIsa,
        kernel: BenchKernel::Scalar,
        ..Default::default()
    });
    assert!(report.error.is_none(), "{:?}", report.error);
    assert_eq!(report.passes.len(), 3);
    assert!(mops.iter().copied().fold(0.0, f64::max) > 0.0);
    assert!(report.log.as_str().contains("status: completed successfully"));
}

#[test]
fn every_available_isa_kernel_runs() {
    for backend in catalogue().backends {
        let (report, _, _) = run(&BenchConfig {
            mode: BenchMode::CpuIsa,
            kernel: BenchKernel::Isa(backend),
            ..Default::default()
        });
        if backend.available {
            assert!(report.error.is_none(), "{} failed: {:?}", backend.name, report.error);
            assert_eq!(report.passes.len(), 3);
        } else {
            assert!(report.error.is_some(), "{} ran but is unsupported", backend.name);
            assert!(report.passes.is_empty());
        }
    }
}

#[test]
fn every_crypto_primitive_benchmarks() {
    for algorithm in catalogue().algorithms {
        let (report, mops, _) = run(&BenchConfig {
            mode: BenchMode::Crypto,
            kernel: BenchKernel::Crypto(algorithm),
            ..Default::default()
        });
        assert!(report.error.is_none(), "{} failed: {:?}", algorithm.name, report.error);
        assert!(mops.iter().copied().fold(0.0, f64::max) > 0.0, "{}", algorithm.name);
        assert!(report.log.as_str().contains("rustls/ring"));
    }
}

#[test]
fn aead_benchmark_throughput_is_plausible() {
    let (report, _, mib) = run(&BenchConfig {
        mode: BenchMode::Crypto,
        kernel: BenchKernel::Crypto(AES),
        ..Default::default()
    });
    let mib = mib[2];
    assert!(mib > 1.0, "AES-256-GCM reported {mib:.3} MiB/s");
    // Three repeats of 4500 calls over 16 KiB.
    assert_eq!(report.passes[2].total_bytes, 221_184_000);
}

#[test]
fn every_mode_offers_rows() {
    for mode in BenchMode::all().iter().copied() {
        assert!(!BenchKernel::rows_for(mode, &catalogue()).is_empty(), "{mode:?}");
    }
}

#[test]
fn rows_report_the_mode_they_came_from() {
    for mode in BenchMode::all().iter().copied() {
        for kernel in BenchKernel::rows_for(mode, &catalogue()) {
            assert_eq!(kernel.mode(), mode);
        }
    }
}

#[test]
fn profiles_describe_their_unit() {
    for mode in BenchMode::all().iter().copied() {
        for kernel in BenchKernel::rows_for(mode, &catalogue()) {
            let p = BenchProfile::for_kernel(kernel, CRYPTO_PAYLOAD_BYTES, "16.0 KiB");
            assert!(!p.unit.is_empty());
            assert!(!p.description.is_empty());
            assert!(p.loops.iter().all(|&l| l > 0));
        }
    }
}

#[test]
fn unavailable_kernels_report_rather_than_fault() {
    let backend = catalogue().backends[1];
    let report = BenchReport::begin(&config(BenchKernel::Isa(backend)), &header(), "");
    assert_eq!(report.error.as_deref(), Some("NOT AVAILABLE on this CPU"));
    assert_eq!(report.log.as_str(), "status: NOT AVAILABLE on this CPU\n");
    assert!(report.passes.is_empty());
    assert_eq!(report.next(), Task::Stop);
    // It still says what it would have measured.
    assert_eq!((report.profile.ops_per_loop, report.profile.bytes_per_op), (1, 8));
    assert_eq!(report.profile.title, "AVX512F");
}

#[test]
fn rows_are_in_display_order() {
    let names = |mode| -> Vec<String> {
        BenchKernel::rows_for(mode, &catalogue()).iter().map(|k| k.name()).collect()
    };
    assert_eq!(names(BenchMode::CpuIsa), ["Scalar baseline", "SSE2", "AVX512F"]);
    assert_eq!(names(BenchMode::Crypto), ["SHA-256", "HMAC-SHA-256", "AES-256-GCM"]);
    assert_eq!(names(BenchMode::TlsHandshake), ["TLS 1.3 handshake"]);
    let rows = BenchKernel::rows_for(BenchMode::CpuIsa, &catalogue());
    assert!(rows[0].is_available() && rows[1].is_available() && !rows[2].is_available());
}

#[test]
fn modes_are_labelled() {
    assert_eq!(BenchMode::default(), BenchMode::CpuIsa);
    assert_eq!(BenchMode::Crypto.name(), "Crypto (rustls/ring)");
    assert_eq!(BenchMode::TlsHandshake.label(), "Mode 3: TLS handshake (rustls)");
    assert!(BenchMode::TlsHandshake.is_available());
    let plain = BenchConfig::default();
    assert_eq!((plain.tls_host.as_str(), plain.tls_port), ("www.rust-lang.org", 443));
}

#[test]
fn each_kind_of_kernel_has_its_schedule() {
    let p = BenchProfile::for_kernel(BenchKernel::Crypto(AES), 16_384, "16.0 KiB");
    assert_eq!(
        p.description,
        "real AES-256-GCM over a 16.0 KiB buffer, through the rustls crypto provider"
    );
    assert_eq!(p.unit, "1 op = 1 AES-256-GCM call over the payload");
    assert_eq!((p.loops, p.repeats), ([1_500, 3_000, 4_500], [1, 2, 3]));
    assert_eq!((p.ops_per_loop, p.bytes_per_op), (1, 16_384));
    let p = BenchProfile::for_kernel(BenchKernel::Tls, 0, "");
    assert_eq!((p.loops, p.repeats, p.bytes_per_op), ([1, 2, 3], [1, 1, 1], 0));
    let p = BenchProfile::for_kernel(BenchKernel::Scalar, 0, "");
    assert_eq!((p.loops, p.bytes_per_op), ([300_000, 600_000, 900_000], 8));
    assert_eq!(p.title, "Scalar baseline");
}

#[test]
fn the_work_is_set_up_outside_the_timed_region() {
    let bytes = payload();
    assert_eq!(bytes.len(), CRYPTO_PAYLOAD_BYTES);
    assert_eq!(&bytes[..4], &[0, 31, 62, 93]);
    assert_eq!(bytes[9], (9 * 31 % 256) as u8);
    assert!(matches!(
        Workload::new(BenchKernel::Crypto(SHA)),
        Ok(Workload::Hash { hmac: false, .. })
    ));
    assert!(matches!(
        Workload::new(BenchKernel::Crypto(HMAC)),
        Ok(Workload::Hash { hmac: true, .. })
    ));
    match Workload::new(BenchKernel::Crypto(AES)) {
        Ok(Workload::Aead { payload, nonce, begun, .. }) => {
            assert_eq!(payload, bytes);
            assert_eq!(nonce, [0; 12]);
            assert_eq!(begun, 0);
        }
        other => panic!("{:?}", other),
    }
    assert!(matches!(
        Workload::new(BenchKernel::Scalar),
        Ok(Workload::Isa(BenchKernel::Scalar))
    ));
    assert_eq!(Workload::new(BenchKernel::Tls).unwrap_err(), "TLS is measured by run_tls");
    assert_eq!(
        key_failure(&AES, "bad length"),
        "could not build AES-256-GCM key: bad length"
    );
}

#[test]
fn nonces_count_up() {
    let mut nonce = [9u8; 12];
    stamp(&mut nonce, 0x0102_0304_0506_0708);
    assert_eq!(nonce, [8, 7, 6, 5, 4, 3, 2, 1, 9, 9, 9, 9]);
    let mut next = nonce;
    stamp(&mut next, 0x0102_0304_0506_0709);
    assert_ne!(nonce, next);
    assert_eq!(leading_word(&nonce), 0x0102_0304_0506_0708);
    assert_eq!(trailing_word(&nonce), 0x0909_0909_0102_0304);
}

#[test]
fn nonces_go_on_from_one_repeat_to_the_next() {
    let mut work = Workload::new(BenchKernel::Crypto(AES)).unwrap();
    assert_eq!(work.reserve(3), 0);
    assert_eq!(work.reserve(0), 3);
    assert_eq!(work.reserve(5), 3);
    assert_eq!(work.reserve(1), 8);
    let (mut last, mut first) = ([0u8; 12], [0u8; 12]);
    stamp(&mut last, 2);
    stamp(&mut first, 3);
    assert_ne!(last, first);
    let mut hash = Workload::new(BenchKernel::Crypto(SHA)).unwrap();
    assert_eq!(hash.reserve(4), 0);
    assert_eq!(hash.reserve(4), 0);
}

#[test]
fn work_accumulates_until_it_fails() {
    let work = Work { step: |i: usize| Some(i as u64 * 3) };
    assert_eq!(work.execute(4, false), 0 ^ 3 ^ 6 ^ 9);
    assert_eq!(work.execute(4, true), 0 ^ (3 ^ 1) ^ (6 ^ 2) ^ (9 ^ 3));
    let fails = Work { step: |i: usize| if i == 2 { None } else { Some(i as u64 * 3) } };
    assert_eq!(fails.execute(4, false), 3);
    assert_eq!(fails.execute(0, false), 0);
}

#[test]
fn a_pass_counts_operations_and_bytes() {
    let p = BenchProfile::for_kernel(BenchKernel::Crypto(SHA), 16_384, "16.0 KiB");
    let counts = PassCounts::new(&p, 2, 2, 3_000, u64::MAX - 9, 90, 5);
    assert_eq!(counts.cycles, 100);
    assert_eq!((counts.total_ops, counts.total_bytes), (6_000, 6_000 * 16_384));
    let mut huge = counts;
    huge.cycles = u64::MAX;
    assert_eq!(total_cycles(&vec![counts, counts]), 200);
    assert_eq!(total_cycles(&vec![counts, huge]), u64::MAX);
    assert_eq!(total_cycles(&vec![]), 0);
}

#[test]
fn a_run_takes_three_passes() {
    let mut report = BenchReport::begin(&config(BenchKernel::Scalar), &header(), "");
    assert!(report.error.is_none());
    assert!(report.log.as_str().starts_with(
        "=== NanoChronometer benchmark ===\noperation: Scalar baseline\nmode: CPU ISA kernels\nbackend: rdtsc\nsimd: none\ncounter: 2400.000 MHz  invariant=true\ncrypto provider: rustls/ring\ncpu flags: AES=1 SHA=0 VAES=0 PCLMUL=1 AVX=1 AVX2=1 AVX-VNNI=0 AVX512F=0\n\nwarmup: inline-asm"
    ));
    for index in 0..3u32 {
        let (pass, repeats, loops) = match report.next() {
            Task::Pass { pass, repeats, loops } => (pass, repeats, loops),
            other => panic!("{:?}", other),
        };
        assert_eq!((pass, repeats), (index + 1, index + 1));
        let counts = PassCounts::new(&report.profile, pass, repeats, loops, 0, 50, 0xAB);
        report.pass_done(counts, &rates());
    }
    assert!(report.log.as_str().contains(
        "pass 1: repeats=1  loops=300000  cycles=50  time=0.500000 s  rate=1.000 Mops/s  cyc/op=2.0000  ns/op=3.0000  MiB/s=4.000  sink=00000000000000AB\n"
    ));
    assert_eq!(report.next(), Task::Summarise);
    assert_eq!(report.passes.len(), 3);
    report.finish(&totals(Some("75.0")), None);
    assert!(report.log.as_str().ends_with(
        "\nsummary:\n  unit: 1 op = 1 kernel iteration\n  rate: mean 1.000 Mops/s   best 2.000   worst 0.500\n  ns/op: best 0.5000   worst 2.0000\n  aggregate cycles: 150\n  aggregate time: 1.500000 s\n  note: 75.0% spread between passes — the workload is still warming up, so trust the last pass over the mean.\n\nstatus: completed successfully.\n"
    ));
}

#[test]
fn a_handshake_that_fails_first_ends_the_run() {
    let mut report = BenchReport::begin(&config(BenchKernel::Tls), &header(), "");
    assert!(report.log.as_str().ends_with(
        "unit: 1 op = 1 complete handshake\ntarget: www.rust-lang.org:443\n\n"
    ));
    assert_eq!(report.next(), Task::Handshake { pass: 1 });
    report.handshake_done(Err("no route"), 0, 10);
    assert_eq!(report.error.as_deref(), Some("handshake failed: no route"));
    assert!(report.log.as_str().ends_with("pass 1: handshake failed: no route\n"));
    assert_eq!(report.next(), Task::Stop);
}

#[test]
fn a_later_failure_does_not() {
    let mut report = BenchReport::begin(&config(BenchKernel::Tls), &header(), "");
    report.handshake_done(Ok("12.3 ms"), 5, 25);
    report.handshake_done(Err("reset"), 0, 10);
    assert_eq!(report.next(), Task::Handshake { pass: 3 });
    report.handshake_done(Ok("11.0 ms"), 0, 30);
    assert_eq!(report.next(), Task::Summarise);
    assert_eq!(report.passes.len(), 2);
    assert_eq!((report.passes[0].cycles, report.passes[1].pass), (20, 3));
    let agreed = Negotiated {
        protocol: "TLSv1_3",
        cipher_suite: "TLS13_AES_256_GCM_SHA384",
        certificates: 3,
        share: "61.5",
    };
    report.finish(&totals(None), Some(&agreed));
    assert!(report.log.as_str().ends_with(
        "  aggregate cycles: 50\n  aggregate time: 1.500000 s\n  negotiated: TLSv1_3 / TLS13_AES_256_GCM_SHA384   certificates: 3   tls share of total: 61.5%\n\nstatus: completed successfully.\n"
    ));
}

#[test]
fn a_run_can_be_given_up() {
    let report = BenchReport::begin(&config(BenchKernel::Crypto(AES)), &header(), "16.0 KiB");
    let report = report.refuse(key_failure(&AES, "bad length"));
    assert_eq!(
        report.log.as_str(),
        "status: could not build AES-256-GCM key: bad length\n"
    );
    assert_eq!(report.next(), Task::Stop);
    assert_eq!(report.attempted, 0);
    assert_eq!(report.profile.title, "AES-256-GCM");
}
