use matrix_crypto_core::error::ProbeError;
use matrix_crypto_core::observer::{
    clear_crypto_observer, fnv1a, probe_with_observer, set_crypto_observer, CryptoObserverRegistry, CryptoSignal,
    FNV_OFFSET_BASIS,
};
use matrix_crypto_core::probe::{core_version, probe};

fn build() -> u32 {
    fnv1a(FNV_OFFSET_BASIS, b"pub fn probe(input: String, payload: Vec<u8>)")
}

#[test]
fn echoes_input_and_reports_version() {
    let report = probe("hello".to_string(), vec![1, 2, 3], build()).unwrap();
    assert_eq!(report.echoed, "hello");
    let (version, _build) = report
        .core_version
        .split_once("+emit.")
        .expect("core_version must carry the crate version and the emission build");
    assert_eq!(version, "0.1.0");
}

#[test]
fn the_build_suffix_writes_the_build_number_in_lowercase_hex() {
    let report = probe("x".to_string(), vec![], build()).unwrap();
    let suffix = report
        .core_version
        .split_once("+emit.")
        .expect("core_version must carry the emission build")
        .1;
    assert_eq!(suffix.len(), 8, "the build suffix is a 32-bit number in hex");
    assert!(
        suffix.chars().all(|c| c.is_ascii_hexdigit() && !c.is_ascii_uppercase()),
        "the build suffix must be lowercase hex, got {suffix:?}"
    );
    assert_eq!(suffix, format!("{:08x}", build()));
}

#[test]
fn reverses_payload_bytes() {
    let report = probe("x".to_string(), vec![1, 2, 3], build()).unwrap();
    assert_eq!(report.payload, vec![3, 2, 1]);
}

#[test]
fn preserves_non_utf8_bytes() {
    let report = probe("x".to_string(), vec![0x00, 0xff, 0xfe], build()).unwrap();
    assert_eq!(report.payload, vec![0xfe, 0xff, 0x00]);
}

#[test]
fn rejects_empty_input() {
    let err = probe(String::new(), vec![], build()).unwrap_err();
    assert_eq!(err, ProbeError::Rejected { reason: "input must not be empty".to_string() });
}

#[test]
fn the_version_writes_the_build_as_eight_lowercase_hex_digits() {
    assert_eq!(core_version(0), "0.1.0+emit.00000000");
    assert_eq!(core_version(0xdead_beef), "0.1.0+emit.deadbeef");
    assert_eq!(core_version(FNV_OFFSET_BASIS), "0.1.0+emit.811c9dc5");
}

#[test]
fn fnv1a_matches_its_published_vectors_and_chains() {
    assert_eq!(fnv1a(FNV_OFFSET_BASIS, b""), 0x811c_9dc5);
    assert_eq!(fnv1a(FNV_OFFSET_BASIS, b"a"), 0xe40c_292c);
    assert_eq!(fnv1a(FNV_OFFSET_BASIS, b"foobar"), 0xbf9c_f968);
    assert_eq!(fnv1a(fnv1a(FNV_OFFSET_BASIS, b"foo"), b"bar"), fnv1a(FNV_OFFSET_BASIS, b"foobar"));
}

#[test]
fn emits_one_signal_that_reaches_the_observer() {
    let (report, signal) = probe_with_observer("hi".to_string(), vec![1, 2], build());
    assert_eq!(report.unwrap().echoed, "hi");
    let signal = signal.expect("the probe_started signal must reach the observer");
    assert_eq!(signal.kind, "probe_started");
    assert_eq!(signal.detail, "hi");
}

#[test]
fn emits_no_signal_when_input_is_rejected() {
    let (report, signal) = probe_with_observer(String::new(), vec![], build());
    assert_eq!(report, Err(ProbeError::Rejected { reason: "input must not be empty".to_string() }));
    assert!(signal.is_none());
}

#[test]
fn a_signal_reaches_only_a_registered_observer() {
    let mut registry: CryptoObserverRegistry<&'static str> = CryptoObserverRegistry::new();
    let signal = CryptoSignal::VerificationCompleted { flow_id: "f".to_string() };
    assert!(registry.emit_crypto(signal.clone()).is_none());
    set_crypto_observer(&mut registry, "first");
    set_crypto_observer(&mut registry, "second");
    assert_eq!(registry.crypto_observer(), Some(&"second"));
    assert_eq!(registry.emit_crypto(signal.clone()), Some((&"second", signal.clone())));
    clear_crypto_observer(&mut registry);
    assert!(registry.crypto_observer().is_none());
    assert!(registry.emit_crypto(signal).is_none());
}
