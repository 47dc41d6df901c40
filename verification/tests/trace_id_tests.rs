use event_core::trace_id::compose_trace_id_128;
use event_core::trace_id::TraceIdSource;

#[test]
fn compose_places_clock_and_draw_exactly() {
    let id = compose_trace_id_128(0x12345678, 0xDEAD_BEEF_0011_2233);
    assert_eq!(id, 0x12345678_00000000_DEADBEEF_00112233_u128);
}

#[test]
fn compose_truncates_the_clock_to_32_bits() {
    let id = compose_trace_id_128(0x1_0000_0001, 7);
    assert_eq!(id, 0x00000001_00000000_00000000_00000007_u128);
}

#[test]
fn compose_with_zero_parts() {
    assert_eq!(compose_trace_id_128(0, 0), 0);
    assert_eq!(compose_trace_id_128(0, u64::MAX), u64::MAX as u128);
}

#[test]
fn source_draws_the_splitmix_stream() {
    // The first splitmix64 output for seed 0 is a published test vector; a
    // source that handed its seed back unchanged would fail this.
    let mut src = TraceIdSource::new(0);
    assert_eq!(src.gen_trace_id_64_bits(), 0xE220_A839_7B1D_CDAF);
    // The stream is deterministic per seed, and draws advance it.
    let mut again = TraceIdSource::new(0);
    assert_eq!(again.gen_trace_id_64_bits(), 0xE220_A839_7B1D_CDAF);
    assert_ne!(src.gen_trace_id_64_bits(), 0xE220_A839_7B1D_CDAF);
}

#[test]
fn reseed_restarts_the_stream() {
    let mut src = TraceIdSource::new(42);
    let first = src.gen_trace_id_64_bits();
    src.reseed(42);
    assert_eq!(src.gen_trace_id_64_bits(), first);
    src.reseed(0);
    assert_eq!(src.gen_trace_id_64_bits(), 0xE220_A839_7B1D_CDAF);
}

#[test]
fn full_identifier_carries_clock_and_draw() {
    let mut src = TraceIdSource::new(0);
    let id = src.gen_trace_id_128_bits(1_700_000_000);
    assert_eq!(id >> 96, 1_700_000_000 & 0xFFFF_FFFF);
    assert_eq!(id & 0xFFFF_FFFF_FFFF_FFFF, 0xE220_A839_7B1D_CDAF);
    assert_eq!((id >> 64) & 0xFFFF_FFFF, 0);
}
