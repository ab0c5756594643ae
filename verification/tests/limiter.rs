use dram_bench::RateLimiter;

#[test]
fn scale_stretches_low_bandwidths() {
    let l = RateLimiter::new(1, 1_000_000_000);
    assert_eq!(l.scale(), 1_000_000);
    assert_eq!(l.capacity(), 16_777_216 * 1_000_000);

    let l = RateLimiter::new(1000, 1_000_000_000);
    assert_eq!(l.scale(), 1000);
    assert_eq!(l.capacity(), 16_777_216_000);

    let l = RateLimiter::new(1_000_000, 1_000_000_000);
    assert_eq!(l.scale(), 1);

    // 100 Gbit/s still clears the precision threshold with a tenfold scale
    let l = RateLimiter::new(100_000, 1_000_000_000);
    assert_eq!(l.scale(), 10);
}

#[test]
fn admits_every_packet_at_configured_cadence() {
    // 1000 Mbit/s against a 1 GHz tick counter: a 1500-byte packet takes
    // 12 microseconds on the wire, i.e. 12000 ticks.
    let mut l = RateLimiter::new(1000, 1_000_000_000);
    let mut t: u64 = 0;
    let mut admitted = 0u32;
    for _ in 0..1000 {
        t += 12_000;
        if l.can_send(t, 1500) {
            admitted += 1;
        }
    }
    assert_eq!(admitted, 1000);
}

#[test]
fn denies_half_at_double_cadence() {
    let mut l = RateLimiter::new(1000, 1_000_000_000);
    let mut t: u64 = 0;
    let mut admitted = 0u32;
    for _ in 0..1000 {
        t += 6_000;
        if l.can_send(t, 1500) {
            admitted += 1;
        }
    }
    assert_eq!(admitted, 500);
}

#[test]
fn burst_in_one_instant_is_capped_at_capacity() {
    let mut l = RateLimiter::new(1000, 1_000_000_000);
    // let plenty of time pass so the bucket fills to capacity
    let t: u64 = 1_000_000_000_000;
    let mut admitted: u64 = 0;
    for _ in 0..2000 {
        if l.can_send(t, 1500) {
            admitted += 1;
        }
    }
    // capacity 16_777_216_000 scaled tokens / 12_000_000 per packet
    assert_eq!(admitted, 1398);
    assert!(admitted * 1500 * 8 * l.scale() <= l.capacity());
}

#[test]
fn denial_debits_nothing() {
    let mut l = RateLimiter::new(1000, 1_000_000_000);
    assert!(!l.can_send(100, 1500));
    let left = l.available_tokens();
    assert!(!l.can_send(100, 1500));
    assert_eq!(l.available_tokens(), left);
    assert_eq!(l.last_tsc(), 100);
}

#[test]
fn refill_timestamp_moves_on_denial() {
    let mut l = RateLimiter::new(1000, 1_000_000_000);
    assert!(!l.can_send(6_000, 1500));
    assert_eq!(l.last_tsc(), 6_000);
    // the tokens counted at the denial stay banked, so the next 6000
    // ticks complete the packet's cost
    assert!(l.can_send(12_000, 1500));
}
