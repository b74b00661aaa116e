use llama_tune::share::usable_share;

fn in_floating_point(bytes: u64) -> u64 {
    (bytes as f64 * 0.90) as u64
}

#[test]
fn usable_share_is_the_floating_point_product() {
    let mut values: Vec<u64> = Vec::new();
    for n in 0..5000u64 {
        values.push(n);
        values.push(u64::MAX - n);
        values.push((1 << 53) - 2500 + n);
        values.push((1 << 54) - 2500 + n);
        values.push((1 << 63) - 2500 + n);
        values.push(n * 1_073_741_824);
    }
    for bit in 0..64 {
        let p = 1u64 << bit;
        for d in 0..40 {
            values.push(p.wrapping_add(d));
            values.push(p.wrapping_sub(d));
        }
    }
    let mut x: u64 = 0x9E37_79B9_7F4A_7C15;
    for _ in 0..200_000 {
        x ^= x << 13;
        x ^= x >> 7;
        x ^= x << 17;
        values.push(x);
        values.push(x >> (x % 64));
    }
    for v in values {
        assert_eq!(usable_share(v), in_floating_point(v), "{}", v);
    }
}

#[test]
fn usable_share_of_chosen_sizes() {
    assert_eq!(usable_share(0), 0);
    assert_eq!(usable_share(10), 9);
    assert_eq!(usable_share(1_000_000_000), 900_000_000);
    assert_eq!(usable_share(8 * 1_073_741_824), 7_730_941_132);
}

#[test]
fn usable_share_is_monotone_and_close() {
    let mut last = 0;
    for n in 0..20_000u64 {
        let bytes = n * 922_337_203_685_477;
        let usable = usable_share(bytes);
        assert!(usable >= last);
        assert!(usable <= bytes);
        last = usable;
    }
}
