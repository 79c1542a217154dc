use romhash::build_rom;
use romhash::build_rom_twostep;
use romhash::hash;

fn bit_distance(x: &[u8], y: &[u8]) -> u32 {
    assert_eq!(x.len(), y.len());
    let mut n: u32 = 0;
    for i in 0..x.len() {
        n += (x[i] ^ y[i]).count_ones();
    }
    n
}

#[test]
fn avalanche_one_salt_bit() {
    // Flipping a single salt bit moves the digest far: close to half of the
    // 256 digest bits, on this fixed sample.
    let rom = build_rom(b"key", 4096);
    let h1 = hash(b"hello", &rom, 8, 256);
    let h2 = hash(b"iello", &rom, 8, 256);
    assert_ne!(h1, h2);
    let d = bit_distance(&h1, &h2);
    assert!(64 <= d && d <= 192, "bit distance {}", d);
}

#[test]
fn parameter_sensitivity() {
    let rom = build_rom(b"key", 4096);
    let base = hash(b"salt", &rom, 8, 256);
    assert_ne!(base, hash(b"salt", &rom, 8, 257));
    assert_ne!(base, hash(b"salt", &rom, 9, 256));
    assert_ne!(base, hash(b"salt", &rom, 7, 256));
}

#[test]
fn rom_sensitivity() {
    let rom1 = build_rom(b"key", 4096);
    let rom2 = build_rom(b"kez", 4096);
    assert_ne!(hash(b"salt", &rom1, 8, 64), hash(b"salt", &rom2, 8, 64));
}

#[test]
fn strategy_independence() {
    // The two strategies expand the same key to different content (with a
    // seed smaller than the buffer), and each is internally deterministic.
    let full = build_rom(b"key", 4096);
    let two1 = build_rom_twostep(b"key", 4096, 256, 4).unwrap();
    let two2 = build_rom_twostep(b"key", 4096, 256, 4).unwrap();
    assert_ne!(full.as_bytes(), two1.as_bytes());
    assert_eq!(two1.as_bytes(), two2.as_bytes());
    assert_ne!(
        hash(b"salt", &full, 8, 64),
        hash(b"salt", &two1, 8, 64)
    );
}

#[test]
fn reproducibility_one_mib() {
    // Fixed scenario: a 1 MiB full-random ROM from "test-key", preimage
    // "hello", 8 loops of 256 instructions; the digest is a constant.
    let rom = build_rom(b"test-key", 1 << 20);
    let hex1 = rom.hash_with_params("hello", 8, 256);
    let hex2 = rom.hash("hello");
    assert_eq!(hex1, hex2);
    assert_eq!(hex1, "cde3ed255eada76bb59519afb0d8b297cfa9857a564da3fb74f4ba4d6534cfcd");
}
