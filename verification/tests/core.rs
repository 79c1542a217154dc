use romhash::build_rom;
use romhash::build_rom_twostep;
use romhash::hash;
use romhash::Rom;
use romhash::RomError;
use romhash::RomGenerationType;
use sha2::Digest;

#[test]
fn rom_determinism_full_random() {
    let r1 = build_rom(b"test-key", 1024);
    let r2 = build_rom(b"test-key", 1024);
    assert_eq!(r1.as_bytes(), r2.as_bytes());
    assert_eq!(r1.len(), 1024);
}

#[test]
fn rom_determinism_two_step() {
    let r1 = build_rom_twostep(b"test-key", 2048, 256, 4).unwrap();
    let r2 = build_rom_twostep(b"test-key", 2048, 256, 4).unwrap();
    assert_eq!(r1.as_bytes(), r2.as_bytes());
    assert_eq!(r1.len(), 2048);
}

#[test]
fn rom_new_matches_build_functions() {
    let a = Rom::new(b"k", RomGenerationType::FullRandom, 512).unwrap();
    let b = build_rom(b"k", 512);
    assert_eq!(a.as_bytes(), b.as_bytes());
    let gen = RomGenerationType::TwoStep { pre_size: 64, mixing_numbers: 3 };
    let c = Rom::new(b"k", gen, 512).unwrap();
    let d = build_rom_twostep(b"k", 512, 64, 3).unwrap();
    assert_eq!(c.as_bytes(), d.as_bytes());
}

#[test]
fn full_random_is_counter_mode_sha256() {
    // One expansion block: the compression of key || little-endian counter 0.
    let rom = build_rom(b"abc", 32);
    let mut input = b"abc".to_vec();
    input.extend_from_slice(&0u64.to_le_bytes());
    let block0 = sha2::Sha256::digest(&input).to_vec();
    assert_eq!(rom.as_bytes(), &block0[..]);
    // Two blocks, truncated to the requested size.
    let rom40 = build_rom(b"abc", 40);
    let mut input1 = b"abc".to_vec();
    input1.extend_from_slice(&1u64.to_le_bytes());
    let block1 = sha2::Sha256::digest(&input1).to_vec();
    let mut expected = block0.clone();
    expected.extend_from_slice(&block1);
    expected.truncate(40);
    assert_eq!(rom40.as_bytes(), &expected[..]);
}

#[test]
fn hash_determinism() {
    let rom = build_rom(b"key", 4096);
    let h1 = hash(b"salt", &rom, 8, 64);
    let h2 = hash(b"salt", &rom, 8, 64);
    assert_eq!(h1, h2);
    assert_eq!(h1.len(), 32);
}

#[test]
fn hash_hex_matches_hex_of_digest() {
    let rom = build_rom(b"key", 1024);
    let s = rom.hash_with_params("x", 2, 8);
    let d = hash(b"x", &rom, 2, 8);
    assert_eq!(s, hex::encode(&d));
    assert_eq!(s.len(), 64);
}

#[test]
fn hash_default_params_are_8_and_256() {
    let rom = build_rom(b"key", 1024);
    assert_eq!(rom.hash("abc"), rom.hash_with_params("abc", 8, 256));
}

#[test]
fn batch_consistency() {
    let rom = build_rom(b"key", 2048);
    let salts = vec!["a", "b", "c", ""];
    let batch = rom.hash_batch_with_params(salts.clone(), 4, 32);
    assert_eq!(batch.len(), salts.len());
    for (i, s) in salts.iter().enumerate() {
        assert_eq!(batch[i], rom.hash_with_params(s, 4, 32));
    }
}

#[test]
fn batch_default_params() {
    let rom = build_rom(b"key", 1024);
    let batch = rom.hash_batch(vec!["x", "y"]);
    assert_eq!(batch[0], rom.hash("x"));
    assert_eq!(batch[1], rom.hash("y"));
}

#[test]
fn batch_empty() {
    let rom = build_rom(b"key", 64);
    let batch = rom.hash_batch(vec![]);
    assert!(batch.is_empty());
}

#[test]
fn boundary_pre_size_above_size_is_invalid_parameter() {
    assert_eq!(
        build_rom_twostep(b"k", 100, 101, 4).unwrap_err(),
        RomError::InvalidParameter
    );
    let gen = RomGenerationType::TwoStep { pre_size: 101, mixing_numbers: 4 };
    assert_eq!(Rom::new(b"k", gen, 100).unwrap_err(), RomError::InvalidParameter);
}

#[test]
fn boundary_pre_size_equal_size_degenerates_to_copy() {
    let two_step = build_rom_twostep(b"k", 512, 512, 7).unwrap();
    let full = build_rom(b"k", 512);
    assert_eq!(two_step.as_bytes(), full.as_bytes());
}

#[test]
fn two_step_pre_size_zero_is_valid() {
    let r1 = build_rom_twostep(b"k", 64, 0, 2).unwrap();
    let r2 = build_rom_twostep(b"k", 64, 0, 2).unwrap();
    assert_eq!(r1.len(), 64);
    assert_eq!(r1.as_bytes(), r2.as_bytes());
}

#[test]
fn two_step_zero_passes_is_valid() {
    let r = build_rom_twostep(b"k", 128, 32, 0).unwrap();
    assert_eq!(r.len(), 128);
}

#[test]
fn wrap_around_reads() {
    let rom = build_rom(b"k", 10);
    assert_eq!(rom.byte_at(3), rom.byte_at(13));
    assert_eq!(rom.byte_at(0), rom.byte_at(10));
    assert_eq!(rom.read_word(7), rom.read_word(17));
}

#[test]
fn empty_rom_reads_and_hashes() {
    let rom = build_rom(b"k", 0);
    assert_eq!(rom.len(), 0);
    assert_eq!(rom.byte_at(12345), 0);
    assert_eq!(rom.read_word(9), 0);
    let h1 = hash(b"salt", &rom, 8, 16);
    let h2 = hash(b"salt", &rom, 8, 16);
    assert_eq!(h1, h2);
    assert_eq!(h1.len(), 32);
}

#[test]
fn zero_parameters_give_a_salt_only_digest() {
    let rom = build_rom(b"k", 256);
    let no_loops = hash(b"s", &rom, 0, 16);
    assert_eq!(no_loops, hash(b"s", &rom, 0, 16));
    assert_eq!(no_loops.len(), 32);
    let no_instrs = hash(b"s", &rom, 8, 0);
    assert_eq!(no_instrs, hash(b"s", &rom, 8, 0));
    assert_eq!(no_instrs.len(), 32);
}

#[test]
fn empty_salt_is_accepted() {
    let rom = build_rom(b"k", 256);
    let h = hash(b"", &rom, 8, 16);
    assert_eq!(h.len(), 32);
    assert_eq!(h, hash(b"", &rom, 8, 16));
}
