//! ROM construction: deterministic expansion of a key into a large
//! read-only byte buffer, under one of two strategies.

use crate::mix::GAMMA;
use crate::sha256::sha256_bytes;
use crate::sha256::sha256_of;
use vstd::arithmetic::div_mod::lemma_fundamental_div_mod;
use vstd::bytes::spec_u64_to_le_bytes;
use vstd::bytes::u64_to_le_bytes;
use vstd::prelude::*;
use vstd::slice::slice_to_vec;
use vstd::wrapping::u64_specs;
use vstd::wrapping::u8_specs;

verus! {

/// How a ROM is generated from a key.
#[derive(Clone, Copy, PartialEq, Eq, Structural, Debug)]
pub enum RomGenerationType {
    /// The whole buffer comes from the strong expansion of the key.
    FullRandom,
    /// Only `pre_size` bytes come from the strong expansion; the buffer is
    /// then grown to full size and stirred by `mixing_numbers` cheap
    /// diffusion passes.
    TwoStep { pre_size: usize, mixing_numbers: usize },
}

/// Why a ROM could not be built. Construction is deterministic, so the same
/// inputs always reproduce the same error; running out of memory is not
/// reported here but aborts, as any Rust allocation failure does.
#[derive(Clone, Copy, PartialEq, Eq, Structural, Debug)]
pub enum RomError {
    /// The parameters contradict each other (`pre_size > size`).
    InvalidParameter,
}

/// Number of 32-byte blocks needed to cover `size` bytes.
pub open spec fn blocks_for(size: nat) -> nat {
    (size + 31) / 32
}

/// Concatenation of the first `n` expansion blocks of `key`: block `i` is
/// the compression of `key` followed by the little-endian counter `i`.
pub open spec fn expand_blocks(key: Seq<u8>, n: nat) -> Seq<u8>
    decreases n,
{
    if n == 0 {
        Seq::empty()
    } else {
        expand_blocks(key, (n - 1) as nat) + sha256_of(
            key + spec_u64_to_le_bytes(((n - 1) as nat) as u64),
        )
    }
}

/// The strong expansion of `key` to exactly `size` bytes: counter-mode
/// compression blocks, truncated to `size`.
pub open spec fn strong_expand(key: Seq<u8>, size: nat) -> Seq<u8> {
    expand_blocks(key, blocks_for(size)).take(size as int)
}

/// One derived byte of the cheap growth step, mixed from the last byte, a
/// multiplicatively chosen earlier byte, and the position.
pub open spec fn mix_byte(prev: u8, far: u8, i: u64) -> u8 {
    u8_specs::wrapping_add(prev ^ ((far << 3) | (far >> 5)), i as u8)
}

/// The byte appended when a buffer `b` grows by one.
pub open spec fn grow_byte(b: Seq<u8>) -> u8 {
    if b.len() == 0 {
        0x5A
    } else {
        let i = b.len() as u64;
        let j = (u64_specs::wrapping_mul(i, GAMMA) as int) % (b.len() as int);
        mix_byte(b[b.len() - 1], b[j], i)
    }
}

/// `b` grown forward, one derived byte at a time, until it holds `target`
/// bytes (unchanged if it is already that long).
pub open spec fn grow_to(b: Seq<u8>, target: nat) -> Seq<u8>
    decreases target - b.len(),
{
    if b.len() >= target {
        b
    } else {
        grow_to(b.push(grow_byte(b)), target)
    }
}

/// One byte of a diffusion pass: the old byte stirred with the already
/// rewritten left neighbour and the pass number.
pub open spec fn pass_byte(x: u8, left: u8, p: usize) -> u8 {
    u8_specs::wrapping_add(x ^ ((left << 1) | (left >> 7)), p as u8)
}

/// The first `i` bytes of diffusion pass `p` over `b`: bytes below `pre`
/// are kept, later ones are rewritten in order.
pub open spec fn pass_prefix(b: Seq<u8>, pre: nat, p: usize, i: nat) -> Seq<u8>
    decreases i,
{
    if i == 0 {
        Seq::empty()
    } else {
        let r = pass_prefix(b, pre, p, (i - 1) as nat);
        let e = i - 1;
        r.push(
            if e < pre {
                b[e]
            } else {
                pass_byte(b[e], if e == 0 { 0u8 } else { r[e - 1] }, p)
            },
        )
    }
}

/// One whole diffusion pass `p` over `b`, keeping the first `pre` bytes.
pub open spec fn one_pass(b: Seq<u8>, pre: nat, p: usize) -> Seq<u8> {
    pass_prefix(b, pre, p, b.len())
}

/// `n` diffusion passes over `b`, keeping the first `pre` bytes.
pub open spec fn passes(b: Seq<u8>, pre: nat, n: usize) -> Seq<u8>
    decreases n,
{
    if n == 0 {
        b
    } else {
        one_pass(passes(b, pre, (n - 1) as usize), pre, (n - 1) as usize)
    }
}

/// The content of a two-step ROM: a strong `pre_size`-byte seed, grown
/// forward to `size` bytes, then stirred by `mixing` diffusion passes.
pub open spec fn two_step_content(key: Seq<u8>, pre_size: nat, mixing: usize, size: nat) -> Seq<
    u8,
> {
    passes(grow_to(strong_expand(key, pre_size), size), pre_size, mixing)
}

/// Whether the generation parameters are consistent with the ROM size.
pub open spec fn gen_valid(gen: RomGenerationType, size: nat) -> bool {
    match gen {
        RomGenerationType::FullRandom => true,
        RomGenerationType::TwoStep { pre_size, mixing_numbers } => pre_size <= size,
    }
}

/// The content of a ROM built from `key` under `gen` at `size` bytes: a
/// pure function of those three values alone.
pub open spec fn rom_content(key: Seq<u8>, gen: RomGenerationType, size: nat) -> Seq<u8> {
    match gen {
        RomGenerationType::FullRandom => strong_expand(key, size),
        RomGenerationType::TwoStep { pre_size, mixing_numbers } => two_step_content(
            key,
            pre_size as nat,
            mixing_numbers,
            size,
        ),
    }
}

/// The byte of `rom` at wrap-around offset `off` (0 for an empty ROM).
pub open spec fn rom_byte(rom: Seq<u8>, off: u64) -> u8 {
    if rom.len() == 0 {
        0
    } else {
        rom[(off as int) % (rom.len() as int)]
    }
}

/// The little-endian word of `rom` read at wrap-around offset `off`.
pub open spec fn rom_word(rom: Seq<u8>, off: u64) -> u64 {
    (rom_byte(rom, off) as u64) | (rom_byte(rom, u64_specs::wrapping_add(off, 1)) as u64) << 8 | (
    rom_byte(rom, u64_specs::wrapping_add(off, 2)) as u64) << 16 | (rom_byte(
        rom,
        u64_specs::wrapping_add(off, 3),
    ) as u64) << 24 | (rom_byte(rom, u64_specs::wrapping_add(off, 4)) as u64) << 32 | (rom_byte(
        rom,
        u64_specs::wrapping_add(off, 5),
    ) as u64) << 40 | (rom_byte(rom, u64_specs::wrapping_add(off, 6)) as u64) << 48 | (rom_byte(
        rom,
        u64_specs::wrapping_add(off, 7),
    ) as u64) << 56
}

/// Growing by one more byte appends exactly one derived byte.
pub proof fn lemma_grow_unfold(b: Seq<u8>, t: nat)
    requires
        b.len() <= t,
    ensures
        grow_to(b, t + 1) == grow_to(b, t).push(grow_byte(grow_to(b, t))),
    decreases t - b.len(),
{
    if b.len() == t {
        assert(grow_to(b, t) == b);
        assert(grow_to(b, t + 1) == grow_to(b.push(grow_byte(b)), t + 1));
        assert(grow_to(b.push(grow_byte(b)), t + 1) == b.push(grow_byte(b)));
    } else {
        lemma_grow_unfold(b.push(grow_byte(b)), t);
    }
}

/// A grown buffer has exactly the requested length.
pub proof fn lemma_grow_len(b: Seq<u8>, target: nat)
    requires
        b.len() <= target,
    ensures
        grow_to(b, target).len() == target,
    decreases target - b.len(),
{
    if b.len() < target {
        lemma_grow_len(b.push(grow_byte(b)), target);
    }
}

/// A diffusion pass that keeps at least the whole buffer rewrites nothing.
proof fn lemma_pass_prefix_identity(b: Seq<u8>, pre: nat, p: usize, i: nat)
    requires
        i <= b.len(),
        pre >= b.len(),
    ensures
        pass_prefix(b, pre, p, i) == b.take(i as int),
    decreases i,
{
    if i == 0 {
        assert(pass_prefix(b, pre, p, 0) =~= b.take(0));
    } else {
        lemma_pass_prefix_identity(b, pre, p, (i - 1) as nat);
        assert(pass_prefix(b, pre, p, i) =~= b.take(i as int));
    }
}

/// Any number of such passes rewrites nothing either.
proof fn lemma_passes_identity(b: Seq<u8>, pre: nat, n: usize)
    requires
        pre >= b.len(),
    ensures
        passes(b, pre, n) == b,
    decreases n,
{
    if n > 0 {
        lemma_passes_identity(b, pre, (n - 1) as usize);
        lemma_pass_prefix_identity(b, pre, (n - 1) as usize, b.len());
        assert(b.take(b.len() as int) =~= b);
    }
}

/// A two-step build whose seed is already the full size degenerates to a
/// copy of the strong expansion, with zero mixing growth, whatever the
/// number of passes.
pub proof fn lemma_two_step_degenerate(key: Seq<u8>, mixing: usize, size: nat)
    requires
        strong_expand(key, size).len() == size,
    ensures
        two_step_content(key, size, mixing, size) == strong_expand(key, size),
{
    let pre = strong_expand(key, size);
    assert(grow_to(pre, size) == pre);
    lemma_passes_identity(pre, size, mixing);
}

/// ROM construction is deterministic: any two contents built from the same
/// key, generation type and size are byte-identical, because the content is
/// a pure function of those three values alone.
pub proof fn lemma_rom_build_deterministic(
    key: Seq<u8>,
    gen: RomGenerationType,
    size: nat,
    c1: Seq<u8>,
    c2: Seq<u8>,
)
    requires
        c1 == rom_content(key, gen, size),
        c2 == rom_content(key, gen, size),
    ensures
        c1 == c2,
{
}

/// The strong expansion of `key` to exactly `size` bytes.
fn expand(key: &[u8], size: usize) -> (out: Vec<u8>)
    ensures
        out@ == strong_expand(key@, size as nat),
        out@.len() == size,
{
    let mut out: Vec<u8> = Vec::new();
    let mut ctr: u64 = 0;
    while out.len() < size
        invariant
            out@ == expand_blocks(key@, ctr as nat),
            out@.len() == 32 * ctr,
            ctr == 0 || 32 * (ctr as int - 1) < size,
        decreases size + 32 - out@.len(),
    {
        let mut input = slice_to_vec(key);
        let mut ctr_bytes = u64_to_le_bytes(ctr);
        input.append(&mut ctr_bytes);
        assert(input@ == key@ + spec_u64_to_le_bytes(ctr));
        let mut block = sha256_bytes(&input);
        out.append(&mut block);
        assert(out@ == expand_blocks(key@, (ctr + 1) as nat));
        ctr = ctr + 1;
    }
    proof {
        if size > 0 {
            lemma_fundamental_div_mod(size as int + 31, 32);
            assert(ctr as nat == blocks_for(size as nat));
        }
    }
    out.truncate(size);
    assert(out@ == strong_expand(key@, size as nat));
    out
}

/// The two-step expansion: strong seed, cheap growth, diffusion passes.
fn build_two_step(key: &[u8], size: usize, pre_size: usize, mixing: usize) -> (out: Vec<u8>)
    requires
        pre_size <= size,
    ensures
        out@ == two_step_content(key@, pre_size as nat, mixing, size as nat),
        out@.len() == size,
        strong_expand(key@, pre_size as nat).len() == pre_size,
{
    let mut buf = expand(key, pre_size);
    let ghost pre_seq = buf@;
    while buf.len() < size
        invariant
            pre_seq == strong_expand(key@, pre_size as nat),
            pre_seq.len() == pre_size,
            pre_size <= buf@.len() <= size,
            buf@ == grow_to(pre_seq, buf@.len() as nat),
        decreases size - buf@.len(),
    {
        let i = buf.len();
        let nb: u8;
        if i == 0 {
            nb = 0x5A;
        } else {
            let iw: u64 = i as u64;
            let j = (iw.wrapping_mul(GAMMA) % iw) as usize;
            assert(j < i);
            let far = buf[j];
            nb = (buf[i - 1] ^ ((far << 3) | (far >> 5))).wrapping_add(iw as u8);
        }
        assert(nb == grow_byte(buf@));
        proof {
            lemma_grow_unfold(pre_seq, buf@.len() as nat);
        }
        buf.push(nb);
    }
    assert(buf@ == grow_to(pre_seq, size as nat));
    let ghost grown_seq = buf@;
    let mut p: usize = 0;
    while p < mixing
        invariant
            p <= mixing,
            buf@.len() == size,
            buf@ == passes(grown_seq, pre_size as nat, p),
        decreases mixing - p,
    {
        let n = buf.len();
        let mut nbuf: Vec<u8> = Vec::new();
        let mut i: usize = 0;
        while i < n
            invariant
                n == buf@.len(),
                i <= n,
                nbuf@.len() == i,
                nbuf@ == pass_prefix(buf@, pre_size as nat, p, i as nat),
            decreases n - i,
        {
            let v: u8;
            if i < pre_size {
                v = buf[i];
            } else {
                let left: u8 = if i == 0 {
                    0u8
                } else {
                    nbuf[i - 1]
                };
                v = (buf[i] ^ ((left << 1) | (left >> 7))).wrapping_add(p as u8);
            }
            nbuf.push(v);
            i = i + 1;
            assert(nbuf@ == pass_prefix(buf@, pre_size as nat, p, i as nat));
        }
        buf = nbuf;
        p = p + 1;
    }
    buf
}

/// A read-only pseudorandom buffer, immutable after construction, read with
/// wrap-around indexing so that every derived offset is valid.
#[derive(Debug)]
pub struct Rom {
    data: Vec<u8>,
}

impl View for Rom {
    type V = Seq<u8>;

    closed spec fn view(&self) -> Seq<u8> {
        self.data@
    }
}

impl Rom {
    /// Builds the ROM for `key` under `gen` at `size` bytes. Returns the
    /// deterministic content for consistent parameters, and
    /// `InvalidParameter` exactly when the two-step seed would be larger
    /// than the ROM itself.
    pub fn new(key: &[u8], gen: RomGenerationType, size: usize) -> (r: Result<Rom, RomError>)
        ensures
            match r {
                Ok(rom) => gen_valid(gen, size as nat) && rom@ == rom_content(
                    key@,
                    gen,
                    size as nat,
                ) && rom@.len() == size,
                Err(e) => !gen_valid(gen, size as nat) && e == RomError::InvalidParameter,
            },
    {
        match gen {
            RomGenerationType::FullRandom => Ok(Rom { data: expand(key, size) }),
            RomGenerationType::TwoStep { pre_size, mixing_numbers } => {
                if pre_size > size {
                    Err(RomError::InvalidParameter)
                } else {
                    Ok(Rom { data: build_two_step(key, size, pre_size, mixing_numbers) })
                }
            },
        }
    }

    /// The ROM length in bytes.
    pub fn len(&self) -> (n: usize)
        ensures
            n == self@.len(),
    {
        self.data.len()
    }

    /// The whole content, read-only.
    pub fn as_bytes(&self) -> (b: &[u8])
        ensures
            b@ == self@,
    {
        self.data.as_slice()
    }

    /// The byte at wrap-around offset `off` (0 for an empty ROM).
    pub fn byte_at(&self, off: u64) -> (r: u8)
        ensures
            r == rom_byte(self@, off),
    {
        if self.data.len() == 0 {
            0
        } else {
            let n = self.data.len() as u64;
            let j = (off % n) as usize;
            self.data[j]
        }
    }

    /// The little-endian word read at wrap-around offset `off`.
    pub fn read_word(&self, off: u64) -> (r: u64)
        ensures
            r == rom_word(self@, off),
    {
        (self.byte_at(off) as u64) | (self.byte_at(off.wrapping_add(1)) as u64) << 8 | (
        self.byte_at(off.wrapping_add(2)) as u64) << 16 | (self.byte_at(
            off.wrapping_add(3),
        ) as u64) << 24 | (self.byte_at(off.wrapping_add(4)) as u64) << 32 | (self.byte_at(
            off.wrapping_add(5),
        ) as u64) << 40 | (self.byte_at(off.wrapping_add(6)) as u64) << 48 | (self.byte_at(
            off.wrapping_add(7),
        ) as u64) << 56
    }
}

/// Builds a ROM with the full-random strategy: the whole buffer is the
/// strong expansion of the key. Total: every key and size succeed.
pub fn build_rom(key: &[u8], size: usize) -> (rom: Rom)
    ensures
        rom@ == rom_content(key@, RomGenerationType::FullRandom, size as nat),
        rom@.len() == size,
{
    Rom { data: expand(key, size) }
}

/// Builds a ROM with the two-step strategy. Fails with `InvalidParameter`
/// exactly when `pre_size > size`; with `pre_size == size` the result
/// degenerates to a copy of the strong expansion.
pub fn build_rom_twostep(key: &[u8], size: usize, pre_size: usize, mixing_numbers: u32) -> (r:
    Result<Rom, RomError>)
    ensures
        match r {
            Ok(rom) => pre_size <= size && rom@ == rom_content(
                key@,
                RomGenerationType::TwoStep {
                    pre_size,
                    mixing_numbers: mixing_numbers as usize,
                },
                size as nat,
            ) && rom@.len() == size,
            Err(e) => pre_size > size && e == RomError::InvalidParameter,
        },
        pre_size == size ==> (r matches Ok(rom) && rom@ == strong_expand(key@, size as nat)),
{
    if pre_size > size {
        Err(RomError::InvalidParameter)
    } else {
        let data = build_two_step(key, size, pre_size, mixing_numbers as usize);
        proof {
            if pre_size == size {
                lemma_two_step_degenerate(key@, mixing_numbers as usize, size as nat);
            }
        }
        Ok(Rom { data })
    }
}

} // verus!
