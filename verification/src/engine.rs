//! The hash engine: an instruction-driven mixer that turns a salt, a ROM and
//! two cost parameters into a fixed-length digest.
//!
//! The salt seeds a small register file; every loop derives a fresh stream of
//! pseudorandom instructions from the current state, and every instruction
//! pays one wrap-around ROM read at a data-dependent offset before mutating
//! the registers. Loops and instructions run strictly in order: each
//! instruction's output feeds the next, so ROM reads cannot be precomputed.
//!
//! Degenerate parameters are accepted: with `nb_loops == 0` or
//! `nb_instrs == 0` the digest is the well-defined salt-only value of the
//! remaining steps (no loop or no instruction runs).

use crate::hexcode::hex_encode;
use crate::hexcode::hex_of;
use crate::mix::mix;
use crate::mix::mix64;
use crate::mix::rotl;
use crate::mix::rotl64;
use crate::mix::GAMMA;
use crate::rom::rom_word;
use crate::rom::Rom;
use crate::sha256::sha256_bytes;
use crate::sha256::sha256_of;
use vstd::bytes::spec_u64_from_le_bytes;
use vstd::bytes::spec_u64_to_le_bytes;
use vstd::bytes::u64_from_le_bytes;
use vstd::bytes::u64_to_le_bytes;
use vstd::prelude::*;
use vstd::slice::slice_subrange;
use vstd::slice::slice_to_vec;
use vstd::string::StringSliceAdditionalSpecFns;
use vstd::wrapping::u64_specs;

verus! {

/// The working state: a small fixed file of wide registers.
#[derive(Clone, Copy)]
pub struct State {
    pub a: u64,
    pub b: u64,
    pub c: u64,
    pub d: u64,
}

/// One instruction applied to the state: the low opcode bits of the
/// pseudorandom word `w` select a mixing primitive, which consumes exactly
/// one ROM-derived operand; the register file then rotates so consecutive
/// instructions target different registers.
pub open spec fn apply_op(st: State, w: u64, operand: u64) -> State {
    let op = w & 7;
    let t = if op == 0 {
        st.a ^ operand
    } else if op == 1 {
        u64_specs::wrapping_add(st.a, operand)
    } else if op == 2 {
        u64_specs::wrapping_mul(st.a, operand | 1)
    } else if op == 3 {
        rotl64(st.a, operand)
    } else if op == 4 {
        u64_specs::wrapping_sub(st.a, operand)
    } else if op == 5 {
        st.a ^ ((st.b & operand) | (st.c & !operand))
    } else if op == 6 {
        let sh = ((operand & 31) + 1) as u64;
        st.a ^ (st.a >> sh) ^ operand
    } else {
        u64_specs::wrapping_add(st.a, rotl64(st.b, operand >> 58))
    };
    State { a: st.b, b: st.c, c: st.d, d: t }
}

/// One engine step: advance the stream, draw a pseudorandom word, read the
/// ROM at an offset that depends on the current state, apply the
/// instruction.
pub open spec fn step_instr(st: State, s: u64, rom: Seq<u8>) -> (State, u64) {
    let s1 = u64_specs::wrapping_add(s, GAMMA);
    let w = mix64(s1);
    let off = u64_specs::wrapping_add(w >> 3, st.a);
    (apply_op(st, w, rom_word(rom, off)), s1)
}

/// `n` engine steps in strict order, starting from state `st` and stream
/// state `s`.
pub open spec fn chain(st: State, s: u64, rom: Seq<u8>, n: nat) -> (State, u64)
    decreases n,
{
    if n == 0 {
        (st, s)
    } else {
        let prev = chain(st, s, rom, (n - 1) as nat);
        step_instr(prev.0, prev.1, rom)
    }
}

/// The instruction-stream seed of loop `li`, derived from the whole current
/// state.
pub open spec fn stream_seed(st: State, li: u64) -> u64 {
    mix64(st.a ^ rotl64(st.b, 17) ^ rotl64(st.c, 31) ^ rotl64(st.d, 47) ^ li)
}

/// The post-loop fold: the final stream state is compressed into a compact
/// contribution that seeds the next loop.
pub open spec fn fold_loop(st: State, s: u64, li: u64) -> State {
    let m = mix64(u64_specs::wrapping_add(s, li));
    State {
        a: st.a ^ m,
        b: u64_specs::wrapping_add(st.b, m),
        c: st.c ^ rotl64(m, 21),
        d: u64_specs::wrapping_add(st.d, rotl64(m, 43)),
    }
}

/// One full loop: `nb_instrs` instructions from a state-derived stream,
/// then the fold.
pub open spec fn loop_body(st: State, rom: Seq<u8>, nb_instrs: nat, li: u64) -> State {
    let r = chain(st, stream_seed(st, li), rom, nb_instrs);
    fold_loop(r.0, r.1, li)
}

/// `nb_loops` sequential loops over the ROM.
pub open spec fn run_loops(st: State, rom: Seq<u8>, nb_loops: nat, nb_instrs: nat) -> State
    decreases nb_loops,
{
    if nb_loops == 0 {
        st
    } else {
        loop_body(
            run_loops(st, rom, (nb_loops - 1) as nat, nb_instrs),
            rom,
            nb_instrs,
            ((nb_loops - 1) as nat) as u64,
        )
    }
}

/// The initial register file, compressed out of the salt.
pub open spec fn seed_state(salt: Seq<u8>) -> State {
    let h = sha256_of(seq![1u8] + salt);
    State {
        a: spec_u64_from_le_bytes(h.subrange(0, 8)),
        b: spec_u64_from_le_bytes(h.subrange(8, 16)),
        c: spec_u64_from_le_bytes(h.subrange(16, 24)),
        d: spec_u64_from_le_bytes(h.subrange(24, 32)),
    }
}

/// The register file serialized little-endian for finalization.
pub open spec fn state_bytes(st: State) -> Seq<u8> {
    spec_u64_to_le_bytes(st.a) + spec_u64_to_le_bytes(st.b) + spec_u64_to_le_bytes(st.c)
        + spec_u64_to_le_bytes(st.d)
}

/// The digest: a pure function of the salt, the ROM content and the two
/// cost parameters alone.
pub open spec fn digest_spec(salt: Seq<u8>, rom: Seq<u8>, nb_loops: nat, nb_instrs: nat) -> Seq<
    u8,
> {
    sha256_of(seq![2u8] + state_bytes(run_loops(seed_state(salt), rom, nb_loops, nb_instrs)))
}

/// Hashing is deterministic: any two digests of the same salt, ROM content,
/// loop count and instruction count are identical, because the digest is a
/// pure function of those four values alone.
pub proof fn lemma_hash_deterministic(
    salt: Seq<u8>,
    rom: Seq<u8>,
    nb_loops: nat,
    nb_instrs: nat,
    d1: Seq<u8>,
    d2: Seq<u8>,
)
    requires
        d1 == digest_spec(salt, rom, nb_loops, nb_instrs),
        d2 == digest_spec(salt, rom, nb_loops, nb_instrs),
    ensures
        d1 == d2,
{
}

/// Executable instruction dispatch, exactly [`apply_op`].
fn exec_instr(st: State, w: u64, operand: u64) -> (r: State)
    ensures
        r == apply_op(st, w, operand),
{
    let op = w & 7;
    let t: u64;
    if op == 0 {
        t = st.a ^ operand;
    } else if op == 1 {
        t = st.a.wrapping_add(operand);
    } else if op == 2 {
        t = st.a.wrapping_mul(operand | 1);
    } else if op == 3 {
        t = rotl(st.a, operand);
    } else if op == 4 {
        t = st.a.wrapping_sub(operand);
    } else if op == 5 {
        t = st.a ^ ((st.b & operand) | (st.c & !operand));
    } else if op == 6 {
        assert((operand & 31) + 1 < 64) by (bit_vector);
        let sh = (operand & 31) + 1;
        t = st.a ^ (st.a >> sh) ^ operand;
    } else {
        t = st.a.wrapping_add(rotl(st.b, operand >> 58));
    }
    State { a: st.b, b: st.c, c: st.d, d: t }
}

/// Hashes `salt` against `rom`: `nb_loops` loops of `nb_instrs`
/// instructions each, then finalization. Total for every salt and every
/// parameter value, and a pure function of the ROM's content.
pub fn hash(salt: &[u8], rom: &Rom, nb_loops: u32, nb_instrs: u32) -> (digest: Vec<u8>)
    ensures
        digest@ == digest_spec(salt@, rom@, nb_loops as nat, nb_instrs as nat),
        digest@.len() == 32,
{
    let mut seed_input: Vec<u8> = Vec::new();
    seed_input.push(1u8);
    let mut salt_vec = slice_to_vec(salt);
    seed_input.append(&mut salt_vec);
    assert(seed_input@ =~= seq![1u8] + salt@);
    let h = sha256_bytes(&seed_input);
    let mut st = State {
        a: u64_from_le_bytes(slice_subrange(h.as_slice(), 0, 8)),
        b: u64_from_le_bytes(slice_subrange(h.as_slice(), 8, 16)),
        c: u64_from_le_bytes(slice_subrange(h.as_slice(), 16, 24)),
        d: u64_from_le_bytes(slice_subrange(h.as_slice(), 24, 32)),
    };
    assert(st == seed_state(salt@));
    let ghost st0 = st;
    let mut li: u32 = 0;
    while li < nb_loops
        invariant
            li <= nb_loops,
            st == run_loops(st0, rom@, li as nat, nb_instrs as nat),
        decreases nb_loops - li,
    {
        let mut s = mix(st.a ^ rotl(st.b, 17) ^ rotl(st.c, 31) ^ rotl(st.d, 47) ^ (li as u64));
        assert(s == stream_seed(st, li as u64));
        let ghost st_in = st;
        let ghost s0 = s;
        let mut j: u32 = 0;
        while j < nb_instrs
            invariant
                j <= nb_instrs,
                st == chain(st_in, s0, rom@, j as nat).0,
                s == chain(st_in, s0, rom@, j as nat).1,
            decreases nb_instrs - j,
        {
            s = s.wrapping_add(GAMMA);
            let w = mix(s);
            let off = (w >> 3).wrapping_add(st.a);
            let operand = rom.read_word(off);
            st = exec_instr(st, w, operand);
            j = j + 1;
            assert(st == chain(st_in, s0, rom@, j as nat).0);
            assert(s == chain(st_in, s0, rom@, j as nat).1);
        }
        let m = mix(s.wrapping_add(li as u64));
        st =
        State {
            a: st.a ^ m,
            b: st.b.wrapping_add(m),
            c: st.c ^ rotl(m, 21),
            d: st.d.wrapping_add(rotl(m, 43)),
        };
        li = li + 1;
        assert(st == run_loops(st0, rom@, li as nat, nb_instrs as nat));
    }
    let mut fin: Vec<u8> = Vec::new();
    fin.push(2u8);
    let mut ab = u64_to_le_bytes(st.a);
    fin.append(&mut ab);
    let mut bb = u64_to_le_bytes(st.b);
    fin.append(&mut bb);
    let mut cb = u64_to_le_bytes(st.c);
    fin.append(&mut cb);
    let mut db = u64_to_le_bytes(st.d);
    fin.append(&mut db);
    assert(fin@ =~= seq![2u8] + state_bytes(st));
    sha256_bytes(&fin)
}

impl Rom {
    /// The lowercase hexadecimal digest of `preimage` with the default
    /// parameters (8 loops, 256 instructions).
    pub fn hash(&self, preimage: &str) -> (r: String)
        ensures
            r@ == hex_of(digest_spec(preimage.spec_bytes(), self@, 8, 256)),
    {
        self.hash_with_params(preimage, 8, 256)
    }

    /// The lowercase hexadecimal digest of `preimage` with caller-supplied
    /// loop and instruction counts.
    pub fn hash_with_params(&self, preimage: &str, nb_loops: u32, nb_instrs: u32) -> (r: String)
        ensures
            r@ == hex_of(
                digest_spec(preimage.spec_bytes(), self@, nb_loops as nat, nb_instrs as nat),
            ),
    {
        let salt = preimage.as_bytes();
        let digest = hash(salt, self, nb_loops, nb_instrs);
        hex_encode(&digest)
    }

    /// The digests of many preimages with the default parameters, in input
    /// order, each element independent of the others.
    pub fn hash_batch(&self, preimages: Vec<&str>) -> (r: Vec<String>)
        ensures
            r@.len() == preimages@.len(),
            forall|k: int|
                0 <= k < preimages@.len() ==> r@[k]@ == hex_of(
                    digest_spec(preimages@[k].spec_bytes(), self@, 8, 256),
                ),
    {
        self.hash_batch_with_params(preimages, 8, 256)
    }

    /// One digest per preimage, in input order, each element exactly the
    /// [`Rom::hash_with_params`] digest of that preimage alone: batching
    /// changes nothing but the call overhead.
    pub fn hash_batch_with_params(&self, preimages: Vec<&str>, nb_loops: u32, nb_instrs: u32) -> (r:
        Vec<String>)
        ensures
            r@.len() == preimages@.len(),
            forall|k: int|
                0 <= k < preimages@.len() ==> r@[k]@ == hex_of(
                    digest_spec(
                        preimages@[k].spec_bytes(),
                        self@,
                        nb_loops as nat,
                        nb_instrs as nat,
                    ),
                ),
    {
        let mut results: Vec<String> = Vec::new();
        let mut idx: usize = 0;
        while idx < preimages.len()
            invariant
                idx <= preimages@.len(),
                results@.len() == idx,
                forall|k: int|
                    0 <= k < idx ==> results@[k]@ == hex_of(
                        digest_spec(
                            preimages@[k].spec_bytes(),
                            self@,
                            nb_loops as nat,
                            nb_instrs as nat,
                        ),
                    ),
            decreases preimages@.len() - idx,
        {
            let one = self.hash_with_params(preimages[idx], nb_loops, nb_instrs);
            results.push(one);
            idx = idx + 1;
        }
        results
    }
}

} // verus!
