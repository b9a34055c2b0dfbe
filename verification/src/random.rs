//! Seeded ChaCha8 random streams, through `rand` and `rand_chacha`, held as
//! plain values: the stream's 32-byte key and the position, counted in
//! 32-bit words, of the next word to be read.
//!
//! A stream is rebuilt from its key and position for each draw, so what a
//! draw gives and where the stream stands afterwards are functions of the
//! key, the position and the range asked for.

use vstd::prelude::*;
use rand::{Rng, SeedableRng};
use rand_chacha::ChaCha8Rng;

verus! {

/// The state of a ChaCha8 random stream.
#[derive(Clone, Copy, Debug)]
pub struct RngState {
    /// The stream's key
    pub seed: [u8; 32],
    /// The position of the next word to be read
    pub word_pos: u128,
}

/// The key `ChaCha8Rng::seed_from_u64` derives from a 64-bit seed.
pub uninterp spec fn chacha8_key(seed: u64) -> Seq<u8>;

/// `gen::<u64>()` on the stream with key `key` at `pos`: the value and the
/// position after it.
pub uninterp spec fn chacha8_u64(key: Seq<u8>, pos: u128) -> (u64, u128);

/// `gen::<bool>()` on the stream at `pos`: the value and the position after it.
pub uninterp spec fn chacha8_bool(key: Seq<u8>, pos: u128) -> (bool, u128);

/// `gen_range(lo..=hi)` for `u64` on the stream at `pos`.
pub uninterp spec fn chacha8_u64_in(key: Seq<u8>, pos: u128, lo: u64, hi: u64) -> (u64, u128);

/// `gen_range(lo..=hi)` for `i64` on the stream at `pos`.
pub uninterp spec fn chacha8_i64_in(key: Seq<u8>, pos: u128, lo: i64, hi: i64) -> (i64, u128);

/// `gen_range(lo..=hi)` for `i32` on the stream at `pos`.
pub uninterp spec fn chacha8_i32_in(key: Seq<u8>, pos: u128, lo: i32, hi: i32) -> (i32, u128);

/// `gen_range(lo..=hi)` for `u32` on the stream at `pos`.
pub uninterp spec fn chacha8_u32_in(key: Seq<u8>, pos: u128, lo: u32, hi: u32) -> (u32, u128);

/// `gen_range(lo..=hi)` for `u8` on the stream at `pos`.
pub uninterp spec fn chacha8_u8_in(key: Seq<u8>, pos: u128, lo: u8, hi: u8) -> (u8, u128);

/// `gen_range(lo..=hi)` for `usize` on the stream at `pos`.
pub uninterp spec fn chacha8_usize_in(key: Seq<u8>, pos: u128, lo: usize, hi: usize) -> (usize, u128);

/// `ChaCha8Rng::seed_from_u64(seed)`, read back as its key at the start of
/// the stream.
#[verifier::external_body]
pub(crate) fn seeded(seed: u64) -> (r: RngState)
    ensures
        r.seed@ == chacha8_key(seed),
        r.word_pos == 0,
{
    RngState { seed: ChaCha8Rng::seed_from_u64(seed).get_seed(), word_pos: 0 }
}

/// `ChaCha8Rng::from_rng(rand::thread_rng())`: a stream with a key drawn from
/// the thread's generator, at its start. Nothing is claimed of the key.
/// (`from_rng` only fails when the thread's generator does; it is unwrapped.)
#[verifier::external_body]
pub(crate) fn from_thread_rng() -> (r: RngState)
    ensures
        r.word_pos == 0,
{
    RngState { seed: ChaCha8Rng::from_rng(rand::thread_rng()).unwrap().get_seed(), word_pos: 0 }
}

/// `ChaCha8Rng::from_entropy()`: a stream with a key from the operating
/// system, at its start. Nothing is claimed of the key.
#[verifier::external_body]
pub(crate) fn from_entropy() -> (r: RngState)
    ensures
        r.word_pos == 0,
{
    RngState { seed: ChaCha8Rng::from_entropy().get_seed(), word_pos: 0 }
}

/// `gen::<u64>()` on the stream: any value, as the name gives it.
#[verifier::external_body]
pub(crate) fn draw_u64(st: &mut RngState) -> (r: u64)
    ensures
        (r, final(st).word_pos) == chacha8_u64(old(st).seed@, old(st).word_pos),
        final(st).seed == old(st).seed,
{
    let mut rng = ChaCha8Rng::from_seed(st.seed);
    rng.set_word_pos(st.word_pos);
    let r = rng.gen::<u64>();
    st.word_pos = rng.get_word_pos();
    r
}

/// `gen::<bool>()` on the stream.
#[verifier::external_body]
pub(crate) fn draw_bool(st: &mut RngState) -> (r: bool)
    ensures
        (r, final(st).word_pos) == chacha8_bool(old(st).seed@, old(st).word_pos),
        final(st).seed == old(st).seed,
{
    let mut rng = ChaCha8Rng::from_seed(st.seed);
    rng.set_word_pos(st.word_pos);
    let r = rng.gen::<bool>();
    st.word_pos = rng.get_word_pos();
    r
}

/// `gen_range(lo..=hi)` for `u64`: a value in the range. (`gen_range(lo..h)`
/// samples `lo..=h - 1` the same way.)
#[verifier::external_body]
pub(crate) fn draw_u64_in(st: &mut RngState, lo: u64, hi: u64) -> (r: u64)
    requires
        lo <= hi,
    ensures
        lo <= r <= hi,
        (r, final(st).word_pos) == chacha8_u64_in(old(st).seed@, old(st).word_pos, lo, hi),
        final(st).seed == old(st).seed,
{
    let mut rng = ChaCha8Rng::from_seed(st.seed);
    rng.set_word_pos(st.word_pos);
    let r = rng.gen_range(lo..=hi);
    st.word_pos = rng.get_word_pos();
    r
}

/// `gen_range(lo..=hi)` for `i64`: a value in the range.
#[verifier::external_body]
pub(crate) fn draw_i64_in(st: &mut RngState, lo: i64, hi: i64) -> (r: i64)
    requires
        lo <= hi,
    ensures
        lo <= r <= hi,
        (r, final(st).word_pos) == chacha8_i64_in(old(st).seed@, old(st).word_pos, lo, hi),
        final(st).seed == old(st).seed,
{
    let mut rng = ChaCha8Rng::from_seed(st.seed);
    rng.set_word_pos(st.word_pos);
    let r = rng.gen_range(lo..=hi);
    st.word_pos = rng.get_word_pos();
    r
}

/// `gen_range(lo..=hi)` for `i32`: a value in the range.
#[verifier::external_body]
pub(crate) fn draw_i32_in(st: &mut RngState, lo: i32, hi: i32) -> (r: i32)
    requires
        lo <= hi,
    ensures
        lo <= r <= hi,
        (r, final(st).word_pos) == chacha8_i32_in(old(st).seed@, old(st).word_pos, lo, hi),
        final(st).seed == old(st).seed,
{
    let mut rng = ChaCha8Rng::from_seed(st.seed);
    rng.set_word_pos(st.word_pos);
    let r = rng.gen_range(lo..=hi);
    st.word_pos = rng.get_word_pos();
    r
}

/// `gen_range(lo..=hi)` for `u32`: a value in the range.
#[verifier::external_body]
pub(crate) fn draw_u32_in(st: &mut RngState, lo: u32, hi: u32) -> (r: u32)
    requires
        lo <= hi,
    ensures
        lo <= r <= hi,
        (r, final(st).word_pos) == chacha8_u32_in(old(st).seed@, old(st).word_pos, lo, hi),
        final(st).seed == old(st).seed,
{
    let mut rng = ChaCha8Rng::from_seed(st.seed);
    rng.set_word_pos(st.word_pos);
    let r = rng.gen_range(lo..=hi);
    st.word_pos = rng.get_word_pos();
    r
}

/// `gen_range(lo..=hi)` for `u8`: a value in the range.
#[verifier::external_body]
pub(crate) fn draw_u8_in(st: &mut RngState, lo: u8, hi: u8) -> (r: u8)
    requires
        lo <= hi,
    ensures
        lo <= r <= hi,
        (r, final(st).word_pos) == chacha8_u8_in(old(st).seed@, old(st).word_pos, lo, hi),
        final(st).seed == old(st).seed,
{
    let mut rng = ChaCha8Rng::from_seed(st.seed);
    rng.set_word_pos(st.word_pos);
    let r = rng.gen_range(lo..=hi);
    st.word_pos = rng.get_word_pos();
    r
}

/// `gen_range(lo..=hi)` for `usize`: a value in the range.
#[verifier::external_body]
pub(crate) fn draw_usize_in(st: &mut RngState, lo: usize, hi: usize) -> (r: usize)
    requires
        lo <= hi,
    ensures
        lo <= r <= hi,
        (r, final(st).word_pos) == chacha8_usize_in(old(st).seed@, old(st).word_pos, lo, hi),
        final(st).seed == old(st).seed,
{
    let mut rng = ChaCha8Rng::from_seed(st.seed);
    rng.set_word_pos(st.word_pos);
    let r = rng.gen_range(lo..=hi);
    st.word_pos = rng.get_word_pos();
    r
}


impl RngState {
    /// The stream `ChaCha8Rng::seed_from_u64(seed)` starts.
    pub fn from_seed(seed: u64) -> (r: Self)
        ensures
            r.seed@ == chacha8_key(seed),
            r.word_pos == 0,
    {
        seeded(seed)
    }

    /// A stream keyed by the thread's generator.
    pub fn from_thread() -> (r: Self)
        ensures
            r.word_pos == 0,
    {
        from_thread_rng()
    }

    /// A stream keyed by the operating system's entropy.
    pub fn from_os_entropy() -> (r: Self)
        ensures
            r.word_pos == 0,
    {
        from_entropy()
    }
}

} // verus!
