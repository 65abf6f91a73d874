use vstd::prelude::*;
use crate::bytes::{append_bytes, copy_bytes};
use rand_chacha::ChaChaRng;
use rand_core::{RngCore, SeedableRng};
use sha2::{Digest, Sha256};

verus! {

/// The SHA-256 digest of `data`.
pub uninterp spec fn sha256_digest(data: Seq<u8>) -> Seq<u8>;

/// The 32-bit word at offset `word_pos` (counted in words) of the ChaCha20
/// key stream keyed by `key`, on stream (nonce) zero.
pub uninterp spec fn chacha20_word(key: Seq<u8>, word_pos: u128) -> u32;

/// Calls `sha2::Sha256::digest` (digest 0.9's `Digest::digest`) and copies the
/// 32-byte output into an array. Trusted: the array is the digest of `data`,
/// which is a function of `data` alone; nothing more is said of SHA-256.
#[verifier::external_body]
fn sha256(data: &[u8]) -> (r: [u8; 32])
    ensures
        r@ == sha256_digest(data@),
{
    let digest = Sha256::digest(data);
    let mut r = [0u8; 32];
    r.copy_from_slice(&digest);
    r
}

/// The word positions from which rand_chacha 0.2 can read: `set_word_pos`
/// keeps `word_pos >> 4`, truncated to 64 bits, as the block counter, and the
/// refill that follows adds 1 to that counter up to four times, which
/// overflows (and panics where overflow is checked) from `u64::MAX - 3` on.
pub open spec fn chacha_readable_pos(word_pos: u128) -> bool {
    ((word_pos >> 4u128) as u64) < 0xFFFF_FFFF_FFFF_FFFCu64
}

/// Reads one word of a ChaCha20 stream through rand_chacha 0.2: builds
/// `ChaChaRng::from_seed(key)`, moves it with `set_word_pos(word_pos)` and
/// takes `next_u32()`. Trusted: the word is a function of the key and the
/// position alone (the generator starts on stream zero, and `set_word_pos`
/// refills the block buffer at that position); nothing more is said of ChaCha20.
/// The positions whose block counter would overflow in that refill are left out.
#[verifier::external_body]
fn chacha20_word_at(key: [u8; 32], word_pos: u128) -> (w: u32)
    requires
        chacha_readable_pos(word_pos),
    ensures
        w == chacha20_word(key@, word_pos),
{
    let mut rng = ChaChaRng::from_seed(key);
    rng.set_word_pos(word_pos);
    rng.next_u32()
}

/// The last word position, plus one, from which the generator draws: the
/// first position whose block counter (`pos / 16`) is `u64::MAX - 3`.
pub open spec fn draw_limit() -> u128 {
    0xF_FFFF_FFFF_FFFF_FFC0u128
}

/// Below the draw limit, the stream can be read.
proof fn lemma_readable_below_limit(pos: u128)
    requires
        pos < draw_limit(),
    ensures
        chacha_readable_pos(pos),
{
    assert(pos < 0xF_FFFF_FFFF_FFFF_FFC0u128 ==> ((pos >> 4u128) as u64) < 0xFFFF_FFFF_FFFF_FFFCu64)
        by (bit_vector);
}

/// The key of the generator's stream: SHA-256 of the seed followed by the entropy.
pub open spec fn stream_key(seed: Seq<u8>, entropy: Seq<u8>) -> Seq<u8> {
    sha256_digest(seed + entropy)
}

/// The word that a generator in state `(seed, entropy, pos)` draws next.
pub open spec fn stream_word(seed: Seq<u8>, entropy: Seq<u8>, pos: u128) -> u32 {
    chacha20_word(stream_key(seed, entropy), pos)
}

/// The number between `from` and `to` (both included) that the word `w` picks:
/// `from` plus `w` modulo the width of the range; 0 for an empty range.
pub open spec fn pick_between(w: u32, from: u32, to: u32) -> int {
    if from > to {
        0
    } else {
        from + (w as int) % (to - from + 1)
    }
}

/// Where a word `w` lands in a collection of `len` items: the upper bound of
/// the draw is `len - 1` truncated to 32 bits, so that it is `w % len` for
/// every length up to 2^32, and always below `len` when `len >= 1`.
pub open spec fn pick_index(w: u32, len: nat) -> int {
    pick_between(w, 0, ((len - 1) as int) as u32)
}

/// What a `Prng` holds: the secret seed, the entropy, and the position
/// (in 32-bit words) of the next draw in the key stream.
pub struct PrngModel {
    pub seed: Seq<u8>,
    pub entropy: Seq<u8>,
    pub pos: u128,
}

/// A deterministic generator whose stream is keyed by SHA-256 of the seed
/// followed by the entropy.
pub struct Prng {
    seed: Vec<u8>,
    entropy: Vec<u8>,
    pos: u128,
}

impl View for Prng {
    type V = PrngModel;

    closed spec fn view(&self) -> PrngModel {
        PrngModel { seed: self.seed@, entropy: self.entropy@, pos: self.pos }
    }
}

impl PrngModel {
    /// The word this state draws next.
    pub open spec fn next_word(self) -> u32 {
        stream_word(self.seed, self.entropy, self.pos)
    }

    /// The same state, one draw later.
    pub open spec fn advanced(self) -> PrngModel {
        PrngModel { pos: (self.pos + 8) as u128, ..self }
    }

    /// Whether one more draw can be made: the position is below the draw limit.
    pub open spec fn can_draw(self) -> bool {
        self.pos < draw_limit()
    }
}

impl Prng {
    /// A generator over copies of `seed` and `entropy`, at the start of its stream.
    pub fn new(seed: &[u8], entropy: &[u8]) -> (r: Self)
        ensures
            r@ == (PrngModel { seed: seed@, entropy: entropy@, pos: 0 }),
    {
        Prng { seed: copy_bytes(seed), entropy: copy_bytes(entropy), pos: 0 }
    }

    /// Return a random number (inclusive) between `from` and `to`; 0, with
    /// nothing drawn, when `from > to`.
    pub fn random_between(&mut self, from: u32, to: u32) -> (r: u32)
        requires
            from <= to ==> old(self)@.can_draw(),
        ensures
            from > to ==> r == 0 && final(self)@ == old(self)@,
            from <= to ==> r == pick_between(old(self)@.next_word(), from, to)
                && final(self)@ == old(self)@.advanced(),
            from <= to ==> from <= r <= to,
            from <= to ==> r == from + (chacha20_word(
                sha256_digest(old(self)@.seed + old(self)@.entropy),
                old(self)@.pos,
            ) as int) % (to - from + 1),
            from <= to ==> final(self)@.pos == old(self)@.pos + 8 && final(self)@.seed == old(self)@.seed
                && final(self)@.entropy == old(self)@.entropy,
    {
        if from > to {
            return 0;
        }
        let w = self.rand_u32();
        let width: u64 = (to - from) as u64 + 1;
        from + ((w as u64) % width) as u32
    }

    /// Return an item of `items`: the one at the index that the next draw
    /// picks between 0 and the last index.
    pub fn select_one_of<T: Clone>(&mut self, items: &[T]) -> (r: Option<T>)
        requires
            items@.len() >= 1,
            old(self)@.can_draw(),
        ensures
            final(self)@ == old(self)@.advanced(),
            0 <= pick_index(old(self)@.next_word(), items@.len()) < items@.len(),
            r matches Some(x) && cloned(
                items@[pick_index(old(self)@.next_word(), items@.len())],
                x,
            ),
            items@.len() <= 0x1_0000_0000 ==> (r matches Some(x) && cloned(
                items@[(chacha20_word(sha256_digest(old(self)@.seed + old(self)@.entropy), old(self)@.pos) as int)
                    % (items@.len() as int)],
                x,
            )),
            final(self)@.pos == old(self)@.pos + 8,
            final(self)@.seed == old(self)@.seed,
            final(self)@.entropy == old(self)@.entropy,
    {
        let num_of_items = items.len() - 1;
        let rand = self.random_between(0, num_of_items as u32);
        let idx = rand as usize;
        if idx < items.len() {
            Some(items[idx].clone())
        } else {
            None
        }
    }

    /// Whether one more draw can be made: the position, which counts 32-bit
    /// words and moves on by eight at each draw, is below the draw limit.
    pub fn can_draw(&self) -> (r: bool)
        ensures
            r == self@.can_draw(),
            r == (self@.pos < 16 * (0x1_0000_0000_0000_0000 - 4)),
    {
        self.pos < 0xF_FFFF_FFFF_FFFF_FFC0u128
    }

    /// The next word of the stream; the position moves on by eight words.
    fn rand_u32(&mut self) -> (w: u32)
        requires
            old(self)@.can_draw(),
        ensures
            w == old(self)@.next_word(),
            final(self)@ == old(self)@.advanced(),
    {
        let mut data = copy_bytes(self.seed.as_slice());
        append_bytes(&mut data, self.entropy.as_slice());
        let key = sha256(data.as_slice());
        proof {
            lemma_readable_below_limit(self.pos);
        }
        let w = chacha20_word_at(key, self.pos);
        self.pos = self.pos + 8;
        w
    }
}

/// Two generators in the same state draw the same number between the same
/// bounds, and are again in the same state afterwards.
pub proof fn lemma_random_between_deterministic(g1: PrngModel, g2: PrngModel, from: u32, to: u32)
    requires
        g1.seed == g2.seed,
        g1.entropy == g2.entropy,
        g1.pos == g2.pos,
    ensures
        pick_between(g1.next_word(), from, to) == pick_between(g2.next_word(), from, to),
        g1.advanced() == g2.advanced(),
{
}

/// A draw depends on its range only through the range's width: shifting both
/// bounds by `k` shifts the number drawn by `k`.
pub proof fn lemma_random_between_shift(w: u32, from: u32, to: u32, k: u32)
    requires
        from <= to,
        to + k <= u32::MAX,
    ensures
        pick_between(w, (from + k) as u32, (to + k) as u32) == pick_between(w, from, to) + k,
{
}

/// Selecting from `len` items picks the index that a draw between 0 and the
/// last index (truncated to 32 bits) gives, and that index is an item's.
pub proof fn lemma_select_agrees_with_random_between(w: u32, len: nat)
    requires
        len >= 1,
    ensures
        pick_index(w, len) == pick_between(w, 0, ((len - 1) as int) as u32),
        0 <= pick_index(w, len) < len,
{
}

/// The word a generator draws is the ChaCha20 word at its position, in the
/// stream keyed by SHA-256 of its whole seed followed by its whole entropy;
/// a draw moves the position on by eight words and keeps seed and entropy.
pub proof fn lemma_next_word_reads_whole_state(g: PrngModel)
    requires
        g.can_draw(),
    ensures
        g.next_word() == chacha20_word(sha256_digest(g.seed + g.entropy), g.pos),
        g.advanced().pos == g.pos + 8,
        g.advanced().seed == g.seed,
        g.advanced().entropy == g.entropy,
{
}

/// A draw between `from` and `to` is `from` plus the word modulo the range's
/// width, and every number of the range is the draw of some word.
pub proof fn lemma_pick_between_covers_range(w: u32, from: u32, to: u32)
    requires
        from <= to,
    ensures
        pick_between(w, from, to) == from + (w as int) % (to - from + 1),
        from <= pick_between(w, from, to) <= to,
        forall|r: u32| from <= r <= to ==> #[trigger] pick_between((r - from) as u32, from, to) == r,
{
    assert forall|r: u32| from <= r <= to implies #[trigger] pick_between((r - from) as u32, from, to) == r by {
        assert(((r - from) as u32 as int) % (to - from + 1) == r - from) by (nonlinear_arith)
            requires
                0 <= r - from <= to - from,
                ((r - from) as u32 as int) == r - from;
    }
}

/// Selecting from up to 2^32 items picks the one at the word modulo the
/// number of items, so that every item is picked by some word; from any
/// nonempty collection the index picked is one of its items.
pub proof fn lemma_pick_index_whole_length(w: u32, len: nat)
    requires
        len >= 1,
    ensures
        0 <= pick_index(w, len) < len,
        len <= 0x1_0000_0000 ==> pick_index(w, len) == (w as int) % (len as int),
        len <= 0x1_0000_0000 ==> forall|i: u32| i < len ==> #[trigger] pick_index(i, len) == i,
{
    if len <= 0x1_0000_0000 {
        assert(((len - 1) as int) as u32 == len - 1);
        assert forall|i: u32| i < len implies #[trigger] pick_index(i, len) == i by {
            assert((i as int) % (len as int) == i) by (nonlinear_arith)
                requires
                    0 <= i < len;
        }
    }
}

/// The generator draws from position 0 up to, not including, the first word
/// of the block whose counter is `u64::MAX - 3`: below 2^68, a position can
/// be read exactly when it is below that limit.
pub proof fn lemma_draw_limit()
    ensures
        draw_limit() == 16 * (0x1_0000_0000_0000_0000 - 4),
        forall|pos: u128| pos < 0x10_0000_0000_0000_0000 ==> (#[trigger] chacha_readable_pos(pos) <==> pos < draw_limit()),
        forall|g: PrngModel| #[trigger] g.can_draw() <==> g.pos < 16 * (0x1_0000_0000_0000_0000 - 4),
{
    assert forall|pos: u128| pos < 0x10_0000_0000_0000_0000 implies (#[trigger] chacha_readable_pos(pos) <==> pos < draw_limit()) by {
        assert(pos < 0x10_0000_0000_0000_0000u128 ==> (((pos >> 4u128) as u64) < 0xFFFF_FFFF_FFFF_FFFCu64
            <==> pos < 0xF_FFFF_FFFF_FFFF_FFC0u128)) by (bit_vector);
    }
}

} // verus!
