use vstd::prelude::*;
use crate::bytes::{append_bytes, be_bytes, bytes_eq, copy_bytes, u64_to_be_bytes};
use crate::rand::{chacha20_word, draw_limit, pick_index, sha256_digest, stream_word, Prng};
use crate::rand::{lemma_draw_limit, lemma_pick_index_whole_length, lemma_select_agrees_with_random_between};
use crate::state::{addrs_view, State, StateModel};

verus! {

/// Why a request to the raffle was refused.
#[derive(Debug, Clone, Copy, PartialEq, Eq, Structural)]
pub enum LotteryError {
    /// The sender is not the host.
    NotOwner,
}

/// How many distinct winners ending the raffle draws.
pub const WINNER_COUNT: usize = 10;

/// Whether `list` holds an address with the bytes of `a`.
pub fn contains_addr(list: &Vec<Vec<u8>>, a: &[u8]) -> (r: bool)
    ensures
        r == addrs_view(list@).contains(a@),
{
    let mut i: usize = 0;
    while i < list.len()
        invariant
            i <= list.len(),
            forall|j: int| 0 <= j < i ==> list@[j]@ != a@,
        decreases list.len() - i,
    {
        if bytes_eq(list[i].as_slice(), a) {
            assert(addrs_view(list@)[i as int] == a@);
            return true;
        }
        i = i + 1;
    }
    assert forall|j: int| 0 <= j < addrs_view(list@).len() implies addrs_view(list@)[j] != a@ by {}
    false
}

/// The address that the draw at word position `pos` picks from `whitelist`.
pub open spec fn drawn_at(seed: Seq<u8>, entropy: Seq<u8>, whitelist: Seq<Seq<u8>>, pos: u128) -> Seq<u8> {
    whitelist[pick_index(stream_word(seed, entropy, pos), whitelist.len())]
}

/// The list after the address `c` is drawn: `c` joins it unless already there.
pub open spec fn with_drawn(winners: Seq<Seq<u8>>, c: Seq<u8>) -> Seq<Seq<u8>> {
    if winners.contains(c) {
        winners
    } else {
        winners.push(c)
    }
}

/// Drawing from the stream of `(seed, entropy)`, starting at word position `pos`
/// with `winners` already drawn, until `count` distinct winners are held: the
/// winners and the position after the last draw, or `None` when the position
/// reaches the draw limit (every draw moves it on by eight words) before that.
pub open spec fn draw_from(
    seed: Seq<u8>,
    entropy: Seq<u8>,
    whitelist: Seq<Seq<u8>>,
    pos: u128,
    winners: Seq<Seq<u8>>,
    count: nat,
) -> Option<(Seq<Seq<u8>>, u128)>
    decreases u128::MAX - pos,
{
    if winners.len() >= count {
        Some((winners, pos))
    } else if pos >= draw_limit() {
        None
    } else {
        draw_from(
            seed,
            entropy,
            whitelist,
            (pos + 8) as u128,
            with_drawn(winners, drawn_at(seed, entropy, whitelist, pos)),
            count,
        )
    }
}

/// Bytes of a clone of a byte vector are those of the original.
proof fn lemma_cloned_bytes(a: Vec<u8>, b: Vec<u8>)
    requires
        cloned(a, b),
    ensures
        a@ == b@,
{
    if a != b {
        assert(a.len() == b.len());
        assert forall|i: int| 0 <= i < a.len() implies a@[i] == b@[i] by {
            assert(cloned::<u8>(a[i], b[i]));
        }
        assert(a@ =~= b@);
    }
}

/// Draws with `rng` from `whitelist` until `count` distinct addresses are held
/// (an address drawn again is passed over), in the order of their first draw.
/// `None` when the generator's position reaches the draw limit first.
pub fn draw_winners(rng: &mut Prng, whitelist: &Vec<Vec<u8>>, count: usize) -> (r: Option<Vec<Vec<u8>>>)
    requires
        whitelist@.len() >= 1,
    ensures
        final(rng)@.seed == old(rng)@.seed,
        final(rng)@.entropy == old(rng)@.entropy,
        match draw_from(old(rng)@.seed, old(rng)@.entropy, addrs_view(whitelist@), old(rng)@.pos, Seq::empty(), count as nat) {
            Some((w, p)) => r matches Some(v) && addrs_view(v@) == w && final(rng)@.pos == p,
            None => r is None,
        },
{
    let ghost seed = rng@.seed;
    let ghost entropy = rng@.entropy;
    let ghost wl = addrs_view(whitelist@);
    let ghost target = draw_from(seed, entropy, wl, rng@.pos, Seq::empty(), count as nat);
    let mut winners: Vec<Vec<u8>> = Vec::new();
    assert(addrs_view(winners@) =~= Seq::<Seq<u8>>::empty());
    while winners.len() < count
        invariant
            whitelist@.len() >= 1,
            wl == addrs_view(whitelist@),
            rng@.seed == seed,
            rng@.entropy == entropy,
            seed == old(rng)@.seed,
            entropy == old(rng)@.entropy,
            target == draw_from(old(rng)@.seed, old(rng)@.entropy, wl, old(rng)@.pos, Seq::empty(), count as nat),
            draw_from(seed, entropy, wl, rng@.pos, addrs_view(winners@), count as nat) == target,
        decreases u128::MAX - rng@.pos,
    {
        if !rng.can_draw() {
            return None;
        }
        let ghost pos = rng@.pos;
        let winner = rng.select_one_of(whitelist.as_slice());
        match winner {
            Some(w) => {
                proof {
                    lemma_cloned_bytes(whitelist@[pick_index(stream_word(seed, entropy, pos), whitelist@.len())], w);
                    assert(w@ == drawn_at(seed, entropy, wl, pos));
                }
                let ghost before = addrs_view(winners@);
                if !contains_addr(&winners, w.as_slice()) {
                    winners.push(w);
                    assert(addrs_view(winners@) =~= before.push(drawn_at(seed, entropy, wl, pos)));
                }
            },
            None => {
                return None;
            },
        }
    }
    Some(winners)
}

/// The entropy once the raffle ends at block time `time`: the gathered
/// entropy followed by the big-endian bytes of `time`.
pub open spec fn lottery_entropy(s: StateModel, time: u64) -> Seq<u8> {
    s.entropy + be_bytes(time)
}

/// The draw of the winners when the raffle ends at `time`: from the stream
/// keyed by the seed and the lottery entropy, from its start.
pub open spec fn lottery_draw(s: StateModel, time: u64) -> Option<(Seq<Seq<u8>>, u128)> {
    draw_from(s.seed, lottery_entropy(s, time), s.whitelist, 0, Seq::empty(), WINNER_COUNT as nat)
}

/// Whether the raffle can end at `time`: the whitelist can be drawn from,
/// and the draw reaches its winners before the stream position reaches the draw limit.
pub open spec fn can_end(s: StateModel, time: u64) -> bool {
    s.whitelist.len() >= 1 && lottery_draw(s, time) is Some
}

/// The state after the raffle ended at `time`: the entropy holds the time,
/// and the winners are those drawn; nothing else changes.
pub open spec fn ended(s: StateModel, time: u64) -> StateModel {
    StateModel { entropy: lottery_entropy(s, time), winners: lottery_draw(s, time).unwrap().0, ..s }
}

/// Whether `sender` is the host of the raffle.
pub fn is_owner(state: &State, sender: &[u8]) -> (r: bool)
    ensures
        r == (sender@ == state@.contract_owner),
{
    bytes_eq(sender, state.contract_owner.as_slice())
}

/// Ends the raffle at block time `time`, at the request of `sender`: only the
/// host may. The time's big-endian bytes join the entropy, and ten distinct
/// winners are drawn from the whitelist with a generator over the seed and
/// that entropy.
pub fn end_lottery(state: &mut State, sender: &[u8], time: u64) -> (r: Result<(), LotteryError>)
    requires
        sender@ == old(state)@.contract_owner ==> can_end(old(state)@, time),
    ensures
        sender@ != old(state)@.contract_owner ==> r == Err::<(), LotteryError>(LotteryError::NotOwner)
            && final(state)@ == old(state)@,
        sender@ == old(state)@.contract_owner ==> r == Ok::<(), LotteryError>(())
            && final(state)@ == ended(old(state)@, time),
        sender@ == old(state)@.contract_owner ==> final(state)@.entropy == old(state)@.entropy + be_bytes(time)
            && final(state)@.winners == draw_from(
                final(state)@.seed,
                final(state)@.entropy,
                final(state)@.whitelist,
                0,
                Seq::empty(),
                10,
            ).unwrap().0
            && final(state)@.whitelist == old(state)@.whitelist
            && final(state)@.seed == old(state)@.seed,
{
    proof {
        if sender@ == old(state)@.contract_owner {
            lemma_ended_uses_stored_entropy(old(state)@, time);
        }
    }
    match end_lottery_checked(state, sender, time) {
        Some(r) => r,
        None => {
            proof {
                assert(false);
            }
            Ok(())
        },
    }
}

/// Ends the raffle as `end_lottery` does where the draw reaches its winners;
/// `None`, with the state unchanged, where the host asks and the stream
/// position reaches the draw limit first.
pub fn end_lottery_checked(state: &mut State, sender: &[u8], time: u64) -> (r: Option<Result<(), LotteryError>>)
    requires
        sender@ == old(state)@.contract_owner ==> old(state)@.whitelist.len() >= 1,
    ensures
        sender@ != old(state)@.contract_owner ==> r == Some(Err::<(), LotteryError>(LotteryError::NotOwner))
            && final(state)@ == old(state)@,
        sender@ == old(state)@.contract_owner && lottery_draw(old(state)@, time) is None ==> r is None
            && final(state)@ == old(state)@,
        sender@ == old(state)@.contract_owner && lottery_draw(old(state)@, time) is Some ==> r == Some(
            Ok::<(), LotteryError>(()),
        ) && final(state)@ == ended(old(state)@, time),
        r == Some(Ok::<(), LotteryError>(())) ==> final(state)@.entropy == old(state)@.entropy + be_bytes(time)
            && final(state)@.winners == draw_from(
                final(state)@.seed,
                final(state)@.entropy,
                final(state)@.whitelist,
                0,
                Seq::empty(),
                10,
            ).unwrap().0
            && final(state)@.whitelist == old(state)@.whitelist
            && final(state)@.seed == old(state)@.seed,
{
    if !is_owner(state, sender) {
        return Some(Err(LotteryError::NotOwner));
    }
    let mut entropy = copy_bytes(state.entropy.as_slice());
    let time_bytes = u64_to_be_bytes(time);
    append_bytes(&mut entropy, time_bytes.as_slice());
    let mut rng = Prng::new(state.seed.as_slice(), entropy.as_slice());
    match draw_winners(&mut rng, &state.whitelist, WINNER_COUNT) {
        Some(winners) => {
            state.entropy = entropy;
            state.winners = winners;
            Some(Ok(()))
        },
        None => None,
    }
}

/// Adds `addresses`, in order, to the end of the whitelist, at the request of
/// `sender`: only the host may.
pub fn add_to_whitelist(state: &mut State, sender: &[u8], addresses: Vec<Vec<u8>>) -> (r: Result<(), LotteryError>)
    ensures
        sender@ != old(state)@.contract_owner ==> r == Err::<(), LotteryError>(LotteryError::NotOwner)
            && final(state)@ == old(state)@,
        sender@ == old(state)@.contract_owner ==> r == Ok::<(), LotteryError>(())
            && final(state)@ == (StateModel {
                whitelist: old(state)@.whitelist + addrs_view(addresses@),
                ..old(state)@
            }),
{
    if !is_owner(state, sender) {
        return Err(LotteryError::NotOwner);
    }
    let mut addresses = addresses;
    let ghost before = state.whitelist@;
    let ghost added = addresses@;
    state.whitelist.append(&mut addresses);
    assert(addrs_view(state.whitelist@) =~= addrs_view(before) + addrs_view(added));
    Ok(())
}

/// Whether `address` is on the whitelist.
pub fn is_registered(state: &State, address: &[u8]) -> (r: bool)
    ensures
        r == state@.whitelist.contains(address@),
{
    contains_addr(&state.whitelist, address)
}

/// Whether the winners have been drawn: all ten of them are held.
pub fn winners_selected(state: &State) -> (r: bool)
    ensures
        r == (state@.winners.len() >= WINNER_COUNT),
{
    state.winners.len() >= WINNER_COUNT
}

/// Drawing on from distinct whitelisted winners, when the draw completes,
/// keeps the winners drawn so far first, and ends with exactly `count`
/// distinct winners, each on the whitelist.
pub proof fn lemma_draw_from_winners(
    seed: Seq<u8>,
    entropy: Seq<u8>,
    whitelist: Seq<Seq<u8>>,
    pos: u128,
    winners: Seq<Seq<u8>>,
    count: nat,
)
    requires
        whitelist.len() >= 1,
        winners.no_duplicates(),
        forall|i: int| 0 <= i < winners.len() ==> whitelist.contains(#[trigger] winners[i]),
        winners.len() <= count,
        draw_from(seed, entropy, whitelist, pos, winners, count) is Some,
    ensures
        ({
            let w = draw_from(seed, entropy, whitelist, pos, winners, count).unwrap().0;
            &&& w.len() == count
            &&& w.no_duplicates()
            &&& forall|i: int| 0 <= i < w.len() ==> whitelist.contains(#[trigger] w[i])
            &&& w.subrange(0, winners.len() as int) == winners
        }),
    decreases u128::MAX - pos,
{
    if winners.len() < count {
        let c = drawn_at(seed, entropy, whitelist, pos);
        lemma_select_agrees_with_random_between(stream_word(seed, entropy, pos), whitelist.len());
        assert(whitelist.contains(c));
        let next = with_drawn(winners, c);
        if !winners.contains(c) {
            assert forall|i: int, j: int| 0 <= i < j < next.len() implies next[i] != next[j] by {
                if j == winners.len() {
                    assert(winners.contains(winners[i]));
                }
            }
        }
        lemma_draw_from_winners(seed, entropy, whitelist, (pos + 8) as u128, next, count);
        let w = draw_from(seed, entropy, whitelist, pos, winners, count).unwrap().0;
        assert(w.subrange(0, next.len() as int) == next);
        assert(w.subrange(0, winners.len() as int) =~= next.subrange(0, winners.len() as int));
    } else {
        assert(winners.subrange(0, winners.len() as int) =~= winners);
    }
}

/// Ending the raffle draws exactly ten winners, no account twice, each of
/// them on the whitelist; the whitelist, the host, the seed and the start
/// time stay as they were.
pub proof fn lemma_ended_winners(s: StateModel, time: u64)
    requires
        can_end(s, time),
    ensures
        ended(s, time).winners.len() == WINNER_COUNT,
        ended(s, time).winners.no_duplicates(),
        forall|i: int| 0 <= i < WINNER_COUNT ==> s.whitelist.contains(#[trigger] ended(s, time).winners[i]),
        ended(s, time).whitelist == s.whitelist,
        ended(s, time).contract_owner == s.contract_owner,
        ended(s, time).seed == s.seed,
        ended(s, time).start_time == s.start_time,
{
    lemma_draw_from_winners(s.seed, lottery_entropy(s, time), s.whitelist, 0, Seq::empty(), WINNER_COUNT as nat);
}

/// Once the host adds addresses to the whitelist, each of them is registered,
/// and every address registered before still is.
pub proof fn lemma_added_are_registered(whitelist: Seq<Seq<u8>>, added: Seq<Seq<u8>>)
    ensures
        forall|i: int| 0 <= i < added.len() ==> (whitelist + added).contains(#[trigger] added[i]),
        forall|a: Seq<u8>| whitelist.contains(a) ==> (whitelist + added).contains(a),
{
    assert forall|i: int| 0 <= i < added.len() implies (whitelist + added).contains(#[trigger] added[i]) by {
        assert((whitelist + added)[whitelist.len() + i] == added[i]);
    }
    assert forall|a: Seq<u8>| whitelist.contains(a) implies (whitelist + added).contains(a) by {
        let k = choose|k: int| 0 <= k < whitelist.len() && whitelist[k] == a;
        assert((whitelist + added)[k] == a);
    }
}

/// Each draw picks, from a whitelist of up to 2^32 entries, the entry at the
/// generator's word modulo the whole whitelist's length: the ChaCha20 word at
/// the draw's position, in the stream keyed by SHA-256 of seed and entropy.
pub proof fn lemma_drawn_at_whole_whitelist(seed: Seq<u8>, entropy: Seq<u8>, whitelist: Seq<Seq<u8>>, pos: u128)
    requires
        1 <= whitelist.len() <= 0x1_0000_0000,
    ensures
        drawn_at(seed, entropy, whitelist, pos) == whitelist[(chacha20_word(sha256_digest(seed + entropy), pos) as int)
            % (whitelist.len() as int)],
{
    lemma_pick_index_whole_length(stream_word(seed, entropy, pos), whitelist.len());
}

/// How drawing proceeds, one draw at a time: with `count` winners held it
/// stops there; past the last readable position it fails; otherwise it draws
/// the whitelist entry at the ChaCha20 word (keyed by SHA-256 of the whole seed
/// and entropy) modulo the whole whitelist's length, adds it unless already
/// held, and goes on eight words later.
pub proof fn lemma_draw_step(
    seed: Seq<u8>,
    entropy: Seq<u8>,
    whitelist: Seq<Seq<u8>>,
    pos: u128,
    winners: Seq<Seq<u8>>,
    count: nat,
)
    ensures
        winners.len() >= count ==> draw_from(seed, entropy, whitelist, pos, winners, count) == Some((winners, pos)),
        winners.len() < count && pos >= 16 * (0x1_0000_0000_0000_0000 - 4) ==> draw_from(
            seed,
            entropy,
            whitelist,
            pos,
            winners,
            count,
        ) is None,
        winners.len() < count && pos < 16 * (0x1_0000_0000_0000_0000 - 4) && 1 <= whitelist.len()
            <= 0x1_0000_0000 ==> ({
            let c = whitelist[(chacha20_word(sha256_digest(seed + entropy), pos) as int) % (whitelist.len() as int)];
            draw_from(seed, entropy, whitelist, pos, winners, count) == draw_from(
                seed,
                entropy,
                whitelist,
                (pos + 8) as u128,
                if winners.contains(c) {
                    winners
                } else {
                    winners.push(c)
                },
                count,
            )
        }),
{
    lemma_draw_limit();
    if winners.len() < count && pos < draw_limit() && 1 <= whitelist.len() <= 0x1_0000_0000 {
        lemma_drawn_at_whole_whitelist(seed, entropy, whitelist, pos);
    }
}

/// Ending the raffle stores the gathered entropy followed by the block time's
/// big-endian bytes, and the winners it stores are the draw keyed by the seed
/// and that stored entropy, from the start of the stream; it can end exactly
/// when the whitelist is nonempty and that draw completes.
pub proof fn lemma_ended_uses_stored_entropy(s: StateModel, time: u64)
    ensures
        ended(s, time).entropy == s.entropy + be_bytes(time),
        can_end(s, time) <==> (s.whitelist.len() >= 1 && draw_from(
            s.seed,
            s.entropy + be_bytes(time),
            s.whitelist,
            0,
            Seq::empty(),
            10,
        ) is Some),
        can_end(s, time) ==> ended(s, time).winners == draw_from(
            ended(s, time).seed,
            ended(s, time).entropy,
            ended(s, time).whitelist,
            0,
            Seq::empty(),
            10,
        ).unwrap().0,
        ended(s, time).whitelist == s.whitelist,
        ended(s, time).seed == s.seed,
        ended(s, time).contract_owner == s.contract_owner,
        ended(s, time).start_time == s.start_time,
{
}

} // verus!
