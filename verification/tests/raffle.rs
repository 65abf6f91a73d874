use rand_chacha::ChaChaRng;
use rand_core::{RngCore, SeedableRng};
use secret_raffle::bytes::{append_bytes, bytes_eq, copy_bytes, u64_to_be_bytes};
use secret_raffle::contract::{
    add_to_whitelist, contains_addr, draw_winners, end_lottery, end_lottery_checked, is_owner,
    is_registered, winners_selected, LotteryError, WINNER_COUNT,
};
use secret_raffle::rand::Prng;
use secret_raffle::reply::{pending_winners_reply, registration_reply, winners_log, winners_reply};
use secret_raffle::state::State;
use sha2::{Digest, Sha256};

/// The word that the generator over `seed` and `entropy` draws at `pos`,
/// computed the way the raffle's generator was first written.
fn reference_word(seed: &[u8], entropy: &[u8], pos: u128) -> u32 {
    let mut hasher = Sha256::new();
    hasher.update(seed);
    hasher.update(entropy);
    let hash = hasher.finalize();
    let mut key = [0u8; 32];
    key.copy_from_slice(hash.as_slice());
    let mut rng = ChaChaRng::from_seed(key);
    rng.set_word_pos(pos);
    let mut output = [0u32; 8];
    for i in output.iter_mut() {
        *i = rng.next_u32();
    }
    output[0]
}

/// The winners of a raffle, drawn the way the raffle was first written.
fn reference_winners(seed: &[u8], entropy: &[u8], whitelist: &[Vec<u8>]) -> Vec<Vec<u8>> {
    let mut pos: u128 = 0;
    let mut winners: Vec<Vec<u8>> = Vec::new();
    while winners.len() < 10 {
        let w = reference_word(seed, entropy, pos);
        pos += 8;
        let n = (whitelist.len() - 1) as u32;
        let idx = (w % (n + 1)) as usize;
        let c = whitelist[idx].clone();
        if !winners.contains(&c) {
            winners.push(c);
        }
    }
    winners
}

fn addr(i: u8) -> Vec<u8> {
    vec![0xa0, i, i.wrapping_mul(7)]
}

fn whitelist_of(n: u8) -> Vec<Vec<u8>> {
    (0..n).map(addr).collect()
}

fn owner() -> Vec<u8> {
    vec![1, 2, 3, 4]
}

fn raffle(n: u8) -> State {
    State::new(owner(), b"some long secret".to_vec(), 1_600_000_000, whitelist_of(n))
}

#[test]
fn new_state_has_no_entropy_and_no_winners() {
    let s = raffle(3);
    assert_eq!(s.contract_owner, owner());
    assert_eq!(s.seed, b"some long secret".to_vec());
    assert_eq!(s.start_time, 1_600_000_000);
    assert_eq!(s.whitelist, whitelist_of(3));
    assert!(s.entropy.is_empty());
    assert!(s.winners.is_empty());
    assert!(!winners_selected(&s));
}

#[test]
fn random_between_empty_range_is_zero() {
    let mut p = Prng::new(b"seed", b"entropy");
    assert_eq!(p.random_between(9, 3), 0);
    // nothing was drawn: the next draw reads the first word
    let w = reference_word(b"seed", b"entropy", 0);
    assert_eq!(p.random_between(0, 99), w % 100);
}

#[test]
fn random_between_follows_the_stream() {
    let mut p = Prng::new(b"seed", b"entropy");
    for k in 0..5u128 {
        let w = reference_word(b"seed", b"entropy", 8 * k);
        assert_eq!(p.random_between(10, 20), 10 + w % 11);
    }
}

#[test]
fn random_between_stays_in_range() {
    let mut p = Prng::new(b"x", b"");
    for _ in 0..50 {
        let r = p.random_between(3, 7);
        assert!(3 <= r && r <= 7);
    }
    assert_eq!(p.random_between(42, 42), 42);
    let big = p.random_between(1, u32::MAX);
    assert!(big >= 1);
}

#[test]
fn random_between_full_range_is_the_word() {
    let mut p = Prng::new(b"seed", b"entropy");
    let w = reference_word(b"seed", b"entropy", 0);
    assert_eq!(p.random_between(0, u32::MAX), w);
    let w = reference_word(b"seed", b"entropy", 8);
    assert_eq!(p.random_between(0, u32::MAX - 1), w % u32::MAX);
}

#[test]
fn random_between_shifts_with_its_range() {
    let mut a = Prng::new(b"seed", b"shift");
    let mut b = Prng::new(b"seed", b"shift");
    for _ in 0..5 {
        assert_eq!(a.random_between(100, 140), b.random_between(0, 40) + 100);
    }
}

#[test]
fn same_state_draws_the_same() {
    let mut a = Prng::new(b"seed", b"same");
    let mut b = Prng::new(b"seed", b"same");
    for _ in 0..5 {
        assert_eq!(a.random_between(3, 1000), b.random_between(3, 1000));
    }
}

#[test]
fn select_one_of_agrees_with_random_between() {
    let items: Vec<u32> = (0..13).map(|i| i * 3).collect();
    let mut a = Prng::new(b"seed", b"agree");
    let mut b = Prng::new(b"seed", b"agree");
    for _ in 0..5 {
        let i = b.random_between(0, 12) as usize;
        assert_eq!(a.select_one_of(&items), Some(items[i]));
    }
}

#[test]
fn different_entropy_gives_a_different_stream() {
    let mut a = Prng::new(b"seed", b"one");
    let mut b = Prng::new(b"seed", b"two");
    let ra: Vec<u32> = (0..4).map(|_| a.random_between(0, u32::MAX - 1)).collect();
    let rb: Vec<u32> = (0..4).map(|_| b.random_between(0, u32::MAX - 1)).collect();
    assert_ne!(ra, rb);
}

#[test]
fn select_one_of_single_item() {
    let mut p = Prng::new(b"seed", b"entropy");
    assert_eq!(p.select_one_of(&["only"]), Some("only"));
}

#[test]
fn select_one_of_picks_the_drawn_index() {
    let items = vec!['a', 'b', 'c', 'd', 'e', 'f', 'g'];
    let mut p = Prng::new(b"seed", b"entropy");
    for k in 0..6u128 {
        let w = reference_word(b"seed", b"entropy", 8 * k);
        let expected = items[(w % 7) as usize];
        assert_eq!(p.select_one_of(&items), Some(expected));
    }
}

#[test]
fn can_draw_at_start() {
    let p = Prng::new(b"", b"");
    assert!(p.can_draw());
}

#[test]
fn end_lottery_refuses_a_stranger() {
    let mut s = raffle(12);
    let before_entropy = s.entropy.clone();
    assert_eq!(end_lottery(&mut s, &[9, 9], 77), Err(LotteryError::NotOwner));
    assert_eq!(s.entropy, before_entropy);
    assert!(s.winners.is_empty());
    assert_eq!(s.whitelist, whitelist_of(12));
}

#[test]
fn end_lottery_draws_ten_distinct_whitelisted_winners() {
    let mut s = raffle(15);
    assert_eq!(end_lottery(&mut s, &owner(), 1_600_000_123), Ok(()));
    assert_eq!(s.winners.len(), WINNER_COUNT);
    for (i, w) in s.winners.iter().enumerate() {
        assert!(s.whitelist.contains(w));
        assert!(!s.winners[..i].contains(w));
    }
    assert!(winners_selected(&s));
}

#[test]
fn end_lottery_matches_the_reference_draw() {
    let mut s = raffle(20);
    let time: u64 = 1_600_000_999;
    assert_eq!(end_lottery(&mut s, &owner(), time), Ok(()));
    let expected = reference_winners(b"some long secret", &time.to_be_bytes(), &whitelist_of(20));
    assert_eq!(s.winners, expected);
}

#[test]
fn end_lottery_appends_the_time_to_the_entropy() {
    let mut s = raffle(10);
    s.entropy = vec![5, 6];
    assert_eq!(end_lottery(&mut s, &owner(), 0x0102030405060708), Ok(()));
    assert_eq!(s.entropy, vec![5, 6, 1, 2, 3, 4, 5, 6, 7, 8]);
    assert_eq!(s.seed, b"some long secret".to_vec());
    assert_eq!(s.contract_owner, owner());
    assert_eq!(s.start_time, 1_600_000_000);
}

#[test]
fn end_lottery_with_ten_accounts_draws_them_all() {
    let mut s = raffle(10);
    assert_eq!(end_lottery(&mut s, &owner(), 1), Ok(()));
    let mut drawn = s.winners.clone();
    drawn.sort();
    let mut all = whitelist_of(10);
    all.sort();
    assert_eq!(drawn, all);
}

#[test]
fn end_lottery_passes_over_repeated_entries() {
    let mut wl = whitelist_of(11);
    wl.extend(whitelist_of(11));
    let mut s = State::new(owner(), b"seed".to_vec(), 0, wl.clone());
    assert_eq!(end_lottery(&mut s, &owner(), 33), Ok(()));
    assert_eq!(s.winners, reference_winners(b"seed", &33u64.to_be_bytes(), &wl));
    for (i, w) in s.winners.iter().enumerate() {
        assert!(!s.winners[..i].contains(w));
    }
}

#[test]
fn end_lottery_is_deterministic() {
    let mut a = raffle(14);
    let mut b = raffle(14);
    assert_eq!(end_lottery(&mut a, &owner(), 500), Ok(()));
    assert_eq!(end_lottery(&mut b, &owner(), 500), Ok(()));
    assert_eq!(a.winners, b.winners);
}

#[test]
fn end_lottery_checked_refuses_a_stranger() {
    let mut s = raffle(12);
    assert_eq!(end_lottery_checked(&mut s, &[0], 1), Some(Err(LotteryError::NotOwner)));
    assert!(s.winners.is_empty());
    assert!(s.entropy.is_empty());
}

#[test]
fn end_lottery_checked_ends_like_end_lottery() {
    let mut a = raffle(13);
    let mut b = raffle(13);
    assert_eq!(end_lottery_checked(&mut a, &owner(), 42), Some(Ok(())));
    assert_eq!(end_lottery(&mut b, &owner(), 42), Ok(()));
    assert_eq!(a.winners, b.winners);
    assert_eq!(a.entropy, b.entropy);
}

#[test]
fn draw_winners_keeps_first_draw_order() {
    let wl = whitelist_of(5);
    let mut p = Prng::new(b"s", b"e");
    let got = draw_winners(&mut p, &wl, 3).unwrap();
    let mut expected: Vec<Vec<u8>> = Vec::new();
    let mut pos = 0u128;
    while expected.len() < 3 {
        let w = reference_word(b"s", b"e", pos);
        pos += 8;
        let c = wl[(w % 5) as usize].clone();
        if !expected.contains(&c) {
            expected.push(c);
        }
    }
    assert_eq!(got, expected);
}

#[test]
fn draw_winners_of_none_draws_nothing() {
    let wl = whitelist_of(2);
    let mut p = Prng::new(b"s", b"e");
    assert_eq!(draw_winners(&mut p, &wl, 0), Some(vec![]));
    let w = reference_word(b"s", b"e", 0);
    assert_eq!(p.random_between(0, 9), w % 10);
}

#[test]
fn add_to_whitelist_by_the_host_appends() {
    let mut s = raffle(2);
    assert_eq!(add_to_whitelist(&mut s, &owner(), vec![vec![7, 7], addr(0)]), Ok(()));
    let mut expected = whitelist_of(2);
    expected.push(vec![7, 7]);
    expected.push(addr(0));
    assert_eq!(s.whitelist, expected);
    assert!(is_registered(&s, &[7, 7]));
}

#[test]
fn add_to_whitelist_refuses_a_stranger() {
    let mut s = raffle(2);
    assert_eq!(add_to_whitelist(&mut s, &[1, 2, 3], vec![vec![7, 7]]), Err(LotteryError::NotOwner));
    assert_eq!(s.whitelist, whitelist_of(2));
    assert!(!is_registered(&s, &[7, 7]));
}

#[test]
fn owner_check() {
    let s = raffle(1);
    assert!(is_owner(&s, &owner()));
    assert!(!is_owner(&s, &[1, 2, 3]));
    assert!(!is_owner(&s, &[1, 2, 3, 4, 5]));
}

#[test]
fn registration_replies() {
    assert_eq!(registration_reply("secret1abc", true), "secret1abc is registered");
    assert_eq!(registration_reply("secret1abc", false), "secret1abc is not registered");
}

#[test]
fn winners_replies() {
    assert_eq!(pending_winners_reply(), "Winners not selected yet!");
    let names = vec!["secret1a".to_string(), "secret1b".to_string()];
    assert_eq!(winners_reply(&names), "Winners: [\"secret1a\", \"secret1b\"]");
    assert_eq!(winners_log(&names), "[\"secret1a\", \"secret1b\"]");
    assert_eq!(winners_log(&vec![]), "[]");
}

#[test]
fn byte_helpers() {
    assert_eq!(u64_to_be_bytes(0x0102030405060708), [1, 2, 3, 4, 5, 6, 7, 8]);
    assert_eq!(u64_to_be_bytes(0), [0; 8]);
    assert_eq!(copy_bytes(&[4, 5]), vec![4, 5]);
    let mut v = vec![1];
    append_bytes(&mut v, &[2, 3]);
    assert_eq!(v, vec![1, 2, 3]);
    assert!(bytes_eq(&[1, 2], &[1, 2]));
    assert!(!bytes_eq(&[1, 2], &[1, 3]));
    assert!(!bytes_eq(&[1, 2], &[1]));
}

#[test]
fn contains_addr_finds_by_bytes() {
    let list = whitelist_of(4);
    assert!(contains_addr(&list, &addr(3)));
    assert!(!contains_addr(&list, &addr(4)));
    assert!(!contains_addr(&vec![], &addr(0)));
}
