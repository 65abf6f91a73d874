use vstd::prelude::*;

verus! {

/// The bytes of each address in `v`.
pub open spec fn addrs_view(v: Seq<Vec<u8>>) -> Seq<Seq<u8>> {
    v.map_values(|a: Vec<u8>| a@)
}

/// What the raffle's state holds, with each canonical address as its bytes.
pub struct StateModel {
    pub whitelist: Seq<Seq<u8>>,
    pub contract_owner: Seq<u8>,
    pub seed: Seq<u8>,
    pub entropy: Seq<u8>,
    pub start_time: u64,
    pub winners: Seq<Seq<u8>>,
}

/// The stored state of the raffle. Addresses are canonical addresses, held
/// as their bytes.
pub struct State {
    /// The accounts that take part in the draw, in the order they were added
    /// (an account may appear more than once).
    pub whitelist: Vec<Vec<u8>>,
    /// The host, the only account that may add to the whitelist and end the raffle.
    pub contract_owner: Vec<u8>,
    /// The host's secret seed.
    pub seed: Vec<u8>,
    /// Entropy gathered so far; ending the raffle appends the block time.
    pub entropy: Vec<u8>,
    /// The block time at which the raffle was set up.
    pub start_time: u64,
    /// The winners, once drawn.
    pub winners: Vec<Vec<u8>>,
}

impl View for State {
    type V = StateModel;

    open spec fn view(&self) -> StateModel {
        StateModel {
            whitelist: addrs_view(self.whitelist@),
            contract_owner: self.contract_owner@,
            seed: self.seed@,
            entropy: self.entropy@,
            start_time: self.start_time,
            winners: addrs_view(self.winners@),
        }
    }
}

impl State {
    /// The state of a raffle set up by `contract_owner` at `start_time`, with
    /// the secret `seed` and the given whitelist: no entropy and no winners yet.
    pub fn new(contract_owner: Vec<u8>, seed: Vec<u8>, start_time: u64, whitelist: Vec<Vec<u8>>) -> (r: State)
        ensures
            r@ == (StateModel {
                whitelist: addrs_view(whitelist@),
                contract_owner: contract_owner@,
                seed: seed@,
                entropy: Seq::empty(),
                start_time,
                winners: Seq::empty(),
            }),
    {
        let r = State {
            whitelist,
            contract_owner,
            seed,
            entropy: Vec::new(),
            start_time,
            winners: Vec::new(),
        };
        assert(addrs_view(r.winners@) =~= Seq::empty());
        r
    }
}

} // verus!
