//! The settlement engine of a binary prediction market.
//!
//! Each market asks one yes/no question about a tracked pair's final
//! price.  Callers stake value on a side while the market is open; after
//! its expiry the market's authority settles it once against the final
//! price, and every winning position may then claim its pro-rata share of
//! the pooled stake exactly once.
//!
//! The engine is a deterministic state machine over plain values.  The
//! wall clock and the callers' identities are supplied by the host with
//! each call; every escrowed unit of value sits in a per-market vault
//! that only a capability derived from the owning market can debit.

use vstd::prelude::*;
use crate::stake_math::{
    claimed_total, paid_total, payout_of, pool, side_total, winning_pool, lemma_sums_push,
    lemma_sums_update, lemma_sums_nonneg, lemma_sums_unclaimed_zero,
    lemma_side_total_absent_zero, lemma_claimed_plus_unclaimed_le_side, lemma_payout_le_pool,
    lemma_next_payout_fits,
};

verus! {

/// Everything an operation of the engine can reject with.
#[derive(Clone, Copy, Debug, PartialEq, Eq, Structural)]
pub enum ErrorCode {
    /// A stake was placed on a market that is already settled.
    MarketSettled,
    /// A stake was placed at or after the market's expiry.
    MarketExpired,
    /// A settlement was attempted on a market that is already settled.
    AlreadySettled,
    /// A settlement was attempted before the market's expiry.
    MarketNotExpired,
    /// A claim was attempted on a market that is not settled yet.
    MarketNotSettled,
    /// A claim was attempted on a position that was already claimed.
    AlreadyClaimed,
    /// A claim was attempted on a position that bet on the losing side.
    NotWinner,
    /// A market was opened for a pair that already has a live market.
    DuplicateMarket,
    /// The caller is not permitted to perform the operation.
    Unauthorized,
    /// A stake of zero was offered; stakes must be strictly positive.
    InvalidAmount,
    /// Accepting the stake would overflow a running total.
    ArithmeticOverflow,
    /// A payout would divide by an empty winning pool.
    DivisionByZero,
    /// The vault does not hold enough to honour a debit.
    InsufficientVaultFunds,
    /// A position was marked claimed but its payout could not be
    /// delivered; the funds are stranded and the caller must not retry.
    UnsettledPayoutFailure,
}

/// One market: the state machine for one yes/no question.
#[derive(Debug)]
pub struct Market {
    /// The account permitted to settle this market.
    pub authority: u64,
    /// The tracked pair this market is about; unique across live markets.
    pub pair_address: String,
    /// The price threshold the final price is measured against.
    pub target_price: u64,
    /// First instant at which settlement is permitted and staking is not.
    pub expiry_timestamp: i64,
    /// Sum of every stake ever placed on "yes"; never decremented.
    pub total_yes_stake: u64,
    /// Sum of every stake ever placed on "no"; never decremented.
    pub total_no_stake: u64,
    /// One-way latch: set exactly once, by settlement.
    pub is_settled: bool,
    /// The settled outcome; meaningful only once `is_settled` holds.
    pub outcome: bool,
    /// The final price; set exactly once, at settlement.
    pub final_price: Option<u64>,
    /// Opaque value from which the vault capability is re-derived.
    pub bump: u8,
}

/// One caller's stake on one side of one market.
#[derive(Clone, Copy, Debug, PartialEq, Eq, Structural)]
pub struct Prediction {
    /// The staking caller.
    pub user: u64,
    /// The market this stake belongs to.
    pub market: usize,
    /// The staked amount; strictly positive.
    pub amount: u64,
    /// The side this stake predicts.
    pub predict_yes: bool,
    /// One-way latch: at most one claim ever succeeds.
    pub claimed: bool,
}

/// The capability that authorizes debiting one market's vault.  It is
/// re-derived deterministically from the market's identity and nonce,
/// never stored.
#[derive(Clone, Copy, Debug, PartialEq, Eq, Structural)]
pub struct DerivedSigner {
    pub market_id: usize,
    pub nonce: u8,
}

/// The custodial balance holding one market's escrowed stake.
#[derive(Clone, Copy, Debug, PartialEq, Eq, Structural)]
pub struct EscrowVault {
    /// The market this vault belongs to.
    pub market_id: usize,
    /// The nonce a debit capability must present.
    pub nonce: u8,
    /// The escrowed balance.
    pub balance: u64,
}

/// Re-derive the capability that authorizes debits of one market's vault.
pub fn derive_signer(market_id: usize, nonce: u8) -> (s: DerivedSigner)
    ensures
        s.market_id == market_id,
        s.nonce == nonce,
{
    DerivedSigner { market_id, nonce }
}

impl EscrowVault {
    /// Credit the vault with a deposit.
    pub fn deposit(&mut self, amount: u64)
        requires
            old(self).balance + amount <= u64::MAX,
        ensures
            final(self).balance == old(self).balance + amount,
            final(self).market_id == old(self).market_id,
            final(self).nonce == old(self).nonce,
    {
        self.balance = self.balance + amount;
    }

    /// Debit the vault.  Pays out only under a capability derived for the
    /// owning market, and only what the balance covers.
    pub fn withdraw(&mut self, auth: &DerivedSigner, amount: u64) -> (r: Result<(), ErrorCode>)
        ensures
            r is Ok <==> (auth.market_id == old(self).market_id && auth.nonce == old(self).nonce
                && amount <= old(self).balance),
            r is Ok ==> *final(self) == (EscrowVault {
                balance: (old(self).balance - amount) as u64,
                ..*old(self)
            }),
            r is Err ==> *final(self) == *old(self),
            (auth.market_id != old(self).market_id || auth.nonce != old(self).nonce) ==> r
                == Err::<(), ErrorCode>(ErrorCode::Unauthorized),
            (auth.market_id == old(self).market_id && auth.nonce == old(self).nonce && amount
                > old(self).balance) ==> r == Err::<(), ErrorCode>(
                ErrorCode::InsufficientVaultFunds,
            ),
    {
        if auth.market_id != self.market_id || auth.nonce != self.nonce {
            return Err(ErrorCode::Unauthorized);
        }
        if amount > self.balance {
            return Err(ErrorCode::InsufficientVaultFunds);
        }
        self.balance = self.balance - amount;
        Ok(())
    }
}

/// The whole engine state: every market, its vault, and every position.
///
/// Markets are keyed by their index; `pair_address` is unique across
/// them.  `vaults[i]` escrows the stake of `markets[i]`.
pub struct MarketRegistry {
    pub markets: Vec<Market>,
    pub vaults: Vec<EscrowVault>,
    pub positions: Vec<Prediction>,
}

impl MarketRegistry {
    /// The record of market `i` is internally consistent and agrees with
    /// the position ledger and its vault.
    pub open spec fn market_wf(self, i: int) -> bool {
        let m = self.markets@[i];
        let v = self.vaults@[i];
        &&& m.pair_address@.len() <= 64
        &&& v.market_id == i
        &&& v.nonce == m.bump
        &&& m.total_yes_stake == side_total(self.positions@, i, true)
        &&& m.total_no_stake == side_total(self.positions@, i, false)
        &&& m.total_yes_stake + m.total_no_stake <= u64::MAX
        &&& (m.is_settled ==> m.final_price is Some && m.outcome == (m.final_price->0
            >= m.target_price))
        &&& (!m.is_settled ==> m.final_price is None)
        &&& v.balance == pool(m) - paid_total(self.positions@, i, m)
        &&& winning_pool(m) * paid_total(self.positions@, i, m) <= claimed_total(
            self.positions@,
            i,
            m.outcome,
        ) * pool(m)
    }

    /// Position `k` references a live market, stakes a positive amount,
    /// and is claimed only if its market settled with its side winning.
    pub open spec fn position_wf(self, k: int) -> bool {
        let p = self.positions@[k];
        &&& p.market < self.markets@.len()
        &&& p.amount > 0
        &&& (p.claimed ==> self.markets@[p.market as int].is_settled && p.predict_yes
            == self.markets@[p.market as int].outcome)
    }

    /// The engine's invariant, preserved by every operation.
    pub open spec fn wf(self) -> bool {
        &&& self.vaults@.len() == self.markets@.len()
        &&& forall|i: int| 0 <= i < self.markets@.len() ==> #[trigger] self.market_wf(i)
        &&& forall|i: int, j: int|
            0 <= i < j < self.markets@.len() ==> self.markets@[i].pair_address@
                != self.markets@[j].pair_address@
        &&& forall|k: int| 0 <= k < self.positions@.len() ==> #[trigger] self.position_wf(k)
    }

    /// An empty registry: no market, no vault, no position.
    pub fn new() -> (r: MarketRegistry)
        ensures
            r.wf(),
            r.markets@.len() == 0,
            r.vaults@.len() == 0,
            r.positions@.len() == 0,
    {
        MarketRegistry { markets: Vec::new(), vaults: Vec::new(), positions: Vec::new() }
    }

    /// Whether some live market already tracks this pair.
    pub open spec fn spec_has_pair(self, pair: Seq<char>) -> bool {
        exists|j: int|
            0 <= j < self.markets@.len() && #[trigger] self.markets@[j].pair_address@ == pair
    }

    /// Open a new market for a pair.  The caller becomes its authority.
    ///
    /// Fails with `DuplicateMarket`, and changes nothing, exactly when a
    /// market for the same pair already exists; otherwise returns the new
    /// market's id, with zeroed totals, an empty vault, and the market
    /// open.
    pub fn initialize_market(
        &mut self,
        caller: u64,
        pair_address: String,
        target_price: u64,
        expiry_timestamp: i64,
    ) -> (r: Result<usize, ErrorCode>)
        requires
            old(self).wf(),
            pair_address@.len() <= 64,
        ensures
            final(self).wf(),
            r is Err ==> r == Err::<usize, ErrorCode>(ErrorCode::DuplicateMarket) && *final(self)
                == *old(self),
            r is Err <==> old(self).spec_has_pair(pair_address@),
            r is Ok ==> {
                &&& r == Ok::<usize, ErrorCode>(old(self).markets.len())
                &&& final(self).markets@.len() == old(self).markets@.len() + 1
                &&& final(self).vaults@.len() == old(self).vaults@.len() + 1
                &&& final(self).positions@ == old(self).positions@
                &&& forall|j: int|
                    0 <= j < old(self).markets@.len() ==> #[trigger] final(self).markets@[j]
                        == old(self).markets@[j] && final(self).vaults@[j] == old(self).vaults@[j]
                &&& ({
                    let m = final(self).markets@[old(self).markets@.len() as int];
                    &&& m.authority == caller
                    &&& m.pair_address@ == pair_address@
                    &&& m.target_price == target_price
                    &&& m.expiry_timestamp == expiry_timestamp
                    &&& m.total_yes_stake == 0
                    &&& m.total_no_stake == 0
                    &&& !m.is_settled
                    &&& m.final_price is None
                })
                &&& final(self).vaults@[old(self).markets@.len() as int].balance == 0
            },
    {
        let n = self.markets.len();
        let mut idx: usize = 0;
        while idx < n
            invariant
                *self == *old(self),
                old(self).wf(),
                n == self.markets@.len(),
                idx <= n,
                forall|j: int|
                    0 <= j < idx ==> #[trigger] self.markets@[j].pair_address@ != pair_address@,
            decreases n - idx,
        {
            if self.markets[idx].pair_address == pair_address {
                return Err(ErrorCode::DuplicateMarket);
            }
            idx += 1;
        }
        let id = n;
        let nonce: u8 = (id % 256) as u8;
        let m = Market {
            authority: caller,
            pair_address,
            target_price,
            expiry_timestamp,
            total_yes_stake: 0,
            total_no_stake: 0,
            is_settled: false,
            outcome: false,
            final_price: None,
            bump: nonce,
        };
        let v = EscrowVault { market_id: id, nonce, balance: 0 };
        self.markets.push(m);
        self.vaults.push(v);
        proof {
            let ps = self.positions@;
            let mid = id as int;
            assert forall|k: int| 0 <= k < ps.len() implies #[trigger] ps[k].market != mid by {
                assert(old(self).position_wf(k));
            }
            lemma_side_total_absent_zero(ps, mid, true);
            lemma_side_total_absent_zero(ps, mid, false);
            lemma_sums_unclaimed_zero(ps, mid, true, self.markets@[mid]);
            lemma_sums_unclaimed_zero(ps, mid, false, self.markets@[mid]);
            assert forall|i: int| 0 <= i < self.markets@.len() implies #[trigger] self.market_wf(
                i,
            ) by {
                if i < mid {
                    assert(old(self).market_wf(i));
                }
            }
            assert forall|k: int|
                0 <= k < self.positions@.len() implies #[trigger] self.position_wf(k) by {
                assert(old(self).position_wf(k));
            }
        }
        Ok(id)
    }

    /// The complete contract of `place_prediction`: which rejection
    /// comes on which state, that a rejected call changes nothing, and
    /// what a successful one does.
    pub open spec fn place_result(
        pre: MarketRegistry,
        post: MarketRegistry,
        market_id: usize,
        user: u64,
        amount: u64,
        predict_yes: bool,
        now: i64,
        r: Result<usize, ErrorCode>,
    ) -> bool {
        let m = pre.markets@[market_id as int];
        &&& (m.is_settled ==> r == Err::<usize, ErrorCode>(ErrorCode::MarketSettled) && post
            == pre)
        &&& (!m.is_settled && now >= m.expiry_timestamp ==> r == Err::<usize, ErrorCode>(
            ErrorCode::MarketExpired,
        ) && post == pre)
        &&& (!m.is_settled && now < m.expiry_timestamp && amount == 0 ==> r == Err::<
            usize,
            ErrorCode,
        >(ErrorCode::InvalidAmount) && post == pre)
        &&& (!m.is_settled && now < m.expiry_timestamp && amount > 0 && m.total_yes_stake
            + m.total_no_stake + amount > u64::MAX ==> r == Err::<usize, ErrorCode>(
            ErrorCode::ArithmeticOverflow,
        ) && post == pre)
        &&& (!m.is_settled && now < m.expiry_timestamp && amount > 0 && m.total_yes_stake
            + m.total_no_stake + amount <= u64::MAX ==> r == Ok::<usize, ErrorCode>(
            pre.positions@.len() as usize,
        ) && MarketRegistry::place_ok_state(pre, post, market_id, user, amount, predict_yes))
    }

    /// The successful outcome of `place_prediction`: the position is
    /// appended unclaimed, the staked side's total and the vault balance
    /// grow by the amount, and nothing else moves.
    pub open spec fn place_ok_state(
        pre: MarketRegistry,
        post: MarketRegistry,
        market_id: usize,
        user: u64,
        amount: u64,
        predict_yes: bool,
    ) -> bool {
        let mid = market_id as int;
        let m = pre.markets@[mid];
        let m2 = post.markets@[mid];
        &&& post.positions@ == pre.positions@.push(
            (Prediction { user, market: market_id, amount, predict_yes, claimed: false }),
        )
        &&& post.markets@.len() == pre.markets@.len()
        &&& post.vaults@.len() == pre.vaults@.len()
        &&& (forall|j: int|
            0 <= j < pre.markets@.len() && j != mid ==> #[trigger] post.markets@[j]
                == pre.markets@[j] && post.vaults@[j] == pre.vaults@[j])
        &&& m2.total_yes_stake == m.total_yes_stake + (if predict_yes {
            amount as int
        } else {
            0
        })
        &&& m2.total_no_stake == m.total_no_stake + (if predict_yes {
            0
        } else {
            amount as int
        })
        &&& m2.authority == m.authority
        &&& m2.pair_address@ == m.pair_address@
        &&& m2.target_price == m.target_price
        &&& m2.expiry_timestamp == m.expiry_timestamp
        &&& m2.is_settled == m.is_settled
        &&& m2.outcome == m.outcome
        &&& m2.final_price == m.final_price
        &&& m2.bump == m.bump
        &&& post.vaults@[mid].balance == pre.vaults@[mid].balance + amount
        &&& post.vaults@[mid].market_id == pre.vaults@[mid].market_id
        &&& post.vaults@[mid].nonce == pre.vaults@[mid].nonce
    }

    /// Stake `amount` on one side of a market.
    ///
    /// Valid only while the market is open and strictly before its
    /// expiry, and only for a strictly positive amount whose addition
    /// does not overflow the running totals.  On success the caller's
    /// position is created, the side's total grows by the amount, and
    /// the vault is credited — one atomic unit.  On any rejection
    /// nothing changes.
    pub fn place_prediction(
        &mut self,
        market_id: usize,
        user: u64,
        amount: u64,
        predict_yes: bool,
        now: i64,
    ) -> (r: Result<usize, ErrorCode>)
        requires
            old(self).wf(),
            market_id < old(self).markets@.len(),
        ensures
            final(self).wf(),
            MarketRegistry::place_result(
                *old(self),
                *final(self),
                market_id,
                user,
                amount,
                predict_yes,
                now,
                r,
            ),
    {
        proof {
            assert(old(self).market_wf(market_id as int));
        }
        let mb = &self.markets[market_id];
        if mb.is_settled {
            return Err(ErrorCode::MarketSettled);
        }
        if now >= mb.expiry_timestamp {
            return Err(ErrorCode::MarketExpired);
        }
        if amount == 0 {
            return Err(ErrorCode::InvalidAmount);
        }
        if amount > u64::MAX - mb.total_yes_stake - mb.total_no_stake {
            return Err(ErrorCode::ArithmeticOverflow);
        }
        let new_yes = if predict_yes {
            mb.total_yes_stake + amount
        } else {
            mb.total_yes_stake
        };
        let new_no = if predict_yes {
            mb.total_no_stake
        } else {
            mb.total_no_stake + amount
        };
        let m2 = Market {
            authority: mb.authority,
            pair_address: mb.pair_address.clone(),
            target_price: mb.target_price,
            expiry_timestamp: mb.expiry_timestamp,
            total_yes_stake: new_yes,
            total_no_stake: new_no,
            is_settled: mb.is_settled,
            outcome: mb.outcome,
            final_price: mb.final_price,
            bump: mb.bump,
        };
        let p = Prediction { user, market: market_id, amount, predict_yes, claimed: false };
        let pid = self.positions.len();
        self.positions.push(p);
        self.markets.set(market_id, m2);
        let mut v = self.vaults[market_id];
        proof {
            lemma_sums_nonneg(
                old(self).positions@,
                market_id as int,
                true,
                old(self).markets@[market_id as int],
            );
        }
        v.deposit(amount);
        self.vaults.set(market_id, v);
        proof {
            let ps = old(self).positions@;
            let ps2 = self.positions@;
            let mid = market_id as int;
            let m = old(self).markets@[mid];
            let mm2 = self.markets@[mid];
            assert forall|k: int|
                0 <= k < ps.len() && #[trigger] ps[k].market == mid implies !ps[k].claimed by {
                assert(old(self).position_wf(k));
            }
            assert forall|i: int|
                0 <= i < self.markets@.len() implies #[trigger] self.market_wf(i) by {
                assert(old(self).market_wf(i));
                lemma_sums_push(ps, p, i, true, old(self).markets@[i]);
                lemma_sums_push(ps, p, i, false, old(self).markets@[i]);
                if i == mid {
                    lemma_sums_unclaimed_zero(ps, mid, true, m);
                    lemma_sums_unclaimed_zero(ps, mid, false, m);
                    lemma_sums_unclaimed_zero(ps2, mid, true, mm2);
                    lemma_sums_unclaimed_zero(ps2, mid, false, mm2);
                }
            }
            assert forall|k: int|
                0 <= k < self.positions@.len() implies #[trigger] self.position_wf(k) by {
                if k < ps.len() {
                    assert(old(self).position_wf(k));
                }
            }
        }
        Ok(pid)
    }

    /// The complete contract of `settle_market`: which rejection comes
    /// on which state, that a rejected call changes nothing, and what a
    /// successful one does.
    pub open spec fn settle_result(
        pre: MarketRegistry,
        post: MarketRegistry,
        market_id: usize,
        caller: u64,
        final_price: u64,
        now: i64,
        r: Result<(), ErrorCode>,
    ) -> bool {
        let m = pre.markets@[market_id as int];
        &&& (m.is_settled ==> r == Err::<(), ErrorCode>(ErrorCode::AlreadySettled) && post
            == pre)
        &&& (!m.is_settled && now < m.expiry_timestamp ==> r == Err::<(), ErrorCode>(
            ErrorCode::MarketNotExpired,
        ) && post == pre)
        &&& (!m.is_settled && now >= m.expiry_timestamp && caller != m.authority ==> r == Err::<
            (),
            ErrorCode,
        >(ErrorCode::Unauthorized) && post == pre)
        &&& (!m.is_settled && now >= m.expiry_timestamp && caller == m.authority ==> r == Ok::<
            (),
            ErrorCode,
        >(()) && MarketRegistry::settle_ok_state(pre, post, market_id, final_price))
    }

    /// The successful outcome of `settle_market`: the final price is
    /// recorded, the outcome derived, the market frozen, and nothing
    /// else moves.
    pub open spec fn settle_ok_state(
        pre: MarketRegistry,
        post: MarketRegistry,
        market_id: usize,
        final_price: u64,
    ) -> bool {
        let mid = market_id as int;
        let m = pre.markets@[mid];
        let m2 = post.markets@[mid];
        &&& post.positions@ == pre.positions@
        &&& post.vaults@ == pre.vaults@
        &&& post.markets@.len() == pre.markets@.len()
        &&& (forall|j: int|
            0 <= j < pre.markets@.len() && j != mid ==> #[trigger] post.markets@[j]
                == pre.markets@[j])
        &&& m2.is_settled
        &&& m2.final_price == Some(final_price)
        &&& m2.outcome == (final_price >= m.target_price)
        &&& m2.authority == m.authority
        &&& m2.pair_address@ == m.pair_address@
        &&& m2.target_price == m.target_price
        &&& m2.expiry_timestamp == m.expiry_timestamp
        &&& m2.total_yes_stake == m.total_yes_stake
        &&& m2.total_no_stake == m.total_no_stake
        &&& m2.bump == m.bump
    }

    /// Settle a market against the externally supplied final price.
    ///
    /// Valid only once, only at or after the market's expiry, and only
    /// for the market's authority.  On success the final price is
    /// recorded, the outcome becomes `final_price >= target_price`
    /// (ties resolve to "yes"), and the market is frozen.  On any
    /// rejection nothing changes.
    pub fn settle_market(
        &mut self,
        market_id: usize,
        caller: u64,
        final_price: u64,
        now: i64,
    ) -> (r: Result<(), ErrorCode>)
        requires
            old(self).wf(),
            market_id < old(self).markets@.len(),
        ensures
            final(self).wf(),
            MarketRegistry::settle_result(
                *old(self),
                *final(self),
                market_id,
                caller,
                final_price,
                now,
                r,
            ),
    {
        proof {
            assert(old(self).market_wf(market_id as int));
        }
        let mb = &self.markets[market_id];
        if mb.is_settled {
            return Err(ErrorCode::AlreadySettled);
        }
        if now < mb.expiry_timestamp {
            return Err(ErrorCode::MarketNotExpired);
        }
        if caller != mb.authority {
            return Err(ErrorCode::Unauthorized);
        }
        let m2 = Market {
            authority: mb.authority,
            pair_address: mb.pair_address.clone(),
            target_price: mb.target_price,
            expiry_timestamp: mb.expiry_timestamp,
            total_yes_stake: mb.total_yes_stake,
            total_no_stake: mb.total_no_stake,
            is_settled: true,
            outcome: final_price >= mb.target_price,
            final_price: Some(final_price),
            bump: mb.bump,
        };
        self.markets.set(market_id, m2);
        proof {
            let ps = self.positions@;
            let mid = market_id as int;
            let m = old(self).markets@[mid];
            let mm2 = self.markets@[mid];
            assert forall|k: int|
                0 <= k < ps.len() && #[trigger] ps[k].market == mid implies !ps[k].claimed by {
                assert(old(self).position_wf(k));
            }
            lemma_sums_unclaimed_zero(ps, mid, true, m);
            lemma_sums_unclaimed_zero(ps, mid, false, m);
            lemma_sums_unclaimed_zero(ps, mid, mm2.outcome, mm2);
            assert forall|i: int|
                0 <= i < self.markets@.len() implies #[trigger] self.market_wf(i) by {
                assert(old(self).market_wf(i));
            }
            assert forall|k: int|
                0 <= k < self.positions@.len() implies #[trigger] self.position_wf(k) by {
                assert(old(self).position_wf(k));
            }
        }
        Ok(())
    }

    /// The successful outcome of `claim_winnings`: the position is
    /// latched claimed, the vault is debited by exactly the pro-rata
    /// payout, and nothing else moves.
    pub open spec fn claim_ok_state(
        pre: MarketRegistry,
        post: MarketRegistry,
        position_id: usize,
    ) -> bool {
        let p = pre.positions@[position_id as int];
        let mid = p.market as int;
        let m = pre.markets@[mid];
        let q = payout_of(p, m);
        &&& post.markets@ == pre.markets@
        &&& post.positions@ == pre.positions@.update(
            position_id as int,
            (Prediction { claimed: true, ..p }),
        )
        &&& post.vaults@.len() == pre.vaults@.len()
        &&& (forall|j: int|
            0 <= j < pre.vaults@.len() && j != mid ==> #[trigger] post.vaults@[j]
                == pre.vaults@[j])
        &&& post.vaults@[mid].balance == pre.vaults@[mid].balance - q
        &&& post.vaults@[mid].market_id == pre.vaults@[mid].market_id
        &&& post.vaults@[mid].nonce == pre.vaults@[mid].nonce
    }

    /// The complete contract of `claim_winnings`: which rejection comes
    /// on which state, that a rejected call changes nothing, and that a
    /// successful one pays out exactly the pro-rata share
    /// `floor(amount * total_pool / winning_pool)`, exactly once.
    pub open spec fn claim_result(
        pre: MarketRegistry,
        post: MarketRegistry,
        position_id: usize,
        caller: u64,
        r: Result<u64, ErrorCode>,
    ) -> bool {
        let p = pre.positions@[position_id as int];
        let m = pre.markets@[p.market as int];
        &&& (caller != p.user ==> r == Err::<u64, ErrorCode>(ErrorCode::Unauthorized) && post
            == pre)
        &&& (caller == p.user && !m.is_settled ==> r == Err::<u64, ErrorCode>(
            ErrorCode::MarketNotSettled,
        ) && post == pre)
        &&& (caller == p.user && m.is_settled && p.claimed ==> r == Err::<u64, ErrorCode>(
            ErrorCode::AlreadyClaimed,
        ) && post == pre)
        &&& (caller == p.user && m.is_settled && !p.claimed && p.predict_yes != m.outcome ==> r
            == Err::<u64, ErrorCode>(ErrorCode::NotWinner) && post == pre)
        &&& (caller == p.user && m.is_settled && !p.claimed && p.predict_yes == m.outcome ==> r
            == Ok::<u64, ErrorCode>(payout_of(p, m) as u64) && payout_of(p, m) <= pool(m)
            && MarketRegistry::claim_ok_state(pre, post, position_id))
    }

    /// Claim a winning position's pro-rata share of the pool.
    ///
    /// Valid only for the position's owner, only once the market is
    /// settled, only for the winning side, and at most once per
    /// position.  The payout is
    /// `floor(amount * total_pool / winning_pool)`, computed with a
    /// double-width intermediate; the position is latched claimed
    /// before the vault transfer, so a failed transfer can never be
    /// retried into a double payout.  On any rejection nothing changes.
    pub fn claim_winnings(&mut self, position_id: usize, caller: u64) -> (r: Result<
        u64,
        ErrorCode,
    >)
        requires
            old(self).wf(),
            position_id < old(self).positions@.len(),
        ensures
            final(self).wf(),
            MarketRegistry::claim_result(*old(self), *final(self), position_id, caller, r),
    {
        let p = self.positions[position_id];
        if caller != p.user {
            return Err(ErrorCode::Unauthorized);
        }
        proof {
            assert(old(self).position_wf(position_id as int));
            assert(old(self).market_wf(p.market as int));
        }
        let mid = p.market;
        let mb = &self.markets[mid];
        if !mb.is_settled {
            return Err(ErrorCode::MarketNotSettled);
        }
        if p.claimed {
            return Err(ErrorCode::AlreadyClaimed);
        }
        if p.predict_yes != mb.outcome {
            return Err(ErrorCode::NotWinner);
        }
        proof {
            let ps = old(self).positions@;
            let m = old(self).markets@[mid as int];
            lemma_sums_nonneg(ps, mid as int, m.outcome, m);
            lemma_claimed_plus_unclaimed_le_side(ps, position_id as int, mid as int, m.outcome);
            lemma_next_payout_fits(ps, position_id as int, m);
        }
        let winning = if mb.outcome {
            mb.total_yes_stake
        } else {
            mb.total_no_stake
        };
        if winning == 0 {
            // Unreachable under the invariant: a winning position's own
            // stake is part of the winning pool.
            return Err(ErrorCode::DivisionByZero);
        }
        let total = mb.total_yes_stake + mb.total_no_stake;
        proof {
            vstd::arithmetic::mul::lemma_mul_upper_bound(
                p.amount as int,
                u64::MAX as int,
                total as int,
                u64::MAX as int,
            );
        }
        let wide = (p.amount as u128) * (total as u128);
        let payout128 = wide / (winning as u128);
        proof {
            lemma_payout_le_pool(p, old(self).markets@[mid as int]);
        }
        let payout = payout128 as u64;
        let bump = mb.bump;
        let mut p2 = p;
        p2.claimed = true;
        self.positions.set(position_id, p2);
        let auth = derive_signer(mid, bump);
        let mut v = self.vaults[mid];
        let paid = match v.withdraw(&auth, payout) {
            Ok(()) => payout,
            Err(_) => {
                // Unreachable under the invariant: the vault always
                // covers the next payout.  Were a transfer ever to fail
                // here, the position is already latched claimed, and the
                // stranding must be surfaced, not retried.
                return Err(ErrorCode::UnsettledPayoutFailure);
            },
        };
        self.vaults.set(mid, v);
        proof {
            let ps = old(self).positions@;
            let ps2 = self.positions@;
            let m = old(self).markets@[mid as int];
            assert forall|i: int|
                0 <= i < self.markets@.len() implies #[trigger] self.market_wf(i) by {
                assert(old(self).market_wf(i));
                lemma_sums_update(ps, position_id as int, p2, i, true, old(self).markets@[i]);
                lemma_sums_update(ps, position_id as int, p2, i, false, old(self).markets@[i]);
            }
            assert forall|k: int|
                0 <= k < self.positions@.len() implies #[trigger] self.position_wf(k) by {
                if k != position_id as int {
                    assert(old(self).position_wf(k));
                }
            }
        }
        Ok(paid)
    }
}

/// Law: a position can be claimed at most once.  Once a claim has
/// succeeded, a second claim of the same position by the same caller
/// always fails with `AlreadyClaimed` and changes nothing — in
/// particular, it issues no transfer.
pub proof fn lemma_claim_at_most_once(
    pre: MarketRegistry,
    s1: MarketRegistry,
    s2: MarketRegistry,
    position_id: usize,
    caller: u64,
    r1: Result<u64, ErrorCode>,
    r2: Result<u64, ErrorCode>,
)
    requires
        pre.wf(),
        position_id < pre.positions@.len(),
        MarketRegistry::claim_result(pre, s1, position_id, caller, r1),
        r1 is Ok,
        MarketRegistry::claim_result(s1, s2, position_id, caller, r2),
    ensures
        r2 == Err::<u64, ErrorCode>(ErrorCode::AlreadyClaimed),
        s2 == s1,
{
    let p = pre.positions@[position_id as int];
    let p1 = s1.positions@[position_id as int];
    assert(p1 == Prediction { claimed: true, ..p });
}

/// Law: a market is settled exactly once.  Once a settlement has
/// succeeded, any further settlement attempt on the same market always
/// fails with `AlreadySettled` and changes nothing.
pub proof fn lemma_settle_exactly_once(
    pre: MarketRegistry,
    s1: MarketRegistry,
    s2: MarketRegistry,
    market_id: usize,
    caller: u64,
    caller2: u64,
    price1: u64,
    price2: u64,
    now1: i64,
    now2: i64,
    r1: Result<(), ErrorCode>,
    r2: Result<(), ErrorCode>,
)
    requires
        pre.wf(),
        market_id < pre.markets@.len(),
        MarketRegistry::settle_result(pre, s1, market_id, caller, price1, now1, r1),
        r1 is Ok,
        MarketRegistry::settle_result(s1, s2, market_id, caller2, price2, now2, r2),
    ensures
        r2 == Err::<(), ErrorCode>(ErrorCode::AlreadySettled),
        s2 == s1,
{
}

/// Law: a settled market's outcome is exactly
/// `final_price >= target_price`, and its final price is recorded.
pub proof fn lemma_settled_outcome_matches_price(r: MarketRegistry, i: int)
    requires
        r.wf(),
        0 <= i < r.markets@.len(),
        r.markets@[i].is_settled,
    ensures
        r.markets@[i].final_price is Some,
        r.markets@[i].outcome == (r.markets@[i].final_price->0 >= r.markets@[i].target_price),
{
    assert(r.market_wf(i));
}

/// Law: at every point in time, a market's running totals equal the sum
/// of `amount` over all positions on that side of that market.
pub proof fn lemma_totals_match_positions(r: MarketRegistry, i: int)
    requires
        r.wf(),
        0 <= i < r.markets@.len(),
    ensures
        r.markets@[i].total_yes_stake == side_total(r.positions@, i, true),
        r.markets@[i].total_no_stake == side_total(r.positions@, i, false),
{
    assert(r.market_wf(i));
}

/// Law: value is conserved.  Everything a market has ever paid out is
/// exactly what has left its vault, and never exceeds the pooled stake;
/// truncation only ever leaves dust behind, never pays excess.
pub proof fn lemma_payouts_never_exceed_pool(r: MarketRegistry, i: int)
    requires
        r.wf(),
        0 <= i < r.markets@.len(),
    ensures
        paid_total(r.positions@, i, r.markets@[i]) == pool(r.markets@[i]) - r.vaults@[i].balance,
        paid_total(r.positions@, i, r.markets@[i]) <= pool(r.markets@[i]),
{
    assert(r.market_wf(i));
}

} // verus!
