//! The records of the ledger: configuration, markets, positions and the fee
//! pool.
use crate::constants::{MAX_FEE_RATE, MAX_OPTIONS, MIN_OPTIONS};
use vstd::prelude::*;

verus! {

/// The 32-byte identity of an account (a holder, an administrator, a market
/// record). The all-zero key stands for "not set".
#[derive(Debug, Clone, Copy, PartialEq, Eq)]
pub struct AccountKey {
    pub bytes: [u8; 32],
}

impl AccountKey {
    /// Every byte of the key is zero.
    pub open spec fn is_unset(&self) -> bool {
        forall|k: int| 0 <= k < 32 ==> #[trigger] self.bytes@[k] == 0
    }

    /// The key that stands for "not set".
    pub fn unset() -> (r: AccountKey)
        ensures
            r.is_unset(),
    {
        let r = AccountKey { bytes: [0u8; 32] };
        assert(r.is_unset());
        r
    }

    /// Whether every byte of the key is zero.
    pub fn is_default(&self) -> (r: bool)
        ensures
            r == self.is_unset(),
    {
        let mut j: usize = 0;
        while j < 32
            invariant
                j <= 32,
                forall|k: int| 0 <= k < j ==> #[trigger] self.bytes@[k] == 0,
            decreases 32 - j,
        {
            if self.bytes[j] != 0 {
                return false;
            }
            j = j + 1;
        }
        true
    }
}

/// Process-wide configuration, mutable only by its administrator.
pub struct AdminConfig {
    pub admin: AccountKey,
    /// Fee rate in basis points, at most `MAX_FEE_RATE`.
    pub fee_rate: u64,
    /// Liquidity that a new market must at least hold, in base units.
    pub min_liquidity: u64,
    pub total_fees_collected: u64,
}

impl AdminConfig {
    pub open spec fn wf(&self) -> bool {
        self.fee_rate <= MAX_FEE_RATE
    }
}

/// One multi-outcome market.
pub struct Market {
    pub market_id: String,
    pub question: String,
    /// The outcome labels, fixed at creation.
    pub options: Vec<String>,
    /// Close time; trading is allowed strictly before it.
    pub end_time: i64,
    /// Pooled liquidity in base units.
    pub liquidity: u64,
    /// Outstanding shares of each outcome.
    pub total_shares: Vec<u64>,
    pub is_resolved: bool,
    pub winning_option: Option<u8>,
    pub creator: AccountKey,
    pub created_at: i64,
}

impl Market {
    /// One quantity per outcome, 2 to 10 outcomes, and a winning outcome,
    /// in range, exactly when the market is resolved.
    pub open spec fn wf(&self) -> bool {
        &&& self.total_shares@.len() == self.options@.len()
        &&& MIN_OPTIONS <= self.options@.len() <= MAX_OPTIONS
        &&& self.is_resolved <==> self.winning_option is Some
        &&& self.winning_option is Some ==> self.winning_option->Some_0 < self.options@.len()
    }

    /// Whether the record satisfies `wf`.
    pub fn is_well_formed(&self) -> (r: bool)
        ensures
            r == self.wf(),
    {
        let n = self.options.len();
        if self.total_shares.len() != n || n < MIN_OPTIONS || n > MAX_OPTIONS {
            return false;
        }
        match self.winning_option {
            Some(w) => self.is_resolved && (w as usize) < n,
            None => !self.is_resolved,
        }
    }
}

/// A holder's stake in one market. A record whose `market` key is unset has
/// not been opened yet.
pub struct Position {
    pub market: AccountKey,
    pub user: AccountKey,
    /// Shares held of each outcome.
    pub shares: Vec<u64>,
    /// Cost basis: what was paid for purchases, less what sales returned.
    pub total_cost: u64,
    pub total_fees_paid: u64,
    pub has_claimed: bool,
    pub created_at: i64,
    pub updated_at: i64,
}

impl Position {
    /// A record that no purchase has opened yet.
    pub fn unopened() -> (r: Position)
        ensures
            r.market.is_unset(),
            r.user.is_unset(),
            r.shares@.len() == 0,
            r.total_cost == 0,
            r.total_fees_paid == 0,
            !r.has_claimed,
    {
        Position {
            market: AccountKey::unset(),
            user: AccountKey::unset(),
            shares: Vec::new(),
            total_cost: 0,
            total_fees_paid: 0,
            has_claimed: false,
            created_at: 0,
            updated_at: 0,
        }
    }
}

/// The pool of collected fees.
pub struct FeeAccount {
    pub authority: AccountKey,
    pub total_fees: u64,
}

/// `n` zero quantities.
pub fn zeros(n: usize) -> (r: Vec<u64>)
    ensures
        r@.len() == n,
        forall|k: int| 0 <= k < n ==> #[trigger] r@[k] == 0,
{
    let mut r: Vec<u64> = Vec::new();
    let mut j: usize = 0;
    while j < n
        invariant
            j <= n,
            r@.len() == j,
            forall|k: int| 0 <= k < j ==> #[trigger] r@[k] == 0,
        decreases n - j,
    {
        r.push(0);
        j = j + 1;
    }
    r
}

} // verus!
