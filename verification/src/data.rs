use vstd::prelude::*;

verus! {

/// Opaque 32-byte account reference, held as four 64-bit little-endian words.
/// It is only ever compared for emptiness or equality; the all-zero value is
/// the sentinel that marks an empty position slot.
#[derive(Clone, Copy, Debug)]
pub struct AccountId {
    pub words: [u64; 4],
}

impl AccountId {
    pub open spec fn spec_is_empty(self) -> bool {
        self.words@ =~= seq![0u64, 0u64, 0u64, 0u64]
    }

    /// Whether this is the all-zero sentinel of an empty slot.
    pub fn is_empty(&self) -> (r: bool)
        ensures
            r == self.spec_is_empty(),
    {
        let r = self.words[0] == 0 && self.words[1] == 0 && self.words[2] == 0 && self.words[3]
            == 0;
        proof {
            if r {
                assert(self.words@ =~= seq![0u64, 0u64, 0u64, 0u64]);
            }
        }
        r
    }

    /// The all-zero sentinel.
    pub fn empty() -> (r: AccountId)
        ensures
            r.spec_is_empty(),
    {
        let r = AccountId { words: [0u64, 0u64, 0u64, 0u64] };
        proof {
            assert(r.words@ =~= seq![0u64, 0u64, 0u64, 0u64]);
        }
        r
    }
}

/// Which margin requirement a check is made against.
#[derive(Clone, Copy, Debug, PartialEq, Eq, Structural)]
pub enum FractionType {
    Initial,
    Maintenance,
    Cancel,
}

/// Which margin-factor vectors an aggregation pass should produce.
#[derive(Clone, Copy, Debug, PartialEq, Eq, Structural)]
pub enum MfReturnOption {
    Imf,
    Mmf,
    Cancel,
    Both,
}

/// One open perpetual position of an account, with its resting orders.
/// Sizes are in the market's smallest asset unit; quote amounts are
/// micro-units.
#[derive(Clone, Copy, Debug)]
pub struct Position {
    /// Reference to the market's open-orders account; all-zero when the
    /// account has no position in this market.
    pub key: AccountId,
    /// Signed position size; negative is short.
    pub pos_size: i64,
    /// Quote-currency balance tied to the position.
    pub native_pc_total: i64,
    /// Realized profit and loss accrued so far.
    pub realized_pnl: i64,
    /// Resting-order quantity on the bid side.
    pub coin_on_bids: u64,
    /// Resting-order quantity on the ask side.
    pub coin_on_asks: u64,
    /// Funding index this position last settled against.
    pub funding_index: i128,
}

/// Protocol-wide configuration of one perpetual market.
#[derive(Clone, Copy, Debug)]
pub struct PerpMarketConfig {
    /// Number of decimals of the market's base asset.
    pub asset_decimals: u32,
    /// Base initial margin factor, permille. Maintenance and cancel factors
    /// derive from it.
    pub base_imf: u16,
}

/// Protocol-wide configuration of one collateral asset.
#[derive(Clone, Copy, Debug)]
pub struct CollateralConfig {
    /// Symbol under which the asset's oracle price is published; `0` is the
    /// nil symbol and marks an empty configuration slot.
    pub oracle_symbol: u64,
    /// Collateral weight, permille.
    pub weight: u16,
    /// Liquidation fee, permille.
    pub liq_fee: u16,
}

impl CollateralConfig {
    pub open spec fn spec_is_empty(self) -> bool {
        self.oracle_symbol == 0
    }

    /// Whether this configuration slot is unused.
    pub fn is_empty(&self) -> (r: bool)
        ensures
            r == self.spec_is_empty(),
    {
        self.oracle_symbol == 0
    }
}

/// Accrued-interest scaling factors of one collateral asset, micro-scaled:
/// `UNIT` means a factor of exactly one.
#[derive(Clone, Copy, Debug)]
pub struct BorrowAccrual {
    /// Applied to positive (lent) balances.
    pub supply_multiplier: u64,
    /// Applied to negative (borrowed) balances.
    pub borrow_multiplier: u64,
}

/// One entry of the oracle price table.
#[derive(Clone, Copy, Debug)]
pub struct OracleEntry {
    /// Symbol the price is published under; never the nil symbol `0`.
    pub symbol: u64,
    /// Price in micro-quote-units per smallest asset unit.
    pub price: i64,
}

/// Point-in-time market data shared by every account evaluation.
#[derive(Debug)]
pub struct Cache {
    /// Mark price per market, micro-scaled.
    pub marks: Vec<i64>,
    /// Current funding index per market.
    pub funding_cache: Vec<i128>,
    /// Accrual multipliers per collateral asset.
    pub borrow_cache: Vec<BorrowAccrual>,
    /// Oracle price table, searched by exact symbol match.
    pub oracles: Vec<OracleEntry>,
}

/// Protocol-wide state: per-asset and per-market configuration and the
/// active counts that bound every iteration.
#[derive(Debug)]
pub struct State {
    /// Number of meaningful entries in market-indexed vectors.
    pub total_markets: usize,
    /// Number of meaningful entries in collateral-indexed vectors.
    pub total_collaterals: usize,
    pub collaterals: Vec<CollateralConfig>,
    pub perp_markets: Vec<PerpMarketConfig>,
}

/// One account's collateral balances, micro-units, signed: positive is a
/// deposit, negative a borrow. Index 0 is the designated base/quote asset.
#[derive(Debug)]
pub struct Margin {
    pub collateral: Vec<i64>,
}

/// One account's open positions, indexed by market.
#[derive(Debug)]
pub struct Control {
    pub open_orders_agg: Vec<Position>,
}

/// Protocol-wide spot initial margin requirement ratio, permille of permille:
/// a weight-1000 asset borrows at an 1100-permille requirement.
pub const SPOT_INITIAL_MARGIN_REQ: u64 = 1_100_000;

/// Protocol-wide spot maintenance margin requirement ratio, permille of
/// permille.
pub const SPOT_MAINT_MARGIN_REQ: u64 = 1_030_000;

/// Price found by exact-match lookup of `symbol` in the oracle table: the
/// first entry with that symbol, none for the nil symbol `0`.
pub open spec fn spec_lookup_oracle(oracles: Seq<OracleEntry>, symbol: u64) -> Option<i64>
    decreases oracles.len(),
{
    if symbol == 0 {
        None
    } else if oracles.len() == 0 {
        None
    } else if oracles[0].symbol == symbol {
        Some(oracles[0].price)
    } else {
        spec_lookup_oracle(oracles.drop_first(), symbol)
    }
}

proof fn lemma_lookup_found(oracles: Seq<OracleEntry>, symbol: u64, i: int)
    requires
        symbol != 0,
        0 <= i < oracles.len(),
        oracles[i].symbol == symbol,
        forall|j: int| 0 <= j < i ==> oracles[j].symbol != symbol,
    ensures
        spec_lookup_oracle(oracles, symbol) == Some(oracles[i].price),
    decreases i,
{
    if i == 0 {
    } else {
        lemma_lookup_found(oracles.drop_first(), symbol, i - 1);
    }
}

proof fn lemma_lookup_missing(oracles: Seq<OracleEntry>, symbol: u64)
    requires
        forall|j: int| 0 <= j < oracles.len() ==> oracles[j].symbol != symbol,
    ensures
        spec_lookup_oracle(oracles, symbol) == None::<i64>,
    decreases oracles.len(),
{
    if symbol != 0 && oracles.len() > 0 {
        lemma_lookup_missing(oracles.drop_first(), symbol);
    }
}

/// Index of the oracle entry for `symbol`, if any: the first exact match.
pub fn get_oracle_index(cache: &Cache, symbol: u64) -> (r: Option<usize>)
    ensures
        match r {
            Some(i) => i < cache.oracles@.len() && spec_lookup_oracle(cache.oracles@, symbol)
                == Some(cache.oracles@[i as int].price),
            None => spec_lookup_oracle(cache.oracles@, symbol) == None::<i64>,
        },
{
    if symbol == 0 {
        return None;
    }
    let n = cache.oracles.len();
    let mut i: usize = 0;
    while i < n
        invariant
            symbol != 0,
            i <= n,
            n == cache.oracles@.len(),
            forall|j: int| 0 <= j < i ==> cache.oracles@[j].symbol != symbol,
        decreases n - i,
    {
        if cache.oracles[i].symbol == symbol {
            proof {
                lemma_lookup_found(cache.oracles@, symbol, i as int);
            }
            return Some(i);
        }
        i = i + 1;
    }
    proof {
        lemma_lookup_missing(cache.oracles@, symbol);
    }
    None
}

/// Oracle entry for `symbol`, if any. Absence of a symbol is a valid
/// outcome: the market has no live price.
pub fn get_oracle(cache: &Cache, symbol: u64) -> (r: Option<OracleEntry>)
    ensures
        match r {
            Some(e) => spec_lookup_oracle(cache.oracles@, symbol) == Some(e.price),
            None => spec_lookup_oracle(cache.oracles@, symbol) == None::<i64>,
        },
{
    match get_oracle_index(cache, symbol) {
        Some(i) => Some(cache.oracles[i]),
        None => None,
    }
}

} // verus!
