//! Opening a market.
use crate::constants::{
    MAX_LIQUIDITY, MAX_MARKET_DURATION, MAX_MARKET_ID_LENGTH, MAX_OPTIONS, MAX_OPTION_LENGTH,
    MAX_QUESTION_LENGTH, MIN_MARKET_DURATION, MIN_OPTIONS,
};
use crate::errors::OpinionMarketError;
use crate::state::{zeros, AccountKey, AdminConfig, Market};
use vstd::prelude::*;

verus! {

/// The length of a text in UTF-8 bytes (which always fits in `usize`).
pub open spec fn byte_len(s: String) -> int {
    (vstd::utf8::encode_utf8(s@).len() as usize) as int
}

/// The refusal of a new market, in the order in which the checks run, or
/// `None` when it is created.
pub open spec fn create_refusal(
    config: AdminConfig,
    market_id: String,
    question: String,
    options: Seq<String>,
    end_time: i64,
    liquidity: u64,
    now: i64,
) -> Option<OpinionMarketError> {
    if byte_len(market_id) > MAX_MARKET_ID_LENGTH {
        Some(OpinionMarketError::MarketIdTooLong)
    } else if byte_len(question) > MAX_QUESTION_LENGTH {
        Some(OpinionMarketError::QuestionTooLong)
    } else if options.len() < MIN_OPTIONS || options.len() > MAX_OPTIONS {
        Some(OpinionMarketError::TooManyOptions)
    } else if exists|k: int| 0 <= k < options.len() && byte_len(#[trigger] options[k]) > MAX_OPTION_LENGTH {
        Some(OpinionMarketError::OptionTooLong)
    } else if end_time <= now {
        Some(OpinionMarketError::MarketEndTimeInPast)
    } else if end_time - now < MIN_MARKET_DURATION {
        Some(OpinionMarketError::MarketDurationTooShort)
    } else if end_time - now > MAX_MARKET_DURATION {
        Some(OpinionMarketError::MarketDurationTooLong)
    } else if liquidity < config.min_liquidity {
        Some(OpinionMarketError::LiquidityTooLow)
    } else if liquidity > MAX_LIQUIDITY {
        Some(OpinionMarketError::LiquidityTooHigh)
    } else {
        None
    }
}

/// The byte length of a text.
fn text_len(s: &String) -> (r: usize)
    ensures
        r == byte_len(*s),
{
    s.as_str().len()
}

/// Creates a market by `creator` at time `now` with the given question,
/// outcome labels, close time and pooled liquidity: no shares outstanding,
/// open.
pub fn handler(
    config: &AdminConfig,
    creator: AccountKey,
    market_id: String,
    question: String,
    options: Vec<String>,
    end_time: i64,
    liquidity: u64,
    now: i64,
) -> (r: Result<Market, OpinionMarketError>)
    ensures
        ({
            let refusal = create_refusal(
                *config,
                market_id,
                question,
                options@,
                end_time,
                liquidity,
                now,
            );
            &&& refusal is Some ==> r == Err::<Market, OpinionMarketError>(refusal->Some_0)
            &&& refusal is None ==> r is Ok
        }),
        r is Ok ==> {
            let m = r->Ok_0;
            &&& m.wf()
            &&& m.market_id == market_id
            &&& m.question == question
            &&& m.options@ == options@
            &&& m.end_time == end_time
            &&& m.liquidity == liquidity
            &&& forall|k: int| 0 <= k < m.total_shares@.len() ==> #[trigger] m.total_shares@[k] == 0
            &&& !m.is_resolved
            &&& m.winning_option is None
            &&& m.creator == creator
            &&& m.created_at == now
        },
{
    if text_len(&market_id) > MAX_MARKET_ID_LENGTH {
        return Err(OpinionMarketError::MarketIdTooLong);
    }
    if text_len(&question) > MAX_QUESTION_LENGTH {
        return Err(OpinionMarketError::QuestionTooLong);
    }
    let n = options.len();
    if n < MIN_OPTIONS || n > MAX_OPTIONS {
        return Err(OpinionMarketError::TooManyOptions);
    }
    let mut j: usize = 0;
    while j < n
        invariant
            j <= n,
            n == options@.len(),
            MIN_OPTIONS <= n <= MAX_OPTIONS,
            byte_len(market_id) <= MAX_MARKET_ID_LENGTH,
            byte_len(question) <= MAX_QUESTION_LENGTH,
            forall|k: int| 0 <= k < j ==> byte_len(#[trigger] options@[k]) <= MAX_OPTION_LENGTH,
        decreases n - j,
    {
        if text_len(&options[j]) > MAX_OPTION_LENGTH {
            assert(exists|k: int|
                0 <= k < options@.len() && byte_len(#[trigger] options@[k]) > MAX_OPTION_LENGTH);
            return Err(OpinionMarketError::OptionTooLong);
        }
        j = j + 1;
    }
    if end_time <= now {
        return Err(OpinionMarketError::MarketEndTimeInPast);
    }
    let duration: i128 = end_time as i128 - now as i128;
    if duration < MIN_MARKET_DURATION as i128 {
        return Err(OpinionMarketError::MarketDurationTooShort);
    }
    if duration > MAX_MARKET_DURATION as i128 {
        return Err(OpinionMarketError::MarketDurationTooLong);
    }
    if liquidity < config.min_liquidity {
        return Err(OpinionMarketError::LiquidityTooLow);
    }
    if liquidity > MAX_LIQUIDITY {
        return Err(OpinionMarketError::LiquidityTooHigh);
    }
    Ok(Market {
        market_id,
        question,
        options,
        end_time,
        liquidity,
        total_shares: zeros(n),
        is_resolved: false,
        winning_option: None,
        creator,
        created_at: now,
    })
}

} // verus!
