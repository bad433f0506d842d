//! The operations of the engine, one module each.

pub mod create_amm;
pub mod create_pool;
pub mod deposit_liquidity;
pub mod swap_exact_tokens_for_tokens;
pub mod withdraw_liquidity;

pub use create_amm::CreateAmm;
pub use create_pool::CreatePool;
pub use deposit_liquidity::{Deposit, DepositLiquidity};
pub use swap_exact_tokens_for_tokens::{Swap, SwapExactTokensForTokens};
pub use withdraw_liquidity::{WithdrawLiquidity, Withdrawal};
