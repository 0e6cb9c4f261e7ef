pub mod actions;
pub mod address;
pub mod auctions;
pub mod backstop;
pub mod backstop_auctions;
pub mod bad_debt;
pub mod constants;
pub mod contract;
pub mod emissions;
pub mod errors;
pub mod events;
pub mod fills;
pub mod fixed_math;
pub mod health_factor;
pub mod interest;
pub mod ledger;
pub mod liquidation;
pub mod oracle;
pub mod pool;
pub mod positions;
pub mod reserve;
pub mod reward_zone;
pub mod submit;
pub mod supply;
pub mod validator;
