pub mod addr;
pub mod errors;
pub mod laws;
pub mod make;
pub mod refund;
pub mod state;
pub mod take;

pub use make::make;
pub use refund::refund;
pub use take::take;

pub use addr::Address;
pub use errors::EscrowError;
pub use state::EscrowRecord;
pub use state::EscrowStore;
pub use state::OpenTrade;
pub use state::TokenAccount;
