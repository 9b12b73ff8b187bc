pub mod types;
pub mod math;
pub mod vec_map;
pub mod paged;
pub mod book;
pub mod error;
pub mod event;
pub mod fight;
pub mod stake;
pub mod lending;
pub mod deck_book;
pub mod rounds;
pub mod ledger;
pub mod pot;
pub mod deck;
pub mod opening;
pub mod contract;
pub mod burn;
pub mod laws;
pub mod rewards;
pub mod requests;
pub mod oracle;
