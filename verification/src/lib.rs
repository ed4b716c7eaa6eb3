//! A marketplace for NFT sales, with its rules proved: listing, pricing,
//! buying with royalty payouts, storage deposits, administrators, shopping
//! carts and education forms.

pub mod string_set;
pub mod keyed_map;
pub mod types;
pub mod contract;
pub mod internal;
pub mod nft_callbacks;
pub mod sale;
pub mod sale_views;
pub mod admin_functions;
pub mod cart_functions;
pub mod edu_form_functions;
pub mod buy_from_other_marketplaces;
pub mod marketplace_calls;
pub mod invariants;
