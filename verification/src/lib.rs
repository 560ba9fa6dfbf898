//! The commerce core of a ticketing service.
//!
//! The order engine turns a cart of ticket requests into priced line
//! items, reserves ticket instances for them, applies codes and holds,
//! charges fees, and takes an order through payment and refund:
//!
//! - `inventory`: the ledger of ticket instances;
//! - `codes`: codes and holds, and whether one can be redeemed;
//! - `pricing`: the unit price of a ticket type;
//! - `fees`: per-unit fees by price tier, and flat event fees;
//! - `catalog`: what the engine reads, and how a request resolves;
//! - `orders`, `cart`, `payments`, `refunds`, `validity`, `cleanup`,
//!   `display`, `listing`, `store`, `book`: the order aggregate and its
//!   book;
//! - `laws`, `cart_laws`, `reservation_laws`: what holds across the
//!   operations.
//!
//! Beside the engine stand carts of ticket allocations (`carts`), mail
//! messages (`mail`), the routes of domain actions (`routing`),
//! invitations (`invites`), the bill of an event (`event_artists`), fans
//! (`fans`) and the vocabularies of the domain (`enums`).
//!
//! Times are seconds since 1970-01-01 00:00:00; identifiers are numbers of
//! 128 bits; money is in cents.

pub mod book;
pub mod cart;
pub mod cart_laws;
pub mod carts;
pub mod catalog;
pub mod cleanup;
pub mod clock;
pub mod codes;
pub mod display;
pub mod enums;
pub mod errors;
pub mod event_artists;
pub mod fans;
pub mod fees;
pub mod inventory;
pub mod invites;
pub mod json;
pub mod laws;
pub mod listing;
pub mod mail;
pub mod orders;
pub mod payments;
pub mod pricing;
pub mod refunds;
pub mod reservation_laws;
pub mod routing;
pub mod search;
pub mod store;
pub mod text;
pub mod tokens;
pub mod validity;
pub mod vecs;
