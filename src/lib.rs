//! A leaderless matchmaking exchange: agents publish proposals to play under a
//! well-known anchor, others discover and accept them, producing games, and
//! proposals may be withdrawn. Every write is checked by pure validation rules
//! that each replica of the content-addressed store evaluates on its own.

pub mod dht;
pub mod entries;
pub mod lifecycle;
pub mod schema;
pub mod validation;

pub use dht::{Address, Dht, ZomeError};
pub use entries::{Entry, EntryKind, Game, GameProposal};
pub use lifecycle::{
    accept_proposal, check_responses, create_proposal, ensure_exists, genesis, get_proposals, init,
    remove_proposal, resolve, validate_agent,
};
pub use schema::{anchor_def, definitions_of, game_def, game_proposal_def};
pub use validation::{LinkType, Operation, Rejection};
