//! Curation of a community's showcase channels: which messages count as
//! posts, how their votes are tallied, how the handlers of an event are
//! staged and what they ask for is carried out, and how the best and worst
//! posts are ranked and laid out.

pub mod cards;
pub mod channels;
pub mod delivery;
pub mod download;
pub mod fetch;
pub mod group_system;
pub mod model;
pub mod ranking;
pub mod retry;
pub mod systems;
pub mod text;
pub mod votes;
