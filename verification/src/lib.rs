//! Game logic of the "lupus" (werewolf) Discord game: roles, players, the
//! night-action resolution, the manager that maps users and guilds to games,
//! and the vote-counting rules.  Everything that talks to Discord lives
//! outside this crate; the functions here take and return plain values.
pub mod keyed;
pub mod roles;
pub mod player;
pub mod game;
pub mod roles_per_players;
pub mod error;
pub mod context;
pub mod votes;
pub mod rng;
pub mod commands;
pub mod laws;
