//! Core logic of the AnimeR terminal client: the catalogue model, menu
//! navigation, episode selection and the framing of messages to the player.
pub mod api;
pub mod app;
pub mod menu;
pub mod player;
pub mod text;
