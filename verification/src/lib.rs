//! A terminal virtual pet: the creature roster, sprite sheets and the
//! loading of a creature's frames, animation timing, the configuration
//! document, keyboard controls, roster changes, the pen's layout and the
//! title art.
pub mod text;
pub mod creatures;
pub mod anim_data;
pub mod animation;
pub mod eyes;
pub mod config;
pub mod creature;
pub mod sprite_sheet;
pub mod sprite_loading;
pub mod notification;
pub mod controls;
pub mod pen;
pub mod sprite;
pub mod animal;
pub mod game;
pub mod transitions;
pub mod cli;
pub mod render;
pub mod fallback;
pub mod frame;
pub mod title;
