//! tama: the logic of a terminal pet that doubles as the face of an
//! assistant — pet rules, sprites, persistence formats, the flat-JSON wire
//! protocol, the CLI and HTTP front ends, and the message inbox.

pub mod answer;
pub mod assistant;
pub mod assistant_view;
pub mod bigtime;
pub mod card;
pub mod cli;
pub mod clock;
pub mod expression;
pub mod frame;
pub mod game;
pub mod home;
pub mod http;
pub mod i18n;
pub mod inbox;
pub mod json;
pub mod layout;
pub mod line;
pub mod messages;
pub mod panel;
pub mod pet;
pub mod pomo;
pub mod pomo_view;
pub mod render;
pub mod screen;
pub mod session;
pub mod setup;
pub mod species;
pub mod state;
pub mod text;
pub mod widgets;
