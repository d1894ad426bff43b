//! Verified core of the plnk Planka client: name search, transport policy,
//! error classification, configuration resolution, card filtering and the
//! text helpers behind the terminal explorer.

pub mod actions;
pub mod board;
pub mod cards;
pub mod client;
pub mod config;
pub mod detail;
pub mod drafts;
pub mod editor;
pub mod error;
pub mod eventlog;
pub mod events;
pub mod explorer;
pub mod groups;
pub mod keys;
pub mod ids;
pub mod laws;
pub mod live;
pub mod lookup;
pub mod models;
pub mod nav;
pub mod order;
pub mod routes;
pub mod panes;
pub mod screen;
pub mod search;
pub mod session;
pub mod socket;
pub mod snapshot;
pub mod state;
pub mod text;
pub mod transport;
pub mod tree;
pub mod visible;
