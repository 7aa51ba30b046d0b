//! The event-driven core and the terminal interface engine of an XMPP
//! console client, with their behaviour stated as contracts.

pub mod bookmarks;
pub mod buffered;
pub mod carbons;
pub mod client;
pub mod color;
pub mod command;
pub mod contact;
pub mod conversation;
pub mod disco;
pub mod dispatch;
pub mod event;
pub mod flow;
pub mod frame;
pub mod fresh;
pub mod input;
pub mod iq;
pub mod jid;
pub mod layout;
pub mod listview;
pub mod message;
pub mod paint;
pub mod roster;
pub mod session;
pub mod stream;
pub mod term;
pub mod text;
pub mod titlebar;
pub mod ui;
pub mod unread;
pub mod view;
pub mod winbar;
pub mod window;
