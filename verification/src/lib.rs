pub mod browser;
pub mod commands;
pub mod layout;
pub mod omnibox;
pub mod pages;
pub mod persistence;
pub mod process;
pub mod session;
pub mod shields;
pub mod text;
pub mod view;
pub mod weburl;
