pub mod bot;
pub mod links;
pub mod regex;
pub mod shared;
pub mod web;
