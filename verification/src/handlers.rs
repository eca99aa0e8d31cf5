//! What each request is answered with, computed from the records at hand.

pub mod admin;
pub mod api;
pub mod web;
