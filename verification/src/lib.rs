//! Session gating for a small captcha-protected web portal.
//!
//! The library decides what each page answers, keeps the table of live
//! sessions and renders the pages' text; the HTTP server around it only
//! moves requests and responses.

pub mod captcha;
pub mod laws;
pub mod logging;
pub mod pages;
pub mod reply;
pub mod session;
pub mod text;
