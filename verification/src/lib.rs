//! The rules of a small LocalSend client: what is announced, what is answered,
//! what is stored and what is sent.
pub mod cli;
pub mod clipboard;
pub mod events;
pub mod json;
pub mod localsend;
mod outside;
pub mod path;
pub mod receive;
pub mod share;
pub mod sizes;
pub mod table;
pub mod text;
