//! The client's side: what the user types and what the server's messages
//! mean to the user.

pub mod display;
pub mod input;
pub mod output;
pub mod shapes;
pub mod laws;
