//! Game state of a Rustopoly server (board fields and player accounts),
//! the financial rules applied to it, and the message framing and
//! request/response decisions of the client and server sessions.

pub mod financial_mgmt;
pub mod memory_mgmt;
pub mod interface;
pub mod session;
