//! Correlation of open sockets with the processes that own them, and the
//! actions a user can take on one chosen entry.

pub mod text;
pub mod model;
pub mod manager;
pub mod laws;
pub mod live;
pub mod session;
