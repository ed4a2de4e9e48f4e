//! Transfer plans for payments over a trust network.
//!
//! A path of transfer steps, as a path-finding service returns it, is turned
//! into the flow matrix that the settlement function takes: the vertices in
//! ascending order, one edge per transfer, the stream of edges that reach the
//! sink, and the packed coordinates of every transfer.

pub mod word;
pub mod text;
pub mod address;
pub mod flow_matrix;
pub mod vertices;
pub mod coordinates;
pub mod laws;
pub mod circles;
pub mod redeem;
