pub mod grid;
pub mod shader;
pub mod flow;
pub mod user;
