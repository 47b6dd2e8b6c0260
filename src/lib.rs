pub mod error;
pub mod gallery;
pub mod pipeline;
pub mod search;
pub mod session;
pub mod text;
