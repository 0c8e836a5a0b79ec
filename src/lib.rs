pub mod text;
pub mod title;
pub mod segment;
pub mod markdown;
pub mod render;
pub mod naming;
pub mod batch;
