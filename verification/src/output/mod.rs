pub mod displays;
pub mod dot;
pub mod text;
