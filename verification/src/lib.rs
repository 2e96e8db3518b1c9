pub mod editor;
pub mod rope;
pub mod text;
pub mod unicode;
