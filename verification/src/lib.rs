pub mod text;
pub mod field;
pub mod selection;
pub mod settings;
pub mod translate;
pub mod overlay;
