pub mod err;
pub mod info;
pub mod name;
pub mod text;
