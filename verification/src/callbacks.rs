pub mod extract_callbacks;
pub mod lifting_laws;
