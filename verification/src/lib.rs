pub mod store;
pub mod text;
pub mod users;
