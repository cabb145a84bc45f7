pub mod apps;
pub mod oauth2;
pub mod users;
