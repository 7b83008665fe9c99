pub mod admin;
pub mod comment;
pub mod developer;
pub mod menu;
pub mod moderation;
pub mod reaction;
pub mod statistics;
pub mod system;
pub mod user;
