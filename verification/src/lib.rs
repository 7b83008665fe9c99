pub mod accounts;
pub mod assistant;
pub mod avatars;
pub mod bot;
pub mod bot_feed;
pub mod calendar;
pub mod catalogue;
pub mod cities;
pub mod client_ip;
pub mod config;
pub mod coverage;
pub mod comment;
pub mod comment_tree;
pub mod db_console;
pub mod developer;
pub mod digest;
pub mod dto;
pub mod error;
pub mod favorites;
pub mod ingestion;
pub mod mail;
pub mod menu;
pub mod migrations;
pub mod notifications;
pub mod oauth;
pub mod og_image;
pub mod moderation;
pub mod og_pages;
pub mod og_templates;
pub mod ordering;
pub mod pagination;
pub mod passwords;
pub mod pricing;
pub mod profile;
pub mod rate_limiter;
pub mod reports;
pub mod requests;
pub mod review;
pub mod service_errors;
pub mod session;
pub mod statistics;
pub mod system;
pub mod text;
pub mod tool_replies;
pub mod tokens;
pub mod usage;
pub mod validation;
pub mod votes;
