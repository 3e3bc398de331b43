pub mod calendar;
pub mod db;
pub mod exa;
pub mod features;
pub mod handlers;
pub mod pattern;
pub mod text;
