pub mod address;
pub mod settings;
pub mod chat;
pub mod plan;
pub mod web;
pub mod assistant;
pub mod completion;
pub mod duration;
pub mod value;
pub mod model;
pub mod text;
pub mod ui;
pub mod boot;
