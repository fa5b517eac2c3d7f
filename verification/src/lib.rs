//! Verified core of a local-first task manager: identifiers, the domain
//! model, reference resolution, task listing and the application services
//! that act on an in-memory image of the stored data.

pub mod app_state_service;
pub mod clock;
pub mod cli;
pub mod commands;
pub mod dispatch;
pub mod error;
pub mod hierarchy;
pub mod lifecycle;
pub mod membership;
pub mod ids;
pub mod maintenance;
pub mod model;
pub mod order;
pub mod output;
pub mod paths;
pub mod queries;
pub mod refs;
pub mod repository;
pub mod space_query;
pub mod space_service;
pub mod task_query;
pub mod task_service;
pub mod text;
pub mod tree_view;
pub mod tui_state;
pub mod util;
pub mod validation;
