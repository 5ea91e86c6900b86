//! Core logic of the Nest editor: the lifecycle of a hot-loaded game
//! library, the project tree shown in the project panel, project paths,
//! window-event routing and the small decisions of the editor views.

pub mod user_app_state;
pub mod user_app;
pub mod names;
pub mod project_tree;
pub mod paths;
pub mod user_project;
pub mod editor_events;
pub mod view;
pub mod plugins;
pub mod camera;
