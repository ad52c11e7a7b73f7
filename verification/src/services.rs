pub mod app_manager;
pub mod backup;
pub mod extensions;
pub mod file_manager;
pub mod target_checker;
pub mod timer;
pub mod wait;
pub mod watch;
