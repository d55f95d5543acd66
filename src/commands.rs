pub mod current;
pub mod install;
pub mod list;
pub mod uninstall;
pub mod update;
