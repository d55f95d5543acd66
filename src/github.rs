pub mod github_repo;
pub mod godot_repo;
