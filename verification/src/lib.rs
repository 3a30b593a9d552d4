//! The decision logic of the Devboule daemon.
pub mod json;
pub mod numbers;
pub mod paths;
pub mod platform;
pub mod registry;
pub mod session_rules;
pub mod session_types;
pub mod shell_command;
pub mod shell_unwrap;
pub mod spawn;
pub mod spawn_errors;
pub mod std_text;
pub mod tailscale_http;
pub mod tailscale_localapi;
pub mod temp_dir_guard;
pub mod test_dirs;
pub mod text;
pub mod text_safety;
pub mod tool_paths;
pub mod tool_policy;
pub mod transport;
pub mod user_providers;
pub mod utf16;
pub mod windows_path_env;
pub mod windows_registry_path;
pub mod wire;
pub mod wire_json;
pub mod workspace;
pub mod workspace_create;
pub mod workspace_delete;
pub mod workspace_entries;
pub mod workspace_file_delete;
pub mod workspace_file_duplicate;
pub mod workspace_file_preview;
pub mod workspace_file_rename;
pub mod workspace_paths;
