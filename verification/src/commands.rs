//! The operations the application exposes, one module per command.
pub mod add_command;
pub mod file_forget_command;
pub mod file_rm_command;
pub mod init_command;
pub mod list_command;
pub mod project_forget_command;
pub mod status_command;
