//! Runtime discovery and launch orchestration for a native Java application launcher.

pub mod app_image;
pub mod argument_laws;
pub mod arguments;
pub mod class_file;
pub mod config_file;
pub mod decimal;
pub mod jvm_args;
pub mod launch_config;
pub mod launch_laws;
pub mod launcher;
pub mod manifest;
pub mod paths;
pub mod release;
pub mod resolver;
pub mod text;
