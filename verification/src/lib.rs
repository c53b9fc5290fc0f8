//! PandaGen core library: verified resource accounting, policy evaluation,
//! lifecycle primitives, input types and UI state machines.

pub mod app_store;
pub mod channel;
pub mod command_palette;
pub mod device_manager;
pub mod digest;
pub mod display;
pub mod editor_io;
pub mod editor_render;
pub mod framebuffer;
pub mod host_commands;
pub mod host_runtime;
pub mod identity;
pub mod input_script;
pub mod input_types;
pub mod intent_router;
pub mod ipc;
pub mod ipc_command;
pub mod kernel_console;
pub mod kernel_error;
pub mod kernel_input;
pub mod kernel_mem;
pub mod kernel_sched;
pub mod lifecycle;
pub mod minimal_editor;
pub mod output;
pub mod package_registry;
pub mod packages;
pub mod palette_overlay;
pub mod pipeline;
pub mod policy;
pub mod remote_ipc;
pub mod render_stats;
pub mod resources;
pub mod secure_boot;
pub mod syscall;
pub mod syscall_server;
pub mod text;
pub mod text_map;
pub mod time;
pub mod workspace;
pub mod workspace_session;
