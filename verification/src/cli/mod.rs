//! What the command line does, without reading or printing.

pub mod plugin_worker;
pub mod settings_cmd;
pub mod stop_all;
