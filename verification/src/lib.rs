pub mod text;
pub mod audio;
pub mod video;
pub mod shortcuts;
pub mod capture_context;
pub mod descriptor;
pub mod payload;
pub mod recording_save;
pub mod mux;
pub mod confirmation;
pub mod output_settings;
pub mod recording;
pub mod debug_log;
