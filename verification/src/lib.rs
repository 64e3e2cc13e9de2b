//! The decision-making core of a recorder for Discord voice sessions.

pub mod appimage;
pub mod argument_laws;
pub mod clip;
pub mod clip_laws;
pub mod config;
pub mod convert;
pub mod encoder;
pub mod instance;
pub mod json;
pub mod lossy;
pub mod mics;
pub mod name_laws;
pub mod names;
pub mod naming;
pub mod path_laws;
pub mod paths;
pub mod pipeline_laws;
pub mod platform;
pub mod portal;
pub mod process;
pub mod pw;
pub mod recorder;
pub mod recordings;
pub mod retention;
pub mod scan;
pub mod service;
pub mod service_laws;
pub mod text;
pub mod text_laws;
pub mod tokens;
pub mod updates;
pub mod voice;
pub mod win;
pub mod words;
pub mod x11;
