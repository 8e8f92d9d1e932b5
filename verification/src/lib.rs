//! Verified core of the fetching library: naming, path building, playlist
//! text, queue and task-registry logic, retry decisions and URI handling.

pub mod audio;
pub mod auth;
pub mod builders;
pub mod cache;
pub mod clock;
pub mod config;
pub mod tagger;
pub mod text;
pub mod validation;
pub mod container;
pub mod cover;
pub mod db;
pub mod job;
pub mod runner;
pub mod status;
pub mod stream;
pub mod coordinator;
pub mod m3u;
pub mod output_path;
pub mod paths;
pub mod playback;
pub mod playlist;
pub mod progress;
pub mod queue;
pub mod raster;
pub mod registry;
pub mod uri;
