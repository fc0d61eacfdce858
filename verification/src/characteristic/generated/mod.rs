//! The characteristics that the HAP metadata defines.

pub mod current_relative_humidity;
pub mod firmware_revision;
pub mod identify;
pub mod manufacturer;
pub mod model;
pub mod name;
pub mod serial_number;
pub mod supported_audio_stream_configuration;
