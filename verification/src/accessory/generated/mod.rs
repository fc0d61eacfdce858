//! The accessories that the HAP metadata defines.

pub mod humidity_sensor;
