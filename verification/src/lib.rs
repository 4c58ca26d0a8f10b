pub mod bme280;
pub mod moisture;
pub mod veml6030;
pub mod protocols;
