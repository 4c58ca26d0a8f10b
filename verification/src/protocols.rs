pub mod i2c;
pub mod mock;
