//! Non-volatile state and over-the-air activation of a LoRaWAN end device.

pub mod bytes;
pub mod crc;
pub mod flash;
pub mod mac;
pub mod nvm;
pub mod radio;
pub mod region;
pub mod types;
