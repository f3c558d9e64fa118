//! Remote memory access to a game console over a USB bulk link, and the item
//! catalog and inventory records that the companion tool builds on it.
pub mod inventory;
pub mod items;
pub mod protocol;
pub mod text;
pub mod transport;
pub mod usb;
