pub mod clipboard;
pub mod input;
pub mod mail;
pub mod notify;
pub mod screenshot;
pub mod windows;
