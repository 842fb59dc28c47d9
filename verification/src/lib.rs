//! Core logic of a small OLED menu firmware: a 128x64 monochrome frame
//! buffer, a key-driven menu engine, a view model for Wi-Fi setup screens,
//! a vertical widget layout, QR matrices and the network toast mailbox.

pub mod canvas;
pub mod keys;
pub mod text;
pub mod utf8text;
pub mod anim;
pub mod menu;
pub mod menu_laws;
pub mod qrcode;
pub mod ui;
pub mod wifi;
pub mod viewmodel;
pub mod viewmodel_laws;
pub mod net;
pub mod provision;
