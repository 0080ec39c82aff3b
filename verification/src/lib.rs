//! Core library for a tool-running assistant: a line-diff engine with
//! context windowing and report rendering, plus the pure decision and
//! formatting logic behind each tool. All I/O lives in the surrounding
//! binary; everything here is verified.

pub mod config;
pub mod routing;
pub mod scanner;
pub mod strutil;
pub mod tools;
pub mod ui;
