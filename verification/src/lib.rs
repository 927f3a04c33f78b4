#![allow(non_snake_case)]
#![allow(non_camel_case_types)]

pub mod buffer;
pub mod component;
pub mod events;
pub mod files;
pub mod network;
pub mod screens;
pub mod wire;
