//! librePvZ: the decoding, packing and state logic of a Plants-vs-Zombies engine,
//! with contracts checked by Verus.

#![allow(unused_imports)]

pub mod bits;
pub mod stream;
pub mod text;
pub mod decode;
pub mod reanim;
pub mod cached;
pub mod animation;
pub mod pack;
pub mod ecs;
pub mod curve;
pub mod model;
pub mod clip;
pub mod reflect;
pub mod cli;
pub mod labels;
pub mod loader;
pub mod optics;
pub mod action;
pub mod almanac;
pub mod xml;
pub mod basic_optics;
