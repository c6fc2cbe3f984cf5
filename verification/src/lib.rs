use vstd::prelude::*;

pub mod aac;
pub mod accdb;
pub mod ai;
pub mod alac;
pub mod bin;
pub mod blend;
pub mod blockdevice;
pub mod bmp;
pub mod bytes;
pub mod cangjie;
pub mod cfile;
pub mod config;
pub mod cppfile;
pub mod crystal;
pub mod cursor;
pub mod devices;
pub mod dfile;
pub mod directories;
pub mod docx;
pub mod elf;
pub mod emmc;
pub mod error;
pub mod flac;
pub mod godata;
pub mod jpg;
pub mod json;
pub mod keyvalue;
pub mod makelife;
pub mod matlab;
pub mod md;
pub mod properties;
pub mod resource;
pub mod sources;
pub mod text;

verus! {

} // verus!
