//! The record that Go data files hold.
use vstd::prelude::*;

verus! {

/// The record of a Go data file.
#[derive(Debug, Clone, PartialEq)]
pub struct GoData {
    pub name: String,
    pub version: u32,
    pub enabled: bool,
}

} // verus!
