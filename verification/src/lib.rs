//! Verified core of a small desktop tool that drives a Wi-Fi hotspot through
//! NetworkManager: parsing of the tools' textual output, the command sequences
//! that start, stop and reconfigure the hotspot, the Wi-Fi QR payload and its
//! raster image, and the decisions of the dashboard.
use vstd::prelude::*;

pub mod dashboard;
pub mod hotspot;
pub mod network;
pub mod qr;
pub mod text;

verus! {

} // verus!
