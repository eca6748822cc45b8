//! A minimal client library for the Linux Bluetooth Management (MGMT)
//! protocol: a layout-correct builder for kernel socket addresses and a
//! codec for the fixed-header, little-endian MGMT wire format.

pub mod address;
pub mod hci;
