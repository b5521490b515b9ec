//! Chromancy: a client library for WLED LED controllers, organised into sync
//! groups (one leader, any number of followers) and fleets of such groups.
//!
//! The library holds the data model of the WLED JSON API, the configuration
//! model, the sync-group and fleet structures, and every decision the client
//! makes (request construction, response classification, retry policy,
//! preset/effect/palette resolution, sync-health evaluation, re-sync plans).
//! Moving bytes over HTTP is left to the caller.

pub mod client;
pub mod config;
pub mod error;
pub mod fleet;
pub mod sync_group;
pub mod text;
pub mod tools;
pub mod types;

pub use client::{CachedList, Endpoint, RawMethod, WledClient, WledClientBuilder};
pub use config::{DeviceConfig, FleetConfig, ScheduleConfig, SyncGroupConfig};
pub use error::WledError;
pub use fleet::WledFleet;
pub use sync_group::WledSyncGroup;
pub use types::{
    Color, DeviceSyncStatus, DuskScheduleConfig, FleetStatus, GroupStatus, LedInfo,
    NightlightState, NtpConfig, NtpServer, PresetInfo, Segment, SegmentRequest,
    SyncHealthReport, TimerEntry, UdpSync, WledFullState, WledInfo, WledState,
    WledStateRequest,
};
