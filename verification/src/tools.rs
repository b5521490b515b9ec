//! Parameters of the tools the fleet exposes to MCP clients.

use vstd::prelude::*;

verus! {

/// A sync group, by name.
#[derive(Debug, Clone)]
pub struct GroupNameParam {
    /// Name of the sync group
    pub group_name: String,
}

/// A sync group by name, or every group when absent.
#[derive(Debug, Clone)]
pub struct OptionalGroupNameParam {
    /// Name of the sync group (omit for all groups)
    pub group_name: Option<String>,
}

/// A device, by name.
#[derive(Debug, Clone)]
pub struct DeviceNameParam {
    /// Name of the device
    pub device_name: String,
}

/// A preset to activate on a group.
#[derive(Debug, Clone)]
pub struct ActivatePresetParam {
    /// Name of the sync group
    pub group_name: String,
    /// Name of the preset to activate
    pub preset_name: String,
}

/// A preset to activate on several groups.
#[derive(Debug, Clone)]
pub struct BroadcastPresetParam {
    /// Names of sync groups to target
    pub group_names: Vec<String>,
    /// Name of the preset to activate
    pub preset_name: String,
}

/// Power for a group.
#[derive(Debug, Clone)]
pub struct SetPowerParam {
    /// Name of the sync group
    pub group_name: String,
    /// true to turn on, false to turn off
    pub on: bool,
}

/// Brightness for a group.
#[derive(Debug, Clone)]
pub struct SetBrightnessParam {
    /// Name of the sync group
    pub group_name: String,
    /// Brightness value 0-255
    pub brightness: u8,
}

/// Primary color for a group.
#[derive(Debug, Clone)]
pub struct SetColorParam {
    /// Name of the sync group
    pub group_name: String,
    /// Red channel 0-255
    pub r: u8,
    /// Green channel 0-255
    pub g: u8,
    /// Blue channel 0-255
    pub b: u8,
}

/// Effect for a group, by name.
#[derive(Debug, Clone)]
pub struct SetEffectParam {
    /// Name of the sync group
    pub group_name: String,
    /// Name of the effect to activate
    pub effect_name: String,
}

/// Palette for a group, by name.
#[derive(Debug, Clone)]
pub struct SetPaletteParam {
    /// Name of the sync group
    pub group_name: String,
    /// Name of the palette to activate
    pub palette_name: String,
}

/// Power for a single device.
#[derive(Debug, Clone)]
pub struct IndividualPowerParam {
    /// Name of the device
    pub device_name: String,
    /// true to turn on, false to turn off
    pub on: bool,
}

} // verus!
