//! The data model of the WLED JSON API and of the reports built from it.

use std::collections::HashMap;
use vstd::prelude::*;
use crate::text::{decimal, push_decimal};

verus! {

/// RGB or RGBW color vector (`[r, g, b]` or `[r, g, b, w]`).
pub type Color = Vec<u8>;

// ── Field defaults used when a field is absent from a device's JSON ─────────

/// Default master/segment brightness.
pub fn default_brightness() -> (r: u8)
    ensures r == 128,
{
    128
}

/// Default for "no slot" (`ps`, `pl`).
pub fn default_neg_one_i32() -> (r: i32)
    ensures r == -1,
{
    -1
}

/// Default for the nightlight's remaining time (inactive).
pub fn default_neg_one_i16() -> (r: i16)
    ensures r == -1,
{
    -1
}

/// Default for flags that are on unless stated otherwise.
pub fn default_true() -> (r: bool)
    ensures r,
{
    true
}

/// Default group size and sync group masks.
pub fn default_1_u8() -> (r: u8)
    ensures r == 1,
{
    1
}

/// Default nightlight duration in minutes.
pub fn default_60_u8() -> (r: u8)
    ensures r == 60,
{
    60
}

/// Default effect speed, intensity and custom sliders.
pub fn default_128_u8() -> (r: u8)
    ensures r == 128,
{
    128
}

/// The color list of a segment as sequences of channel values.
pub open spec fn colors_view(c: Seq<Color>) -> Seq<Seq<u8>> {
    c.map_values(|x: Color| x@)
}

/// Copies a color list channel by channel.
pub fn copy_colors(c: &Vec<Color>) -> (r: Vec<Color>)
    ensures
        colors_view(r@) == colors_view(c@),
{
    let mut r: Vec<Color> = Vec::new();
    let mut i: usize = 0;
    while i < c.len()
        invariant
            i <= c.len(),
            r@.len() == i,
            forall|j: int| 0 <= j < i ==> (#[trigger] r@[j])@ == c@[j]@,
        decreases c.len() - i,
    {
        let src = &c[i];
        let mut col: Color = Vec::new();
        let mut k: usize = 0;
        while k < src.len()
            invariant
                k <= src.len(),
                col@ == src@.subrange(0, k as int),
            decreases src.len() - k,
        {
            col.push(src[k]);
            k = k + 1;
        }
        assert(col@ =~= src@);
        r.push(col);
        i = i + 1;
    }
    assert(colors_view(r@) =~= colors_view(c@));
    r
}

/// Current state of a WLED device (mirrors the `/json/state` response).
#[derive(Debug, Clone, Default)]
pub struct WledState {
    /// Power on/off
    pub on: bool,
    /// Master brightness (0–255)
    pub brightness: u8,
    /// Crossfade time in 100 ms units
    pub transition: u16,
    /// Active preset slot (−1 = none)
    pub preset_slot: i32,
    /// Active playlist slot (−1 = none)
    pub playlist_slot: i32,
    /// Nightlight state
    pub nightlight: NightlightState,
    /// UDP sync settings
    pub udp_sync: UdpSync,
    /// Live data override (0 = off, 1 = override, 2 = full)
    pub live_override: u8,
    /// Main segment index
    pub main_segment: u8,
    /// LED segments
    pub segments: Vec<Segment>,
}

/// Nightlight settings.
#[derive(Debug, Clone, Default)]
pub struct NightlightState {
    pub on: bool,
    /// Duration in minutes
    pub duration_minutes: u8,
    /// Mode: 0 = instant, 1 = fade, 2 = color fade, 3 = sunrise
    pub mode: u8,
    /// Target brightness
    pub target_brightness: u8,
    /// Remaining time in seconds (−1 = inactive)
    pub remaining_seconds: i16,
}

/// UDP sync settings.
#[derive(Debug, Clone, Default)]
pub struct UdpSync {
    pub send: bool,
    pub recv: bool,
    /// Send group bitmask
    pub send_group_mask: u8,
    /// Receive group bitmask
    pub receive_group_mask: u8,
}

/// A single LED segment.
#[derive(Debug, Clone, Default)]
pub struct Segment {
    pub id: u8,
    pub start: u16,
    /// End index (exclusive)
    pub stop: u16,
    pub len: u16,
    /// Group size (how many LEDs are grouped together)
    pub group_size: u8,
    /// Spacing between grouped LEDs
    pub spacing: u8,
    /// Offset into the LED strip
    pub offset: u16,
    pub on: bool,
    /// Freeze the segment (no animation updates)
    pub frozen: bool,
    pub brightness: u8,
    /// Color temperature
    pub color_temperature: u16,
    /// Colors: primary, secondary, tertiary
    pub colors: Vec<Color>,
    /// Effect ID
    pub effect_id: u16,
    /// Effect speed
    pub effect_speed: u8,
    /// Effect intensity
    pub effect_intensity: u8,
    /// Palette ID
    pub palette_id: u16,
    pub custom1: u8,
    pub custom2: u8,
    pub custom3: u8,
    /// Whether this segment is selected in the WLED UI
    pub selected: bool,
    /// Reverse the segment direction
    pub reversed: bool,
    /// Mirror the segment
    pub mirror: bool,
}

/// Partial segment update. Only `Some` fields are sent and applied.
#[derive(Debug, Clone, Default)]
pub struct SegmentRequest {
    pub id: Option<u8>,
    pub start: Option<u16>,
    pub stop: Option<u16>,
    pub on: Option<bool>,
    pub brightness: Option<u8>,
    pub colors: Option<Vec<Color>>,
    pub effect_id: Option<u16>,
    pub effect_speed: Option<u8>,
    pub effect_intensity: Option<u8>,
    pub palette_id: Option<u16>,
}

/// Partial state update sent to `/json/state`. Only `Some` fields are sent and applied.
#[derive(Debug, Clone, Default)]
pub struct WledStateRequest {
    pub on: Option<bool>,
    pub brightness: Option<u8>,
    pub transition: Option<u16>,
    /// Activate preset by slot
    pub preset_slot: Option<i32>,
    /// Save current state to preset slot
    pub preset_save_slot: Option<i32>,
    /// Delete preset slot
    pub preset_delete_slot: Option<i32>,
    /// Preset name (used with `preset_save_slot`)
    pub preset_name: Option<String>,
    /// Activate playlist by slot
    pub playlist_slot: Option<i32>,
    pub live_override: Option<u8>,
    pub main_segment: Option<u8>,
    pub segments: Option<Vec<SegmentRequest>>,
    /// Return updated state in response
    pub return_state: Option<bool>,
}

/// The value of a segment update, with its colors as sequences.
pub struct SegmentRequestView {
    pub id: Option<u8>,
    pub start: Option<u16>,
    pub stop: Option<u16>,
    pub on: Option<bool>,
    pub brightness: Option<u8>,
    pub colors: Option<Seq<Seq<u8>>>,
    pub effect_id: Option<u16>,
    pub effect_speed: Option<u8>,
    pub effect_intensity: Option<u8>,
    pub palette_id: Option<u16>,
}

/// The value of a state update, with its strings and lists as sequences.
pub struct WledStateRequestView {
    pub on: Option<bool>,
    pub brightness: Option<u8>,
    pub transition: Option<u16>,
    pub preset_slot: Option<i32>,
    pub preset_save_slot: Option<i32>,
    pub preset_delete_slot: Option<i32>,
    pub preset_name: Option<Seq<char>>,
    pub playlist_slot: Option<i32>,
    pub live_override: Option<u8>,
    pub main_segment: Option<u8>,
    pub segments: Option<Seq<SegmentRequestView>>,
    pub return_state: Option<bool>,
}

impl View for SegmentRequest {
    type V = SegmentRequestView;

    open spec fn view(&self) -> SegmentRequestView {
        SegmentRequestView {
            id: self.id,
            start: self.start,
            stop: self.stop,
            on: self.on,
            brightness: self.brightness,
            colors: match self.colors {
                Some(c) => Some(colors_view(c@)),
                None => None,
            },
            effect_id: self.effect_id,
            effect_speed: self.effect_speed,
            effect_intensity: self.effect_intensity,
            palette_id: self.palette_id,
        }
    }
}

impl View for WledStateRequest {
    type V = WledStateRequestView;

    open spec fn view(&self) -> WledStateRequestView {
        WledStateRequestView {
            on: self.on,
            brightness: self.brightness,
            transition: self.transition,
            preset_slot: self.preset_slot,
            preset_save_slot: self.preset_save_slot,
            preset_delete_slot: self.preset_delete_slot,
            preset_name: match self.preset_name {
                Some(n) => Some(n@),
                None => None,
            },
            playlist_slot: self.playlist_slot,
            live_override: self.live_override,
            main_segment: self.main_segment,
            segments: match self.segments {
                Some(v) => Some(v@.map_values(|s: SegmentRequest| s@)),
                None => None,
            },
            return_state: self.return_state,
        }
    }
}

/// A segment update that sets nothing.
pub open spec fn empty_segment_request() -> SegmentRequestView {
    SegmentRequestView {
        id: None,
        start: None,
        stop: None,
        on: None,
        brightness: None,
        colors: None,
        effect_id: None,
        effect_speed: None,
        effect_intensity: None,
        palette_id: None,
    }
}

/// A state update that sets nothing.
pub open spec fn empty_request() -> WledStateRequestView {
    WledStateRequestView {
        on: None,
        brightness: None,
        transition: None,
        preset_slot: None,
        preset_save_slot: None,
        preset_delete_slot: None,
        preset_name: None,
        playlist_slot: None,
        live_override: None,
        main_segment: None,
        segments: None,
        return_state: None,
    }
}

/// A state update whose only field is a single segment update.
pub open spec fn single_segment_request(seg: SegmentRequestView) -> WledStateRequestView {
    WledStateRequestView { segments: Some(seq![seg]), ..empty_request() }
}

/// The three-color list `[[r, g, b], [0, 0, 0], [0, 0, 0]]`.
pub open spec fn primary_color_list(r: u8, g: u8, b: u8) -> Seq<Seq<u8>> {
    seq![seq![r, g, b], seq![0u8, 0u8, 0u8], seq![0u8, 0u8, 0u8]]
}

impl SegmentRequest {
    /// A segment update that sets nothing.
    pub fn empty() -> (s: SegmentRequest)
        ensures
            s@ == empty_segment_request(),
    {
        SegmentRequest {
            id: None,
            start: None,
            stop: None,
            on: None,
            brightness: None,
            colors: None,
            effect_id: None,
            effect_speed: None,
            effect_intensity: None,
            palette_id: None,
        }
    }
}

fn rgb(r: u8, g: u8, b: u8) -> (c: Color)
    ensures
        c@ == seq![r, g, b],
{
    let mut c: Color = Vec::new();
    c.push(r);
    c.push(g);
    c.push(b);
    assert(c@ =~= seq![r, g, b]);
    c
}

/// `[[r, g, b], [0, 0, 0], [0, 0, 0]]`: a primary color with black secondary and tertiary colors.
pub fn primary_colors(r: u8, g: u8, b: u8) -> (c: Vec<Color>)
    ensures
        colors_view(c@) == primary_color_list(r, g, b),
{
    let mut c: Vec<Color> = Vec::new();
    c.push(rgb(r, g, b));
    c.push(rgb(0, 0, 0));
    c.push(rgb(0, 0, 0));
    assert(colors_view(c@) =~= primary_color_list(r, g, b));
    c
}

impl WledStateRequest {
    /// A state update that sets nothing.
    pub fn empty() -> (r: WledStateRequest)
        ensures
            r@ == empty_request(),
    {
        WledStateRequest {
            on: None,
            brightness: None,
            transition: None,
            preset_slot: None,
            preset_save_slot: None,
            preset_delete_slot: None,
            preset_name: None,
            playlist_slot: None,
            live_override: None,
            main_segment: None,
            segments: None,
            return_state: None,
        }
    }

    /// A state update made of one segment update.
    pub fn with_segment(seg: SegmentRequest) -> (r: WledStateRequest)
        ensures
            r@ == single_segment_request(seg@),
    {
        let mut segs: Vec<SegmentRequest> = Vec::new();
        segs.push(seg);
        let r = WledStateRequest { segments: Some(segs), ..WledStateRequest::empty() };
        assert(r@.segments->0 =~= seq![seg@]);
        r
    }

    /// Turns the device on or off.
    pub fn power(on: bool) -> (r: WledStateRequest)
        ensures
            r@ == (WledStateRequestView { on: Some(on), ..empty_request() }),
    {
        WledStateRequest { on: Some(on), ..WledStateRequest::empty() }
    }

    /// Sets the master brightness.
    pub fn brightness(bri: u8) -> (r: WledStateRequest)
        ensures
            r@ == (WledStateRequestView { brightness: Some(bri), ..empty_request() }),
    {
        WledStateRequest { brightness: Some(bri), ..WledStateRequest::empty() }
    }

    /// Sets the crossfade time (in 100 ms units).
    pub fn transition(transition: u16) -> (r: WledStateRequest)
        ensures
            r@ == (WledStateRequestView { transition: Some(transition), ..empty_request() }),
    {
        WledStateRequest { transition: Some(transition), ..WledStateRequest::empty() }
    }

    /// Activates the preset in slot `id`.
    pub fn activate_preset(id: i32) -> (r: WledStateRequest)
        ensures
            r@ == (WledStateRequestView { preset_slot: Some(id), ..empty_request() }),
    {
        WledStateRequest { preset_slot: Some(id), ..WledStateRequest::empty() }
    }

    /// Saves the current state to preset slot `slot` under `name`.
    pub fn save_preset(slot: i32, name: &str) -> (r: WledStateRequest)
        ensures
            r@ == (WledStateRequestView {
                preset_save_slot: Some(slot),
                preset_name: Some(name@),
                ..empty_request()
            }),
    {
        WledStateRequest {
            preset_save_slot: Some(slot),
            preset_name: Some(name.to_owned()),
            ..WledStateRequest::empty()
        }
    }

    /// Deletes preset slot `slot`.
    pub fn delete_preset(slot: i32) -> (r: WledStateRequest)
        ensures
            r@ == (WledStateRequestView { preset_delete_slot: Some(slot), ..empty_request() }),
    {
        WledStateRequest { preset_delete_slot: Some(slot), ..WledStateRequest::empty() }
    }

    /// Sets the primary color of segment `segment` (secondary and tertiary become black).
    pub fn segment_color(segment: u8, r: u8, g: u8, b: u8) -> (req: WledStateRequest)
        ensures
            req@ == single_segment_request(
                SegmentRequestView {
                    id: Some(segment),
                    colors: Some(primary_color_list(r, g, b)),
                    ..empty_segment_request()
                },
            ),
    {
        let seg = SegmentRequest {
            id: Some(segment),
            colors: Some(primary_colors(r, g, b)),
            ..SegmentRequest::empty()
        };
        WledStateRequest::with_segment(seg)
    }

    /// Sets the primary color of segment 0.
    pub fn color(r: u8, g: u8, b: u8) -> (req: WledStateRequest)
        ensures
            req@ == single_segment_request(
                SegmentRequestView {
                    id: Some(0u8),
                    colors: Some(primary_color_list(r, g, b)),
                    ..empty_segment_request()
                },
            ),
    {
        WledStateRequest::segment_color(0, r, g, b)
    }

    /// Sets the effect of segment 0.
    pub fn effect(effect_id: u16) -> (req: WledStateRequest)
        ensures
            req@ == single_segment_request(
                SegmentRequestView {
                    id: Some(0u8),
                    effect_id: Some(effect_id),
                    ..empty_segment_request()
                },
            ),
    {
        let seg = SegmentRequest {
            id: Some(0),
            effect_id: Some(effect_id),
            ..SegmentRequest::empty()
        };
        WledStateRequest::with_segment(seg)
    }

    /// Sets the palette of segment 0.
    pub fn palette(palette_id: u16) -> (req: WledStateRequest)
        ensures
            req@ == single_segment_request(
                SegmentRequestView {
                    id: Some(0u8),
                    palette_id: Some(palette_id),
                    ..empty_segment_request()
                },
            ),
    {
        let seg = SegmentRequest {
            id: Some(0),
            palette_id: Some(palette_id),
            ..SegmentRequest::empty()
        };
        WledStateRequest::with_segment(seg)
    }
}


/// The value of a segment, with its colors as sequences.
pub struct SegmentView {
    pub id: u8,
    pub start: u16,
    pub stop: u16,
    pub len: u16,
    pub group_size: u8,
    pub spacing: u8,
    pub offset: u16,
    pub on: bool,
    pub frozen: bool,
    pub brightness: u8,
    pub color_temperature: u16,
    pub colors: Seq<Seq<u8>>,
    pub effect_id: u16,
    pub effect_speed: u8,
    pub effect_intensity: u8,
    pub palette_id: u16,
    pub custom1: u8,
    pub custom2: u8,
    pub custom3: u8,
    pub selected: bool,
    pub reversed: bool,
    pub mirror: bool,
}

impl View for Segment {
    type V = SegmentView;

    open spec fn view(&self) -> SegmentView {
        SegmentView {
            id: self.id,
            start: self.start,
            stop: self.stop,
            len: self.len,
            group_size: self.group_size,
            spacing: self.spacing,
            offset: self.offset,
            on: self.on,
            frozen: self.frozen,
            brightness: self.brightness,
            color_temperature: self.color_temperature,
            colors: colors_view(self.colors@),
            effect_id: self.effect_id,
            effect_speed: self.effect_speed,
            effect_intensity: self.effect_intensity,
            palette_id: self.palette_id,
            custom1: self.custom1,
            custom2: self.custom2,
            custom3: self.custom3,
            selected: self.selected,
            reversed: self.reversed,
            mirror: self.mirror,
        }
    }
}

/// The value of a device state: its scalar fields and its segments.
pub struct WledStateView {
    pub on: bool,
    pub brightness: u8,
    pub transition: u16,
    pub preset_slot: i32,
    pub playlist_slot: i32,
    pub live_override: u8,
    pub main_segment: u8,
    pub segments: Seq<SegmentView>,
}

impl View for WledState {
    type V = WledStateView;

    open spec fn view(&self) -> WledStateView {
        WledStateView {
            on: self.on,
            brightness: self.brightness,
            transition: self.transition,
            preset_slot: self.preset_slot,
            playlist_slot: self.playlist_slot,
            live_override: self.live_override,
            main_segment: self.main_segment,
            segments: self.segments@.map_values(|s: Segment| s@),
        }
    }
}

/// Device information from `/json/info`.
#[derive(Debug, Clone, Default)]
pub struct WledInfo {
    /// Firmware version string
    pub firmware_version: String,
    /// Build ID
    pub build_id: u32,
    pub led_info: LedInfo,
    /// Device name (AP/mDNS name)
    pub name: String,
    pub udp_port: u16,
    pub live: bool,
    /// Number of effects
    pub effect_count: u16,
    /// Number of palettes
    pub palette_count: u16,
    /// Platform (e.g. "esp32")
    pub platform: String,
    pub core: String,
    pub free_heap: u32,
    /// Uptime in seconds
    pub uptime: u64,
    pub brand: String,
    pub product: String,
    pub mac: String,
    pub ip: String,
}

/// LED hardware information.
#[derive(Debug, Clone, Default)]
pub struct LedInfo {
    /// Total LED count
    pub count: u32,
    /// Current power draw in mA
    pub power_draw_ma: u32,
    /// Current FPS
    pub fps: u32,
    /// Max power budget in mA
    pub max_power_ma: u32,
    /// Max segments
    pub max_segments: u8,
    /// Whether the device has a dedicated white channel (RGBW)
    pub has_white_channel: bool,
}

/// Full state response from `/json`.
#[derive(Debug, Clone, Default)]
pub struct WledFullState {
    pub state: WledState,
    pub info: WledInfo,
    pub effects: Vec<String>,
    pub palettes: Vec<String>,
}

/// Preset entry from `/json/presets`.
#[derive(Debug, Clone, Default)]
pub struct PresetInfo {
    /// Preset name
    pub name: String,
    /// Quick label (shown in WLED UI)
    pub quick_label: String,
    /// Every further field of the preset, as the JSON text of its value.
    pub extra: HashMap<String, String>,
}

/// NTP server address: a DNS hostname or a raw IPv4 address.
#[derive(Debug, Clone, PartialEq, Eq)]
pub enum NtpServer {
    /// A DNS hostname, e.g. `"pool.ntp.org"` or `"time.cloudflare.com"`.
    Hostname(String),
    /// A raw IPv4 address.
    Ipv4([u8; 4]),
}

/// The text WLED expects for an NTP server in its config JSON.
pub open spec fn ntp_server_text(s: NtpServer) -> Seq<char> {
    match s {
        NtpServer::Hostname(h) => h@,
        NtpServer::Ipv4(o) => decimal(o@[0] as nat) + "."@ + decimal(o@[1] as nat) + "."@
            + decimal(o@[2] as nat) + "."@ + decimal(o@[3] as nat),
    }
}

impl NtpServer {
    /// An NTP server given by hostname.
    pub fn hostname(host: &str) -> (s: NtpServer)
        ensures
            s matches NtpServer::Hostname(h) && h@ == host@,
    {
        NtpServer::Hostname(host.to_owned())
    }

    /// An NTP server given by IPv4 address.
    pub fn ip(octets: [u8; 4]) -> (s: NtpServer)
        ensures
            s == NtpServer::Ipv4(octets),
    {
        NtpServer::Ipv4(octets)
    }

    /// Returns the server as the string WLED expects in its config JSON
    /// (the hostname, or the dotted-decimal address).
    pub fn as_str(&self) -> (r: String)
        ensures
            r@ == ntp_server_text(*self),
    {
        match self {
            NtpServer::Hostname(h) => h.clone(),
            NtpServer::Ipv4(o) => {
                let mut s = String::new();
                push_decimal(&mut s, o[0] as u64);
                s.append(".");
                push_decimal(&mut s, o[1] as u64);
                s.append(".");
                push_decimal(&mut s, o[2] as u64);
                s.append(".");
                push_decimal(&mut s, o[3] as u64);
                s
            },
        }
    }
}

impl Default for NtpServer {
    fn default() -> (s: NtpServer)
        ensures
            s matches NtpServer::Hostname(h) && h@ == "pool.ntp.org"@,
    {
        NtpServer::Hostname(String::from_str("pool.ntp.org"))
    }
}

/// NTP configuration.
#[derive(Debug, Clone, Default)]
pub struct NtpConfig {
    pub server: NtpServer,
}

/// Dusk-based schedule configuration.
#[derive(Debug, Clone)]
pub struct DuskScheduleConfig {
    /// Preset slot to activate at dusk
    pub preset_slot: i32,
    /// Hour to turn off (0–23)
    pub off_hour: u8,
    /// Minute to turn off (0–59)
    pub off_minute: u8,
    pub enabled: bool,
}

/// One entry of WLED's timer table (`timers.ins` in `/json/cfg`).
#[derive(Debug, Clone, Copy, PartialEq, Eq)]
pub struct TimerEntry {
    /// `en`: whether the timer is active
    pub enabled: bool,
    /// `hour`: 0–23, or 255 for "at dusk"
    pub hour: u8,
    /// `min`
    pub minute: u8,
    /// `macro`: preset to apply, 0 = power off
    pub macro_id: i32,
    /// `dow`: day-of-week bitmask, 127 = every day
    pub days_of_week: u8,
}

/// Timer hour value that WLED reads as "at dusk".
pub const DUSK_HOUR: u8 = 255;
/// Day-of-week mask for every day of the week.
pub const ALL_DAYS: u8 = 127;

impl DuskScheduleConfig {
    /// The two timers WLED needs: the preset at dusk, and power-off at the off time.
    pub fn timers(&self) -> (t: Vec<TimerEntry>)
        ensures
            t@ == seq![
                TimerEntry {
                    enabled: self.enabled,
                    hour: DUSK_HOUR,
                    minute: 0,
                    macro_id: self.preset_slot,
                    days_of_week: ALL_DAYS,
                },
                TimerEntry {
                    enabled: self.enabled,
                    hour: self.off_hour,
                    minute: self.off_minute,
                    macro_id: 0,
                    days_of_week: ALL_DAYS,
                },
            ],
    {
        let mut t: Vec<TimerEntry> = Vec::new();
        t.push(TimerEntry {
            enabled: self.enabled,
            hour: DUSK_HOUR,
            minute: 0,
            macro_id: self.preset_slot,
            days_of_week: ALL_DAYS,
        });
        t.push(TimerEntry {
            enabled: self.enabled,
            hour: self.off_hour,
            minute: self.off_minute,
            macro_id: 0,
            days_of_week: ALL_DAYS,
        });
        assert(t@ =~= seq![t@[0], t@[1]]);
        t
    }
}

// ── Sync health types ────────────────────────────────────────────────────────

/// Per-device sync status within a group.
#[derive(Debug, Clone)]
pub struct DeviceSyncStatus {
    pub device_name: String,
    /// True if the device's active preset matches the leader's.
    pub is_healthy: bool,
    pub leader_preset: i32,
    pub device_preset: i32,
}

/// Sync health report for a single sync group.
#[derive(Debug, Clone)]
pub struct SyncHealthReport {
    pub group_name: String,
    /// True only if all follower devices are in sync with the leader.
    pub healthy: bool,
    pub devices: Vec<DeviceSyncStatus>,
}

// ── Fleet status types ───────────────────────────────────────────────────────

/// State summary for one sync group.
#[derive(Debug, Clone)]
pub struct GroupStatus {
    pub group_name: String,
    pub leader_name: String,
    pub on: bool,
    pub brightness: u8,
    pub active_preset: i32,
    /// Total devices in the group (leader + followers).
    pub device_count: usize,
}

/// Fleet-wide status snapshot.
#[derive(Debug, Clone)]
pub struct FleetStatus {
    pub groups: Vec<GroupStatus>,
    pub total_groups: usize,
    pub total_devices: usize,
}

} // verus!
