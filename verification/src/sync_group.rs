//! A sync group: one leader device that WLED's UDP sync mirrors onto any
//! number of followers. Group-level control goes to the leader only.

use vstd::prelude::*;
use crate::client::{ClientView, WledClient};
use crate::error::WledError;
use crate::types::{
    copy_colors, colors_view, empty_request, empty_segment_request, primary_color_list,
    single_segment_request, DeviceSyncStatus, SegmentRequest, SegmentRequestView,
    SyncHealthReport, WledState, WledStateRequest, WledStateRequestView, WledStateView,
    SegmentView, Segment,
};

verus! {

#[derive(Clone)]
struct DeviceEntry {
    name: String,
    client: WledClient,
    device_type: String,
}

/// What the library knows of one device of a group.
pub struct DeviceView {
    pub name: Seq<char>,
    pub device_type: Seq<char>,
    pub client: ClientView,
}

impl View for DeviceEntry {
    type V = DeviceView;

    closed spec fn view(&self) -> DeviceView {
        DeviceView { name: self.name@, device_type: self.device_type@, client: self.client@ }
    }
}

/// What the library knows of a sync group: its name, its leader and its followers in order.
pub struct SyncGroupView {
    pub name: Seq<char>,
    pub leader: DeviceView,
    pub followers: Seq<DeviceView>,
}

/// A WLED leader device plus any number of followers.
///
/// All group-level control operations are sent only to the leader; WLED's
/// built-in UDP sync then propagates the change to the followers. Followers can
/// still be reached individually for troubleshooting.
#[derive(Clone)]
pub struct WledSyncGroup {
    pub name: String,
    leader: DeviceEntry,
    followers: Vec<DeviceEntry>,
}

impl View for WledSyncGroup {
    type V = SyncGroupView;

    closed spec fn view(&self) -> SyncGroupView {
        SyncGroupView {
            name: self.name@,
            leader: self.leader@,
            followers: self.followers@.map_values(|d: DeviceEntry| d@),
        }
    }
}

/// All devices of a group, leader first, then the followers in order.
pub open spec fn group_devices(g: SyncGroupView) -> Seq<DeviceView> {
    seq![g.leader] + g.followers
}

/// The position of the first device named `n`, if any.
pub open spec fn first_named(devs: Seq<DeviceView>, n: Seq<char>) -> Option<int>
    decreases devs.len(),
{
    if devs.len() == 0 {
        None
    } else if devs[0].name == n {
        Some(0)
    } else {
        match first_named(devs.drop_first(), n) {
            Some(k) => Some(k + 1),
            None => None,
        }
    }
}

/// `first_named` finds the first match, and finds none only when there is none.
pub proof fn lemma_first_named_props(devs: Seq<DeviceView>, n: Seq<char>)
    ensures
        match first_named(devs, n) {
            Some(k) => 0 <= k < devs.len() && devs[k].name == n && forall|j: int|
                0 <= j < k ==> (#[trigger] devs[j]).name != n,
            None => forall|j: int| 0 <= j < devs.len() ==> (#[trigger] devs[j]).name != n,
        },
    decreases devs.len(),
{
    if devs.len() > 0 && devs[0].name != n {
        let rest = devs.drop_first();
        lemma_first_named_props(rest, n);
        match first_named(rest, n) {
            Some(k) => {
                assert(devs[k + 1] == rest[k]);
                assert forall|j: int| 0 <= j < k + 1 implies (#[trigger] devs[j]).name != n by {
                    if j > 0 {
                        assert(devs[j] == rest[j - 1]);
                    }
                }
            },
            None => {
                assert forall|j: int| 0 <= j < devs.len() implies (#[trigger] devs[j]).name != n by {
                    if j > 0 {
                        assert(devs[j] == rest[j - 1]);
                    }
                }
            },
        }
    }
}

proof fn lemma_first_named(devs: Seq<DeviceView>, n: Seq<char>, k: int)
    requires
        0 <= k < devs.len(),
        devs[k].name == n,
        forall|j: int| 0 <= j < k ==> (#[trigger] devs[j]).name != n,
    ensures
        first_named(devs, n) == Some(k),
{
    lemma_first_named_props(devs, n);
    match first_named(devs, n) {
        Some(c) => {
            if c < k {
                assert(devs[c].name != n);
            }
            if c > k {
                assert(devs[k].name != n);
            }
        },
        None => {
            assert(devs[k].name != n);
        },
    }
}

/// The client of the first device named `n` among `devs`, if any.
pub open spec fn client_named(devs: Seq<DeviceView>, n: Seq<char>) -> Option<ClientView> {
    match first_named(devs, n) {
        Some(k) => Some(devs[k].client),
        None => None,
    }
}

impl WledSyncGroup {
    /// A group with a single leader device and no followers.
    pub fn new(name: &str, leader_name: &str, leader_client: WledClient, leader_device_type: &str) -> (g: WledSyncGroup)
        ensures
            g@ == (SyncGroupView {
                name: name@,
                leader: DeviceView {
                    name: leader_name@,
                    device_type: leader_device_type@,
                    client: leader_client@,
                },
                followers: Seq::empty(),
            }),
    {
        let g = WledSyncGroup {
            name: name.to_owned(),
            leader: DeviceEntry {
                name: leader_name.to_owned(),
                client: leader_client,
                device_type: leader_device_type.to_owned(),
            },
            followers: Vec::new(),
        };
        assert(g@.followers =~= Seq::<DeviceView>::empty());
        g
    }

    /// Adds a follower device after the existing ones.
    pub fn add_follower(&mut self, name: &str, client: WledClient, device_type: &str)
        ensures
            final(self)@ == (SyncGroupView {
                followers: old(self)@.followers.push(
                    DeviceView { name: name@, device_type: device_type@, client: client@ },
                ),
                ..old(self)@
            }),
    {
        let entry = DeviceEntry {
            name: name.to_owned(),
            client,
            device_type: device_type.to_owned(),
        };
        self.followers.push(entry);
        assert(self@.followers =~= old(self)@.followers.push(
            DeviceView { name: name@, device_type: device_type@, client: client@ },
        ));
    }

    /// The group's name.
    pub fn name(&self) -> (n: &str)
        ensures
            n@ == self@.name,
    {
        self.name.as_str()
    }

    // ── Device access ────────────────────────────────────────────────────────

    /// The leader client.
    pub fn leader(&self) -> (c: &WledClient)
        ensures
            c@ == self@.leader.client,
    {
        &self.leader.client
    }

    /// The leader's device name.
    pub fn leader_name(&self) -> (n: &str)
        ensures
            n@ == self@.leader.name,
    {
        self.leader.name.as_str()
    }

    /// The leader's device type.
    pub fn leader_device_type(&self) -> (t: &str)
        ensures
            t@ == self@.leader.device_type,
    {
        self.leader.device_type.as_str()
    }

    /// How many followers the group has.
    pub fn follower_count(&self) -> (n: usize)
        ensures
            n == self@.followers.len(),
    {
        self.followers.len()
    }

    /// The client of the first follower with the given name, if any.
    pub fn get_follower(&self, name: &str) -> (r: Option<&WledClient>)
        ensures
            r is Some <==> client_named(self@.followers, name@) is Some,
            r matches Some(c) ==> Some(c@) == client_named(self@.followers, name@),
    {
        let target = name.to_owned();
        let mut i: usize = 0;
        while i < self.followers.len()
            invariant
                target@ == name@,
                i <= self.followers.len(),
                forall|j: int| 0 <= j < i ==> (#[trigger] self@.followers[j]).name != name@,
            decreases self.followers.len() - i,
        {
            if self.followers[i].name == target {
                proof {
                    lemma_first_named(self@.followers, name@, i as int);
                }
                return Some(&self.followers[i].client);
            }
            i = i + 1;
        }
        proof {
            lemma_first_named_props(self@.followers, name@);
            if let Some(k) = first_named(self@.followers, name@) {
                assert(self@.followers[k].name != name@);
            }
        }
        None
    }

    /// All followers as `(name, client)`, in order.
    pub fn list_followers(&self) -> (r: Vec<(&str, &WledClient)>)
        ensures
            r@.len() == self@.followers.len(),
            forall|i: int| 0 <= i < r@.len() ==> (#[trigger] r@[i]).0@ == self@.followers[i].name
                && r@[i].1@ == self@.followers[i].client,
    {
        let mut r: Vec<(&str, &WledClient)> = Vec::new();
        let mut i: usize = 0;
        while i < self.followers.len()
            invariant
                i <= self.followers.len(),
                r@.len() == i,
                forall|j: int| 0 <= j < i ==> (#[trigger] r@[j]).0@ == self@.followers[j].name
                    && r@[j].1@ == self@.followers[j].client,
            decreases self.followers.len() - i,
        {
            r.push((self.followers[i].name.as_str(), &self.followers[i].client));
            i = i + 1;
        }
        r
    }

    /// Any device (leader or follower) by name; the leader wins a name clash.
    pub fn get_device(&self, name: &str) -> (r: Option<&WledClient>)
        ensures
            r is Some <==> client_named(group_devices(self@), name@) is Some,
            r matches Some(c) ==> Some(c@) == client_named(group_devices(self@), name@),
    {
        let target = name.to_owned();
        let ghost devs = group_devices(self@);
        if self.leader.name == target {
            proof {
                lemma_first_named(devs, name@, 0);
            }
            return Some(&self.leader.client);
        }
        let r = self.get_follower(name);
        proof {
            assert(devs[0].name != name@);
            assert forall|j: int| 0 < j < devs.len() implies #[trigger] devs[j] == self@.followers[j - 1] by {}
            lemma_first_named_props(self@.followers, name@);
            lemma_first_named_props(devs, name@);
            match first_named(self@.followers, name@) {
                Some(k) => {
                    assert(devs[k + 1] == self@.followers[k]);
                    assert forall|j: int| 0 <= j < k + 1 implies (#[trigger] devs[j]).name != name@ by {
                        if j > 0 {
                            assert(devs[j] == self@.followers[j - 1]);
                        }
                    }
                    lemma_first_named(devs, name@, k + 1);
                },
                None => {
                    if let Some(i) = first_named(devs, name@) {
                        assert(devs[i] == self@.followers[i - 1]);
                    }
                },
            }
        }
        r
    }

    /// All devices as `(name, client)`: the leader first, then the followers in order.
    pub fn list_devices(&self) -> (r: Vec<(&str, &WledClient)>)
        ensures
            r@.len() == group_devices(self@).len(),
            forall|i: int| 0 <= i < r@.len() ==> (#[trigger] r@[i]).0@ == group_devices(self@)[i].name
                && r@[i].1@ == group_devices(self@)[i].client,
    {
        let mut out: Vec<(&str, &WledClient)> = Vec::new();
        out.push((self.leader.name.as_str(), &self.leader.client));
        let mut rest = self.list_followers();
        out.append(&mut rest);
        out
    }

    /// Total device count (leader plus followers).
    pub fn device_count(&self) -> (n: usize)
        requires
            self@.followers.len() < usize::MAX,
        ensures
            n == group_devices(self@).len(),
    {
        1 + self.followers.len()
    }
}


// ── Resolving names on the leader ────────────────────────────────────────────

/// `k` is the first position of `name` in `list`.
pub open spec fn is_first_position(list: Seq<String>, name: Seq<char>, k: int) -> bool {
    0 <= k < list.len() && list[k]@ == name && forall|j: int| 0 <= j < k ==> (#[trigger] list[j])@ != name
}

/// The position of the first entry equal to `name`, if any.
pub fn first_position(list: &Vec<String>, name: &str) -> (r: Option<usize>)
    ensures
        r matches Some(k) ==> is_first_position(list@, name@, k as int),
        r is None ==> forall|j: int| 0 <= j < list@.len() ==> (#[trigger] list@[j])@ != name@,
{
    let target = name.to_owned();
    let mut i: usize = 0;
    while i < list.len()
        invariant
            target@ == name@,
            i <= list.len(),
            forall|j: int| 0 <= j < i ==> (#[trigger] list@[j])@ != name@,
        decreases list.len() - i,
    {
        if list[i] == target {
            return Some(i);
        }
        i = i + 1;
    }
    None
}

/// What is being looked up by name on the leader.
#[derive(Debug, Clone, Copy, PartialEq, Eq)]
pub enum NamedList {
    Effect,
    Palette,
}

/// The message for a name that is not in the leader's list.
pub open spec fn not_found_text(kind: NamedList, name: Seq<char>) -> Seq<char> {
    match kind {
        NamedList::Effect => "Effect '"@ + name + "' not found"@,
        NamedList::Palette => "Palette '"@ + name + "' not found"@,
    }
}

/// The ID of a named effect or palette: its position in the leader's list
/// (as a `u16`, so positions wrap modulo 65536), or `ConfigError` if absent.
pub fn resolve_list_id(kind: NamedList, list: &Vec<String>, name: &str) -> (r: Result<u16, WledError>)
    ensures
        r matches Ok(id) ==> exists|k: int| is_first_position(list@, name@, k) && id == k as u16,
        r is Err <==> forall|j: int| 0 <= j < list@.len() ==> (#[trigger] list@[j])@ != name@,
        r matches Err(e) ==> (e matches WledError::ConfigError(m) && m@ == not_found_text(kind, name@)),
{
    match first_position(list, name) {
        Some(k) => Ok(k as u16),
        None => {
            let mut m = match kind {
                NamedList::Effect => String::from_str("Effect '"),
                NamedList::Palette => String::from_str("Palette '"),
            };
            m.append(name);
            m.append("' not found");
            Err(WledError::ConfigError(m))
        },
    }
}

// ── Leader state to request ──────────────────────────────────────────────────

/// The update that sets the segment with `seg`'s id to what `seg` shows.
pub open spec fn segment_to_request(seg: SegmentView) -> SegmentRequestView {
    SegmentRequestView {
        id: Some(seg.id),
        on: Some(seg.on),
        brightness: Some(seg.brightness),
        colors: Some(seg.colors),
        effect_id: Some(seg.effect_id),
        effect_speed: Some(seg.effect_speed),
        effect_intensity: Some(seg.effect_intensity),
        palette_id: Some(seg.palette_id),
        ..empty_segment_request()
    }
}

/// The update that brings a device to the state `s`: power, brightness,
/// transition, and for every segment, addressed by its own id, its
/// on/brightness/colors/effect/palette.
pub open spec fn state_to_request(s: WledStateView) -> WledStateRequestView {
    WledStateRequestView {
        on: Some(s.on),
        brightness: Some(s.brightness),
        transition: Some(s.transition),
        segments: Some(s.segments.map_values(|seg: SegmentView| segment_to_request(seg))),
        ..empty_request()
    }
}

/// Converts a full state snapshot into the update that reproduces it on another device.
pub fn leader_state_to_request(state: &WledState) -> (r: WledStateRequest)
    ensures
        r@ == state_to_request(state@),
        r@.on == Some(state.on) && r@.brightness == Some(state.brightness) && r@.transition == Some(
            state.transition,
        ),
        r@.preset_slot is None,
        r@.segments matches Some(q) && q.len() == state@.segments.len() && forall|k: int|
            0 <= k < q.len() ==> segment_copied(#[trigger] q[k], state@.segments[k]),
{
    let mut segs: Vec<SegmentRequest> = Vec::new();
    let mut i: usize = 0;
    while i < state.segments.len()
        invariant
            i <= state.segments.len(),
            segs@.len() == i,
            forall|j: int| 0 <= j < i ==> (#[trigger] segs@[j])@ == segment_to_request(state.segments@[j]@),
        decreases state.segments.len() - i,
    {
        let seg: &Segment = &state.segments[i];
        let req = SegmentRequest {
            id: Some(seg.id),
            on: Some(seg.on),
            brightness: Some(seg.brightness),
            colors: Some(copy_colors(&seg.colors)),
            effect_id: Some(seg.effect_id),
            effect_speed: Some(seg.effect_speed),
            effect_intensity: Some(seg.effect_intensity),
            palette_id: Some(seg.palette_id),
            ..SegmentRequest::empty()
        };
        segs.push(req);
        i = i + 1;
    }
    let r = WledStateRequest {
        on: Some(state.on),
        brightness: Some(state.brightness),
        transition: Some(state.transition),
        segments: Some(segs),
        ..WledStateRequest::empty()
    };
    assert(r@.segments->0 =~= state_to_request(state@).segments->0);
    proof {
        lemma_full_state_request_copies(state@);
    }
    r
}

/// `q` addresses segment `seg.id` and sets its power, brightness, colors,
/// effect (with speed and intensity) and palette to those of `seg`, and nothing else.
pub open spec fn segment_copied(q: SegmentRequestView, seg: SegmentView) -> bool {
    &&& q.id == Some(seg.id)
    &&& q.on == Some(seg.on)
    &&& q.brightness == Some(seg.brightness)
    &&& q.colors == Some(seg.colors)
    &&& q.effect_id == Some(seg.effect_id)
    &&& q.effect_speed == Some(seg.effect_speed)
    &&& q.effect_intensity == Some(seg.effect_intensity)
    &&& q.palette_id == Some(seg.palette_id)
    &&& q.start is None
    &&& q.stop is None
}

/// The update built from a full state copies the master power, brightness and
/// transition, sets no preset, and has one segment update per segment, in
/// order, each addressing that segment by its own id and copying that
/// segment's own power, brightness, colors, effect and palette.
pub proof fn lemma_full_state_request_copies(s: WledStateView)
    ensures
        state_to_request(s).on == Some(s.on),
        state_to_request(s).brightness == Some(s.brightness),
        state_to_request(s).transition == Some(s.transition),
        state_to_request(s).preset_slot is None,
        state_to_request(s).segments matches Some(q) && q.len() == s.segments.len() && forall|k: int|
            0 <= k < q.len() ==> segment_copied(#[trigger] q[k], s.segments[k]),
{
}

/// A re-sync pushes the leader's active preset when it has one (slot >= 0) and
/// nothing else; without one it pushes the full state, every segment keeping
/// its own id and settings.
pub proof fn lemma_resync_request_follows_leader(s: WledStateView)
    ensures
        s.preset_slot >= 0 ==> spec_resync_request(s) == (WledStateRequestView {
            preset_slot: Some(s.preset_slot),
            ..empty_request()
        }),
        s.preset_slot < 0 ==> spec_resync_request(s).preset_slot is None,
        s.preset_slot < 0 ==> spec_resync_request(s).on == Some(s.on),
        s.preset_slot < 0 ==> (spec_resync_request(s).segments matches Some(q) && q.len()
            == s.segments.len() && forall|k: int|
            0 <= k < q.len() ==> segment_copied(#[trigger] q[k], s.segments[k])),
{
    lemma_full_state_request_copies(s);
}

/// The update that brings a follower in line with its leader: the leader's
/// active preset if it has one (slot ≥ 0), otherwise the leader's full state.
pub open spec fn spec_resync_request(s: WledStateView) -> WledStateRequestView {
    if s.preset_slot >= 0 {
        WledStateRequestView { preset_slot: Some(s.preset_slot), ..empty_request() }
    } else {
        state_to_request(s)
    }
}

/// The update that brings a follower in line with its leader.
pub fn resync_request(leader_state: &WledState) -> (r: WledStateRequest)
    ensures
        r@ == spec_resync_request(leader_state@),
{
    if leader_state.preset_slot >= 0 {
        WledStateRequest::activate_preset(leader_state.preset_slot)
    } else {
        leader_state_to_request(leader_state)
    }
}

// ── Group decisions ──────────────────────────────────────────────────────────

/// The status of one follower given the leader's preset and the follower's
/// active preset (`None` when its state could not be read).
pub open spec fn follower_status_ok(s: DeviceSyncStatus, name: Seq<char>, leader_preset: i32, preset: Option<i32>) -> bool {
    &&& s.device_name@ == name
    &&& s.leader_preset == leader_preset
    &&& s.is_healthy == (preset == Some(leader_preset))
    &&& s.device_preset == match preset {
        Some(p) => p,
        None => -1i32,
    }
}

/// A follower is healthy exactly when its state was read and its active preset
/// equals the leader's; its preset is reported as read, or as -1 when unread.
pub proof fn lemma_follower_health(s: DeviceSyncStatus, name: Seq<char>, leader_preset: i32, preset: Option<i32>)
    requires
        follower_status_ok(s, name, leader_preset, preset),
    ensures
        s.is_healthy <==> (preset matches Some(p) && p == leader_preset),
        preset is None ==> !s.is_healthy && s.device_preset == -1,
        preset matches Some(p) ==> s.device_preset == p,
        s.leader_preset == leader_preset,
{
}

impl WledSyncGroup {
    /// Rejects channel 0 before anything is asked of the leader.
    pub fn check_channel(&self, channel: u8) -> (r: Result<(), WledError>)
        ensures
            channel != 0 <==> r is Ok,
            r matches Err(e) ==> (e matches WledError::InvalidChannel { device, channel: c, max_channels }
                && device@ == self@.leader.name && c == channel && max_channels == u8::MAX),
    {
        if channel == 0 {
            Err(WledError::InvalidChannel { device: self.leader.name.clone(), channel, max_channels: u8::MAX })
        } else {
            Ok(())
        }
    }

    /// The update that sets the color of output channel `channel` (1-based) on the
    /// leader, validated against the leader's segment count (taken as a `u8`, so
    /// counts wrap modulo 256).
    pub fn channel_color_request(&self, channel: u8, leader_state: &WledState, r: u8, g: u8, b: u8) -> (res: Result<WledStateRequest, WledError>)
        ensures
            channel == 0 ==> (res matches Err(WledError::InvalidChannel { device, channel: c, max_channels })
                && device@ == self@.leader.name && c == channel && max_channels == u8::MAX),
            channel != 0 && channel > (leader_state@.segments.len() as u8) ==> (res matches Err(
                WledError::InvalidChannel { device, channel: c, max_channels },
            ) && device@ == self@.leader.name && c == channel && max_channels
                == (leader_state@.segments.len() as u8)),
            channel != 0 && channel <= (leader_state@.segments.len() as u8) ==> (res matches Ok(req)
                && req@ == single_segment_request(
                SegmentRequestView {
                    id: Some((channel - 1) as u8),
                    colors: Some(primary_color_list(r, g, b)),
                    ..empty_segment_request()
                },
            )),
    {
        if channel == 0 {
            return Err(WledError::InvalidChannel { device: self.leader.name.clone(), channel, max_channels: u8::MAX });
        }
        #[verifier::truncate]
        let max_channels: u8 = leader_state.segments.len() as u8;
        if channel > max_channels {
            return Err(WledError::InvalidChannel { device: self.leader.name.clone(), channel, max_channels });
        }
        Ok(WledStateRequest::segment_color(channel - 1, r, g, b))
    }

    /// The sync-health report of this group, from the leader's active preset and
    /// each follower's (in follower order; `None` for a follower whose state could
    /// not be read). A follower is healthy when its preset equals the leader's; the
    /// group is healthy when every follower is.
    pub fn health_report(&self, leader_preset: i32, follower_presets: &Vec<Option<i32>>) -> (rep: SyncHealthReport)
        requires
            follower_presets@.len() == self@.followers.len(),
        ensures
            rep.group_name@ == self@.name,
            rep.devices@.len() == self@.followers.len(),
            forall|i: int| 0 <= i < rep.devices@.len() ==> follower_status_ok(
                #[trigger] rep.devices@[i],
                self@.followers[i].name,
                leader_preset,
                follower_presets@[i],
            ),
            rep.healthy <==> (forall|i: int| 0 <= i < rep.devices@.len() ==> (#[trigger] rep.devices@[i]).is_healthy),
            forall|i: int| 0 <= i < rep.devices@.len() ==> ((#[trigger] rep.devices@[i]).is_healthy
                <==> follower_presets@[i] == Some(leader_preset)),
            rep.healthy <==> (forall|i: int| 0 <= i < follower_presets@.len() ==> #[trigger] follower_presets@[i]
                == Some(leader_preset)),
    {
        let mut devices: Vec<DeviceSyncStatus> = Vec::new();
        let mut all_healthy = true;
        let mut i: usize = 0;
        while i < self.followers.len()
            invariant
                follower_presets@.len() == self@.followers.len(),
                i <= self.followers.len(),
                devices@.len() == i,
                forall|j: int| 0 <= j < i ==> follower_status_ok(
                    #[trigger] devices@[j],
                    self@.followers[j].name,
                    leader_preset,
                    follower_presets@[j],
                ),
                all_healthy == forall|j: int| 0 <= j < i ==> (#[trigger] devices@[j]).is_healthy,
            decreases self.followers.len() - i,
        {
            let (healthy, preset) = match follower_presets[i] {
                Some(p) => (p == leader_preset, p),
                None => (false, -1i32),
            };
            if !healthy {
                all_healthy = false;
            }
            let ghost old_devices = devices@;
            devices.push(DeviceSyncStatus {
                device_name: self.followers[i].name.clone(),
                is_healthy: healthy,
                leader_preset,
                device_preset: preset,
            });
            proof {
                assert(devices@[i as int].is_healthy == healthy);
                assert forall|j: int| 0 <= j < i implies devices@[j] == old_devices[j] by {}
                if all_healthy {
                    assert forall|j: int| 0 <= j < i + 1 implies (#[trigger] devices@[j]).is_healthy by {
                        if j < i {
                            assert(old_devices[j].is_healthy);
                        }
                    }
                } else if healthy {
                    let k = choose|k: int| 0 <= k < i && !(#[trigger] old_devices[k]).is_healthy;
                    assert(!devices@[k].is_healthy);
                }
            }
            i = i + 1;
        }
        let rep = SyncHealthReport { group_name: self.name.clone(), healthy: all_healthy, devices };
        assert(rep.devices@.len() == i);
        proof {
            assert forall|k: int| 0 <= k < rep.devices@.len() implies ((#[trigger] rep.devices@[k]).is_healthy
                <==> follower_presets@[k] == Some(leader_preset)) by {
                lemma_follower_health(rep.devices@[k], self@.followers[k].name, leader_preset, follower_presets@[k]);
            }
            if !rep.healthy {
                let k = choose|k: int| 0 <= k < rep.devices@.len() && !(#[trigger] rep.devices@[k]).is_healthy;
                assert(follower_presets@[k] != Some(leader_preset));
            } else {
                assert forall|k: int| 0 <= k < follower_presets@.len() implies #[trigger] follower_presets@[k]
                    == Some(leader_preset) by {
                    assert(rep.devices@[k].is_healthy);
                }
            }
        }
        rep
    }
}

} // verus!
