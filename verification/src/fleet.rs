//! A fleet: named sync groups in config-file order, built from a [`FleetConfig`].

use vstd::prelude::*;
use indexmap::IndexMap;
use crate::client::{base_url_for, duration_of_secs, ClientView, WledClient, DEFAULT_TIMEOUT_SECS};
use crate::config::{
    config_valid, first_problem, group_problem, leader_count, DeviceConfig, FleetConfig,
    SyncGroupConfig,
};
use crate::error::WledError;
use crate::types::{FleetStatus, GroupStatus, SyncHealthReport, WledState};
use crate::sync_group::{
    client_named, first_named, group_devices, lemma_first_named_props, DeviceView, SyncGroupView,
    WledSyncGroup,
};

verus! {

// ── The group map (an `indexmap::IndexMap` keyed by group name) ──────────────

#[verifier::external_type_specification]
#[verifier::external_body]
#[verifier::reject_recursive_types(K)]
#[verifier::reject_recursive_types(V)]
#[verifier::reject_recursive_types(S)]
pub struct ExIndexMap<K, V, S>(IndexMap<K, V, S>);

/// `IndexMap::clone`: a map with clones of the same entries in the same order.
pub assume_specification<K, V, S>[ <IndexMap<K, V, S> as Clone>::clone ](m: &IndexMap<K, V, S>) -> IndexMap<K, V, S>
    where
        K: Clone,
        V: Clone,
        S: Clone,
;

/// The entries of a group map, in insertion order: each group name with the group.
pub uninterp spec fn group_entries(m: IndexMap<String, WledSyncGroup>) -> Seq<(Seq<char>, SyncGroupView)>;

/// No key occurs twice.
pub open spec fn keys_unique(e: Seq<(Seq<char>, SyncGroupView)>) -> bool {
    forall|i: int, j: int| 0 <= i < e.len() && 0 <= j < e.len() && i != j ==> (#[trigger] e[i]).0 != (#[trigger] e[j]).0
}

/// The position of the entry with key `k`, if any (the first one).
pub open spec fn key_position(e: Seq<(Seq<char>, SyncGroupView)>, k: Seq<char>) -> Option<int>
    decreases e.len(),
{
    if e.len() == 0 {
        None
    } else if e[0].0 == k {
        Some(0)
    } else {
        match key_position(e.drop_first(), k) {
            Some(i) => Some(i + 1),
            None => None,
        }
    }
}

/// `key_position` finds the first entry with the key, and none only when there is none.
pub proof fn lemma_key_position(e: Seq<(Seq<char>, SyncGroupView)>, k: Seq<char>)
    ensures
        match key_position(e, k) {
            Some(i) => 0 <= i < e.len() && e[i].0 == k && forall|j: int| 0 <= j < i ==> (#[trigger] e[j]).0 != k,
            None => forall|j: int| 0 <= j < e.len() ==> (#[trigger] e[j]).0 != k,
        },
    decreases e.len(),
{
    if e.len() > 0 && e[0].0 != k {
        let rest = e.drop_first();
        lemma_key_position(rest, k);
        assert forall|j: int| 0 < j < e.len() implies #[trigger] e[j] == rest[j - 1] by {}
    }
}

/// The entries after inserting `v` under `k`: an existing entry keeps its place
/// and takes the new value; a new key goes last.
pub open spec fn map_insert(e: Seq<(Seq<char>, SyncGroupView)>, k: Seq<char>, v: SyncGroupView) -> Seq<(Seq<char>, SyncGroupView)> {
    match key_position(e, k) {
        Some(i) => e.update(i, (k, v)),
        None => e.push((k, v)),
    }
}

/// `IndexMap::new`: an empty map.
#[verifier::external_body]
fn group_map_new() -> (m: IndexMap<String, WledSyncGroup>)
    ensures
        group_entries(m) == Seq::<(Seq<char>, SyncGroupView)>::empty(),
{
    IndexMap::new()
}

/// `IndexMap::len`: the number of entries.
#[verifier::external_body]
fn group_map_len(m: &IndexMap<String, WledSyncGroup>) -> (n: usize)
    ensures
        n == group_entries(*m).len(),
{
    m.len()
}

/// `IndexMap::get_index`: the entry at position `i`, if there is one.
#[verifier::external_body]
fn group_map_get_index(m: &IndexMap<String, WledSyncGroup>, i: usize) -> (r: Option<(&String, &WledSyncGroup)>)
    ensures
        i < group_entries(*m).len() ==> r is Some,
        i < group_entries(*m).len() ==> r.unwrap().0@ == group_entries(*m)[i as int].0,
        i < group_entries(*m).len() ==> r.unwrap().1@ == group_entries(*m)[i as int].1,
        i >= group_entries(*m).len() ==> r is None,
{
    m.get_index(i)
}

/// `IndexMap::get`: the value stored under `key`, if any. Keys of an
/// `IndexMap` are unique, so the entry found is the one with that key.
#[verifier::external_body]
fn group_map_get<'a>(m: &'a IndexMap<String, WledSyncGroup>, key: &str) -> (r: Option<&'a WledSyncGroup>)
    ensures
        r is Some <==> key_position(group_entries(*m), key@) is Some,
        r matches Some(g) ==> g@ == group_entries(*m)[key_position(group_entries(*m), key@)->0].1,
{
    m.get(key)
}

/// `IndexMap::insert`: stores `value` under `key`. An existing key keeps its
/// place in the order and gets the new value; a new key is appended.
#[verifier::external_body]
fn group_map_insert(m: &mut IndexMap<String, WledSyncGroup>, key: String, value: WledSyncGroup)
    ensures
        group_entries(*final(m)) == map_insert(group_entries(*old(m)), key@, value@),
{
    m.insert(key, value);
}

// ── The model of a fleet built from a configuration ──────────────────────────

/// The device a configuration entry describes, with its client.
pub open spec fn device_model(d: DeviceConfig) -> DeviceView {
    DeviceView {
        name: d.name@,
        device_type: d.device_type@,
        client: ClientView {
            base_url: base_url_for(d.address@),
            device_name: d.name@,
            timeout: duration_of_secs(DEFAULT_TIMEOUT_SECS),
        },
    }
}

/// The position of the first device marked as leader.
pub open spec fn leader_position(devs: Seq<DeviceConfig>) -> int
    decreases devs.len(),
{
    if devs.len() == 0 {
        0
    } else if devs[0].is_leader {
        0
    } else {
        leader_position(devs.drop_first()) + 1
    }
}

/// The devices not marked as leader, in order.
pub open spec fn followers_of(devs: Seq<DeviceConfig>) -> Seq<DeviceView>
    decreases devs.len(),
{
    if devs.len() == 0 {
        Seq::empty()
    } else if devs.last().is_leader {
        followers_of(devs.drop_last())
    } else {
        followers_of(devs.drop_last()).push(device_model(devs.last()))
    }
}

/// The sync group a configuration entry describes: its leader, and every other
/// device as a follower in config order.
pub open spec fn group_model(g: SyncGroupConfig) -> SyncGroupView {
    SyncGroupView {
        name: g.name@,
        leader: device_model(g.devices@[leader_position(g.devices@)]),
        followers: followers_of(g.devices@),
    }
}

/// Device-to-group pairs of one configured group: the leader, then the followers.
pub open spec fn group_pairs(g: SyncGroupConfig) -> Seq<(Seq<char>, Seq<char>)> {
    seq![(group_model(g).leader.name, g.name@)] + followers_of(g.devices@).map_values(
        |f: DeviceView| (f.name, g.name@),
    )
}

/// The group map of a fleet built from `gs`: each group inserted in config order.
pub open spec fn groups_model(gs: Seq<SyncGroupConfig>) -> Seq<(Seq<char>, SyncGroupView)>
    decreases gs.len(),
{
    if gs.len() == 0 {
        Seq::empty()
    } else {
        map_insert(groups_model(gs.drop_last()), gs.last().name@, group_model(gs.last()))
    }
}

/// The device-to-group pairs of a fleet built from `gs`, in config order.
pub open spec fn pairs_model(gs: Seq<SyncGroupConfig>) -> Seq<(Seq<char>, Seq<char>)>
    decreases gs.len(),
{
    if gs.len() == 0 {
        Seq::empty()
    } else {
        pairs_model(gs.drop_last()) + group_pairs(gs.last())
    }
}

/// What the library knows of a fleet: the groups in order, and the
/// device-to-group pairs (a later pair for the same device wins).
pub struct FleetView {
    pub groups: Seq<(Seq<char>, SyncGroupView)>,
    pub device_to_group: Seq<(Seq<char>, Seq<char>)>,
}

/// The fleet a valid configuration describes.
pub open spec fn fleet_model(gs: Seq<SyncGroupConfig>) -> FleetView {
    FleetView { groups: groups_model(gs), device_to_group: pairs_model(gs) }
}

/// The group recorded for a device: that of the last pair naming it.
pub open spec fn last_group_of(pairs: Seq<(Seq<char>, Seq<char>)>, dev: Seq<char>) -> Option<Seq<char>>
    decreases pairs.len(),
{
    if pairs.len() == 0 {
        None
    } else if pairs.last().0 == dev {
        Some(pairs.last().1)
    } else {
        last_group_of(pairs.drop_last(), dev)
    }
}

/// Pairs of owned strings as pairs of character sequences.
pub open spec fn pairs_view(p: Seq<(String, String)>) -> Seq<(Seq<char>, Seq<char>)> {
    p.map_values(|x: (String, String)| (x.0@, x.1@))
}

/// Manages a collection of sync groups loaded from a config file.
///
/// Devices are organised into named sync groups; all control operations are
/// group-scoped. Individual device access is available for troubleshooting.
#[derive(Clone)]
pub struct WledFleet {
    /// Sync groups, keyed by group name, in config-file order.
    groups: IndexMap<String, WledSyncGroup>,
    /// Device name to group name, in the order the devices were added.
    device_to_group: Vec<(String, String)>,
}

impl View for WledFleet {
    type V = FleetView;

    closed spec fn view(&self) -> FleetView {
        FleetView {
            groups: group_entries(self.groups),
            device_to_group: pairs_view(self.device_to_group@),
        }
    }
}


proof fn lemma_no_leader_count(devs: Seq<DeviceConfig>)
    requires
        forall|j: int| 0 <= j < devs.len() ==> !(#[trigger] devs[j]).is_leader,
    ensures
        leader_count(devs) == 0,
    decreases devs.len(),
{
    if devs.len() > 0 {
        assert forall|j: int| 0 <= j < devs.drop_last().len() implies !(#[trigger] devs.drop_last()[j]).is_leader by {
            assert(devs.drop_last()[j] == devs[j]);
        }
        lemma_no_leader_count(devs.drop_last());
    }
}

proof fn lemma_leader_position(devs: Seq<DeviceConfig>, i: int)
    requires
        0 <= i < devs.len(),
        devs[i].is_leader,
        forall|j: int| 0 <= j < i ==> !(#[trigger] devs[j]).is_leader,
    ensures
        leader_position(devs) == i,
    decreases i,
{
    if i > 0 {
        let rest = devs.drop_first();
        assert forall|j: int| 0 <= j < i - 1 implies !(#[trigger] rest[j]).is_leader by {
            assert(rest[j] == devs[j + 1]);
        }
        assert(rest[i - 1] == devs[i]);
        lemma_leader_position(rest, i - 1);
    }
}

/// The position of the first device marked as leader.
fn find_leader(devs: &Vec<DeviceConfig>) -> (i: usize)
    requires
        leader_count(devs@) >= 1,
    ensures
        i == leader_position(devs@),
        i < devs@.len(),
        devs@[i as int].is_leader,
{
    let mut i: usize = 0;
    while i < devs.len()
        invariant
            i <= devs.len(),
            leader_count(devs@) >= 1,
            forall|j: int| 0 <= j < i ==> !(#[trigger] devs@[j]).is_leader,
        decreases devs.len() - i,
    {
        if devs[i].is_leader {
            proof {
                lemma_leader_position(devs@, i as int);
            }
            return i;
        }
        i = i + 1;
    }
    proof {
        lemma_no_leader_count(devs@);
    }
    0
}

proof fn lemma_followers_step(devs: Seq<DeviceConfig>, j: int)
    requires
        0 <= j < devs.len(),
    ensures
        followers_of(devs.take(j + 1)) == if devs[j].is_leader {
            followers_of(devs.take(j))
        } else {
            followers_of(devs.take(j)).push(device_model(devs[j]))
        },
{
    assert(devs.take(j + 1).drop_last() =~= devs.take(j));
    assert(devs.take(j + 1).last() == devs[j]);
}

/// Builds the client of a configured device, named after it.
fn device_client(d: &DeviceConfig) -> (r: Result<WledClient, WledError>)
    ensures
        r matches Ok(c) ==> c@ == device_model(*d).client,
        r matches Err(e) ==> e is ConfigError,
{
    WledClient::builder(d.address.as_str()).device_name(d.name.as_str()).build()
}

/// The client of each device of one configured group, in the order the group
/// holds them: the leader first, then the followers in config order.
pub open spec fn group_clients(g: SyncGroupConfig) -> Seq<ClientView> {
    group_devices(group_model(g)).map_values(|d: DeviceView| d.client)
}

/// The clients of a fleet built from `gs`: group by group in config order,
/// each group's clients in the order the group holds them.
pub open spec fn fleet_clients(gs: Seq<SyncGroupConfig>) -> Seq<ClientView>
    decreases gs.len(),
{
    if gs.len() == 0 {
        Seq::empty()
    } else {
        fleet_clients(gs.drop_last()) + group_clients(gs.last())
    }
}

/// What is known of each client of a list.
pub open spec fn client_views(cs: Seq<WledClient>) -> Seq<ClientView> {
    cs.map_values(|c: WledClient| c@)
}

proof fn lemma_fleet_clients_step(gs: Seq<SyncGroupConfig>, i: int)
    requires
        0 <= i < gs.len(),
    ensures
        fleet_clients(gs.take(i + 1)) == fleet_clients(gs.take(i)) + group_clients(gs[i]),
{
    assert(gs.take(i + 1).drop_last() =~= gs.take(i));
    assert(gs.take(i + 1).last() == gs[i]);
}

/// The clients of the first `k` groups come first among those of the first `n`.
proof fn lemma_fleet_clients_prefix(gs: Seq<SyncGroupConfig>, k: int, n: int)
    requires
        0 <= k <= n <= gs.len(),
    ensures
        fleet_clients(gs.take(k)).len() <= fleet_clients(gs.take(n)).len(),
        fleet_clients(gs.take(n)).subrange(0, fleet_clients(gs.take(k)).len() as int) == fleet_clients(gs.take(k)),
    decreases n - k,
{
    if k < n {
        lemma_fleet_clients_prefix(gs, k, n - 1);
        lemma_fleet_clients_step(gs, n - 1);
        let a = fleet_clients(gs.take(n - 1));
        let b = group_clients(gs[n - 1]);
        assert((a + b).subrange(0, fleet_clients(gs.take(k)).len() as int) =~= a.subrange(0, fleet_clients(gs.take(k)).len() as int));
    } else {
        assert(fleet_clients(gs.take(n)).subrange(0, fleet_clients(gs.take(n)).len() as int) =~= fleet_clients(gs.take(n)));
    }
}

/// The followers among the first `k` devices come first among those of the first `n`.
proof fn lemma_followers_prefix(devs: Seq<DeviceConfig>, k: int, n: int)
    requires
        0 <= k <= n <= devs.len(),
    ensures
        followers_of(devs.take(k)).len() <= followers_of(devs.take(n)).len(),
        followers_of(devs.take(n)).subrange(0, followers_of(devs.take(k)).len() as int) == followers_of(devs.take(k)),
    decreases n - k,
{
    if k < n {
        lemma_followers_prefix(devs, k, n - 1);
        lemma_followers_step(devs, n - 1);
        let a = followers_of(devs.take(n - 1));
        if !devs[n - 1].is_leader {
            assert(a.push(device_model(devs[n - 1])).subrange(0, followers_of(devs.take(k)).len() as int) =~= a.subrange(0, followers_of(devs.take(k)).len() as int));
        }
    } else {
        assert(followers_of(devs.take(n)).subrange(0, followers_of(devs.take(n)).len() as int) =~= followers_of(devs.take(n)));
    }
}

/// Builds the client of every configured device, in the order a fleet takes
/// them (see [`fleet_clients`]). Fails with the first client that cannot be set up.
fn configured_clients(gs: &Vec<SyncGroupConfig>) -> (r: Result<Vec<WledClient>, WledError>)
    requires
        config_valid(gs@),
    ensures
        r matches Ok(cs) ==> client_views(cs@) == fleet_clients(gs@),
        r matches Err(e) ==> e is ConfigError,
        gs@.len() == 0 ==> r is Ok,
{
    let mut cs: Vec<WledClient> = Vec::new();
    let mut gi: usize = 0;
    assert(gs@.take(0) =~= Seq::<SyncGroupConfig>::empty());
    assert(client_views(cs@) =~= Seq::<ClientView>::empty());
    while gi < gs.len()
        invariant
            config_valid(gs@),
            gi <= gs.len(),
            client_views(cs@) == fleet_clients(gs@.take(gi as int)),
        decreases gs.len() - gi,
    {
        let gc = &gs[gi];
        proof {
            assert(group_problem(gs@[gi as int]) is None);
        }
        let li = find_leader(&gc.devices);
        let lc = match device_client(&gc.devices[li]) {
            Ok(c) => c,
            Err(e) => return Err(e),
        };
        let ghost base = client_views(cs@);
        let ghost lview = lc@;
        cs.push(lc);
        let ghost cl = |d: DeviceView| d.client;
        assert(client_views(cs@) =~= base + seq![lview]);
        assert(gc.devices@.take(0) =~= Seq::<DeviceConfig>::empty());
        assert(followers_of(gc.devices@.take(0)).map_values(cl) =~= Seq::<ClientView>::empty());
        let mut j: usize = 0;
        while j < gc.devices.len()
            invariant
                config_valid(gs@),
                gi < gs.len(),
                gc == &gs@[gi as int],
                cl == (|d: DeviceView| d.client),
                j <= gc.devices.len(),
                base == fleet_clients(gs@.take(gi as int)),
                lview == device_model(gc.devices@[leader_position(gc.devices@)]).client,
                client_views(cs@) == base + seq![lview] + followers_of(gc.devices@.take(j as int)).map_values(cl),
            decreases gc.devices.len() - j,
        {
            let dc = &gc.devices[j];
            proof {
                lemma_followers_step(gc.devices@, j as int);
            }
            if !dc.is_leader {
                let c = match device_client(dc) {
                    Ok(c) => c,
                    Err(e) => return Err(e),
                };
                let ghost before = client_views(cs@);
                cs.push(c);
                proof {
                    let fs = followers_of(gc.devices@.take(j as int));
                    assert(fs.push(device_model(*dc)).map_values(cl) =~= fs.map_values(cl).push(device_model(*dc).client));
                    assert(client_views(cs@) =~= before.push(device_model(*dc).client));
                }
            }
            j = j + 1;
        }
        proof {
            assert(gc.devices@.take(gc.devices@.len() as int) =~= gc.devices@);
            lemma_fleet_clients_step(gs@, gi as int);
            assert(group_clients(*gc) =~= seq![lview] + followers_of(gc.devices@).map_values(cl));
            assert(client_views(cs@) =~= fleet_clients(gs@.take(gi + 1)));
        }
        gi = gi + 1;
    }
    proof {
        assert(gs@.take(gs@.len() as int) =~= gs@);
    }
    Ok(cs)
}

impl WledFleet {
    /// Builds a fleet from a parsed configuration: validates it, builds the
    /// client of every device, then assembles the groups with
    /// [`WledFleet::with_clients`]. Fails with the validation error, or with
    /// `ConfigError` if a device's HTTP client cannot be set up; a valid
    /// configuration without groups needs no client and always succeeds.
    pub fn from_config(config: FleetConfig) -> (r: Result<WledFleet, WledError>)
        ensures
            !config_valid(config.sync_groups@) ==> (r matches Err(WledError::ConfigError(m)) && Some(m@)
                == first_problem(config.sync_groups@)),
            r matches Ok(f) ==> config_valid(config.sync_groups@) && f@ == fleet_model(config.sync_groups@),
            r matches Err(e) ==> e is ConfigError,
            config_valid(config.sync_groups@) && config.sync_groups@.len() == 0 ==> (r matches Ok(f)
                && f@ == fleet_model(config.sync_groups@)),
    {
        match config.validate() {
            Ok(()) => {},
            Err(e) => return Err(e),
        }
        let clients = match configured_clients(&config.sync_groups) {
            Ok(cs) => cs,
            Err(e) => return Err(e),
        };
        Ok(WledFleet::with_clients(&config, clients))
    }

    /// Assembles the fleet a valid configuration describes from the clients of
    /// its devices, given in the order of [`fleet_clients`]: one sync group per
    /// configured group (the device marked as leader leads, every other device
    /// follows, in config order), and each device's group recorded.
    pub fn with_clients(config: &FleetConfig, clients: Vec<WledClient>) -> (f: WledFleet)
        requires
            config_valid(config.sync_groups@),
            client_views(clients@) == fleet_clients(config.sync_groups@),
        ensures
            f@ == fleet_model(config.sync_groups@),
    {
        let gs = &config.sync_groups;
        let ghost whole = fleet_clients(gs@);
        let mut cs = clients;
        let mut groups = group_map_new();
        let mut d2g: Vec<(String, String)> = Vec::new();
        let mut gi: usize = 0;
        assert(gs@.take(0) =~= Seq::<SyncGroupConfig>::empty());
        assert(pairs_view(d2g@) =~= Seq::<(Seq<char>, Seq<char>)>::empty());
        while gi < gs.len()
            invariant
                gs@ == config.sync_groups@,
                config_valid(gs@),
                gi <= gs.len(),
                whole == fleet_clients(gs@),
                fleet_clients(gs@.take(gi as int)) + client_views(cs@) == whole,
                group_entries(groups) == groups_model(gs@.take(gi as int)),
                pairs_view(d2g@) == pairs_model(gs@.take(gi as int)),
            decreases gs.len() - gi,
        {
            let gc = &gs[gi];
            proof {
                assert(group_problem(gs@[gi as int]) is None);
            }
            let li = find_leader(&gc.devices);
            let lc = &gc.devices[li];
            let ghost fprev = fleet_clients(gs@.take(gi as int));
            let ghost cl = |d: DeviceView| d.client;
            proof {
                lemma_fleet_clients_step(gs@, gi as int);
                lemma_fleet_clients_prefix(gs@, gi + 1, gs@.len() as int);
                assert(gs@.take(gs@.len() as int) =~= gs@);
                assert(group_clients(*gc) =~= seq![device_model(*lc).client] + followers_of(gc.devices@).map_values(cl));
                let g1 = fleet_clients(gs@.take(gi + 1));
                assert(g1[fprev.len() as int] == group_clients(*gc)[0]);
                assert(group_clients(*gc)[0] == device_model(*lc).client);
                assert(whole.subrange(0, g1.len() as int)[fprev.len() as int] == g1[fprev.len() as int]);
                assert(whole[fprev.len() as int] == device_model(*lc).client);
                assert(client_views(cs@)[0] == whole[fprev.len() as int]);
            }
            let ghost cs_before = client_views(cs@);
            let leader_client = cs.remove(0);
            proof {
                assert(client_views(cs@) =~= cs_before.drop_first());
                assert(fprev + seq![device_model(*lc).client] + client_views(cs@) =~= whole);
            }
            let mut group = WledSyncGroup::new(
                gc.name.as_str(),
                lc.name.as_str(),
                leader_client,
                lc.device_type.as_str(),
            );
            let ghost gname = gc.name@;
            let ghost base = pairs_view(d2g@);
            let ghost lead_pair = (lc.name@, gname);
            d2g.push((lc.name.clone(), gc.name.clone()));
            let ghost fmap = |f: DeviceView| (f.name, gname);
            assert(pairs_view(d2g@) =~= base + seq![lead_pair]);
            assert(gc.devices@.take(0) =~= Seq::<DeviceConfig>::empty());
            assert(followers_of(gc.devices@.take(0)).map_values(fmap) =~= Seq::<(Seq<char>, Seq<char>)>::empty());
            let mut j: usize = 0;
            while j < gc.devices.len()
                invariant
                    gs@ == config.sync_groups@,
                    config_valid(gs@),
                    gi < gs.len(),
                    gc == &gs@[gi as int],
                    gname == gc.name@,
                    fmap == (|f: DeviceView| (f.name, gname)),
                    j <= gc.devices.len(),
                    li == leader_position(gc.devices@),
                    li < gc.devices@.len(),
                    group@ == (SyncGroupView {
                        name: gname,
                        leader: device_model(gc.devices@[li as int]),
                        followers: followers_of(gc.devices@.take(j as int)),
                    }),
                    pairs_view(d2g@) == base + seq![lead_pair] + followers_of(gc.devices@.take(j as int)).map_values(fmap),
                    lead_pair == (device_model(gc.devices@[li as int]).name, gname),
                    fleet_clients(gs@.take(gi + 1)).len() <= whole.len(),
                    whole.subrange(0, fleet_clients(gs@.take(gi + 1)).len() as int) == fleet_clients(gs@.take(gi + 1)),
                    fleet_clients(gs@.take(gi + 1)) == fprev + seq![device_model(gc.devices@[li as int]).client]
                        + followers_of(gc.devices@).map_values(cl),
                    cl == (|d: DeviceView| d.client),
                    fprev + seq![device_model(gc.devices@[li as int]).client] + followers_of(
                        gc.devices@.take(j as int),
                    ).map_values(cl) + client_views(cs@) == whole,
                decreases gc.devices.len() - j,
            {
                let dc = &gc.devices[j];
                proof {
                    lemma_followers_step(gc.devices@, j as int);
                }
                if !dc.is_leader {
                    let ghost fj = followers_of(gc.devices@.take(j as int));
                    let ghost pre = fprev + seq![device_model(gc.devices@[li as int]).client];
                    proof {
                        lemma_followers_prefix(gc.devices@, j + 1, gc.devices@.len() as int);
                        assert(gc.devices@.take(gc.devices@.len() as int) =~= gc.devices@);
                        let fa = followers_of(gc.devices@);
                        let f1 = followers_of(gc.devices@.take(j + 1));
                        assert(f1 == fj.push(device_model(*dc)));
                        assert(fa.subrange(0, f1.len() as int) == f1);
                        assert(fa.subrange(0, f1.len() as int)[fj.len() as int] == fa[fj.len() as int]);
                        assert(fa[fj.len() as int] == device_model(*dc));
                        let g1 = fleet_clients(gs@.take(gi + 1));
                        assert(g1[(pre.len() + fj.len()) as int] == device_model(*dc).client);
                        assert(whole[(pre.len() + fj.len()) as int] == g1[(pre.len() + fj.len()) as int]);
                        assert(client_views(cs@)[0] == whole[(pre.len() + fj.len()) as int]);
                    }
                    let ghost cs_before = client_views(cs@);
                    let client = cs.remove(0);
                    proof {
                        assert(client_views(cs@) =~= cs_before.drop_first());
                        assert(fj.push(device_model(*dc)).map_values(cl) =~= fj.map_values(cl).push(device_model(*dc).client));
                        assert(pre + fj.push(device_model(*dc)).map_values(cl) + client_views(cs@) =~= whole);
                    }
                    let ghost before = pairs_view(d2g@);
                    group.add_follower(dc.name.as_str(), client, dc.device_type.as_str());
                    d2g.push((dc.name.clone(), gc.name.clone()));
                    proof {
                        let fs = followers_of(gc.devices@.take(j as int));
                        assert(fs.push(device_model(*dc)).map_values(fmap) =~= fs.map_values(fmap).push(fmap(device_model(*dc))));
                        assert(pairs_view(d2g@) =~= before.push((dc.name@, gc.name@)));
                    }
                }
                j = j + 1;
            }
            proof {
                assert(gc.devices@.take(gc.devices@.len() as int) =~= gc.devices@);
                assert(fleet_clients(gs@.take(gi + 1)) + client_views(cs@) =~= whole);
                assert(group@ == group_model(*gc));
                assert(gs@.take(gi + 1).drop_last() =~= gs@.take(gi as int));
                assert(gs@.take(gi + 1).last() == *gc);
                assert(pairs_view(d2g@) =~= pairs_model(gs@.take(gi as int)) + group_pairs(*gc));
            }
            group_map_insert(&mut groups, gc.name.clone(), group);
            gi = gi + 1;
        }
        proof {
            assert(gs@.take(gs@.len() as int) =~= gs@);
        }
        WledFleet { groups, device_to_group: d2g }
    }
}


/// The group a fleet records for a device, if any.
pub open spec fn group_of_device(f: FleetView, dev: Seq<char>) -> Option<SyncGroupView> {
    match last_group_of(f.device_to_group, dev) {
        Some(g) => match key_position(f.groups, g) {
            Some(i) => Some(f.groups[i].1),
            None => None,
        },
        None => None,
    }
}

/// The client of a device of the fleet, found through the group recorded for it.
pub open spec fn device_of_fleet(f: FleetView, dev: Seq<char>) -> Option<ClientView> {
    match group_of_device(f, dev) {
        Some(g) => client_named(group_devices(g), dev),
        None => None,
    }
}

/// Every device of every group as `(device, group, client)`: groups in order,
/// and within a group the leader first, then the followers.
pub open spec fn all_devices(e: Seq<(Seq<char>, SyncGroupView)>) -> Seq<(Seq<char>, Seq<char>, ClientView)>
    decreases e.len(),
{
    if e.len() == 0 {
        Seq::empty()
    } else {
        all_devices(e.drop_last()) + group_devices(e.last().1).map_values(
            |d: DeviceView| (d.name, e.last().0, d.client),
        )
    }
}

/// The total number of devices over all groups.
pub open spec fn total_devices(e: Seq<(Seq<char>, SyncGroupView)>) -> nat
    decreases e.len(),
{
    if e.len() == 0 {
        0
    } else {
        total_devices(e.drop_last()) + group_devices(e.last().1).len()
    }
}

proof fn lemma_total_prefix(e: Seq<(Seq<char>, SyncGroupView)>, k: int)
    requires
        0 <= k <= e.len(),
    ensures
        total_devices(e.take(k)) <= total_devices(e),
    decreases e.len() - k,
{
    if k < e.len() {
        lemma_total_prefix(e, k + 1);
        assert(e.take(k + 1).drop_last() =~= e.take(k));
    } else {
        assert(e.take(k) =~= e);
    }
}

/// The status line of a group: its name, its leader, the leader's power,
/// brightness and preset (or off / 0 / −1 when the leader could not be read),
/// and its device count.
pub open spec fn group_status_ok(st: GroupStatus, entry: (Seq<char>, SyncGroupView), leader_state: Option<WledState>) -> bool {
    &&& st.group_name@ == entry.0
    &&& st.leader_name@ == entry.1.leader.name
    &&& st.device_count == group_devices(entry.1).len()
    &&& match leader_state {
        Some(s) => st.on == s.on && st.brightness == s.brightness && st.active_preset == s.preset_slot,
        None => !st.on && st.brightness == 0 && st.active_preset == -1,
    }
}

/// The reports of the groups that answered, in order, leaving out the failures.
pub open spec fn answered_reports(rs: Seq<(String, Result<SyncHealthReport, WledError>)>) -> Seq<(String, SyncHealthReport)>
    decreases rs.len(),
{
    if rs.len() == 0 {
        Seq::empty()
    } else {
        match rs.last().1 {
            Ok(rep) => answered_reports(rs.drop_last()).push((rs.last().0, rep)),
            Err(_) => answered_reports(rs.drop_last()),
        }
    }
}

/// Keeps the health reports of the groups that answered; failures are left out.
pub fn answered_health_reports(results: Vec<(String, Result<SyncHealthReport, WledError>)>) -> (r: Vec<(String, SyncHealthReport)>)
    ensures
        r@ == answered_reports(results@),
{
    let mut r: Vec<(String, SyncHealthReport)> = Vec::new();
    let ghost all = results@;
    let mut rest = results;
    let mut i: usize = 0;
    let n = rest.len();
    assert(all.take(0) =~= Seq::<(String, Result<SyncHealthReport, WledError>)>::empty());
    while i < n
        invariant
            n == all.len(),
            i <= n,
            rest@ == all.skip(i as int),
            r@ == answered_reports(all.take(i as int)),
        decreases n - i,
    {
        let item = rest.remove(0);
        proof {
            assert(item == all[i as int]);
            assert(all.take(i + 1).drop_last() =~= all.take(i as int));
            assert(all.take(i + 1).last() == all[i as int]);
            assert(rest@ =~= all.skip(i + 1));
        }
        let (name, res) = item;
        match res {
            Ok(rep) => r.push((name, rep)),
            Err(_) => {},
        }
        i = i + 1;
    }
    assert(all.take(n as int) =~= all);
    r
}

impl WledFleet {
    // ── Group access ─────────────────────────────────────────────────────────

    /// All group names in config-file order.
    pub fn list_groups(&self) -> (r: Vec<&str>)
        ensures
            r@.len() == self@.groups.len(),
            forall|i: int| 0 <= i < r@.len() ==> (#[trigger] r@[i])@ == self@.groups[i].0,
    {
        let n = group_map_len(&self.groups);
        let mut r: Vec<&str> = Vec::new();
        let mut i: usize = 0;
        while i < n
            invariant
                n == self@.groups.len(),
                i <= n,
                r@.len() == i,
                forall|j: int| 0 <= j < i ==> (#[trigger] r@[j])@ == self@.groups[j].0,
            decreases n - i,
        {
            let (k, _) = group_map_get_index(&self.groups, i).unwrap();
            r.push(k.as_str());
            i = i + 1;
        }
        r
    }

    /// The sync group with the given name, if it exists.
    pub fn get_group(&self, name: &str) -> (r: Option<&WledSyncGroup>)
        ensures
            r is Some <==> key_position(self@.groups, name@) is Some,
            r matches Some(g) ==> g@ == self@.groups[key_position(self@.groups, name@)->0].1,
    {
        group_map_get(&self.groups, name)
    }

    /// The name of the group recorded for a device (the last one it was added to).
    fn group_name_of(&self, device_name: &str) -> (r: Option<&String>)
        ensures
            r is Some <==> last_group_of(self@.device_to_group, device_name@) is Some,
            r matches Some(g) ==> Some(g@) == last_group_of(self@.device_to_group, device_name@),
    {
        let target = device_name.to_owned();
        let ghost pv = pairs_view(self.device_to_group@);
        let mut i: usize = self.device_to_group.len();
        assert(pv.take(i as int) =~= pv);
        while i > 0
            invariant
                target@ == device_name@,
                pv == pairs_view(self.device_to_group@),
                i <= self.device_to_group.len(),
                last_group_of(pv, device_name@) == last_group_of(pv.take(i as int), device_name@),
            decreases i,
        {
            let ghost pre = pv.take(i as int);
            assert(pre.last() == pv[i - 1]);
            assert(pre.drop_last() =~= pv.take(i - 1));
            if self.device_to_group[i - 1].0 == target {
                return Some(&self.device_to_group[i - 1].1);
            }
            i = i - 1;
        }
        assert(pv.take(0) =~= Seq::<(Seq<char>, Seq<char>)>::empty());
        None
    }

    /// The sync group that contains the named device (leader or follower).
    pub fn get_group_for_device(&self, device_name: &str) -> (r: Option<&WledSyncGroup>)
        ensures
            r is Some <==> group_of_device(self@, device_name@) is Some,
            r matches Some(g) ==> Some(g@) == group_of_device(self@, device_name@),
            (forall|k: int| 0 <= k < self@.device_to_group.len() ==> (#[trigger] self@.device_to_group[k]).0
                != device_name@) ==> r is None,
    {
        proof {
            lemma_group_of_device_recorded(self@, device_name@);
        }
        match self.group_name_of(device_name) {
            Some(g) => group_map_get(&self.groups, g.as_str()),
            None => None,
        }
    }

    // ── Device access ────────────────────────────────────────────────────────

    /// The client of any device in the fleet, by name.
    pub fn get_device(&self, device_name: &str) -> (r: Option<&WledClient>)
        ensures
            r is Some <==> device_of_fleet(self@, device_name@) is Some,
            r matches Some(c) ==> Some(c@) == device_of_fleet(self@, device_name@),
    {
        match self.get_group_for_device(device_name) {
            Some(group) => group.get_device(device_name),
            None => None,
        }
    }

    /// All devices across all groups as `(device_name, group_name, client)`:
    /// groups in config order, each with its leader first.
    pub fn list_all_devices(&self) -> (r: Vec<(&str, &str, &WledClient)>)
        ensures
            r@.len() == all_devices(self@.groups).len(),
            forall|i: int| 0 <= i < r@.len() ==> ((#[trigger] r@[i]).0@, r@[i].1@, r@[i].2@)
                == all_devices(self@.groups)[i],
    {
        let n = group_map_len(&self.groups);
        let ghost e = self@.groups;
        let mut r: Vec<(&str, &str, &WledClient)> = Vec::new();
        let mut i: usize = 0;
        assert(e.take(0) =~= Seq::<(Seq<char>, SyncGroupView)>::empty());
        while i < n
            invariant
                e == self@.groups,
                n == e.len(),
                i <= n,
                r@.len() == all_devices(e.take(i as int)).len(),
                forall|k: int| 0 <= k < r@.len() ==> ((#[trigger] r@[k]).0@, r@[k].1@, r@[k].2@)
                    == all_devices(e.take(i as int))[k],
            decreases n - i,
        {
            let (gname, group) = group_map_get_index(&self.groups, i).unwrap();
            let devs = group.list_devices();
            let ghost base = all_devices(e.take(i as int));
            let ghost gd = group_devices(e[i as int].1).map_values(
                |d: DeviceView| (d.name, e[i as int].0, d.client),
            );
            proof {
                assert(e.take(i + 1).drop_last() =~= e.take(i as int));
                assert(e.take(i + 1).last() == e[i as int]);
                assert(all_devices(e.take(i + 1)) == base + gd);
            }
            let start = r.len();
            let mut j: usize = 0;
            while j < devs.len()
                invariant
                    gname@ == e[i as int].0,
                    devs@.len() == group_devices(e[i as int].1).len(),
                    forall|k: int| 0 <= k < devs@.len() ==> (#[trigger] devs@[k]).0@
                        == group_devices(e[i as int].1)[k].name && devs@[k].1@ == group_devices(
                        e[i as int].1,
                    )[k].client,
                    gd.len() == devs@.len(),
                    gd == group_devices(e[i as int].1).map_values(
                        |d: DeviceView| (d.name, e[i as int].0, d.client),
                    ),
                    start == base.len(),
                    j <= devs.len(),
                    r@.len() == start + j,
                    forall|k: int| 0 <= k < r@.len() ==> ((#[trigger] r@[k]).0@, r@[k].1@, r@[k].2@)
                        == (base + gd)[k],
                decreases devs.len() - j,
            {
                let (dname, client) = devs[j];
                r.push((dname, gname.as_str(), client));
                proof {
                    assert((base + gd)[start + j] == gd[j as int]);
                }
                j = j + 1;
            }
            i = i + 1;
        }
        assert(e.take(n as int) =~= e);
        r
    }

    // ── Fleet operations ─────────────────────────────────────────────────────

    /// The groups a broadcast goes to, in the order named, or
    /// `DeviceNotFound` for the first name that is not a group.
    pub fn broadcast_targets(&self, group_names: &[&str]) -> (r: Result<Vec<&WledSyncGroup>, WledError>)
        ensures
            r is Ok <==> forall|i: int| 0 <= i < group_names@.len() ==> key_position(
                self@.groups,
                (#[trigger] group_names@[i])@,
            ) is Some,
            r matches Ok(v) ==> v@.len() == group_names@.len() && forall|i: int| 0 <= i < v@.len()
                ==> (#[trigger] v@[i])@ == self@.groups[key_position(self@.groups, group_names@[i]@)->0].1,
            r matches Err(e) ==> exists|k: int| 0 <= k < group_names@.len() && key_position(
                self@.groups,
                (#[trigger] group_names@[k])@,
            ) is None && (forall|j: int| 0 <= j < k ==> key_position(
                self@.groups,
                (#[trigger] group_names@[j])@,
            ) is Some) && (e matches WledError::DeviceNotFound(n) && n@ == group_names@[k]@),
    {
        let mut v: Vec<&WledSyncGroup> = Vec::new();
        let mut i: usize = 0;
        while i < group_names.len()
            invariant
                i <= group_names@.len(),
                v@.len() == i,
                forall|j: int| 0 <= j < i ==> key_position(self@.groups, (#[trigger] group_names@[j])@) is Some,
                forall|j: int| 0 <= j < i ==> (#[trigger] v@[j])@ == self@.groups[key_position(
                    self@.groups,
                    group_names@[j]@,
                )->0].1,
            decreases group_names@.len() - i,
        {
            let name: &str = group_names[i];
            match group_map_get(&self.groups, name) {
                Some(g) => v.push(g),
                None => {
                    return Err(WledError::DeviceNotFound(name.to_owned()));
                },
            }
            i = i + 1;
        }
        Ok(v)
    }

    /// The total number of devices over all groups, if it fits in a `usize`.
    pub fn checked_total_devices(&self) -> (r: Option<usize>)
        ensures
            r is Some <==> total_devices(self@.groups) <= usize::MAX,
            r matches Some(n) ==> n == total_devices(self@.groups),
    {
        let n = group_map_len(&self.groups);
        let ghost e = self@.groups;
        let mut total: usize = 0;
        let mut i: usize = 0;
        assert(e.take(0) =~= Seq::<(Seq<char>, SyncGroupView)>::empty());
        while i < n
            invariant
                e == self@.groups,
                n == e.len(),
                i <= n,
                total == total_devices(e.take(i as int)),
            decreases n - i,
        {
            let (_, group) = group_map_get_index(&self.groups, i).unwrap();
            proof {
                assert(e.take(i + 1).drop_last() =~= e.take(i as int));
                assert(e.take(i + 1).last() == e[i as int]);
                lemma_total_prefix(e, i + 1);
            }
            let followers = group.follower_count();
            if followers >= usize::MAX - total {
                proof {
                    assert(total_devices(e.take(i + 1)) > usize::MAX);
                }
                return None;
            }
            total = total + 1 + followers;
            i = i + 1;
        }
        assert(e.take(n as int) =~= e);
        Some(total)
    }

    /// Assembles the fleet status from each group's leader state (in group
    /// order; `None` for a leader that could not be read). Groups come out in
    /// config order with their device counts and the fleet totals.
    pub fn fleet_status(&self, leader_states: &Vec<Option<WledState>>) -> (st: FleetStatus)
        requires
            leader_states@.len() == self@.groups.len(),
            total_devices(self@.groups) <= usize::MAX,
        ensures
            st.groups@.len() == self@.groups.len(),
            forall|i: int| 0 <= i < st.groups@.len() ==> group_status_ok(
                #[trigger] st.groups@[i],
                self@.groups[i],
                leader_states@[i],
            ),
            st.total_groups == self@.groups.len(),
            st.total_devices == total_devices(self@.groups),
    {
        let n = group_map_len(&self.groups);
        let ghost e = self@.groups;
        let mut statuses: Vec<GroupStatus> = Vec::new();
        let mut total: usize = 0;
        let mut i: usize = 0;
        assert(e.take(0) =~= Seq::<(Seq<char>, SyncGroupView)>::empty());
        while i < n
            invariant
                e == self@.groups,
                n == e.len(),
                leader_states@.len() == n,
                total_devices(e) <= usize::MAX,
                i <= n,
                statuses@.len() == i,
                total == total_devices(e.take(i as int)),
                forall|j: int| 0 <= j < i ==> group_status_ok(#[trigger] statuses@[j], e[j], leader_states@[j]),
            decreases n - i,
        {
            let (gname, group) = group_map_get_index(&self.groups, i).unwrap();
            proof {
                assert(e.take(i + 1).drop_last() =~= e.take(i as int));
                assert(e.take(i + 1).last() == e[i as int]);
                lemma_total_prefix(e, i + 1);
            }
            let count = group.device_count();
            let (on, brightness, active_preset) = match &leader_states[i] {
                Some(s) => (s.on, s.brightness, s.preset_slot),
                None => (false, 0u8, -1i32),
            };
            statuses.push(GroupStatus {
                group_name: gname.clone(),
                leader_name: group.leader_name().to_owned(),
                on,
                brightness,
                active_preset,
                device_count: count,
            });
            total = total + count;
            i = i + 1;
        }
        assert(e.take(n as int) =~= e);
        FleetStatus { groups: statuses, total_groups: n, total_devices: total }
    }
}


// ── Laws of fleets built from a configuration ───────────────────────────────

/// No two configured groups share a name.
pub open spec fn group_names_unique(gs: Seq<SyncGroupConfig>) -> bool {
    forall|a: int, b: int| 0 <= a < gs.len() && 0 <= b < gs.len() && a != b ==> (#[trigger] gs[a]).name@ != (#[trigger] gs[b]).name@
}

/// No two configured devices, in the same group or not, share a name.
pub open spec fn device_names_unique(gs: Seq<SyncGroupConfig>) -> bool {
    forall|a: int, x: int, b: int, y: int|
        0 <= a < gs.len() && 0 <= b < gs.len() && 0 <= x < gs[a].devices@.len() && 0 <= y < gs[b].devices@.len()
            && (a != b || x != y) ==> (#[trigger] gs[a].devices@[x]).name@ != (#[trigger] gs[b].devices@[y]).name@
}

/// With distinct group names, the groups of a fleet are the configured groups,
/// in config-file order.
pub proof fn lemma_groups_in_config_order(gs: Seq<SyncGroupConfig>)
    requires
        group_names_unique(gs),
    ensures
        groups_model(gs).len() == gs.len(),
        forall|i: int| 0 <= i < gs.len() ==> #[trigger] groups_model(gs)[i] == (gs[i].name@, group_model(gs[i])),
    decreases gs.len(),
{
    if gs.len() > 0 {
        let init = gs.drop_last();
        assert forall|a: int, b: int| 0 <= a < init.len() && 0 <= b < init.len() && a != b implies (#[trigger] init[a]).name@ != (#[trigger] init[b]).name@ by {
            assert(init[a] == gs[a] && init[b] == gs[b]);
        }
        lemma_groups_in_config_order(init);
        let e = groups_model(init);
        lemma_key_position(e, gs.last().name@);
        if let Some(p) = key_position(e, gs.last().name@) {
            assert(e[p] == (gs[p].name@, group_model(gs[p])));
            assert(gs[p] == init[p]);
            assert(gs.last() == gs[gs.len() - 1]);
            assert(false);
        }
        assert(groups_model(gs) == e.push((gs.last().name@, group_model(gs.last()))));
    }
}

/// Inserting into a map whose keys are distinct keeps them distinct, and the
/// inserted key is then present with the inserted value.
proof fn lemma_map_insert_unique(e: Seq<(Seq<char>, SyncGroupView)>, k: Seq<char>, v: SyncGroupView)
    requires
        keys_unique(e),
    ensures
        keys_unique(map_insert(e, k, v)),
        key_position(map_insert(e, k, v), k) matches Some(p) && map_insert(e, k, v)[p] == (k, v),
        forall|x: Seq<char>| x != k ==> key_position(map_insert(e, k, v), x) == key_position(e, x),
        forall|j: int| 0 <= j < e.len() && (#[trigger] e[j]).0 != k ==> map_insert(e, k, v)[j] == e[j],
{
    lemma_key_position(e, k);
    let r = map_insert(e, k, v);
    match key_position(e, k) {
        Some(i) => {
            assert(r[i].0 == k);
            assert forall|a: int, b: int| 0 <= a < r.len() && 0 <= b < r.len() && a != b implies (#[trigger] r[a]).0 != (#[trigger] r[b]).0 by {
                if a != i && b != i {
                    assert(r[a] == e[a] && r[b] == e[b]);
                } else if a == i {
                    assert(r[b] == e[b]);
                    assert(e[i].0 != e[b].0);
                } else {
                    assert(r[a] == e[a]);
                    assert(e[a].0 != e[i].0);
                }
            }
            lemma_key_position(r, k);
            if let Some(p) = key_position(r, k) {
                if p != i {
                    assert(r[p].0 == k && r[i].0 == k);
                }
            }
            assert forall|x: Seq<char>| x != k implies key_position(r, x) == key_position(e, x) by {
                lemma_key_position(e, x);
                lemma_key_position(r, x);
                assert forall|j: int| 0 <= j < r.len() && j != i implies #[trigger] r[j] == e[j] by {}
                match key_position(e, x) {
                    Some(q) => {
                        assert(r[q] == e[q]);
                        if let Some(q2) = key_position(r, x) {
                            if q2 < q {
                                assert(r[q2] == e[q2]);
                            }
                        }
                    },
                    None => {
                        if let Some(q2) = key_position(r, x) {
                            assert(r[q2] == e[q2]);
                        }
                    },
                }
            }
        },
        None => {
            assert(r[e.len() as int].0 == k);
            assert forall|a: int, b: int| 0 <= a < r.len() && 0 <= b < r.len() && a != b implies (#[trigger] r[a]).0 != (#[trigger] r[b]).0 by {
                if a < e.len() && b < e.len() {
                    assert(r[a] == e[a] && r[b] == e[b]);
                } else if a < e.len() {
                    assert(r[a] == e[a]);
                } else {
                    assert(r[b] == e[b]);
                }
            }
            lemma_key_position(r, k);
            if let Some(p) = key_position(r, k) {
                if p < e.len() {
                    assert(r[p] == e[p]);
                }
            }
            assert forall|x: Seq<char>| x != k implies key_position(r, x) == key_position(e, x) by {
                lemma_key_position(e, x);
                lemma_key_position(r, x);
                match key_position(e, x) {
                    Some(q) => {
                        assert(r[q] == e[q]);
                        if let Some(q2) = key_position(r, x) {
                            if q2 < q {
                                assert(r[q2] == e[q2]);
                            }
                        }
                    },
                    None => {
                        if let Some(q2) = key_position(r, x) {
                            if q2 < e.len() {
                                assert(r[q2] == e[q2]);
                            }
                        }
                    },
                }
            }
        },
    }
}

/// Whatever the configuration, the groups of a fleet have distinct names, and
/// every configured group name is present, holding the last configured group of
/// that name.
pub proof fn lemma_group_names_distinct(gs: Seq<SyncGroupConfig>, i: int)
    requires
        0 <= i < gs.len(),
        forall|j: int| i < j < gs.len() ==> (#[trigger] gs[j]).name@ != gs[i].name@,
    ensures
        keys_unique(groups_model(gs)),
        key_position(groups_model(gs), gs[i].name@) matches Some(p)
            && groups_model(gs)[p] == (gs[i].name@, group_model(gs[i])),
    decreases gs.len(),
{
    lemma_keys_unique(gs);
    let init = gs.drop_last();
    lemma_keys_unique(init);
    lemma_map_insert_unique(groups_model(init), gs.last().name@, group_model(gs.last()));
    if i < gs.len() - 1 {
        assert forall|j: int| i < j < init.len() implies (#[trigger] init[j]).name@ != init[i].name@ by {
            assert(init[j] == gs[j]);
        }
        lemma_group_names_distinct(init, i);
        assert(init[i] == gs[i]);
        assert(gs[gs.len() - 1].name@ != gs[i].name@);
        let e = groups_model(init);
        lemma_key_position(e, gs[i].name@);
        let p = key_position(e, gs[i].name@)->0;
        assert(e[p].0 != gs.last().name@);
        let r = map_insert(e, gs.last().name@, group_model(gs.last()));
        assert(groups_model(gs) == r);
        assert(r[p] == e[p]);
        assert(key_position(r, gs[i].name@) == Some(p));
    } else {
        assert(gs[i] == gs.last());
    }
}

/// The group names of a fleet built from `gs` are distinct.
proof fn lemma_keys_unique(gs: Seq<SyncGroupConfig>)
    ensures
        keys_unique(groups_model(gs)),
    decreases gs.len(),
{
    if gs.len() > 0 {
        lemma_keys_unique(gs.drop_last());
        lemma_map_insert_unique(groups_model(gs.drop_last()), gs.last().name@, group_model(gs.last()));
    }
}

/// Listing every device of every group yields exactly as many entries as the
/// fleet counts devices.
pub proof fn lemma_all_devices_count(e: Seq<(Seq<char>, SyncGroupView)>)
    ensures
        all_devices(e).len() == total_devices(e),
    decreases e.len(),
{
    if e.len() > 0 {
        lemma_all_devices_count(e.drop_last());
    }
}

/// The group recorded for a device: none exactly when no pair names the
/// device; otherwise that of the last pair naming it.
proof fn lemma_last_group_of(pairs: Seq<(Seq<char>, Seq<char>)>, dev: Seq<char>)
    ensures
        last_group_of(pairs, dev) is None <==> forall|k: int| 0 <= k < pairs.len() ==> (#[trigger] pairs[k]).0 != dev,
        last_group_of(pairs, dev) matches Some(g) ==> exists|k: int| 0 <= k < pairs.len() && (#[trigger] pairs[k]).0
            == dev && pairs[k].1 == g && forall|m: int| k < m < pairs.len() ==> (#[trigger] pairs[m]).0 != dev,
    decreases pairs.len(),
{
    if pairs.len() > 0 {
        let d = pairs.drop_last();
        let n = pairs.len() - 1;
        lemma_last_group_of(d, dev);
        assert forall|k: int| 0 <= k < d.len() implies #[trigger] d[k] == pairs[k] by {}
        if pairs.last().0 == dev {
            assert(pairs[n].0 == dev);
        } else {
            if last_group_of(d, dev) is None {
                assert forall|k: int| 0 <= k < pairs.len() implies (#[trigger] pairs[k]).0 != dev by {
                    if k < n {
                        assert(d[k] == pairs[k]);
                    }
                }
            } else {
                let k = choose|k: int| 0 <= k < d.len() && (#[trigger] d[k]).0 == dev && d[k].1 == last_group_of(
                    d,
                    dev,
                )->0 && forall|m: int| k < m < d.len() ==> (#[trigger] d[m]).0 != dev;
                assert(pairs[k] == d[k]);
                assert forall|m: int| k < m < pairs.len() implies (#[trigger] pairs[m]).0 != dev by {
                    if m < n {
                        assert(d[m] == pairs[m]);
                    }
                }
            }
        }
    }
}

/// A device has a group only if the device-to-group record names it, and the
/// group is then the one stored under the group name recorded last for it.
pub proof fn lemma_group_of_device_recorded(f: FleetView, dev: Seq<char>)
    ensures
        (forall|k: int| 0 <= k < f.device_to_group.len() ==> (#[trigger] f.device_to_group[k]).0 != dev)
            ==> group_of_device(f, dev) is None,
        group_of_device(f, dev) matches Some(g) ==> exists|k: int, i: int|
            #![trigger f.device_to_group[k], f.groups[i]]
            0 <= k < f.device_to_group.len() && f.device_to_group[k].0 == dev && (forall|m: int|
                k < m < f.device_to_group.len() ==> (#[trigger] f.device_to_group[m]).0 != dev) && 0 <= i
                < f.groups.len() && f.groups[i].0 == f.device_to_group[k].1 && f.groups[i].1 == g,
{
    lemma_last_group_of(f.device_to_group, dev);
    if let Some(gname) = last_group_of(f.device_to_group, dev) {
        lemma_key_position(f.groups, gname);
        if let Some(i) = key_position(f.groups, gname) {
            let k = choose|k: int| 0 <= k < f.device_to_group.len() && (#[trigger] f.device_to_group[k]).0 == dev
                && f.device_to_group[k].1 == gname && forall|m: int|
                k < m < f.device_to_group.len() ==> (#[trigger] f.device_to_group[m]).0 != dev;
            assert(f.groups[i].0 == f.device_to_group[k].1);
        }
    }
}

/// Every device-to-group pair of a fleet built from a valid configuration
/// names a configured device.
proof fn lemma_pairs_name_configured(gs: Seq<SyncGroupConfig>)
    requires
        config_valid(gs),
    ensures
        forall|m: int| 0 <= m < pairs_model(gs).len() ==> exists|a: int, y: int|
            #![trigger gs[a].devices@[y]]
            0 <= a < gs.len() && 0 <= y < gs[a].devices@.len() && (#[trigger] pairs_model(gs)[m]).0
                == gs[a].devices@[y].name@,
    decreases gs.len(),
{
    if gs.len() > 0 {
        let d = gs.drop_last();
        let n = gs.len() - 1;
        assert forall|i: int| 0 <= i < d.len() implies group_problem(#[trigger] d[i]) is None by {
            assert(d[i] == gs[i]);
        }
        lemma_pairs_name_configured(d);
        let g = gs.last();
        assert(group_problem(gs[n]) is None);
        lemma_group_pairs_members(g, 0);
        let pd = pairs_model(d);
        let gp = group_pairs(g);
        assert(pairs_model(gs) == pd + gp);
        assert forall|m: int| 0 <= m < pairs_model(gs).len() implies exists|a: int, y: int|
            #![trigger gs[a].devices@[y]]
            0 <= a < gs.len() && 0 <= y < gs[a].devices@.len() && (#[trigger] pairs_model(gs)[m]).0
                == gs[a].devices@[y].name@ by {
            if m < pd.len() {
                assert(pairs_model(gs)[m] == pd[m]);
                let (a, y) = choose|a: int, y: int|
                    #![trigger d[a].devices@[y]]
                    0 <= a < d.len() && 0 <= y < d[a].devices@.len() && pd[m].0 == d[a].devices@[y].name@;
                assert(d[a] == gs[a]);
                assert(gs[a].devices@[y] == d[a].devices@[y]);
            } else {
                assert(pairs_model(gs)[m] == gp[m - pd.len()]);
                let y = choose|y: int| 0 <= y < g.devices@.len() && (#[trigger] gp[m - pd.len()]).0
                    == g.devices@[y].name@;
                assert(gs[n].devices@[y] == g.devices@[y]);
            }
        }
    }
}

/// In a fleet built from a valid configuration, a name that no configured
/// device has is found in no group, and no client is found for it.
pub proof fn lemma_unconfigured_device_not_found(gs: Seq<SyncGroupConfig>, dev: Seq<char>)
    requires
        config_valid(gs),
        forall|a: int, y: int| 0 <= a < gs.len() && 0 <= y < gs[a].devices@.len() ==> (#[trigger] gs[a].devices@[y]).name@ != dev,
    ensures
        group_of_device(fleet_model(gs), dev) is None,
        device_of_fleet(fleet_model(gs), dev) is None,
{
    lemma_pairs_name_configured(gs);
    let p = pairs_model(gs);
    assert forall|k: int| 0 <= k < p.len() implies (#[trigger] p[k]).0 != dev by {
        let (a, y) = choose|a: int, y: int|
            #![trigger gs[a].devices@[y]]
            0 <= a < gs.len() && 0 <= y < gs[a].devices@.len() && p[k].0 == gs[a].devices@[y].name@;
    }
    lemma_group_of_device_recorded(fleet_model(gs), dev);
}

proof fn lemma_last_group_in_suffix(a: Seq<(Seq<char>, Seq<char>)>, b: Seq<(Seq<char>, Seq<char>)>, k: Seq<char>, v: Seq<char>)
    requires
        exists|m: int| 0 <= m < b.len() && (#[trigger] b[m]).0 == k,
        forall|m: int| 0 <= m < b.len() ==> (#[trigger] b[m]).1 == v,
    ensures
        last_group_of(a + b, k) == Some(v),
    decreases b.len(),
{
    let ab = a + b;
    assert(ab.last() == b.last());
    if b.last().0 != k {
        let m = choose|m: int| 0 <= m < b.len() && (#[trigger] b[m]).0 == k;
        let bi = b.drop_last();
        assert(bi[m] == b[m]);
        assert forall|j: int| 0 <= j < bi.len() implies (#[trigger] bi[j]).1 == v by {
            assert(bi[j] == b[j]);
        }
        lemma_last_group_in_suffix(a, bi, k, v);
        assert(ab.drop_last() =~= a + bi);
    } else {
        assert(b.last() == b[b.len() - 1]);
    }
}

proof fn lemma_last_group_skip_suffix(a: Seq<(Seq<char>, Seq<char>)>, b: Seq<(Seq<char>, Seq<char>)>, k: Seq<char>)
    requires
        forall|m: int| 0 <= m < b.len() ==> (#[trigger] b[m]).0 != k,
    ensures
        last_group_of(a + b, k) == last_group_of(a, k),
    decreases b.len(),
{
    if b.len() == 0 {
        assert(a + b =~= a);
    } else {
        let bi = b.drop_last();
        assert forall|m: int| 0 <= m < bi.len() implies (#[trigger] bi[m]).0 != k by {
            assert(bi[m] == b[m]);
        }
        lemma_last_group_skip_suffix(a, bi, k);
        assert((a + b).drop_last() =~= a + bi);
        assert((a + b).last() == b[b.len() - 1]);
    }
}

proof fn lemma_followers_members(devs: Seq<DeviceConfig>)
    ensures
        forall|m: int| 0 <= m < followers_of(devs).len() ==> exists|x: int| 0 <= x < devs.len() && !devs[x].is_leader
            && #[trigger] followers_of(devs)[m] == device_model(devs[x]),
        forall|x: int| 0 <= x < devs.len() && !(#[trigger] devs[x]).is_leader ==> exists|m: int|
            0 <= m < followers_of(devs).len() && followers_of(devs)[m] == device_model(devs[x]),
    decreases devs.len(),
{
    if devs.len() > 0 {
        let init = devs.drop_last();
        lemma_followers_members(init);
        let fi = followers_of(init);
        let f = followers_of(devs);
        assert forall|m: int| 0 <= m < f.len() implies exists|x: int| 0 <= x < devs.len() && !devs[x].is_leader
            && #[trigger] f[m] == device_model(devs[x]) by {
            if m < fi.len() {
                assert(f[m] == fi[m]);
                let x = choose|x: int| 0 <= x < init.len() && !init[x].is_leader && fi[m] == device_model(init[x]);
                assert(devs[x] == init[x]);
            } else {
                assert(devs[devs.len() - 1] == devs.last());
            }
        }
        assert forall|x: int| 0 <= x < devs.len() && !(#[trigger] devs[x]).is_leader implies exists|m: int|
            0 <= m < f.len() && f[m] == device_model(devs[x]) by {
            if x < devs.len() - 1 {
                assert(init[x] == devs[x]);
                let m = choose|m: int| 0 <= m < fi.len() && fi[m] == device_model(init[x]);
                assert(f[m] == fi[m]);
            } else {
                assert(devs[x] == devs.last());
                assert(f[fi.len() as int] == device_model(devs.last()));
            }
        }
    }
}

proof fn lemma_leader_count_pos(devs: Seq<DeviceConfig>, i: int)
    requires
        0 <= i < devs.len(),
        devs[i].is_leader,
    ensures
        leader_count(devs) >= 1,
    decreases devs.len(),
{
    if i < devs.len() - 1 {
        assert(devs.drop_last()[i] == devs[i]);
        lemma_leader_count_pos(devs.drop_last(), i);
    }
}

proof fn lemma_two_leaders(devs: Seq<DeviceConfig>, i: int, j: int)
    requires
        0 <= i < j < devs.len(),
        devs[i].is_leader,
        devs[j].is_leader,
    ensures
        leader_count(devs) >= 2,
    decreases devs.len(),
{
    let init = devs.drop_last();
    if j < devs.len() - 1 {
        assert(init[i] == devs[i] && init[j] == devs[j]);
        lemma_two_leaders(init, i, j);
    } else {
        assert(init[i] == devs[i]);
        lemma_leader_count_pos(init, i);
    }
}

proof fn lemma_leader_is_first(devs: Seq<DeviceConfig>)
    requires
        leader_count(devs) >= 1,
    ensures
        0 <= leader_position(devs) < devs.len(),
        devs[leader_position(devs)].is_leader,
        forall|j: int| 0 <= j < leader_position(devs) ==> !(#[trigger] devs[j]).is_leader,
    decreases devs.len(),
{
    if devs.len() == 0 {
    } else if !devs[0].is_leader {
        let rest = devs.drop_first();
        lemma_leader_count_shift(devs);
        lemma_leader_is_first(rest);
        assert forall|j: int| 0 <= j < leader_position(devs) implies !(#[trigger] devs[j]).is_leader by {
            if j > 0 {
                assert(devs[j] == rest[j - 1]);
            }
        }
        assert(devs[leader_position(devs)] == rest[leader_position(rest)]);
    }
}

proof fn lemma_leader_count_shift(devs: Seq<DeviceConfig>)
    requires
        devs.len() > 0,
    ensures
        leader_count(devs) == leader_count(devs.drop_first()) + (if devs[0].is_leader { 1nat } else { 0nat }),
    decreases devs.len(),
{
    let tail = devs.drop_first();
    if devs.len() > 1 {
        let init = devs.drop_last();
        lemma_leader_count_shift(init);
        assert(init.drop_first() =~= tail.drop_last());
        assert(init[0] == devs[0]);
        assert(tail.last() == devs.last());
        assert(leader_count(devs) == leader_count(init) + (if devs.last().is_leader { 1nat } else { 0nat }));
        assert(leader_count(tail) == leader_count(tail.drop_last()) + (if tail.last().is_leader { 1nat } else { 0nat }));
    } else {
        assert(tail.len() == 0);
        assert(devs.drop_last().len() == 0);
        assert(devs.last() == devs[0]);
        assert(leader_count(devs) == leader_count(devs.drop_last()) + (if devs.last().is_leader { 1nat } else { 0nat }));
    }
}

/// Every device of the group a configuration entry describes is the model of
/// one of its configured devices; every configured device is among them.
#[verifier::spinoff_prover]
#[verifier::rlimit(40)]
proof fn lemma_group_model_members(g: SyncGroupConfig, x: int)
    requires
        group_problem(g) is None,
        0 <= x < g.devices@.len(),
    ensures
        forall|m: int| 0 <= m < group_devices(group_model(g)).len() ==> exists|y: int| 0 <= y < g.devices@.len()
            && #[trigger] group_devices(group_model(g))[m] == device_model(g.devices@[y]),
        exists|m: int| 0 <= m < group_devices(group_model(g)).len()
            && #[trigger] group_devices(group_model(g))[m] == device_model(g.devices@[x]),
{
    let devs = g.devices@;
    let gd = group_devices(group_model(g));
    let f = followers_of(devs);
    let lp = leader_position(devs);
    lemma_leader_is_first(devs);
    lemma_followers_members(devs);
    assert forall|m: int| 0 <= m < gd.len() implies exists|y: int| 0 <= y < devs.len() && #[trigger] gd[m] == device_model(devs[y]) by {
        if m == 0 {
            assert(gd[0] == device_model(devs[lp]));
        } else {
            assert(gd[m] == f[m - 1]);
        }
    }
    if devs[x].is_leader {
        if x != lp {
            if x < lp {
                assert(!devs[x].is_leader);
            } else {
                lemma_two_leaders(devs, lp, x);
            }
        }
        assert(gd[0] == device_model(devs[x]));
    } else {
        let m = choose|m: int| 0 <= m < f.len() && f[m] == device_model(devs[x]);
        assert(gd[m + 1] == f[m]);
    }
}

/// The device-to-group pairs of a configured group: all name the group, each
/// names one of its devices, and every device is named.
proof fn lemma_group_pairs_members(g: SyncGroupConfig, x: int)
    requires
        group_problem(g) is None,
        0 <= x < g.devices@.len(),
    ensures
        exists|m: int| 0 <= m < group_pairs(g).len() && (#[trigger] group_pairs(g)[m]).0 == g.devices@[x].name@,
        forall|m: int| 0 <= m < group_pairs(g).len() ==> (#[trigger] group_pairs(g)[m]).1 == g.name@,
        forall|m: int| 0 <= m < group_pairs(g).len() ==> exists|y: int| 0 <= y < g.devices@.len()
            && (#[trigger] group_pairs(g)[m]).0 == g.devices@[y].name@,
{
    let devs = g.devices@;
    lemma_group_model_members(g, x);
    let gd = group_devices(group_model(g));
    let gp = group_pairs(g);
    let f = followers_of(devs);
    let fp = f.map_values(|d: DeviceView| (d.name, g.name@));
    assert(gp.len() == gd.len());
    assert forall|m: int| 0 <= m < gp.len() implies (#[trigger] gp[m]) == (gd[m].name, g.name@) by {
        if m > 0 {
            assert(gp[m] == fp[m - 1]);
            assert(gd[m] == f[m - 1]);
        }
    }
    let k = choose|m: int| 0 <= m < gd.len() && #[trigger] gd[m] == device_model(devs[x]);
    assert(gp[k].0 == devs[x].name@);
    assert forall|m: int| 0 <= m < gp.len() implies exists|y: int| 0 <= y < devs.len()
        && (#[trigger] gp[m]).0 == devs[y].name@ by {
        let y = choose|y: int| 0 <= y < devs.len() && #[trigger] gd[m] == device_model(devs[y]);
        assert(gp[m].0 == devs[y].name@);
    }
}

/// With device names distinct within the group, the first device of a
/// configured device's name in the group's model is that device.
proof fn lemma_device_in_group_model(g: SyncGroupConfig, x: int)
    requires
        group_problem(g) is None,
        0 <= x < g.devices@.len(),
        forall|a: int, b: int| 0 <= a < g.devices@.len() && 0 <= b < g.devices@.len() && a != b
            ==> (#[trigger] g.devices@[a]).name@ != (#[trigger] g.devices@[b]).name@,
    ensures
        client_named(group_devices(group_model(g)), g.devices@[x].name@) == Some(device_model(g.devices@[x]).client),
{
    let devs = g.devices@;
    let gd = group_devices(group_model(g));
    let n = devs[x].name@;
    lemma_group_model_members(g, x);
    let pos = choose|m: int| 0 <= m < gd.len() && #[trigger] gd[m] == device_model(devs[x]);
    assert(gd[pos].name == n);
    lemma_first_named_props(gd, n);
    let k = first_named(gd, n)->0;
    let y = choose|y: int| 0 <= y < devs.len() && #[trigger] gd[k] == device_model(devs[y]);
    if y != x {
        assert(devs[y].name@ != devs[x].name@);
    }
}

proof fn lemma_device_pairs(gs: Seq<SyncGroupConfig>, i: int, x: int, n: int)
    requires
        config_valid(gs),
        device_names_unique(gs),
        0 <= i < n <= gs.len(),
        0 <= x < gs[i].devices@.len(),
    ensures
        last_group_of(pairs_model(gs.take(n)), gs[i].devices@[x].name@) == Some(gs[i].name@),
    decreases n,
{
    let g = gs[i];
    assert(group_problem(g) is None);
    assert forall|a: int, b: int| 0 <= a < g.devices@.len() && 0 <= b < g.devices@.len() && a != b
        implies (#[trigger] g.devices@[a]).name@ != (#[trigger] g.devices@[b]).name@ by {}
    let t = gs.take(n);
    assert(t.drop_last() =~= gs.take(n - 1));
    assert(t.last() == gs[n - 1]);
    if n == i + 1 {
        lemma_group_pairs_members(g, x);
        lemma_last_group_in_suffix(pairs_model(gs.take(n - 1)), group_pairs(g), g.devices@[x].name@, g.name@);
    } else {
        lemma_device_pairs(gs, i, x, n - 1);
        let h = gs[n - 1];
        assert(group_problem(h) is None);
        assert forall|a: int, b: int| 0 <= a < h.devices@.len() && 0 <= b < h.devices@.len() && a != b
            implies (#[trigger] h.devices@[a]).name@ != (#[trigger] h.devices@[b]).name@ by {}
        lemma_group_pairs_members(h, 0);
        assert forall|m: int| 0 <= m < group_pairs(h).len() implies (#[trigger] group_pairs(h)[m]).0 != g.devices@[x].name@ by {
            let y = choose|y: int| 0 <= y < h.devices@.len() && group_pairs(h)[m].0 == h.devices@[y].name@;
            assert(gs[n - 1].devices@[y] == h.devices@[y]);
        }
        lemma_last_group_skip_suffix(pairs_model(gs.take(n - 1)), group_pairs(h), g.devices@[x].name@);
    }
}

/// In a fleet built from a valid configuration whose group names and device
/// names are all distinct, looking up any configured device (leader or
/// follower) by name finds its group and its own client.
pub proof fn lemma_every_device_found(gs: Seq<SyncGroupConfig>, i: int, x: int)
    requires
        config_valid(gs),
        group_names_unique(gs),
        device_names_unique(gs),
        0 <= i < gs.len(),
        0 <= x < gs[i].devices@.len(),
    ensures
        group_of_device(fleet_model(gs), gs[i].devices@[x].name@) == Some(group_model(gs[i])),
        device_of_fleet(fleet_model(gs), gs[i].devices@[x].name@) == Some(device_model(gs[i].devices@[x]).client),
{
    lemma_device_pairs(gs, i, x, gs.len() as int);
    assert(gs.take(gs.len() as int) =~= gs);
    lemma_groups_in_config_order(gs);
    let e = groups_model(gs);
    lemma_key_position(e, gs[i].name@);
    assert(e[i].0 == gs[i].name@);
    match key_position(e, gs[i].name@) {
        Some(p) => {
            if p != i {
                assert(e[p] == (gs[p].name@, group_model(gs[p])));
            }
        },
        None => {},
    }
    let g = gs[i];
    assert(group_problem(g) is None);
    assert forall|a: int, b: int| 0 <= a < g.devices@.len() && 0 <= b < g.devices@.len() && a != b
        implies (#[trigger] g.devices@[a]).name@ != (#[trigger] g.devices@[b]).name@ by {}
    lemma_device_in_group_model(g, x);
}

} // verus!
