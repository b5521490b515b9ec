//! The fleet configuration model (the contents of `wled-config.toml`) and its validation.

use vstd::prelude::*;
use crate::error::WledError;
use crate::text::{decimal, push_decimal};

verus! {

/// Top-level fleet configuration.
#[derive(Debug, Default)]
pub struct FleetConfig {
    pub sync_groups: Vec<SyncGroupConfig>,
    pub schedule: Option<ScheduleConfig>,
}

/// Configuration for one sync group.
#[derive(Debug)]
pub struct SyncGroupConfig {
    pub name: String,
    /// Optional documentation hint; the actual leader is the device with `is_leader = true`.
    pub leader: Option<String>,
    pub devices: Vec<DeviceConfig>,
}

/// Configuration for a single WLED device.
#[derive(Debug)]
pub struct DeviceConfig {
    pub name: String,
    pub address: String,
    pub is_leader: bool,
    pub device_type: String,
}

/// Global schedule configuration.
#[derive(Debug, Default)]
pub struct ScheduleConfig {
    pub enabled: bool,
    /// Preset name to activate at dusk.
    pub dusk_preset: String,
    /// Time to turn off (format: "HH:MM").
    pub off_time: String,
}

/// How many of `devices` are marked as leader.
pub open spec fn leader_count(devices: Seq<DeviceConfig>) -> nat
    decreases devices.len(),
{
    if devices.len() == 0 {
        0
    } else {
        leader_count(devices.drop_last()) + if devices.last().is_leader { 1nat } else { 0nat }
    }
}

/// The validation message for one group, or `None` if the group is valid:
/// a group needs at least one device and exactly one leader.
pub open spec fn group_problem(g: SyncGroupConfig) -> Option<Seq<char>> {
    if g.devices@.len() == 0 {
        Some("Sync group '"@ + g.name@ + "' has no devices"@)
    } else if leader_count(g.devices@) == 0 {
        Some("Sync group '"@ + g.name@ + "' has no leader (set is_leader = true on one device)"@)
    } else if leader_count(g.devices@) == 1 {
        None
    } else {
        Some("Sync group '"@ + g.name@ + "' has "@ + decimal(leader_count(g.devices@))
            + " leaders (only one allowed)"@)
    }
}

/// The message for the first invalid group of `groups`, if any.
pub open spec fn first_problem(groups: Seq<SyncGroupConfig>) -> Option<Seq<char>>
    decreases groups.len(),
{
    if groups.len() == 0 {
        None
    } else if group_problem(groups[0]) is Some {
        group_problem(groups[0])
    } else {
        first_problem(groups.drop_first())
    }
}

/// A configuration is valid when every group has devices and exactly one leader.
pub open spec fn config_valid(groups: Seq<SyncGroupConfig>) -> bool {
    forall|i: int| 0 <= i < groups.len() ==> group_problem(#[trigger] groups[i]) is None
}

proof fn lemma_first_problem_none(groups: Seq<SyncGroupConfig>)
    ensures
        first_problem(groups) is None <==> config_valid(groups),
    decreases groups.len(),
{
    if groups.len() > 0 {
        lemma_first_problem_none(groups.drop_first());
        if config_valid(groups) {
            assert(group_problem(groups[0]) is None);
            assert forall|i: int| 0 <= i < groups.drop_first().len() implies group_problem(
                #[trigger] groups.drop_first()[i],
            ) is None by {
                assert(groups.drop_first()[i] == groups[i + 1]);
            }
        }
        if first_problem(groups) is None {
            assert forall|i: int| 0 <= i < groups.len() implies group_problem(
                #[trigger] groups[i],
            ) is None by {
                if i > 0 {
                    assert(groups[i] == groups.drop_first()[i - 1]);
                }
            }
        }
    }
}

proof fn lemma_first_problem_skip(groups: Seq<SyncGroupConfig>, k: int)
    requires
        0 <= k <= groups.len(),
        forall|i: int| 0 <= i < k ==> group_problem(#[trigger] groups[i]) is None,
    ensures
        first_problem(groups) == first_problem(groups.subrange(k, groups.len() as int)),
    decreases k,
{
    if k > 0 {
        assert(group_problem(groups[0]) is None);
        let rest = groups.drop_first();
        assert forall|i: int| 0 <= i < k - 1 implies group_problem(#[trigger] rest[i]) is None by {
            assert(rest[i] == groups[i + 1]);
        }
        lemma_first_problem_skip(rest, k - 1);
        assert(rest.subrange(k - 1, rest.len() as int) =~= groups.subrange(k, groups.len() as int));
    } else {
        assert(groups.subrange(0, groups.len() as int) =~= groups);
    }
}

/// Exactly one of `devs` is marked as leader, at position `i`.
pub open spec fn sole_leader_at(devs: Seq<DeviceConfig>, i: int) -> bool {
    &&& 0 <= i < devs.len()
    &&& devs[i].is_leader
    &&& forall|j: int| 0 <= j < devs.len() && j != i ==> !(#[trigger] devs[j]).is_leader
}

proof fn lemma_no_leaders(devs: Seq<DeviceConfig>)
    ensures
        leader_count(devs) == 0 <==> forall|j: int| 0 <= j < devs.len() ==> !(#[trigger] devs[j]).is_leader,
    decreases devs.len(),
{
    if devs.len() > 0 {
        let d = devs.drop_last();
        lemma_no_leaders(d);
        assert forall|j: int| 0 <= j < d.len() implies #[trigger] d[j] == devs[j] by {}
        if leader_count(devs) == 0 {
            assert forall|j: int| 0 <= j < devs.len() implies !(#[trigger] devs[j]).is_leader by {
                if j < d.len() {
                    assert(d[j] == devs[j]);
                }
            }
        } else {
            if devs.last().is_leader {
                assert(devs[devs.len() - 1].is_leader);
            } else {
                let j = choose|j: int| 0 <= j < d.len() && (#[trigger] d[j]).is_leader;
                assert(devs[j].is_leader);
            }
        }
    }
}

proof fn lemma_one_leader(devs: Seq<DeviceConfig>)
    ensures
        leader_count(devs) == 1 <==> exists|i: int| sole_leader_at(devs, i),
    decreases devs.len(),
{
    if devs.len() > 0 {
        let d = devs.drop_last();
        let n = devs.len() - 1;
        lemma_one_leader(d);
        lemma_no_leaders(d);
        assert forall|j: int| 0 <= j < d.len() implies #[trigger] d[j] == devs[j] by {}
        if devs.last().is_leader {
            if leader_count(devs) == 1 {
                assert(sole_leader_at(devs, n)) by {
                    assert forall|j: int| 0 <= j < devs.len() && j != n implies !(#[trigger] devs[j]).is_leader by {
                        assert(d[j] == devs[j]);
                    }
                }
            }
            if exists|i: int| sole_leader_at(devs, i) {
                let i = choose|i: int| sole_leader_at(devs, i);
                assert(i == n);
                assert forall|j: int| 0 <= j < d.len() implies !(#[trigger] d[j]).is_leader by {
                    assert(devs[j] == d[j]);
                }
            }
        } else {
            if leader_count(devs) == 1 {
                let i = choose|i: int| sole_leader_at(d, i);
                assert(sole_leader_at(devs, i)) by {
                    assert forall|j: int| 0 <= j < devs.len() && j != i implies !(#[trigger] devs[j]).is_leader by {
                        if j < n {
                            assert(d[j] == devs[j]);
                        }
                    }
                }
            }
            if exists|i: int| sole_leader_at(devs, i) {
                let i = choose|i: int| sole_leader_at(devs, i);
                assert(i != n);
                assert(sole_leader_at(d, i)) by {
                    assert forall|j: int| 0 <= j < d.len() && j != i implies !(#[trigger] d[j]).is_leader by {
                        assert(d[j] == devs[j]);
                    }
                }
            }
        }
    }
}

/// A group passes validation exactly when it has at least one device and
/// exactly one of its devices is marked as leader, wherever that device stands.
pub proof fn lemma_group_valid_iff(g: SyncGroupConfig)
    ensures
        group_problem(g) is None <==> (g.devices@.len() > 0 && exists|i: int| sole_leader_at(g.devices@, i)),
{
    lemma_one_leader(g.devices@);
}

/// A configuration is valid exactly when every group has at least one device
/// and exactly one leader, wherever the leader stands in the group's list.
pub proof fn lemma_config_valid_iff(groups: Seq<SyncGroupConfig>)
    ensures
        config_valid(groups) <==> forall|k: int| 0 <= k < groups.len() ==> ((#[trigger] groups[k]).devices@.len() > 0
            && exists|i: int| sole_leader_at(groups[k].devices@, i)),
{
    assert forall|k: int| 0 <= k < groups.len() implies (group_problem(#[trigger] groups[k]) is None <==> (
    groups[k].devices@.len() > 0 && exists|i: int| sole_leader_at(groups[k].devices@, i))) by {
        lemma_group_valid_iff(groups[k]);
    }
}

/// Counts the devices marked as leader.
fn count_leaders(devices: &Vec<DeviceConfig>) -> (n: usize)
    ensures
        n == leader_count(devices@),
{
    let mut n: usize = 0;
    let mut i: usize = 0;
    while i < devices.len()
        invariant
            i <= devices.len(),
            n == leader_count(devices@.subrange(0, i as int)),
            n <= i,
        decreases devices.len() - i,
    {
        assert(devices@.subrange(0, i + 1).drop_last() =~= devices@.subrange(0, i as int));
        if devices[i].is_leader {
            n = n + 1;
        }
        i = i + 1;
    }
    assert(devices@.subrange(0, devices.len() as int) =~= devices@);
    n
}

/// The validation message for one group, or `None` if it is valid.
fn check_group(g: &SyncGroupConfig) -> (r: Option<String>)
    ensures
        match (r, group_problem(*g)) {
            (Some(m), Some(p)) => m@ == p,
            (None, None) => true,
            _ => false,
        },
{
    if g.devices.len() == 0 {
        let mut m = String::from_str("Sync group '");
        m.append(g.name.as_str());
        m.append("' has no devices");
        return Some(m);
    }
    let n = count_leaders(&g.devices);
    if n == 0 {
        let mut m = String::from_str("Sync group '");
        m.append(g.name.as_str());
        m.append("' has no leader (set is_leader = true on one device)");
        Some(m)
    } else if n == 1 {
        None
    } else {
        let mut m = String::from_str("Sync group '");
        m.append(g.name.as_str());
        m.append("' has ");
        push_decimal(&mut m, n as u64);
        m.append(" leaders (only one allowed)");
        Some(m)
    }
}

impl FleetConfig {
    /// Checks that every sync group has at least one device and exactly one leader.
    /// The error names the first group in config order that breaks the rule.
    pub fn validate(&self) -> (r: Result<(), WledError>)
        ensures
            r is Ok <==> config_valid(self.sync_groups@),
            r is Ok <==> forall|k: int| 0 <= k < self.sync_groups@.len() ==> (
                (#[trigger] self.sync_groups@[k]).devices@.len() > 0 && exists|i: int|
                sole_leader_at(self.sync_groups@[k].devices@, i)),
            r matches Err(e) ==> (e matches WledError::ConfigError(m)
                && Some(m@) == first_problem(self.sync_groups@)),
    {
        proof {
            lemma_config_valid_iff(self.sync_groups@);
        }
        let groups = &self.sync_groups;
        let mut i: usize = 0;
        while i < groups.len()
            invariant
                groups@ == self.sync_groups@,
                i <= groups.len(),
                forall|j: int| 0 <= j < i ==> group_problem(#[trigger] groups@[j]) is None,
            decreases groups.len() - i,
        {
            match check_group(&groups[i]) {
                Some(m) => {
                    proof {
                        lemma_first_problem_skip(groups@, i as int);
                        let rest = groups@.subrange(i as int, groups@.len() as int);
                        assert(rest.len() > 0);
                        assert(rest[0] == groups@[i as int]);
                        assert(first_problem(rest) == group_problem(groups@[i as int]));
                        assert(group_problem(groups@[i as int]) is Some);
                        assert(!config_valid(groups@));
                        lemma_config_valid_iff(groups@);
                    }
                    return Err(WledError::ConfigError(m));
                },
                None => {},
            }
            i = i + 1;
        }
        proof {
            lemma_first_problem_none(groups@);
        }
        Ok(())
    }
}

} // verus!
