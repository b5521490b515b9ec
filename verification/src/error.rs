//! The error type shared by every operation of the library.

use vstd::prelude::*;
use crate::text::{decimal, push_decimal};

verus! {

/// Errors reported by WLED operations.
///
/// Transport failures carry the transport's own description as text
/// (`Network::source`, `Json`), so the library can reason about them as plain values.
#[derive(Debug, Clone)]
pub enum WledError {
    /// The HTTP exchange with a device failed (connection, protocol or body decoding).
    Network { device: String, source: String },
    /// The device answered with a non-success HTTP status.
    Api { device: String, status: u16, message: String },
    /// No device or group of the given name.
    DeviceNotFound(String),
    /// No preset of the given name.
    PresetNotFound(String),
    /// An output channel outside `1..=max_channels`.
    InvalidChannel { device: String, channel: u8, max_channels: u8 },
    /// Invalid configuration, or a failure that combines several others.
    ConfigError(String),
    /// The request timed out.
    Timeout,
    /// A body could not be encoded as JSON.
    Json(String),
}

/// The human-readable text of an error (what `Display` shows).
pub open spec fn error_text(e: WledError) -> Seq<char> {
    match e {
        WledError::Network { device, source } =>
            "Network error for device '"@ + device@ + "': "@ + source@,
        WledError::Api { device, status, message } =>
            "API error for device '"@ + device@ + "': HTTP "@ + decimal(status as nat) + " - "@
                + message@,
        WledError::DeviceNotFound(name) => "Device not found: '"@ + name@ + "'"@,
        WledError::PresetNotFound(name) => "Preset not found: '"@ + name@ + "'"@,
        WledError::InvalidChannel { device, channel, max_channels } =>
            "Invalid channel "@ + decimal(channel as nat) + " for device '"@ + device@
                + "': max is "@ + decimal(max_channels as nat),
        WledError::ConfigError(msg) => "Config error: "@ + msg@,
        WledError::Timeout => "Request timed out"@,
        WledError::Json(msg) => "JSON error: "@ + msg@,
    }
}

impl WledError {
    /// Appends the text of this error to `out`.
    pub fn write_message(&self, out: &mut String)
        ensures
            final(out)@ == old(out)@ + error_text(*self),
    {
        match self {
            WledError::Network { device, source } => {
                out.append("Network error for device '");
                out.append(device.as_str());
                out.append("': ");
                out.append(source.as_str());
            },
            WledError::Api { device, status, message } => {
                out.append("API error for device '");
                out.append(device.as_str());
                out.append("': HTTP ");
                push_decimal(out, *status as u64);
                out.append(" - ");
                out.append(message.as_str());
            },
            WledError::DeviceNotFound(name) => {
                out.append("Device not found: '");
                out.append(name.as_str());
                out.append("'");
            },
            WledError::PresetNotFound(name) => {
                out.append("Preset not found: '");
                out.append(name.as_str());
                out.append("'");
            },
            WledError::InvalidChannel { device, channel, max_channels } => {
                out.append("Invalid channel ");
                push_decimal(out, *channel as u64);
                out.append(" for device '");
                out.append(device.as_str());
                out.append("': max is ");
                push_decimal(out, *max_channels as u64);
            },
            WledError::ConfigError(msg) => {
                out.append("Config error: ");
                out.append(msg.as_str());
            },
            WledError::Timeout => {
                out.append("Request timed out");
            },
            WledError::Json(msg) => {
                out.append("JSON error: ");
                out.append(msg.as_str());
            },
        }
    }

    /// The text of this error (what the error's `Display` shows).
    pub fn message(&self) -> (s: String)
        ensures
            s@ == error_text(*self),
    {
        let mut s = String::new();
        self.write_message(&mut s);
        s
    }
}

} // verus!

verus! {

/// What a combined failure is about.
#[derive(Debug, Clone, Copy, PartialEq, Eq)]
pub enum FailureScope {
    /// Failures of groups during a preset broadcast.
    Broadcast,
    /// Failures of follower devices during a forced re-sync.
    Resync,
}

/// One failure as it appears in a combined message: `name: error text`.
pub open spec fn failure_item(f: (Seq<char>, WledError)) -> Seq<char> {
    f.0 + ": "@ + error_text(f.1)
}

/// The failures joined with `", "`, in the order given.
pub open spec fn join_failures(fs: Seq<(Seq<char>, WledError)>) -> Seq<char>
    decreases fs.len(),
{
    if fs.len() == 0 {
        Seq::empty()
    } else if fs.len() == 1 {
        failure_item(fs[0])
    } else {
        join_failures(fs.drop_last()) + ", "@ + failure_item(fs.last())
    }
}

/// The message of a combined failure.
pub open spec fn failure_summary(scope: FailureScope, fs: Seq<(Seq<char>, WledError)>) -> Seq<char> {
    match scope {
        FailureScope::Broadcast => "Broadcast failed for "@ + decimal(fs.len()) + " group(s): "@
            + join_failures(fs),
        FailureScope::Resync => "force_resync failed for "@ + decimal(fs.len()) + " device(s): "@
            + join_failures(fs),
    }
}

/// The failures as name/error pairs of plain values.
pub open spec fn failures_view(fs: Seq<(String, WledError)>) -> Seq<(Seq<char>, WledError)> {
    fs.map_values(|f: (String, WledError)| (f.0@, f.1))
}

/// Combines the failures of a fan-out operation: `Ok` when there are none,
/// otherwise one `ConfigError` that counts them and lists each as `name: error`.
pub fn combine_failures(scope: FailureScope, failures: &Vec<(String, WledError)>) -> (r: Result<(), WledError>)
    ensures
        failures@.len() == 0 <==> r is Ok,
        r matches Err(e) ==> (e matches WledError::ConfigError(m) && m@ == failure_summary(
            scope,
            failures_view(failures@),
        )),
{
    if failures.len() == 0 {
        return Ok(());
    }
    let mut joined = String::new();
    let mut i: usize = 0;
    while i < failures.len()
        invariant
            i <= failures.len(),
            joined@ == join_failures(failures_view(failures@).subrange(0, i as int)),
        decreases failures.len() - i,
    {
        let ghost fv = failures_view(failures@);
        assert(fv.subrange(0, i + 1).drop_last() =~= fv.subrange(0, i as int));
        if i > 0 {
            joined.append(", ");
        }
        joined.append(failures[i].0.as_str());
        joined.append(": ");
        failures[i].1.write_message(&mut joined);
        proof {
            if i == 0 {
                assert(join_failures(fv.subrange(0, 0)) =~= Seq::<char>::empty());
                assert(joined@ =~= failure_item(fv.subrange(0, 1)[0]));
            } else {
                assert(joined@ =~= join_failures(fv.subrange(0, i as int)) + ", "@ + failure_item(
                    fv.subrange(0, i + 1).last(),
                ));
            }
        }
        i = i + 1;
    }
    assert(failures_view(failures@).subrange(0, failures.len() as int) =~= failures_view(failures@));
    let mut msg = match scope {
        FailureScope::Broadcast => String::from_str("Broadcast failed for "),
        FailureScope::Resync => String::from_str("force_resync failed for "),
    };
    push_decimal(&mut msg, failures.len() as u64);
    match scope {
        FailureScope::Broadcast => msg.append(" group(s): "),
        FailureScope::Resync => msg.append(" device(s): "),
    }
    msg.append(joined.as_str());
    Err(WledError::ConfigError(msg))
}

} // verus!
