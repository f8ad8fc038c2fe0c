//! Input devices as the web UI sees them: which enumerated devices are
//! listed, which one is marked default, and which device a session opens.

use vstd::prelude::*;

use crate::text::{opt_chars, str_eq};

verus! {

/// Why audio capture could not start.
#[derive(Debug, Clone)]
pub enum AudioError {
    Unimplemented,
    /// No input device has the requested name.
    DeviceNotFound(String),
    /// The host has no default input device.
    NoDevices,
    /// The device's sample format cannot be captured.
    NoSupportedConfig,
    /// The resampler could not be built or failed.
    Resampler(String),
    /// The audio backend reported an error.
    Backend(String),
}

/// An input device offered to the user.
#[derive(Clone, Debug)]
pub struct InputDevice {
    /// Identifier handed to the UI and accepted back when starting a
    /// session; this is the device's reported name.
    pub id: String,
    pub name: String,
    pub is_default: bool,
    pub default_sample_rate: u32,
    pub default_channels: u16,
}

/// What enumerating one device told: its name and its default input
/// configuration (sample rate, channels), each `None` when it could not be read.
#[derive(Clone, Debug)]
pub struct DeviceProbe {
    pub name: Option<String>,
    pub config: Option<(u32, u16)>,
}

/// A listed device as (name, is default, sample rate, channels).
pub open spec fn device_view(d: InputDevice) -> (Seq<char>, bool, u32, u16) {
    (d.name@, d.is_default, d.default_sample_rate, d.default_channels)
}

/// The devices listed for `probes`: those whose name and configuration could
/// both be read, in order, marked default when their name is the default
/// device's name.
pub open spec fn device_list(probes: Seq<DeviceProbe>, default_name: Option<Seq<char>>) -> Seq<
    (Seq<char>, bool, u32, u16),
>
    decreases probes.len(),
{
    if probes.len() == 0 {
        Seq::empty()
    } else {
        let rest = device_list(probes.drop_last(), default_name);
        let p = probes.last();
        match (p.name, p.config) {
            (Some(n), Some((rate, channels))) => rest.push(
                (n@, default_name == Some(n@), rate, channels),
            ),
            _ => rest,
        }
    }
}

fn device_from(name: String, rate: u32, channels: u16, default_name: &Option<String>) -> (d:
    InputDevice)
    ensures
        device_view(d) == (
            name@,
            match default_name {
                Some(dn) => dn@ == name@,
                None => false,
            },
            rate,
            channels,
        ),
        d.id@ == name@,
{
    let is_default = match default_name {
        Some(dn) => str_eq(dn.as_str(), name.as_str()),
        None => false,
    };
    InputDevice {
        id: name.clone(),
        name,
        is_default,
        default_sample_rate: rate,
        default_channels: channels,
    }
}

/// The device list for enumerated devices: unreadable devices are skipped,
/// and a device is the default one when its name is the default device's.
pub fn build_device_list(probes: Vec<DeviceProbe>, default_name: Option<String>) -> (out: Vec<
    InputDevice,
>)
    ensures
        out@.map_values(|d: InputDevice| device_view(d)) == device_list(
            probes@,
            opt_chars(default_name),
        ),
        forall|i: int| 0 <= i < out@.len() ==> (#[trigger] out@[i]).id@ == out@[i].name@,
{
    let ghost dn = opt_chars(default_name);
    let ghost all = probes@;
    let mut out: Vec<InputDevice> = Vec::new();
    let mut i: usize = 0;
    let n = probes.len();
    for p in it: probes.into_iter()
        invariant
            i == it.index(),
            it.seq() == all,
            n == all.len(),
            dn == opt_chars(default_name),
            out@.map_values(|d: InputDevice| device_view(d)) == device_list(
                all.subrange(0, i as int),
                dn,
            ),
            forall|k: int| 0 <= k < out@.len() ==> (#[trigger] out@[k]).id@ == out@[k].name@,
    {
        proof {
            let pre = all.subrange(0, i + 1);
            assert(pre.drop_last() == all.subrange(0, i as int));
            assert(pre.last() == p);
        }
        let ghost before = out@;
        match (p.name, p.config) {
            (Some(name), Some((rate, channels))) => {
                let d = device_from(name, rate, channels, &default_name);
                out.push(d);
                assert(out@.map_values(|d: InputDevice| device_view(d)) =~= before.map_values(
                    |d: InputDevice| device_view(d),
                ).push(device_view(d)));
            },
            _ => {},
        }
        i = i + 1;
    }
    assert(all.subrange(0, n as int) == all);
    out
}

/// How many listed devices are marked default.
pub open spec fn default_count(list: Seq<(Seq<char>, bool, u32, u16)>) -> nat
    decreases list.len(),
{
    if list.len() == 0 {
        0
    } else {
        default_count(list.drop_last()) + if list.last().1 {
            1nat
        } else {
            0nat
        }
    }
}

/// The names of the readable devices among `probes`.
pub open spec fn readable_names(probes: Seq<DeviceProbe>) -> Seq<Seq<char>>
    decreases probes.len(),
{
    if probes.len() == 0 {
        Seq::empty()
    } else {
        let rest = readable_names(probes.drop_last());
        let p = probes.last();
        match (p.name, p.config) {
            (Some(n), Some(_)) => rest.push(n@),
            _ => rest,
        }
    }
}

proof fn lemma_list_names(probes: Seq<DeviceProbe>, default_name: Option<Seq<char>>)
    ensures
        device_list(probes, default_name).len() == readable_names(probes).len(),
        forall|i: int|
            0 <= i < readable_names(probes).len() ==> (#[trigger] device_list(
                probes,
                default_name,
            )[i]).0 == readable_names(probes)[i] && device_list(probes, default_name)[i].1 == (
            default_name == Some(readable_names(probes)[i])),
    decreases probes.len(),
{
    if probes.len() > 0 {
        lemma_list_names(probes.drop_last(), default_name);
    }
}

proof fn lemma_count_bound(list: Seq<(Seq<char>, bool, u32, u16)>, name: Seq<char>)
    requires
        forall|i: int| 0 <= i < list.len() ==> (#[trigger] list[i]).1 ==> list[i].0 == name,
        forall|i: int, j: int|
            0 <= i < list.len() && 0 <= j < list.len() && i != j ==> list[i].0 != list[j].0,
    ensures
        default_count(list) <= 1,
        default_count(list) == 1 ==> exists|i: int| 0 <= i < list.len() && list[i].1,
    decreases list.len(),
{
    if list.len() > 0 {
        let rest = list.drop_last();
        assert forall|i: int| 0 <= i < rest.len() && (#[trigger] rest[i]).1 implies rest[i].0
            == name by {
            assert(rest[i] == list[i]);
        }
        assert forall|i: int, j: int|
            0 <= i < rest.len() && 0 <= j < rest.len() && i != j implies rest[i].0 != rest[j].0 by {
            assert(rest[i] == list[i] && rest[j] == list[j]);
        }
        lemma_count_bound(rest, name);
        if list.last().1 && default_count(rest) == 1 {
            let i = choose|i: int| 0 <= i < rest.len() && rest[i].1;
            assert(list[i] == rest[i]);
            assert(list[i].0 == name);
            assert(list[list.len() - 1].0 == name);
            assert(false);
        }
    }
}

/// When the readable devices have distinct names, at most one of them is
/// marked default.
pub proof fn lemma_at_most_one_default(probes: Seq<DeviceProbe>, default_name: Option<Seq<char>>)
    requires
        forall|i: int, j: int|
            0 <= i < readable_names(probes).len() && 0 <= j < readable_names(probes).len() && i
                != j ==> readable_names(probes)[i] != readable_names(probes)[j],
    ensures
        default_count(device_list(probes, default_name)) <= 1,
{
    lemma_list_names(probes, default_name);
    let list = device_list(probes, default_name);
    match default_name {
        Some(name) => {
            lemma_count_bound(list, name);
        },
        None => {
            lemma_count_bound(list, Seq::empty());
        },
    }
}

/// Whether an enumerated device's name (if readable) is `id`.
pub open spec fn has_name(name: Option<String>, id: Seq<char>) -> bool {
    match name {
        Some(m) => m@ == id,
        None => false,
    }
}

/// The device a capture opens.
#[derive(Debug, Clone, Copy, PartialEq, Eq, Structural)]
pub enum DeviceChoice {
    /// The enumerated device at this position.
    Listed(usize),
    /// The host's default input device.
    HostDefault,
}

/// Picks the device to capture from: a requested name picks the first
/// enumerated device with that name, else no device was found; no request
/// picks the host's default, if it has one.
pub fn choose_device(requested: Option<&str>, names: &Vec<Option<String>>, has_default: bool) -> (r:
    Result<DeviceChoice, AudioError>)
    ensures
        match requested {
            Some(id) => match r {
                Ok(DeviceChoice::Listed(i)) => i < names@.len() && has_name(names@[i as int], id@)
                    && forall|k: int| 0 <= k < i ==> !has_name(#[trigger] names@[k], id@),
                Ok(DeviceChoice::HostDefault) => false,
                Err(e) => (match e {
                    AudioError::DeviceNotFound(m) => m@ == id@,
                    _ => false,
                }) && forall|k: int| 0 <= k < names@.len() ==> !has_name(#[trigger] names@[k], id@),
            },
            None => match r {
                Ok(c) => has_default && c == DeviceChoice::HostDefault,
                Err(e) => !has_default && e is NoDevices,
            },
        },
{
    match requested {
        Some(id) => {
            let mut i: usize = 0;
            while i < names.len()
                invariant
                    requested == Some(id),
                    i <= names@.len(),
                    forall|k: int| 0 <= k < i ==> !has_name(#[trigger] names@[k], id@),
                decreases names@.len() - i,
            {
                match &names[i] {
                    Some(n) => {
                        if str_eq(n.as_str(), id) {
                            assert(names@[i as int] == Some(*n));
                            assert(has_name(names@[i as int], id@));
                            return Ok(DeviceChoice::Listed(i));
                        }
                    },
                    None => {},
                }
                i = i + 1;
            }
            Err(AudioError::DeviceNotFound(id.to_owned()))
        },
        None => {
            if has_default {
                Ok(DeviceChoice::HostDefault)
            } else {
                Err(AudioError::NoDevices)
            }
        },
    }
}

/// When every device's name and configuration can be read, every device is
/// listed, in order, with its own name, rate and channels, marked default
/// exactly when its name is the default device's; an unreadable device
/// adds nothing.
pub proof fn lemma_device_list(probes: Seq<DeviceProbe>, default_name: Option<Seq<char>>, p: DeviceProbe)
    ensures
        (forall|i: int| 0 <= i < probes.len() ==> (#[trigger] probes[i]).name is Some
            && probes[i].config is Some) ==> {
            &&& device_list(probes, default_name).len() == probes.len()
            &&& forall|i: int|
                0 <= i < probes.len() ==> #[trigger] device_list(probes, default_name)[i] == (
                    probes[i].name.unwrap()@,
                    default_name == Some(probes[i].name.unwrap()@),
                    probes[i].config.unwrap().0,
                    probes[i].config.unwrap().1,
                )
        },
        p.name is None || p.config is None ==> device_list(probes.push(p), default_name)
            == device_list(probes, default_name),
    decreases probes.len(),
{
    assert(probes.push(p).drop_last() == probes);
    if probes.len() > 0 {
        let pre = probes.drop_last();
        lemma_device_list(pre, default_name, p);
        if forall|i: int| 0 <= i < probes.len() ==> (#[trigger] probes[i]).name is Some
            && probes[i].config is Some {
            assert forall|i: int| 0 <= i < pre.len() implies (#[trigger] pre[i]).name is Some
                && pre[i].config is Some by {
                assert(pre[i] == probes[i]);
            }
            assert forall|i: int| 0 <= i < probes.len() implies #[trigger] device_list(
                probes,
                default_name,
            )[i] == (
                probes[i].name.unwrap()@,
                default_name == Some(probes[i].name.unwrap()@),
                probes[i].config.unwrap().0,
                probes[i].config.unwrap().1,
            ) by {
                if i < pre.len() {
                    assert(pre[i] == probes[i]);
                }
            }
        }
    }
}

/// A device name matches an identifier exactly when it is readable and
/// equal to it.
pub proof fn lemma_has_name(name: Option<String>, id: Seq<char>)
    ensures
        has_name(name, id) <==> (name is Some && name.unwrap()@ == id),
{
}

} // verus!
