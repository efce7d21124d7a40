//! Process-wide ownership of the PortAudio runtime and of physical devices.
use std::collections::HashSet;
use vstd::prelude::*;

use crate::abi::{AUDIO_DEVICE_BUSY, AUDIO_PORTAUDIO_ERROR};
use crate::stats::PA_NO_ERROR;

verus! {

broadcast use vstd::std_specs::hash::group_hash_axioms;

/// How many owners keep PortAudio initialized, and through which function table.
///
/// A function table is known by a number that differs from every other table's.
#[derive(Clone, Copy, Debug, PartialEq, Eq, Structural)]
pub struct PortAudioRuntime {
    pub references: usize,
    pub functions: Option<usize>,
}

impl PortAudioRuntime {
    /// PortAudio is initialized exactly while it has owners.
    pub open spec fn well_formed(self) -> bool {
        self.references == 0 <==> self.functions is None
    }

    /// `functions` may own the runtime alongside its present owners.
    pub open spec fn compatible(self, functions: usize) -> bool {
        self.references == 0 || self.functions == Some(functions)
    }

    /// The runtime with one more owner through `functions`.
    pub open spec fn acquired(self, functions: usize) -> PortAudioRuntime {
        PortAudioRuntime {
            references: (self.references + 1) as usize,
            functions: Some(functions),
        }
    }

    /// The runtime after an owner through `functions` let go of it.
    pub open spec fn released(self, functions: usize) -> PortAudioRuntime {
        if self.references == 0 || self.functions != Some(functions) {
            self
        } else if self.references == 1 {
            PortAudioRuntime { references: 0, functions: None }
        } else {
            PortAudioRuntime { references: (self.references - 1) as usize, ..self }
        }
    }

    /// True when the next owner has to initialize PortAudio first.
    pub fn needs_initialize(&self) -> (needed: bool)
        ensures
            needed == (self.references == 0),
    {
        self.references == 0
    }
}

/// The runtime of a process in which nobody uses PortAudio yet.
pub fn portaudio_runtime() -> (runtime: PortAudioRuntime)
    ensures
        runtime == (PortAudioRuntime { references: 0, functions: None }),
        runtime.well_formed(),
{
    PortAudioRuntime { references: 0, functions: None }
}

/// Takes one reference to the runtime through `functions`.
///
/// `initialize_result` is what initializing PortAudio returned; it matters only where
/// the runtime had no owner, the one case in which PortAudio is to be initialized.
pub fn portaudio_acquire(
    runtime: &mut PortAudioRuntime,
    functions: usize,
    initialize_result: i32,
) -> (result: Result<(), i32>)
    requires
        old(runtime).well_formed(),
        old(runtime).references < usize::MAX,
    ensures
        final(runtime).well_formed(),
        result is Ok <==> old(runtime).compatible(functions) && (old(runtime).references == 0
            ==> initialize_result == PA_NO_ERROR),
        result is Ok ==> *final(runtime) == old(runtime).acquired(functions),
        result matches Err(error) ==> error == AUDIO_PORTAUDIO_ERROR && *final(runtime) == *old(
            runtime,
        ),
{
    if runtime.references == 0 {
        if initialize_result != PA_NO_ERROR {
            return Err(AUDIO_PORTAUDIO_ERROR);
        }
        runtime.functions = Some(functions);
    } else {
        match runtime.functions {
            Some(active) => {
                if active != functions {
                    return Err(AUDIO_PORTAUDIO_ERROR);
                }
            },
            None => {},
        }
    }
    runtime.references = runtime.references + 1;
    Ok(())
}

/// Gives one reference back, and returns whether PortAudio is to be terminated.
///
/// A table that does not own the runtime changes nothing.
pub fn portaudio_release(runtime: &mut PortAudioRuntime, functions: usize) -> (terminate: bool)
    requires
        old(runtime).well_formed(),
    ensures
        final(runtime).well_formed(),
        *final(runtime) == old(runtime).released(functions),
        terminate == (old(runtime).references == 1 && old(runtime).functions == Some(functions)),
{
    if runtime.references == 0 {
        return false;
    }
    match runtime.functions {
        Some(active) => {
            if active != functions {
                return false;
            }
        },
        None => {},
    }
    runtime.references = runtime.references - 1;
    if runtime.references == 0 {
        runtime.functions = None;
        return true;
    }
    false
}

/// Giving a reference back undoes taking it.
pub proof fn law_release_undoes_acquire(runtime: PortAudioRuntime, functions: usize)
    requires
        runtime.well_formed(),
        runtime.references < usize::MAX,
        runtime.compatible(functions),
    ensures
        runtime.acquired(functions).released(functions) == runtime,
{
}

/// PortAudio device indexes that open streams own, across the process.
///
/// Each resolved input and output index is claimed on its own, so that no second
/// stream opens the same full-duplex interface through another pairing.
#[derive(Debug)]
pub struct DeviceLeaseRegistry {
    pub claimed_devices: HashSet<i32>,
}

impl View for DeviceLeaseRegistry {
    type V = Set<i32>;

    open spec fn view(&self) -> Set<i32> {
        self.claimed_devices@
    }
}

/// The registry of a process without open streams.
pub fn device_lease_registry() -> (registry: DeviceLeaseRegistry)
    ensures
        registry@ == Set::<i32>::empty(),
{
    DeviceLeaseRegistry { claimed_devices: HashSet::new() }
}

/// One stream's exclusive reservation of its resolved physical devices.
#[derive(Debug, PartialEq, Eq, Structural)]
pub struct DeviceLease {
    pub input_device: i32,
    pub output_device: i32,
}

impl DeviceLease {
    /// The device indexes that the lease reserves: one or two.
    pub open spec fn devices(self) -> Set<i32> {
        set![self.input_device, self.output_device]
    }

    /// Reserves both devices, or neither where another stream owns one of them.
    pub fn acquire(
        registry: &mut DeviceLeaseRegistry,
        input_device: i32,
        output_device: i32,
    ) -> (result: Result<DeviceLease, i32>)
        ensures
            match result {
                Ok(lease) => {
                    &&& lease.input_device == input_device
                    &&& lease.output_device == output_device
                    &&& old(registry)@.disjoint(lease.devices())
                    &&& final(registry)@ == old(registry)@.union(lease.devices())
                },
                Err(error) => {
                    &&& error == AUDIO_DEVICE_BUSY
                    &&& old(registry)@.contains(input_device) || old(registry)@.contains(
                        output_device,
                    )
                    &&& final(registry)@ == old(registry)@
                },
            },
    {
        if registry.claimed_devices.contains(&input_device)
            || registry.claimed_devices.contains(&output_device) {
            return Err(AUDIO_DEVICE_BUSY);
        }
        registry.claimed_devices.insert(input_device);
        if input_device != output_device {
            registry.claimed_devices.insert(output_device);
        }
        let lease = DeviceLease { input_device, output_device };
        assert(registry@ =~= old(registry)@.union(lease.devices()));
        Ok(lease)
    }

    /// How many devices the lease reserves.
    pub fn count(&self) -> (count: usize)
        ensures
            count == if self.input_device == self.output_device {
                1usize
            } else {
                2usize
            },
    {
        if self.input_device == self.output_device {
            1
        } else {
            2
        }
    }

    /// Gives the reservation up.
    pub fn release(self, registry: &mut DeviceLeaseRegistry)
        ensures
            final(registry)@ == old(registry)@.difference(self.devices()),
    {
        registry.claimed_devices.remove(&self.input_device);
        if self.input_device != self.output_device {
            registry.claimed_devices.remove(&self.output_device);
        }
        assert(registry@ =~= old(registry)@.difference(self.devices()));
    }
}

/// Giving a lease up undoes taking it.
pub proof fn law_lease_release_undoes_acquire(claimed: Set<i32>, lease: DeviceLease)
    requires
        claimed.disjoint(lease.devices()),
    ensures
        claimed.union(lease.devices()).difference(lease.devices()) == claimed,
{
    assert(claimed.union(lease.devices()).difference(lease.devices()) =~= claimed);
}

/// While a lease is held, no second lease can share a device with it: a request that
/// overlaps the claimed devices is not disjoint from them.
pub proof fn law_overlapping_lease_is_busy(
    claimed: Set<i32>,
    held: DeviceLease,
    wanted: DeviceLease,
)
    requires
        held.devices().subset_of(claimed),
        !held.devices().disjoint(wanted.devices()),
    ensures
        claimed.contains(wanted.input_device) || claimed.contains(wanted.output_device),
        !claimed.disjoint(wanted.devices()),
{
    let shared = choose|device: i32|
        held.devices().contains(device) && wanted.devices().contains(device);
    assert(claimed.contains(shared));
    assert(wanted.devices().contains(shared));
}

/// Owners are counted one by one. The first table to take a reference owns the runtime, only
/// that table can take more or give any back, and the last reference given back leaves the
/// runtime without owner or table.
pub proof fn law_references_are_counted(
    runtime: PortAudioRuntime,
    functions: usize,
    stranger: usize,
)
    requires
        runtime.well_formed(),
        runtime.references < usize::MAX,
        functions != stranger,
    ensures
        runtime.compatible(functions) <==> runtime.references == 0 || runtime.functions == Some(
            functions,
        ),
        ({
            let taken = runtime.acquired(functions);
            &&& taken.references == runtime.references + 1
            &&& taken.functions == Some(functions)
            &&& !taken.compatible(stranger)
            &&& taken.released(stranger) == taken
        }),
        runtime.references > 0 && runtime.functions == Some(functions) ==> {
            let given = runtime.released(functions);
            &&& given.references == runtime.references - 1
            &&& given.functions == if runtime.references == 1 {
                None
            } else {
                Some(functions)
            }
        },
        runtime.references == 0 ==> runtime.released(functions) == runtime,
{
}

/// A lease is its two devices and no other.
pub proof fn law_lease_is_its_devices(lease: DeviceLease, device: i32)
    ensures
        lease.devices().contains(device) <==> device == lease.input_device || device
            == lease.output_device,
{
}

} // verus!
