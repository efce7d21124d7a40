//! Semantic mixer paths of CM119 sound interfaces.
//!
//! A path plan is read off the capabilities of the active mixer elements, not off their
//! names: one interface calls its output `Speaker`, another `Headphone`. A layout that
//! is incomplete, ambiguous or does not fit is refused rather than guessed.
use vstd::prelude::*;

use crate::abi::{
    ABI_VERSION, AUDIO_ALSA_ERROR, AUDIO_INVALID_ARGUMENT, AUDIO_OK, AUDIO_UNSUPPORTED,
};
use crate::mixer::{card_name, MixerChannel, MixerDirection};
use crate::sysfs::{resolve_alsa_card_index_from_sysfs, SoundEntry};
use crate::text::{valid_usb_interface_path, CText};

verus! {

/// Paths that a plan holds for each role.
pub const CM119_MIXER_PATH_CAPACITY: usize = 2;

/// Bytes that an element name and its terminator may take.
pub const CM119_MIXER_ELEMENT_NAME_CAPACITY: usize = 64;

/// Capability of a path: its volume can be set.
pub const CM119_MIXER_PATH_VOLUME: u32 = 1;

/// Capability of a path: it can be switched.
pub const CM119_MIXER_PATH_SWITCH: u32 = 2;

/// Size in bytes of the C path plan.
pub const CM119_MIXER_PATHS_SIZE: u32 = 664;

/// The element whose playback switch is a receive compatibility switch, whatever the
/// case of its letters.
pub const CM119_RX_BOOST_ELEMENT: &'static str = "Auto Gain Control";

/// One path of a plan, in the field order of the C structure.
#[derive(Clone, Copy, Debug)]
pub struct Cm119MixerPath {
    pub element: [u8; 64],
    pub element_index: u32,
    pub channel: u32,
    pub direction: u32,
    pub capabilities: u32,
}

/// A path as it is discovered.
#[derive(Clone, Copy, Debug)]
pub struct Cm119MixerPathSource<'a> {
    pub name: &'a [u8],
    pub element_index: u32,
    pub channel: MixerChannel,
    pub direction: MixerDirection,
    pub volume_supported: bool,
    pub switch_supported: bool,
}

/// What a discovered path says.
#[verifier::ext_equal]
pub struct PathSource {
    pub name: Seq<u8>,
    pub element_index: u32,
    pub channel: MixerChannel,
    pub direction: MixerDirection,
    pub volume: bool,
    pub switch: bool,
}

impl<'a> View for Cm119MixerPathSource<'a> {
    type V = PathSource;

    open spec fn view(&self) -> PathSource {
        PathSource {
            name: self.name@,
            element_index: self.element_index,
            channel: self.channel,
            direction: self.direction,
            volume: self.volume_supported,
            switch: self.switch_supported,
        }
    }
}

/// The capability bits of a path.
pub open spec fn capability_bits(volume: bool, switch: bool) -> u32 {
    match (volume, switch) {
        (false, false) => 0,
        (true, false) => CM119_MIXER_PATH_VOLUME,
        (false, true) => CM119_MIXER_PATH_SWITCH,
        (true, true) => 3,
    }
}

impl Cm119MixerPath {
    /// The path holds what `source` says.
    pub open spec fn represents(self, source: PathSource) -> bool {
        &&& self.element@ == crate::text::padded(source.name, 64)
        &&& self.element_index == source.element_index
        &&& self.channel == source.channel.number()
        &&& self.direction == source.direction.number()
        &&& self.capabilities == capability_bits(source.volume, source.switch)
    }

    /// The path is empty.
    pub open spec fn is_blank(self) -> bool {
        &&& self.element@ == crate::text::padded(Seq::empty(), 64)
        &&& self.element_index == 0
        &&& self.channel == 0
        &&& self.direction == 0
        &&& self.capabilities == 0
    }

    /// An empty path.
    pub fn blank() -> (path: Cm119MixerPath)
        ensures
            path.is_blank(),
    {
        let path = Cm119MixerPath {
            element: [0u8; 64],
            element_index: 0,
            channel: 0,
            direction: 0,
            capabilities: 0,
        };
        assert(path.element@ =~= crate::text::padded(Seq::empty(), 64));
        path
    }
}

/// Appends one discovered path to a list of `count` paths.
///
/// A path that can be neither set nor switched is left out. A full list, or a name that
/// does not fit, is refused, and then nothing is changed.
pub fn append_cm119_mixer_path(
    paths: &mut [Cm119MixerPath],
    count: &mut u32,
    source: Cm119MixerPathSource<'_>,
) -> (result: Result<(), i32>)
    requires
        old(paths)@.len() <= u32::MAX,
    ensures
        final(paths)@.len() == old(paths)@.len(),
        !source.volume_supported && !source.switch_supported ==> result is Ok && *final(count)
            == *old(count) && final(paths)@ == old(paths)@,
        (source.volume_supported || source.switch_supported) && (*old(count) >= old(paths)@.len()
            || source.name@.len() >= 64) ==> result == Err::<(), i32>(AUDIO_UNSUPPORTED)
            && *final(count) == *old(count) && final(paths)@ == old(paths)@,
        (source.volume_supported || source.switch_supported) && *old(count) < old(paths)@.len()
            && source.name@.len() < 64 ==> {
            &&& result is Ok
            &&& *final(count) == *old(count) + 1
            &&& final(paths)@[*old(count) as int].represents(source@)
            &&& forall|i: int|
                0 <= i < old(paths)@.len() && i != *old(count) ==> #[trigger] final(paths)@[i]
                    == old(paths)@[i]
        },
{
    if !source.volume_supported && !source.switch_supported {
        return Ok(());
    }
    let index: usize = *count as usize;
    if index >= paths.len() {
        return Err(AUDIO_UNSUPPORTED);
    }
    if source.name.len() >= 64 {
        return Err(AUDIO_UNSUPPORTED);
    }
    let mut path = Cm119MixerPath::blank();
    let copied = crate::text::copy_bytes(&mut path.element, source.name);
    path.element_index = source.element_index;
    path.channel = source.channel.as_ffi();
    path.direction = source.direction.as_ffi();
    path.capabilities = if source.volume_supported {
        if source.switch_supported {
            3
        } else {
            CM119_MIXER_PATH_VOLUME
        }
    } else {
        CM119_MIXER_PATH_SWITCH
    };
    assert(path.represents(source@));
    paths[index] = path;
    *count = *count + 1;
    Ok(())
}

/// One element of a loaded mixer.
#[derive(Debug)]
pub struct MixerElement {
    pub active: bool,
    /// The element's name, where it has one.
    pub name: Option<Vec<u8>>,
    pub index: u32,
    pub capture_volume: bool,
    pub playback_volume: bool,
    pub capture_switch: bool,
    pub playback_switch: bool,
    pub capture_left: bool,
    pub capture_right: bool,
    pub playback_left: bool,
    pub playback_right: bool,
}

/// What a path is for.
#[derive(Clone, Copy, Debug, PartialEq, Eq, Structural)]
pub enum PathRole {
    /// Receive audio: capture volume.
    Receive,
    /// Transmit audio: playback volume on an element without capture volume.
    Transmit,
    /// Sidetone: playback volume on an element that has capture volume too.
    Sidetone,
    /// The receive compatibility switch.
    Compatibility,
}

/// An ASCII letter in lower case, and any other byte as it is.
pub open spec fn lower_case(byte: u8) -> u8 {
    if 65 <= byte <= 90 {
        (byte + 32) as u8
    } else {
        byte
    }
}

/// Two names are equal but for the case of their ASCII letters.
pub open spec fn equal_ignoring_case(left: Seq<u8>, right: Seq<u8>) -> bool {
    &&& left.len() == right.len()
    &&& forall|i: int|
        0 <= i < left.len() ==> lower_case(#[trigger] left[i]) == lower_case(right[i])
}

impl MixerElement {
    /// The element has the channel on its capture side.
    pub open spec fn captures(self, channel: MixerChannel) -> bool {
        match channel {
            MixerChannel::Left => self.capture_left,
            MixerChannel::Right => self.capture_right,
        }
    }

    /// The element has the channel on its playback side.
    pub open spec fn plays(self, channel: MixerChannel) -> bool {
        match channel {
            MixerChannel::Left => self.playback_left,
            MixerChannel::Right => self.playback_right,
        }
    }

    /// The element is the receive compatibility switch.
    pub open spec fn is_compatibility_switch(self) -> bool {
        &&& equal_ignoring_case(
            self.name->0@,
            vstd::utf8::encode_utf8(CM119_RX_BOOST_ELEMENT@),
        )
        &&& self.playback_switch
    }

    /// A path of this element.
    pub open spec fn path(
        self,
        channel: MixerChannel,
        direction: MixerDirection,
        volume: bool,
        switch: bool,
    ) -> PathSource {
        PathSource {
            name: self.name->0@,
            element_index: self.index,
            channel,
            direction,
            volume,
            switch,
        }
    }

    /// The paths of one channel of an active, named element.
    ///
    /// A channel of the compatibility switch is that and nothing else. Otherwise its
    /// capture side is a receive path, and its playback side a sidetone path where the
    /// element has capture volume, and a transmit path where it has not.
    pub open spec fn channel_paths(self, channel: MixerChannel) -> Seq<(PathRole, PathSource)> {
        let receive = if self.capture_volume && self.captures(channel) {
            seq![
                (
                    PathRole::Receive,
                    self.path(channel, MixerDirection::Capture, true, self.capture_switch),
                ),
            ]
        } else {
            Seq::empty()
        };
        let playback = if self.playback_volume && self.plays(channel) {
            seq![
                (
                    if self.capture_volume {
                        PathRole::Sidetone
                    } else {
                        PathRole::Transmit
                    },
                    self.path(channel, MixerDirection::Playback, true, self.playback_switch),
                ),
            ]
        } else {
            Seq::empty()
        };
        if self.is_compatibility_switch() && self.plays(channel) {
            seq![
                (
                    PathRole::Compatibility,
                    self.path(channel, MixerDirection::Playback, false, true),
                ),
            ]
        } else {
            receive + playback
        }
    }

    /// The paths of an element, left channel first.
    pub open spec fn paths(self) -> Seq<(PathRole, PathSource)> {
        self.channel_paths(MixerChannel::Left) + self.channel_paths(MixerChannel::Right)
    }
}

/// The paths that have been accepted for each role.
#[verifier::ext_equal]
pub struct PathPlan {
    pub receive: Seq<PathSource>,
    pub transmit: Seq<PathSource>,
    pub sidetone: Seq<PathSource>,
    pub compatibility: Seq<PathSource>,
}

impl PathPlan {
    /// A plan without paths.
    pub open spec fn empty() -> PathPlan {
        PathPlan {
            receive: Seq::empty(),
            transmit: Seq::empty(),
            sidetone: Seq::empty(),
            compatibility: Seq::empty(),
        }
    }

    /// The paths of one role.
    pub open spec fn role(self, role: PathRole) -> Seq<PathSource> {
        match role {
            PathRole::Receive => self.receive,
            PathRole::Transmit => self.transmit,
            PathRole::Sidetone => self.sidetone,
            PathRole::Compatibility => self.compatibility,
        }
    }

    /// The plan with one more path.
    pub open spec fn with(self, role: PathRole, path: PathSource) -> PathPlan {
        match role {
            PathRole::Receive => PathPlan { receive: self.receive.push(path), ..self },
            PathRole::Transmit => PathPlan { transmit: self.transmit.push(path), ..self },
            PathRole::Sidetone => PathPlan { sidetone: self.sidetone.push(path), ..self },
            PathRole::Compatibility => PathPlan {
                compatibility: self.compatibility.push(path),
                ..self
            },
        }
    }

    /// The plan after one more path was discovered. Only the first two transmit paths
    /// are controlled, and further ones are left alone; a third path of another role,
    /// or a name that does not fit, cannot be represented.
    pub open spec fn extended(self, role: PathRole, path: PathSource) -> Result<PathPlan, i32> {
        if self.role(role).len() >= 2 {
            if role == PathRole::Transmit {
                Ok(self)
            } else {
                Err(AUDIO_UNSUPPORTED)
            }
        } else if path.name.len() >= 64 {
            Err(AUDIO_UNSUPPORTED)
        } else {
            Ok(self.with(role, path))
        }
    }

    /// The plan after a sequence of paths was discovered.
    pub open spec fn extended_by(self, paths: Seq<(PathRole, PathSource)>) -> Result<
        PathPlan,
        i32,
    >
        decreases paths.len(),
    {
        if paths.len() == 0 {
            Ok(self)
        } else {
            match self.extended_by(paths.drop_last()) {
                Ok(plan) => plan.extended(paths.last().0, paths.last().1),
                Err(error) => Err(error),
            }
        }
    }
}

/// The plan of the elements up to the first that cannot be represented. Inactive
/// elements are passed over; an active one without a name is ALSA's failure.
pub open spec fn classified(elements: Seq<MixerElement>) -> Result<PathPlan, i32>
    decreases elements.len(),
{
    if elements.len() == 0 {
        Ok(PathPlan::empty())
    } else {
        match classified(elements.drop_last()) {
            Err(error) => Err(error),
            Ok(plan) => {
                let element = elements.last();
                if !element.active {
                    Ok(plan)
                } else if element.name is None {
                    Err(AUDIO_ALSA_ERROR)
                } else {
                    plan.extended_by(element.paths())
                }
            },
        }
    }
}

/// The complete plan of a mixer: it needs a receive and a transmit path.
pub open spec fn path_plan(elements: Seq<MixerElement>) -> Result<PathPlan, i32> {
    match classified(elements) {
        Ok(plan) => if plan.receive.len() == 0 || plan.transmit.len() == 0 {
            Err(AUDIO_UNSUPPORTED)
        } else {
            Ok(plan)
        },
        Err(error) => Err(error),
    }
}

/// A path plan, in the field order of the C structure.
#[derive(Clone, Copy, Debug)]
pub struct Cm119MixerPaths {
    pub struct_size: u32,
    pub abi_version: u32,
    pub rx_capture_path_count: u32,
    pub tx_playback_path_count: u32,
    pub sidetone_path_count: u32,
    pub rx_compatibility_switch_path_count: u32,
    pub rx_capture_paths: [Cm119MixerPath; 2],
    pub tx_playback_paths: [Cm119MixerPath; 2],
    pub sidetone_paths: [Cm119MixerPath; 2],
    pub rx_compatibility_switch_paths: [Cm119MixerPath; 2],
}

/// A list of paths with its count holds exactly `sources`, and is empty beyond them.
pub open spec fn list_holds(
    paths: Seq<Cm119MixerPath>,
    count: u32,
    sources: Seq<PathSource>,
) -> bool {
    &&& paths.len() == 2
    &&& count == sources.len()
    &&& sources.len() <= 2
    &&& forall|i: int| 0 <= i < sources.len() ==> (#[trigger] paths[i]).represents(sources[i])
    &&& forall|i: int| sources.len() <= i < 2 ==> (#[trigger] paths[i]).is_blank()
}

impl Cm119MixerPaths {
    /// The structure holds exactly `plan`.
    pub open spec fn holds(self, plan: PathPlan) -> bool {
        &&& list_holds(self.rx_capture_paths@, self.rx_capture_path_count, plan.receive)
        &&& list_holds(self.tx_playback_paths@, self.tx_playback_path_count, plan.transmit)
        &&& list_holds(self.sidetone_paths@, self.sidetone_path_count, plan.sidetone)
        &&& list_holds(
            self.rx_compatibility_switch_paths@,
            self.rx_compatibility_switch_path_count,
            plan.compatibility,
        )
    }

    /// Only the caller's size is set.
    pub open spec fn is_cleared(self, struct_size: u32) -> bool {
        &&& self.struct_size == struct_size
        &&& self.abi_version == 0
        &&& self.holds(PathPlan::empty())
    }

    /// A structure of which only the caller's size is set.
    pub fn cleared(struct_size: u32) -> (paths: Cm119MixerPaths)
        ensures
            paths.is_cleared(struct_size),
    {
        let blank = Cm119MixerPath::blank();
        Cm119MixerPaths {
            struct_size,
            abi_version: 0,
            rx_capture_path_count: 0,
            tx_playback_path_count: 0,
            sidetone_path_count: 0,
            rx_compatibility_switch_path_count: 0,
            rx_capture_paths: [blank; 2],
            tx_playback_paths: [blank; 2],
            sidetone_paths: [blank; 2],
            rx_compatibility_switch_paths: [blank; 2],
        }
    }
}

proof fn lemma_extended_by_parts(
    plan: PathPlan,
    first: Seq<(PathRole, PathSource)>,
    second: Seq<(PathRole, PathSource)>,
)
    ensures
        plan.extended_by(first + second) == match plan.extended_by(first) {
            Ok(middle) => middle.extended_by(second),
            Err(error) => Err::<PathPlan, i32>(error),
        },
    decreases second.len(),
{
    if second.len() == 0 {
        assert(first + second =~= first);
    } else {
        lemma_extended_by_parts(plan, first, second.drop_last());
        assert((first + second).drop_last() =~= first + second.drop_last());
        assert((first + second).last() == second.last());
    }
}

proof fn lemma_extended_by_one(plan: PathPlan, role: PathRole, path: PathSource)
    ensures
        plan.extended_by(seq![(role, path)]) == plan.extended(role, path),
        plan.extended_by(Seq::empty()) == Ok::<PathPlan, i32>(plan),
{
    let one = seq![(role, path)];
    assert(one.drop_last() =~= Seq::<(PathRole, PathSource)>::empty());
    assert(plan.extended_by(one.drop_last()) == Ok::<PathPlan, i32>(plan));
}

fn same_ignoring_case(left: &[u8], right: &[u8]) -> (same: bool)
    ensures
        same == equal_ignoring_case(left@, right@),
{
    if left.len() != right.len() {
        return false;
    }
    let mut index: usize = 0;
    while index < left.len()
        invariant
            index <= left@.len(),
            left@.len() == right@.len(),
            forall|j: int|
                0 <= j < index ==> lower_case(#[trigger] left@[j]) == lower_case(right@[j]),
        decreases left@.len() - index,
    {
        let a: u8 = left[index];
        let b: u8 = right[index];
        let a: u8 = if 65 <= a && a <= 90 {
            a + 32
        } else {
            a
        };
        let b: u8 = if 65 <= b && b <= 90 {
            b + 32
        } else {
            b
        };
        if a != b {
            assert(lower_case(left@[index as int]) != lower_case(right@[index as int]));
            return false;
        }
        index = index + 1;
    }
    true
}

impl Cm119MixerPaths {
    /// `self` differs from `other` in its paths at most.
    pub open spec fn same_header(self, other: Cm119MixerPaths) -> bool {
        self.struct_size == other.struct_size && self.abi_version == other.abi_version
    }

    /// Adds one discovered path to the plan.
    fn add_path(
        &mut self,
        Ghost(plan): Ghost<PathPlan>,
        role: PathRole,
        source: Cm119MixerPathSource<'_>,
    ) -> (result: Result<(), i32>)
        requires
            old(self).holds(plan),
            source.volume_supported || source.switch_supported,
        ensures
            final(self).same_header(*old(self)),
            match plan.extended(role, source@) {
                Ok(longer) => result is Ok && final(self).holds(longer),
                Err(error) => result == Err::<(), i32>(error),
            },
    {
        match role {
            PathRole::Receive => append_cm119_mixer_path(
                &mut self.rx_capture_paths,
                &mut self.rx_capture_path_count,
                source,
            ),
            PathRole::Transmit => {
                if self.tx_playback_path_count < 2 {
                    append_cm119_mixer_path(
                        &mut self.tx_playback_paths,
                        &mut self.tx_playback_path_count,
                        source,
                    )
                } else {
                    Ok(())
                }
            },
            PathRole::Sidetone => append_cm119_mixer_path(
                &mut self.sidetone_paths,
                &mut self.sidetone_path_count,
                source,
            ),
            PathRole::Compatibility => append_cm119_mixer_path(
                &mut self.rx_compatibility_switch_paths,
                &mut self.rx_compatibility_switch_path_count,
                source,
            ),
        }
    }

    /// Adds the paths of one channel of an active, named element.
    fn add_channel(
        &mut self,
        Ghost(plan): Ghost<PathPlan>,
        element: &MixerElement,
        name: &[u8],
        compatibility_switch: bool,
        channel: MixerChannel,
    ) -> (result: Result<(), i32>)
        requires
            old(self).holds(plan),
            element.name is Some,
            name@ == element.name->0@,
            compatibility_switch == element.is_compatibility_switch(),
        ensures
            final(self).same_header(*old(self)),
            match plan.extended_by(element.channel_paths(channel)) {
                Ok(longer) => result is Ok && final(self).holds(longer),
                Err(error) => result == Err::<(), i32>(error),
            },
    {
        let captures: bool = match channel {
            MixerChannel::Left => element.capture_left,
            MixerChannel::Right => element.capture_right,
        };
        let plays: bool = match channel {
            MixerChannel::Left => element.playback_left,
            MixerChannel::Right => element.playback_right,
        };
        if compatibility_switch && plays {
            proof {
                lemma_extended_by_one(
                    plan,
                    PathRole::Compatibility,
                    element.path(channel, MixerDirection::Playback, false, true),
                );
            }
            return self.add_path(
                Ghost(plan),
                PathRole::Compatibility,
                Cm119MixerPathSource {
                    name,
                    element_index: element.index,
                    channel,
                    direction: MixerDirection::Playback,
                    volume_supported: false,
                    switch_supported: true,
                },
            );
        }
        let ghost receive_path = element.path(
            channel,
            MixerDirection::Capture,
            true,
            element.capture_switch,
        );
        let ghost playback_path = element.path(
            channel,
            MixerDirection::Playback,
            true,
            element.playback_switch,
        );
        let ghost receive = if element.capture_volume && captures {
            seq![(PathRole::Receive, receive_path)]
        } else {
            Seq::empty()
        };
        let role: PathRole = if element.capture_volume {
            PathRole::Sidetone
        } else {
            PathRole::Transmit
        };
        let ghost playback = if element.playback_volume && plays {
            seq![(role, playback_path)]
        } else {
            Seq::empty()
        };
        proof {
            assert(element.channel_paths(channel) == receive + playback);
            lemma_extended_by_parts(plan, receive, playback);
            lemma_extended_by_one(plan, PathRole::Receive, receive_path);
        }
        let ghost mut middle = plan;
        if element.capture_volume && captures {
            match self.add_path(
                Ghost(plan),
                PathRole::Receive,
                Cm119MixerPathSource {
                    name,
                    element_index: element.index,
                    channel,
                    direction: MixerDirection::Capture,
                    volume_supported: true,
                    switch_supported: element.capture_switch,
                },
            ) {
                Ok(()) => {},
                Err(error) => return Err(error),
            }
            proof {
                middle = plan.extended(PathRole::Receive, receive_path)->Ok_0;
            }
        }
        proof {
            assert(plan.extended_by(receive) == Ok::<PathPlan, i32>(middle));
            lemma_extended_by_one(middle, role, playback_path);
        }
        if element.playback_volume && plays {
            return self.add_path(
                Ghost(middle),
                role,
                Cm119MixerPathSource {
                    name,
                    element_index: element.index,
                    channel,
                    direction: MixerDirection::Playback,
                    volume_supported: true,
                    switch_supported: element.playback_switch,
                },
            );
        }
        Ok(())
    }

    /// Adds the paths of an active, named element.
    fn add_element(
        &mut self,
        Ghost(plan): Ghost<PathPlan>,
        element: &MixerElement,
        name: &[u8],
    ) -> (result: Result<(), i32>)
        requires
            old(self).holds(plan),
            element.name is Some,
            name@ == element.name->0@,
        ensures
            final(self).same_header(*old(self)),
            match plan.extended_by(element.paths()) {
                Ok(longer) => result is Ok && final(self).holds(longer),
                Err(error) => result == Err::<(), i32>(error),
            },
    {
        let compatibility_switch: bool = same_ignoring_case(
            name,
            CM119_RX_BOOST_ELEMENT.as_bytes(),
        ) && element.playback_switch;
        proof {
            lemma_extended_by_parts(
                plan,
                element.channel_paths(MixerChannel::Left),
                element.channel_paths(MixerChannel::Right),
            );
        }
        match self.add_channel(
            Ghost(plan),
            element,
            name,
            compatibility_switch,
            MixerChannel::Left,
        ) {
            Ok(()) => {},
            Err(error) => return Err(error),
        }
        let ghost middle = plan.extended_by(element.channel_paths(MixerChannel::Left))->Ok_0;
        self.add_channel(
            Ghost(middle),
            element,
            name,
            compatibility_switch,
            MixerChannel::Right,
        )
    }
}

/// Reads the path plan off the elements of a loaded mixer.
pub fn classify_cm119_mixer(elements: &Vec<MixerElement>, struct_size: u32) -> (result: Result<
    Cm119MixerPaths,
    i32,
>)
    ensures
        match path_plan(elements@) {
            Ok(plan) => result matches Ok(paths) && {
                &&& paths.struct_size == struct_size
                &&& paths.abi_version == ABI_VERSION
                &&& paths.holds(plan)
            },
            Err(error) => result matches Err(reported) && reported == error,
        },
{
    let mut resolved = Cm119MixerPaths::cleared(struct_size);
    resolved.abi_version = ABI_VERSION;
    let ghost mut plan = PathPlan::empty();
    let mut index: usize = 0;
    assert(elements@.take(0) =~= Seq::<MixerElement>::empty());
    while index < elements.len()
        invariant
            index <= elements@.len(),
            resolved.struct_size == struct_size,
            resolved.abi_version == ABI_VERSION,
            resolved.holds(plan),
            classified(elements@.take(index as int)) == Ok::<PathPlan, i32>(plan),
        decreases elements@.len() - index,
    {
        let element: &MixerElement = &elements[index];
        proof {
            assert(elements@.take(index + 1).drop_last() =~= elements@.take(index as int));
            assert(elements@.take(index + 1).last() == *element);
        }
        if element.active {
            match &element.name {
                Some(name) => {
                    match resolved.add_element(Ghost(plan), element, name.as_slice()) {
                        Ok(()) => {},
                        Err(error) => {
                            proof {
                                lemma_fault_is_final(elements@, index + 1, error);
                            }
                            return Err(error);
                        },
                    }
                    proof {
                        plan = plan.extended_by(element.paths())->Ok_0;
                    }
                },
                None => {
                    proof {
                        lemma_fault_is_final(elements@, index + 1, AUDIO_ALSA_ERROR);
                    }
                    return Err(AUDIO_ALSA_ERROR);
                },
            }
        }
        index = index + 1;
    }
    assert(elements@.take(index as int) =~= elements@);
    if resolved.rx_capture_path_count == 0 || resolved.tx_playback_path_count == 0 {
        return Err(AUDIO_UNSUPPORTED);
    }
    Ok(resolved)
}

proof fn lemma_fault_is_final(elements: Seq<MixerElement>, count: int, error: i32)
    requires
        0 <= count <= elements.len(),
        classified(elements.take(count)) == Err::<PathPlan, i32>(error),
    ensures
        classified(elements) == Err::<PathPlan, i32>(error),
    decreases elements.len() - count,
{
    if count == elements.len() {
        assert(elements.take(count) =~= elements);
    } else {
        assert(elements.take(count + 1).drop_last() =~= elements.take(count));
        lemma_fault_is_final(elements, count + 1, error);
    }
}

/// The paths of all active elements, in the order in which they are discovered.
pub open spec fn all_paths(elements: Seq<MixerElement>) -> Seq<(PathRole, PathSource)>
    decreases elements.len(),
{
    if elements.len() == 0 {
        Seq::empty()
    } else if elements.last().active {
        all_paths(elements.drop_last()) + elements.last().paths()
    } else {
        all_paths(elements.drop_last())
    }
}

/// The paths of one role among `paths`.
pub open spec fn of_role(paths: Seq<(PathRole, PathSource)>, role: PathRole) -> Seq<PathSource>
    decreases paths.len(),
{
    if paths.len() == 0 {
        Seq::empty()
    } else if paths.last().0 == role {
        of_role(paths.drop_last(), role).push(paths.last().1)
    } else {
        of_role(paths.drop_last(), role)
    }
}

/// The first two of `paths`, or all of them where there are fewer.
pub open spec fn first_two(paths: Seq<PathSource>) -> Seq<PathSource> {
    if paths.len() <= 2 {
        paths
    } else {
        paths.take(2)
    }
}

/// `plan` holds exactly the paths of each role among `paths`, and of the transmit paths
/// the first two.
pub open spec fn plan_of(plan: PathPlan, paths: Seq<(PathRole, PathSource)>) -> bool {
    &&& plan.receive == of_role(paths, PathRole::Receive)
    &&& plan.transmit == first_two(of_role(paths, PathRole::Transmit))
    &&& plan.sidetone == of_role(paths, PathRole::Sidetone)
    &&& plan.compatibility == of_role(paths, PathRole::Compatibility)
    &&& plan.receive.len() <= 2
    &&& plan.sidetone.len() <= 2
    &&& plan.compatibility.len() <= 2
}

proof fn lemma_extended_plan(
    plan: PathPlan,
    before: Seq<(PathRole, PathSource)>,
    paths: Seq<(PathRole, PathSource)>,
)
    requires
        plan_of(plan, before),
    ensures
        plan.extended_by(paths) matches Ok(longer) ==> plan_of(longer, before + paths),
    decreases paths.len(),
{
    if paths.len() == 0 {
        assert(before + paths =~= before);
    } else {
        lemma_extended_plan(plan, before, paths.drop_last());
        assert((before + paths).drop_last() =~= before + paths.drop_last());
        assert((before + paths).last() == paths.last());
        if let Ok(middle) = plan.extended_by(paths.drop_last()) {
            let role = paths.last().0;
            let path = paths.last().1;
            let seen = of_role(before + paths.drop_last(), PathRole::Transmit);
            if role == PathRole::Transmit {
                assert(seen.len() <= 2 ==> first_two(seen) == seen);
                if seen.len() >= 2 {
                    assert(seen.push(path).take(2) =~= first_two(seen));
                }
            }
        }
    }
}

/// A plan is exactly the classification of the active elements: all receive, sidetone and
/// compatibility paths, and the first two transmit paths, each in the order of discovery.
pub proof fn law_plan_is_the_classification(elements: Seq<MixerElement>)
    ensures
        classified(elements) matches Ok(plan) ==> plan_of(plan, all_paths(elements)),
    decreases elements.len(),
{
    if elements.len() != 0 {
        law_plan_is_the_classification(elements.drop_last());
        if let Ok(plan) = classified(elements.drop_last()) {
            if elements.last().active {
                lemma_extended_plan(plan, all_paths(elements.drop_last()), elements.last().paths());
            }
        }
    }
}

/// A call that resolving a plan needs. The codes are negative for failure.
#[derive(Clone, Copy, Debug, PartialEq, Eq, Structural)]
pub enum Cm119Call {
    /// Read the listing of the sound class.
    ReadListing,
    Open,
    /// Attach the card whose name the operation holds.
    Attach,
    Register,
    Load,
    /// Read the elements of the loaded mixer.
    ReadElements,
    /// Close the mixer. The reply does not matter.
    Close,
}

/// Resolves the path plan of one USB interface, and closes the mixer again in any case.
#[derive(Debug)]
pub struct Cm119Resolve<'a> {
    /// The call to make next; none once the operation is over.
    pub next_call: Option<Cm119Call>,
    /// The result, once the operation is over.
    pub status: i32,
    pub usb_interface_path: &'a str,
    /// The name of the card, once it is known.
    pub card: Vec<u8>,
}

/// The progress of a resolution: its next call and its status.
pub struct Cm119Progress {
    pub next_call: Option<Cm119Call>,
    pub status: i32,
}

impl Cm119Progress {
    /// The operation goes on with `call`.
    pub open spec fn calling(self, call: Cm119Call) -> Cm119Progress {
        Cm119Progress { next_call: Some(call), ..self }
    }

    /// The operation is over with `status`.
    pub open spec fn over(self, status: i32) -> Cm119Progress {
        Cm119Progress { next_call: None, status }
    }

    /// The operation closes the mixer and ends with `status`.
    pub open spec fn closing(self, status: i32) -> Cm119Progress {
        Cm119Progress { next_call: Some(Cm119Call::Close), status }
    }

    /// The operation after the listing named a card, or did not.
    pub open spec fn after_listing(self, card: Result<u32, i32>) -> Cm119Progress {
        match card {
            Ok(_) => self.calling(Cm119Call::Open),
            Err(error) => self.over(error),
        }
    }

    /// The operation after the elements gave a plan, or did not.
    pub open spec fn after_elements(self, plan: Result<PathPlan, i32>) -> Cm119Progress {
        match plan {
            Ok(_) => self.closing(AUDIO_OK),
            Err(error) => self.closing(error),
        }
    }

    /// The operation after a call that replies with a code.
    pub open spec fn after(self, code: i32) -> Cm119Progress {
        match self.next_call {
            Some(Cm119Call::Open) => if code < 0 {
                self.over(AUDIO_ALSA_ERROR)
            } else {
                self.calling(Cm119Call::Attach)
            },
            Some(Cm119Call::Attach) => if code < 0 {
                self.closing(AUDIO_ALSA_ERROR)
            } else {
                self.calling(Cm119Call::Register)
            },
            Some(Cm119Call::Register) => if code < 0 {
                self.closing(AUDIO_ALSA_ERROR)
            } else {
                self.calling(Cm119Call::Load)
            },
            Some(Cm119Call::Load) => if code < 0 {
                self.closing(AUDIO_ALSA_ERROR)
            } else {
                self.calling(Cm119Call::ReadElements)
            },
            Some(Cm119Call::Close) => self.over(self.status),
            _ => self,
        }
    }

    /// The operation, and whether it closed the mixer, once every call has been replied
    /// to.
    pub open spec fn run(
        self,
        card: Result<u32, i32>,
        codes: spec_fn(Cm119Call) -> i32,
        plan: Result<PathPlan, i32>,
    ) -> (Cm119Progress, bool)
        decreases
            match self.next_call {
                Some(Cm119Call::ReadListing) => 7nat,
                Some(Cm119Call::Open) => 6nat,
                Some(Cm119Call::Attach) => 5nat,
                Some(Cm119Call::Register) => 4nat,
                Some(Cm119Call::Load) => 3nat,
                Some(Cm119Call::ReadElements) => 2nat,
                Some(Cm119Call::Close) => 1nat,
                None => 0nat,
            },
    {
        match self.next_call {
            Some(Cm119Call::ReadListing) => self.after_listing(card).run(card, codes, plan),
            Some(Cm119Call::ReadElements) => self.after_elements(plan).run(card, codes, plan),
            Some(call) => {
                let (end, closed) = self.after(codes(call)).run(card, codes, plan);
                (end, closed || call == Cm119Call::Close)
            },
            None => (self, false),
        }
    }
}

/// What resolving a plan comes to, whatever the calls reply: the first failure, or
/// success where there is none. A mixer that was opened is always closed again, and one
/// that was not never is.
pub proof fn law_cm119_outcome(
    card: Result<u32, i32>,
    codes: spec_fn(Cm119Call) -> i32,
    plan: Result<PathPlan, i32>,
)
    ensures
        ({
            let first = Cm119Progress {
                next_call: Some(Cm119Call::ReadListing),
                status: AUDIO_UNSUPPORTED,
            };
            let (end, closed) = first.run(card, codes, plan);
            &&& end.next_call is None
            &&& end.status == if card is Err {
                card->Err_0
            } else if codes(Cm119Call::Open) < 0 || codes(Cm119Call::Attach) < 0 || codes(
                Cm119Call::Register,
            ) < 0 || codes(Cm119Call::Load) < 0 {
                AUDIO_ALSA_ERROR
            } else if plan is Err {
                plan->Err_0
            } else {
                AUDIO_OK
            }
            &&& closed == (card is Ok && codes(Cm119Call::Open) >= 0)
        }),
{
    reveal_with_fuel(Cm119Progress::run, 8);
}

impl<'a> Cm119Resolve<'a> {
    /// The progress of the operation.
    pub open spec fn progress(self) -> Cm119Progress {
        Cm119Progress { next_call: self.next_call, status: self.status }
    }

    /// Begins to resolve a plan: clears the caller's structure, and refuses a malformed
    /// request with an error.
    pub fn begin(usb_interface_path: CText<'a>, paths: &mut Cm119MixerPaths) -> (result: Result<
        Cm119Resolve<'a>,
        i32,
    >)
        ensures
            final(paths).is_cleared(old(paths).struct_size),
            match usb_interface_path {
                CText::Text(path) if old(paths).struct_size >= CM119_MIXER_PATHS_SIZE
                    && crate::text::usb_interface_path_allowed(path@) => result matches Ok(resolve)
                    && {
                    &&& resolve.next_call == Some(Cm119Call::ReadListing)
                    &&& resolve.status == AUDIO_UNSUPPORTED
                    &&& resolve.usb_interface_path == path
                },
                _ => result matches Err(error) && error == AUDIO_INVALID_ARGUMENT,
            },
    {
        let struct_size: u32 = paths.struct_size;
        *paths = Cm119MixerPaths::cleared(struct_size);
        if struct_size < CM119_MIXER_PATHS_SIZE {
            return Err(AUDIO_INVALID_ARGUMENT);
        }
        match usb_interface_path {
            CText::Text(path) => {
                if !valid_usb_interface_path(path) {
                    return Err(AUDIO_INVALID_ARGUMENT);
                }
                Ok(
                    Cm119Resolve {
                        next_call: Some(Cm119Call::ReadListing),
                        status: AUDIO_UNSUPPORTED,
                        usb_interface_path: path,
                        card: Vec::new(),
                    },
                )
            },
            _ => Err(AUDIO_INVALID_ARGUMENT),
        }
    }

    /// The call to make next, or none when the operation is over.
    pub fn call(&self) -> (call: Option<Cm119Call>)
        ensures
            call == self.next_call,
    {
        self.next_call
    }

    /// Takes the listing that was due; `None` stands for an unreadable sound class.
    pub fn listing(&mut self, listing: Option<&Vec<SoundEntry>>)
        requires
            old(self).next_call == Some(Cm119Call::ReadListing),
        ensures
            ({
                let card = crate::sysfs::card_of_identity(
                    crate::sysfs::entries_of(listing),
                    Some(old(self).usb_interface_path@),
                    None,
                );
                &&& final(self).progress() == old(self).progress().after_listing(card)
                &&& card matches Ok(card_index) ==> final(self).card@ == crate::mixer::hw_name(
                    card_index,
                )
            }),
            final(self).usb_interface_path == old(self).usb_interface_path,
    {
        match resolve_alsa_card_index_from_sysfs(listing, self.usb_interface_path) {
            Ok(card_index) => {
                self.card = card_name(card_index);
                self.next_call = Some(Cm119Call::Open);
            },
            Err(error) => {
                self.next_call = None;
                self.status = error;
            },
        }
    }

    /// Takes the reply to a call that replies with a code.
    pub fn reply(&mut self, code: i32)
        ensures
            final(self).progress() == old(self).progress().after(code),
            final(self).usb_interface_path == old(self).usb_interface_path,
            final(self).card == old(self).card,
    {
        match self.next_call {
            Some(Cm119Call::Open) => {
                if code < 0 {
                    self.next_call = None;
                    self.status = AUDIO_ALSA_ERROR;
                } else {
                    self.next_call = Some(Cm119Call::Attach);
                }
            },
            Some(Cm119Call::Attach) => {
                if code < 0 {
                    self.next_call = Some(Cm119Call::Close);
                    self.status = AUDIO_ALSA_ERROR;
                } else {
                    self.next_call = Some(Cm119Call::Register);
                }
            },
            Some(Cm119Call::Register) => {
                if code < 0 {
                    self.next_call = Some(Cm119Call::Close);
                    self.status = AUDIO_ALSA_ERROR;
                } else {
                    self.next_call = Some(Cm119Call::Load);
                }
            },
            Some(Cm119Call::Load) => {
                if code < 0 {
                    self.next_call = Some(Cm119Call::Close);
                    self.status = AUDIO_ALSA_ERROR;
                } else {
                    self.next_call = Some(Cm119Call::ReadElements);
                }
            },
            Some(Cm119Call::Close) => {
                self.next_call = None;
            },
            _ => {},
        }
    }

    /// Takes the elements that were due. A plan is published whole; a failure leaves the
    /// caller's structure as it was.
    pub fn elements(&mut self, elements: &Vec<MixerElement>, paths: &mut Cm119MixerPaths)
        requires
            old(self).next_call == Some(Cm119Call::ReadElements),
        ensures
            final(self).progress() == old(self).progress().after_elements(path_plan(elements@)),
            final(self).usb_interface_path == old(self).usb_interface_path,
            final(self).card == old(self).card,
            match path_plan(elements@) {
                Ok(plan) => {
                    &&& final(paths).struct_size == old(paths).struct_size
                    &&& final(paths).abi_version == ABI_VERSION
                    &&& final(paths).holds(plan)
                },
                Err(_) => *final(paths) == *old(paths),
            },
    {
        self.next_call = Some(Cm119Call::Close);
        match classify_cm119_mixer(elements, paths.struct_size) {
            Ok(resolved) => {
                *paths = resolved;
                self.status = AUDIO_OK;
            },
            Err(error) => {
                self.status = error;
            },
        }
    }
}

/// The name is `Auto Gain Control`, whatever the case of its letters.
pub open spec fn is_gain_control_name(name: Seq<u8>) -> bool {
    let known = vstd::utf8::encode_utf8("Auto Gain Control"@);
    &&& name.len() == known.len()
    &&& forall|i: int|
        0 <= i < name.len() ==> {
            ||| #[trigger] name[i] == known[i]
            ||| 65 <= name[i] <= 90 && known[i] == name[i] + 32
            ||| 65 <= known[i] <= 90 && name[i] == known[i] + 32
        }
}

/// One channel of an element, left being zero, has a control for the role. The playback
/// switch of the gain control is the compatibility switch, and then the channel has no other
/// role.
pub open spec fn has_control(element: MixerElement, channel: int, role: PathRole) -> bool {
    let captures = if channel == 0 {
        element.capture_left
    } else {
        element.capture_right
    };
    let plays = if channel == 0 {
        element.playback_left
    } else {
        element.playback_right
    };
    let switches = plays && element.playback_switch && is_gain_control_name(element.name->0@);
    &&& element.active
    &&& match role {
        PathRole::Compatibility => switches,
        PathRole::Receive => !switches && captures && element.capture_volume,
        PathRole::Transmit => !switches && plays && element.playback_volume
            && !element.capture_volume,
        PathRole::Sidetone => !switches && plays && element.playback_volume
            && element.capture_volume,
    }
}

/// The path addresses that control: the element's name, ended and padded with zeros, its
/// index, the channel, the capture side for receive audio and the playback side for the
/// rest, and the volume and the switch that this side has.
pub open spec fn addresses(
    path: Cm119MixerPath,
    element: MixerElement,
    channel: int,
    role: PathRole,
) -> bool {
    let name = element.name->0@;
    &&& name.len() < 64
    &&& forall|i: int|
        0 <= i < 64 ==> #[trigger] path.element@[i] == if i < name.len() {
            name[i]
        } else {
            0
        }
    &&& path.element_index == element.index
    &&& path.channel == channel
    &&& path.direction == match role {
        PathRole::Receive => 0u32,
        PathRole::Transmit => 1u32,
        PathRole::Sidetone => 1u32,
        PathRole::Compatibility => 1u32,
    }
    &&& path.capabilities == match role {
        PathRole::Receive => if element.capture_switch {
            3u32
        } else {
            1u32
        },
        PathRole::Compatibility => 2u32,
        _ => if element.playback_switch {
            3u32
        } else {
            1u32
        },
    }
}

/// The places below `limit` that have a control for the role, in order. Each element has
/// two places, its left channel and its right one.
pub open spec fn control_places(
    elements: Seq<MixerElement>,
    limit: int,
    role: PathRole,
) -> Seq<int>
    decreases limit,
{
    if limit <= 0 {
        Seq::empty()
    } else {
        let earlier = control_places(elements, limit - 1, role);
        if has_control(elements[(limit - 1) / 2], (limit - 1) % 2, role) {
            earlier.push(limit - 1)
        } else {
            earlier
        }
    }
}

/// The list addresses the controls of its role, in order and at most two of them, and is
/// empty beyond them.
pub open spec fn lists_controls(
    list: Seq<Cm119MixerPath>,
    count: u32,
    elements: Seq<MixerElement>,
    role: PathRole,
) -> bool {
    let places = control_places(elements, 2 * elements.len() as int, role);
    &&& list.len() == 2
    &&& count == if places.len() < 2 {
        places.len() as int
    } else {
        2
    }
    &&& role != PathRole::Transmit ==> places.len() <= 2
    &&& forall|i: int|
        0 <= i < count ==> addresses(
            #[trigger] list[i],
            elements[places[i] / 2],
            places[i] % 2,
            role,
        )
    &&& forall|i: int|
        count <= i < 2 ==> {
            &&& forall|k: int| 0 <= k < 64 ==> #[trigger] list[i].element@[k] == 0
            &&& (#[trigger] list[i]).element_index == 0
            &&& list[i].channel == 0
            &&& list[i].direction == 0
            &&& list[i].capabilities == 0
        }
}

/// What is discovered at a place that has a control.
spec fn control_at(element: MixerElement, channel: int, role: PathRole) -> PathSource {
    element.path(
        if channel == 0 {
            MixerChannel::Left
        } else {
            MixerChannel::Right
        },
        if role == PathRole::Receive {
            MixerDirection::Capture
        } else {
            MixerDirection::Playback
        },
        role != PathRole::Compatibility,
        match role {
            PathRole::Receive => element.capture_switch,
            PathRole::Compatibility => true,
            _ => element.playback_switch,
        },
    )
}

/// What is discovered at all places.
spec fn controls_at(elements: Seq<MixerElement>, places: Seq<int>, role: PathRole) -> Seq<
    PathSource,
> {
    Seq::new(
        places.len(),
        |i: int| control_at(elements[places[i] / 2], places[i] % 2, role),
    )
}

proof fn lemma_gain_control_name(name: Seq<u8>)
    ensures
        is_gain_control_name(name) == equal_ignoring_case(
            name,
            vstd::utf8::encode_utf8(CM119_RX_BOOST_ELEMENT@),
        ),
{
    let known = vstd::utf8::encode_utf8("Auto Gain Control"@);
    assert(known == vstd::utf8::encode_utf8(CM119_RX_BOOST_ELEMENT@));
    reveal_strlit("Auto Gain Control");
    assert(vstd::utf8::is_ascii_chars("Auto Gain Control"@));
    vstd::utf8::is_ascii_chars_encode_utf8("Auto Gain Control"@);
    assert forall|i: int| 0 <= i < known.len() implies #[trigger] known[i] < 128 by {}
    if name.len() == known.len() {
        assert forall|i: int| 0 <= i < name.len() implies (lower_case(#[trigger] name[i])
            == lower_case(known[i]) <==> {
            ||| name[i] == known[i]
            ||| 65 <= name[i] <= 90 && known[i] == name[i] + 32
            ||| 65 <= known[i] <= 90 && name[i] == known[i] + 32
        }) by {}
    }
}

proof fn lemma_roles_of_parts(
    first: Seq<(PathRole, PathSource)>,
    second: Seq<(PathRole, PathSource)>,
    role: PathRole,
)
    ensures
        of_role(first + second, role) == of_role(first, role) + of_role(second, role),
    decreases second.len(),
{
    if second.len() == 0 {
        assert(first + second =~= first);
        assert(of_role(first, role) + of_role(second, role) =~= of_role(first, role));
    } else {
        lemma_roles_of_parts(first, second.drop_last(), role);
        assert((first + second).drop_last() =~= first + second.drop_last());
        assert(of_role(first + second, role) =~= of_role(first, role) + of_role(second, role));
    }
}

proof fn lemma_channel_roles(element: MixerElement, channel: MixerChannel, role: PathRole)
    requires
        element.active,
    ensures
        of_role(element.channel_paths(channel), role) == if has_control(
            element,
            channel.number() as int,
            role,
        ) {
            seq![control_at(element, channel.number() as int, role)]
        } else {
            Seq::empty()
        },
{
    lemma_gain_control_name(element.name->0@);
    reveal_with_fuel(of_role, 3);
    let paths = element.channel_paths(channel);
    let found = of_role(paths, role);
    if paths.len() == 2 {
        assert(paths.drop_last().drop_last() =~= Seq::<(PathRole, PathSource)>::empty());
    } else if paths.len() == 1 {
        assert(paths.drop_last() =~= Seq::<(PathRole, PathSource)>::empty());
    }
    assert(found =~= if has_control(element, channel.number() as int, role) {
        seq![control_at(element, channel.number() as int, role)]
    } else {
        Seq::empty()
    });
}

proof fn lemma_places_of_fewer(elements: Seq<MixerElement>, limit: int, role: PathRole)
    requires
        elements.len() > 0,
        limit <= 2 * (elements.len() - 1),
    ensures
        control_places(elements.drop_last(), limit, role) == control_places(elements, limit, role),
    decreases limit,
{
    if limit > 0 {
        lemma_places_of_fewer(elements, limit - 1, role);
        assert(elements.drop_last()[(limit - 1) / 2] == elements[(limit - 1) / 2]);
    }
}

/// Each place is below the limit, and has a control.
proof fn lemma_places_have_controls(elements: Seq<MixerElement>, limit: int, role: PathRole)
    ensures
        forall|i: int|
            0 <= i < control_places(elements, limit, role).len() ==> {
                let place = #[trigger] control_places(elements, limit, role)[i];
                0 <= place < limit && has_control(elements[place / 2], place % 2, role)
            },
    decreases limit,
{
    if limit > 0 {
        lemma_places_have_controls(elements, limit - 1, role);
        let earlier = control_places(elements, limit - 1, role);
        let places = control_places(elements, limit, role);
        assert forall|i: int| 0 <= i < places.len() implies ({
            let place = #[trigger] places[i];
            0 <= place < limit && has_control(elements[place / 2], place % 2, role)
        }) by {
            if i < earlier.len() {
                assert(places[i] == earlier[i]);
            }
        }
    }
}

/// The places of one element that have a control for the role.
spec fn own_places(element: MixerElement, first: int, role: PathRole) -> Seq<int> {
    let left = if has_control(element, 0, role) {
        seq![first]
    } else {
        Seq::empty()
    };
    if has_control(element, 1, role) {
        left.push(first + 1)
    } else {
        left
    }
}

proof fn lemma_element_roles(elements: Seq<MixerElement>, index: int, role: PathRole)
    requires
        0 <= index < elements.len(),
        elements[index].active,
    ensures
        of_role(elements[index].paths(), role) == controls_at(
            elements,
            own_places(elements[index], 2 * index, role),
            role,
        ),
{
    let element = elements[index];
    let left = element.channel_paths(MixerChannel::Left);
    let right = element.channel_paths(MixerChannel::Right);
    lemma_roles_of_parts(left, right, role);
    lemma_channel_roles(element, MixerChannel::Left, role);
    lemma_channel_roles(element, MixerChannel::Right, role);
    assert((2 * index) / 2 == index && (2 * index + 1) / 2 == index);
    assert((2 * index) % 2 == 0 && (2 * index + 1) % 2 == 1);
    assert(of_role(element.paths(), role) =~= controls_at(
        elements,
        own_places(element, 2 * index, role),
        role,
    ));
}

proof fn lemma_places_of_one_more(elements: Seq<MixerElement>, index: int, role: PathRole)
    requires
        0 <= index < elements.len(),
    ensures
        control_places(elements, 2 * index + 2, role) == control_places(elements, 2 * index, role)
            + own_places(elements[index], 2 * index, role),
{
    assert((2 * index) / 2 == index && (2 * index + 1) / 2 == index);
    assert((2 * index) % 2 == 0 && (2 * index + 1) % 2 == 1);
    let earlier = control_places(elements, 2 * index, role);
    let middle = control_places(elements, 2 * index + 1, role);
    assert(control_places(elements, 2 * index + 2, role) =~= earlier + own_places(
        elements[index],
        2 * index,
        role,
    ));
}

/// The discovered paths of a role are those at the places that have a control for it.
proof fn lemma_roles_are_controls(elements: Seq<MixerElement>, role: PathRole)
    ensures
        of_role(all_paths(elements), role) == controls_at(
            elements,
            control_places(elements, 2 * elements.len() as int, role),
            role,
        ),
    decreases elements.len(),
{
    let places = control_places(elements, 2 * elements.len() as int, role);
    if elements.len() == 0 {
        assert(of_role(all_paths(elements), role) =~= controls_at(elements, places, role));
    } else {
        let fewer = elements.drop_last();
        let index = fewer.len() as int;
        let earlier = control_places(elements, 2 * index, role);
        let own = own_places(elements[index], 2 * index, role);
        lemma_roles_are_controls(fewer, role);
        lemma_places_of_fewer(elements, 2 * index, role);
        lemma_places_of_one_more(elements, index, role);
        assert(controls_at(fewer, earlier, role) =~= controls_at(elements, earlier, role)) by {
            lemma_places_have_controls(elements, 2 * index, role);
            assert forall|i: int| 0 <= i < earlier.len() implies fewer[(#[trigger] earlier[i]) / 2]
                == elements[earlier[i] / 2] by {}
        }
        assert(controls_at(elements, earlier + own, role) =~= controls_at(elements, earlier, role)
            + controls_at(elements, own, role));
        if elements[index].active {
            lemma_roles_of_parts(all_paths(fewer), elements[index].paths(), role);
            lemma_element_roles(elements, index, role);
        } else {
            assert(controls_at(elements, earlier + own, role) =~= controls_at(
                elements,
                earlier,
                role,
            ));
        }
    }
}

proof fn lemma_represented_is_addressed(
    path: Cm119MixerPath,
    element: MixerElement,
    channel: int,
    role: PathRole,
)
    requires
        channel == 0 || channel == 1,
        element.name->0@.len() < 64,
        path.represents(control_at(element, channel, role)),
    ensures
        addresses(path, element, channel, role),
{
    let name = element.name->0@;
    assert forall|i: int| 0 <= i < 64 implies #[trigger] path.element@[i] == if i < name.len() {
        name[i]
    } else {
        0
    } by {
        assert(path.element@[i] == crate::text::padded(name, 64)[i]);
    }
}

/// Each path of a plan has a name that fits.
spec fn names_fit(plan: PathPlan) -> bool {
    forall|role: PathRole, i: int|
        0 <= i < plan.role(role).len() ==> (#[trigger] plan.role(role)[i]).name.len() < 64
}

proof fn lemma_names_fit(plan: PathPlan, paths: Seq<(PathRole, PathSource)>)
    requires
        names_fit(plan),
    ensures
        plan.extended_by(paths) matches Ok(longer) ==> names_fit(longer),
    decreases paths.len(),
{
    if paths.len() > 0 {
        lemma_names_fit(plan, paths.drop_last());
        if let Ok(middle) = plan.extended_by(paths.drop_last()) {
            if let Ok(longer) = middle.extended(paths.last().0, paths.last().1) {
                assert forall|role: PathRole, i: int| 0 <= i < longer.role(role).len() implies (
                #[trigger] longer.role(role)[i]).name.len() < 64 by {
                    if i < middle.role(role).len() {
                        assert(middle.role(role)[i].name.len() < 64);
                    }
                }
            }
        }
    }
}

proof fn lemma_plan_names_fit(elements: Seq<MixerElement>)
    ensures
        classified(elements) matches Ok(plan) ==> names_fit(plan) && forall|k: int|
            0 <= k < elements.len() && (#[trigger] elements[k]).active ==> elements[k].name is Some,
    decreases elements.len(),
{
    if elements.len() > 0 {
        lemma_plan_names_fit(elements.drop_last());
        if let Ok(plan) = classified(elements.drop_last()) {
            if elements.last().active {
                lemma_names_fit(plan, elements.last().paths());
            }
            if let Ok(_) = classified(elements) {
                assert forall|k: int|
                    0 <= k < elements.len()
                        && (#[trigger] elements[k]).active implies elements[k].name is Some by {
                    if k < elements.len() - 1 {
                        assert(elements.drop_last()[k] == elements[k]);
                    }
                }
            }
        }
    }
}

proof fn lemma_list_lists_controls(
    list: Seq<Cm119MixerPath>,
    count: u32,
    sources: Seq<PathSource>,
    elements: Seq<MixerElement>,
    role: PathRole,
)
    requires
        list_holds(list, count, sources),
        sources == first_two(of_role(all_paths(elements), role)),
        role != PathRole::Transmit ==> of_role(all_paths(elements), role).len() <= 2,
        forall|i: int| 0 <= i < sources.len() ==> (#[trigger] sources[i]).name.len() < 64,
    ensures
        lists_controls(list, count, elements, role),
{
    let places = control_places(elements, 2 * elements.len() as int, role);
    lemma_roles_are_controls(elements, role);
    lemma_places_have_controls(elements, 2 * elements.len() as int, role);
    assert forall|i: int| 0 <= i < count implies addresses(
        #[trigger] list[i],
        elements[places[i] / 2],
        places[i] % 2,
        role,
    ) by {
        assert(list[i].represents(sources[i]));
        assert(sources[i] == control_at(elements[places[i] / 2], places[i] % 2, role));
        lemma_represented_is_addressed(list[i], elements[places[i] / 2], places[i] % 2, role);
    }
    assert forall|i: int| count <= i < 2 implies {
        &&& forall|k: int| 0 <= k < 64 ==> #[trigger] list[i].element@[k] == 0
        &&& (#[trigger] list[i]).element_index == 0
        &&& list[i].channel == 0
        &&& list[i].direction == 0
        &&& list[i].capabilities == 0
    } by {
        assert(list[i].is_blank());
        assert forall|k: int| 0 <= k < 64 implies #[trigger] list[i].element@[k] == 0 by {
            assert(list[i].element@[k] == crate::text::padded(Seq::empty(), 64)[k]);
        }
    }
}

/// A plan addresses exactly the controls that the active elements have, element by element
/// and left before right: all receive, sidetone and compatibility controls, and the first two
/// transmit controls. There is at least one receive and one transmit path.
pub proof fn law_plan_addresses_the_controls(
    elements: Seq<MixerElement>,
    plan: PathPlan,
    paths: Cm119MixerPaths,
)
    requires
        path_plan(elements) == Ok::<PathPlan, i32>(plan),
        paths.holds(plan),
    ensures
        lists_controls(
            paths.rx_capture_paths@,
            paths.rx_capture_path_count,
            elements,
            PathRole::Receive,
        ),
        lists_controls(
            paths.tx_playback_paths@,
            paths.tx_playback_path_count,
            elements,
            PathRole::Transmit,
        ),
        lists_controls(
            paths.sidetone_paths@,
            paths.sidetone_path_count,
            elements,
            PathRole::Sidetone,
        ),
        lists_controls(
            paths.rx_compatibility_switch_paths@,
            paths.rx_compatibility_switch_path_count,
            elements,
            PathRole::Compatibility,
        ),
        paths.rx_capture_path_count >= 1,
        paths.tx_playback_path_count >= 1,
        forall|k: int|
            0 <= k < elements.len() && (#[trigger] elements[k]).active ==> elements[k].name is Some,
{
    law_plan_is_the_classification(elements);
    lemma_plan_names_fit(elements);
    assert forall|i: int| 0 <= i < plan.receive.len() implies (
    #[trigger] plan.receive[i]).name.len() < 64 by {
        assert(plan.role(PathRole::Receive)[i].name.len() < 64);
    }
    assert forall|i: int| 0 <= i < plan.transmit.len() implies (
    #[trigger] plan.transmit[i]).name.len() < 64 by {
        assert(plan.role(PathRole::Transmit)[i].name.len() < 64);
    }
    assert forall|i: int| 0 <= i < plan.sidetone.len() implies (
    #[trigger] plan.sidetone[i]).name.len() < 64 by {
        assert(plan.role(PathRole::Sidetone)[i].name.len() < 64);
    }
    assert forall|i: int| 0 <= i < plan.compatibility.len() implies (
    #[trigger] plan.compatibility[i]).name.len() < 64 by {
        assert(plan.role(PathRole::Compatibility)[i].name.len() < 64);
    }
    lemma_list_lists_controls(
        paths.rx_capture_paths@,
        paths.rx_capture_path_count,
        plan.receive,
        elements,
        PathRole::Receive,
    );
    lemma_list_lists_controls(
        paths.tx_playback_paths@,
        paths.tx_playback_path_count,
        plan.transmit,
        elements,
        PathRole::Transmit,
    );
    lemma_list_lists_controls(
        paths.sidetone_paths@,
        paths.sidetone_path_count,
        plan.sidetone,
        elements,
        PathRole::Sidetone,
    );
    lemma_list_lists_controls(
        paths.rx_compatibility_switch_paths@,
        paths.rx_compatibility_switch_path_count,
        plan.compatibility,
        elements,
        PathRole::Compatibility,
    );
}

/// The places of a role are all those that have a control for it, in increasing order.
pub proof fn law_places_are_the_controls(elements: Seq<MixerElement>, limit: int, role: PathRole)
    ensures
        ({
            let places = control_places(elements, limit, role);
            &&& forall|place: int|
                0 <= place < limit && has_control(elements[place / 2], place % 2, role)
                    ==> #[trigger] places.contains(place)
            &&& forall|i: int|
                0 <= i < places.len() ==> 0 <= #[trigger] places[i] < limit && has_control(
                    elements[places[i] / 2],
                    places[i] % 2,
                    role,
                )
            &&& forall|i: int, j: int| 0 <= i < j < places.len() ==> places[i] < places[j]
        }),
    decreases limit,
{
    lemma_places_have_controls(elements, limit, role);
    if limit > 0 {
        law_places_are_the_controls(elements, limit - 1, role);
        lemma_places_have_controls(elements, limit - 1, role);
        let earlier = control_places(elements, limit - 1, role);
        let places = control_places(elements, limit, role);
        assert forall|place: int|
            0 <= place < limit && has_control(
                elements[place / 2],
                place % 2,
                role,
            ) implies #[trigger] places.contains(place) by {
            if place < limit - 1 {
                assert(earlier.contains(place));
                let i = choose|i: int| 0 <= i < earlier.len() && earlier[i] == place;
                assert(places[i] == place);
            } else {
                assert(places[places.len() - 1] == place);
            }
        }
        assert forall|i: int, j: int| 0 <= i < j < places.len() implies places[i]
            < places[j] by {
            assert(places[i] == earlier[i]);
            if j < earlier.len() {
                assert(places[j] == earlier[j]);
            }
        }
    }
}

/// The path names an active element that has what the role needs, on the path's channel and
/// on the side that the role uses; the switch is offered exactly where that side has one.
pub open spec fn is_control_of(
    path: Cm119MixerPath,
    element: MixerElement,
    role: PathRole,
) -> bool {
    &&& element.active
    &&& element.name matches Some(name) && path.element@.take(name@.len() as int) == name@
    &&& path.element_index == element.index
    &&& match role {
        PathRole::Receive => {
            &&& element.capture_volume
            &&& path.channel == 0 && element.capture_left || path.channel == 1
                && element.capture_right
            &&& path.capabilities == if element.capture_switch {
                3u32
            } else {
                1u32
            }
        },
        PathRole::Compatibility => {
            &&& element.playback_switch
            &&& path.channel == 0 && element.playback_left || path.channel == 1
                && element.playback_right
            &&& path.capabilities == 2
        },
        _ => {
            &&& element.playback_volume
            &&& element.capture_volume == (role == PathRole::Sidetone)
            &&& path.channel == 0 && element.playback_left || path.channel == 1
                && element.playback_right
            &&& path.capabilities == if element.playback_switch {
                3u32
            } else {
                1u32
            }
        },
    }
}

/// The path is a control of one of the elements.
pub open spec fn is_control_among(
    path: Cm119MixerPath,
    elements: Seq<MixerElement>,
    role: PathRole,
) -> bool {
    exists|k: int|
        0 <= k < elements.len() && #[trigger] is_control_of(path, elements[k], role)
}

proof fn lemma_list_has_controls(
    list: Seq<Cm119MixerPath>,
    count: u32,
    elements: Seq<MixerElement>,
    role: PathRole,
)
    requires
        lists_controls(list, count, elements, role),
        forall|k: int|
            0 <= k < elements.len() && (#[trigger] elements[k]).active ==> elements[k].name is Some,
    ensures
        forall|i: int|
            0 <= i < count ==> (#[trigger] list[i]).direction == (if role == PathRole::Receive {
                0u32
            } else {
                1u32
            }) && is_control_among(list[i], elements, role),
{
    let places = control_places(elements, 2 * elements.len() as int, role);
    lemma_places_have_controls(elements, 2 * elements.len() as int, role);
    assert forall|i: int| 0 <= i < count implies (#[trigger] list[i]).direction == (if role
        == PathRole::Receive {
        0u32
    } else {
        1u32
    }) && is_control_among(list[i], elements, role) by {
        let k = places[i] / 2;
        assert(0 <= places[i] < 2 * elements.len());
        assert(has_control(elements[k], places[i] % 2, role));
        assert(addresses(list[i], elements[k], places[i] % 2, role));
        assert(list[i].element@.take(elements[k].name->0@.len() as int)
            =~= elements[k].name->0@);
        assert(is_control_of(list[i], elements[k], role));
    }
}

/// Each path of a plan can be opened as it is: a receive path addresses the capture side, and
/// every other path the playback side, of an active element that has what the role needs
/// there.
pub proof fn law_paths_have_their_direction(
    elements: Seq<MixerElement>,
    plan: PathPlan,
    paths: Cm119MixerPaths,
)
    requires
        path_plan(elements) == Ok::<PathPlan, i32>(plan),
        paths.holds(plan),
    ensures
        forall|i: int|
            0 <= i < paths.rx_capture_path_count ==> (
            #[trigger] paths.rx_capture_paths@[i]).direction == 0 && is_control_among(
                paths.rx_capture_paths@[i],
                elements,
                PathRole::Receive,
            ),
        forall|i: int|
            0 <= i < paths.tx_playback_path_count ==> (
            #[trigger] paths.tx_playback_paths@[i]).direction == 1 && is_control_among(
                paths.tx_playback_paths@[i],
                elements,
                PathRole::Transmit,
            ),
        forall|i: int|
            0 <= i < paths.sidetone_path_count ==> (
            #[trigger] paths.sidetone_paths@[i]).direction == 1 && is_control_among(
                paths.sidetone_paths@[i],
                elements,
                PathRole::Sidetone,
            ),
        forall|i: int|
            0 <= i < paths.rx_compatibility_switch_path_count ==> (
            #[trigger] paths.rx_compatibility_switch_paths@[i]).direction == 1 && is_control_among(
                paths.rx_compatibility_switch_paths@[i],
                elements,
                PathRole::Compatibility,
            ),
{
    law_plan_addresses_the_controls(elements, plan, paths);
    lemma_list_has_controls(
        paths.rx_capture_paths@,
        paths.rx_capture_path_count,
        elements,
        PathRole::Receive,
    );
    lemma_list_has_controls(
        paths.tx_playback_paths@,
        paths.tx_playback_path_count,
        elements,
        PathRole::Transmit,
    );
    lemma_list_has_controls(
        paths.sidetone_paths@,
        paths.sidetone_path_count,
        elements,
        PathRole::Sidetone,
    );
    lemma_list_has_controls(
        paths.rx_compatibility_switch_paths@,
        paths.rx_compatibility_switch_path_count,
        elements,
        PathRole::Compatibility,
    );
}

proof fn lemma_extension_is_found(
    plan: PathPlan,
    before: Seq<(PathRole, PathSource)>,
    paths: Seq<(PathRole, PathSource)>,
)
    requires
        plan_of(plan, before),
        forall|i: int| 0 <= i < paths.len() ==> (#[trigger] paths[i]).1.name.len() < 64,
        of_role(before + paths, PathRole::Receive).len() <= 2,
        of_role(before + paths, PathRole::Sidetone).len() <= 2,
        of_role(before + paths, PathRole::Compatibility).len() <= 2,
    ensures
        plan.extended_by(paths) is Ok,
    decreases paths.len(),
{
    if paths.len() > 0 {
        let fewer = paths.drop_last();
        assert((before + paths).drop_last() =~= before + fewer);
        assert((before + paths).last() == paths.last());
        assert forall|i: int| 0 <= i < fewer.len() implies (
        #[trigger] fewer[i]).1.name.len() < 64 by {
            assert(paths[i] == fewer[i]);
        }
        lemma_extension_is_found(plan, before, fewer);
        lemma_extended_plan(plan, before, fewer);
        assert(paths[paths.len() - 1] == paths.last());
    }
}

proof fn lemma_own_paths_have_the_name(element: MixerElement)
    ensures
        forall|i: int|
            0 <= i < element.paths().len() ==> (#[trigger] element.paths()[i]).1.name
                == element.name->0@,
{
}

/// The discovered paths of a role, counted by their places.
proof fn lemma_classification_is_found(elements: Seq<MixerElement>)
    requires
        forall|k: int|
            0 <= k < elements.len() && (#[trigger] elements[k]).active ==> elements[k].name is Some
                && elements[k].name->0@.len() < 64,
        of_role(all_paths(elements), PathRole::Receive).len() <= 2,
        of_role(all_paths(elements), PathRole::Sidetone).len() <= 2,
        of_role(all_paths(elements), PathRole::Compatibility).len() <= 2,
    ensures
        classified(elements) is Ok,
    decreases elements.len(),
{
    if elements.len() > 0 {
        let fewer = elements.drop_last();
        let element = elements.last();
        assert forall|k: int|
            0 <= k < fewer.len() && (#[trigger] fewer[k]).active implies fewer[k].name is Some
            && fewer[k].name->0@.len() < 64 by {
            assert(elements[k] == fewer[k]);
        }
        if element.active {
            lemma_roles_of_parts(all_paths(fewer), element.paths(), PathRole::Receive);
            lemma_roles_of_parts(all_paths(fewer), element.paths(), PathRole::Sidetone);
            lemma_roles_of_parts(all_paths(fewer), element.paths(), PathRole::Compatibility);
        }
        lemma_classification_is_found(fewer);
        law_plan_is_the_classification(fewer);
        if element.active {
            assert(elements[elements.len() - 1] == element);
            lemma_own_paths_have_the_name(element);
            lemma_extension_is_found(classified(fewer)->Ok_0, all_paths(fewer), element.paths());
        }
    }
}

/// A mixer whose active elements all have names that fit has a plan exactly where it has one
/// or two receive controls, at least one transmit control, and at most two sidetone and two
/// compatibility controls; otherwise its layout is unsupported.
pub proof fn law_plan_is_found(elements: Seq<MixerElement>)
    requires
        forall|k: int|
            0 <= k < elements.len() && (#[trigger] elements[k]).active ==> elements[k].name is Some
                && elements[k].name->0@.len() < 64,
    ensures
        ({
            let all = 2 * elements.len() as int;
            let found = {
                &&& 1 <= control_places(elements, all, PathRole::Receive).len() <= 2
                &&& 1 <= control_places(elements, all, PathRole::Transmit).len()
                &&& control_places(elements, all, PathRole::Sidetone).len() <= 2
                &&& control_places(elements, all, PathRole::Compatibility).len() <= 2
            };
            &&& found ==> path_plan(elements) is Ok
            &&& !found ==> path_plan(elements) == Err::<PathPlan, i32>(AUDIO_UNSUPPORTED)
        }),
{
    lemma_roles_are_controls(elements, PathRole::Receive);
    lemma_roles_are_controls(elements, PathRole::Transmit);
    lemma_roles_are_controls(elements, PathRole::Sidetone);
    lemma_roles_are_controls(elements, PathRole::Compatibility);
    law_plan_is_the_classification(elements);
    lemma_named_failures_are_unsupported(elements);
    if of_role(all_paths(elements), PathRole::Receive).len() <= 2 && of_role(
        all_paths(elements),
        PathRole::Sidetone,
    ).len() <= 2 && of_role(all_paths(elements), PathRole::Compatibility).len() <= 2 {
        lemma_classification_is_found(elements);
    }
}

proof fn lemma_extension_failures(plan: PathPlan, paths: Seq<(PathRole, PathSource)>)
    ensures
        plan.extended_by(paths) matches Err(error) ==> error == AUDIO_UNSUPPORTED,
    decreases paths.len(),
{
    if paths.len() > 0 {
        lemma_extension_failures(plan, paths.drop_last());
    }
}

proof fn lemma_named_failures_are_unsupported(elements: Seq<MixerElement>)
    requires
        forall|k: int|
            0 <= k < elements.len() && (#[trigger] elements[k]).active ==> elements[k].name is Some,
    ensures
        classified(elements) matches Err(error) ==> error == AUDIO_UNSUPPORTED,
    decreases elements.len(),
{
    if elements.len() > 0 {
        let fewer = elements.drop_last();
        assert forall|k: int|
            0 <= k < fewer.len() && (#[trigger] fewer[k]).active implies fewer[k].name is Some by {
            assert(elements[k] == fewer[k]);
        }
        lemma_named_failures_are_unsupported(fewer);
        assert(elements[elements.len() - 1] == elements.last());
        if let Ok(plan) = classified(fewer) {
            lemma_extension_failures(plan, elements.last().paths());
        }
    }
}

/// An active element without a name is ALSA's failure, where everything before it could be
/// represented.
pub proof fn law_unnamed_element_fails(elements: Seq<MixerElement>, place: int)
    requires
        0 <= place < elements.len(),
        elements[place].active,
        elements[place].name is None,
        classified(elements.take(place)) is Ok,
    ensures
        path_plan(elements) == Err::<PathPlan, i32>(AUDIO_ALSA_ERROR),
{
    assert(elements.take(place + 1).drop_last() =~= elements.take(place));
    assert(elements.take(place + 1).last() == elements[place]);
    lemma_fault_is_final(elements, place + 1, AUDIO_ALSA_ERROR);
}

/// A cleared plan has nothing but the caller's size: no paths, and zeros for every field of
/// every path.
pub proof fn law_cleared_plan_is_empty(paths: Cm119MixerPaths, struct_size: u32, place: int)
    requires
        paths.is_cleared(struct_size),
        0 <= place < 2,
    ensures
        paths.struct_size == struct_size,
        paths.abi_version == 0,
        paths.rx_capture_path_count == 0,
        paths.tx_playback_path_count == 0,
        paths.sidetone_path_count == 0,
        paths.rx_compatibility_switch_path_count == 0,
        is_zero_path(paths.rx_capture_paths@[place]),
        is_zero_path(paths.tx_playback_paths@[place]),
        is_zero_path(paths.sidetone_paths@[place]),
        is_zero_path(paths.rx_compatibility_switch_paths@[place]),
{
    lemma_blank_is_zero(paths.rx_capture_paths@[place]);
    lemma_blank_is_zero(paths.tx_playback_paths@[place]);
    lemma_blank_is_zero(paths.sidetone_paths@[place]);
    lemma_blank_is_zero(paths.rx_compatibility_switch_paths@[place]);
}

/// Every field of the path is zero.
pub open spec fn is_zero_path(path: Cm119MixerPath) -> bool {
    &&& forall|i: int| 0 <= i < 64 ==> #[trigger] path.element@[i] == 0
    &&& path.element_index == 0
    &&& path.channel == 0
    &&& path.direction == 0
    &&& path.capabilities == 0
}

proof fn lemma_blank_is_zero(path: Cm119MixerPath)
    ensures
        path.is_blank() ==> is_zero_path(path),
{
    if path.is_blank() {
        assert forall|i: int| 0 <= i < 64 implies #[trigger] path.element@[i] == 0 by {
            assert(path.element@[i] == crate::text::padded(Seq::empty(), 64)[i]);
        }
    }
}

/// As long as nothing fails, the mixer is opened, attached to the card, registered and
/// loaded, in this order, before its elements are read; then it is closed.
pub proof fn law_cm119_order(
    start: Cm119Progress,
    card: Result<u32, i32>,
    plan: Result<PathPlan, i32>,
    codes: Seq<i32>,
)
    requires
        start.next_call == Some(Cm119Call::ReadListing),
        card is Ok,
        codes.len() == 5,
        forall|i: int| 0 <= i < 4 ==> #[trigger] codes[i] >= 0,
    ensures
        ({
            let opening = start.after_listing(card);
            let attaching = opening.after(codes[0]);
            let registering = attaching.after(codes[1]);
            let loading = registering.after(codes[2]);
            let reading = loading.after(codes[3]);
            let closing = reading.after_elements(plan);
            let over = closing.after(codes[4]);
            &&& opening.next_call == Some(Cm119Call::Open)
            &&& attaching.next_call == Some(Cm119Call::Attach)
            &&& registering.next_call == Some(Cm119Call::Register)
            &&& loading.next_call == Some(Cm119Call::Load)
            &&& reading.next_call == Some(Cm119Call::ReadElements)
            &&& closing.next_call == Some(Cm119Call::Close)
            &&& over.next_call is None
            &&& over.status == match plan {
                Ok(_) => 0i32,
                Err(error) => error,
            }
        }),
{
}

} // verus!
