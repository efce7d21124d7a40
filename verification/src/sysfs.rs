//! Stable USB identity of ALSA sound cards, from a listing of the sound class.
//!
//! ALSA card numbers are assigned at discovery time. The rules here therefore go by a
//! card's place in the device tree, and refuse missing and ambiguous matches.
use vstd::prelude::*;

use crate::abi::{AUDIO_INVALID_ARGUMENT, AUDIO_UNSUPPORTED};
use crate::text::{
    looks_like_usb_interface_component, parse_card_number, same_text, trim_line_end,
    valid_usb_serial,
};

verus! {

/// The components of a canonical path, from the root on; a component that is no UTF-8
/// text is absent.
pub type DevicePath = Vec<Option<String>>;

/// One entry of the sound class.
#[derive(Debug)]
pub struct SoundEntry {
    /// The entry's name, where it is UTF-8 text.
    pub name: Option<String>,
    /// The canonical path of the entry's device, where it can be resolved.
    pub device_path: Option<DevicePath>,
    /// What the file `serial` holds in the parent directory of the nearest USB
    /// interface on that path, where both exist.
    pub serial_text: Option<String>,
}

/// The characters of an optional string.
pub open spec fn text_of(value: Option<String>) -> Option<Seq<char>> {
    match value {
        Some(value) => Some(value@),
        None => None,
    }
}

/// The characters of an optional string slice.
pub open spec fn str_of(value: Option<&str>) -> Option<Seq<char>> {
    match value {
        Some(value) => Some(value@),
        None => None,
    }
}

/// A path component names a USB interface.
pub open spec fn is_interface(component: Option<String>) -> bool {
    component matches Some(text) && crate::text::is_usb_interface_component(text@)
}

/// Where the nearest USB interface stands on a path: the last component that names one.
pub open spec fn nearest_interface(path: Seq<Option<String>>) -> Option<int>
    decreases path.len(),
{
    if path.len() == 0 {
        None
    } else if is_interface(path.last()) {
        Some(path.len() - 1)
    } else {
        nearest_interface(path.drop_last())
    }
}

/// The nearest interface names a USB interface, and nothing below it on the path does: a
/// serial number read beside it is the device's own, never that of a hub further up.
pub proof fn law_nearest_interface_is_the_last(path: Seq<Option<String>>)
    ensures
        match nearest_interface(path) {
            Some(index) => {
                &&& 0 <= index < path.len()
                &&& is_interface(path[index])
                &&& forall|below: int|
                    index < below < path.len() ==> !is_interface(#[trigger] path[below])
            },
            None => forall|i: int| 0 <= i < path.len() ==> !is_interface(#[trigger] path[i]),
        },
    decreases path.len(),
{
    if path.len() != 0 && !is_interface(path.last()) {
        let rest = path.drop_last();
        law_nearest_interface_is_the_last(rest);
        assert forall|i: int| 0 <= i < rest.len() implies rest[i] == #[trigger] path[i] by {}
    }
}

/// The path holds a component that reads `expected`.
pub open spec fn path_holds(path: Seq<Option<String>>, expected: Seq<char>) -> bool {
    exists|i: int| 0 <= i < path.len() && text_of(#[trigger] path[i]) == Some(expected)
}

/// A serial number as the file `serial` holds it, without line ends; a malformed one
/// counts as none.
pub open spec fn serial_of(serial_text: Option<String>) -> Option<Seq<char>> {
    match serial_text {
        Some(text) => {
            let serial = crate::text::without_line_end(text@);
            if crate::text::usb_serial_allowed(serial) {
                Some(serial)
            } else {
                None
            }
        },
        None => None,
    }
}

impl SoundEntry {
    /// The card number of an entry whose device can be resolved.
    pub open spec fn card(self) -> Option<u32> {
        match (self.name, self.device_path) {
            (Some(name), Some(_)) => crate::text::card_number(name@),
            _ => None,
        }
    }

    /// The serial number of the physical device that owns the nearest USB interface.
    pub open spec fn serial(self) -> Option<Seq<char>> {
        match self.device_path {
            Some(path) => if nearest_interface(path@) is Some {
                serial_of(self.serial_text)
            } else {
                None
            },
            None => None,
        }
    }

    /// The entry is a card of the wanted topology and serial number.
    pub open spec fn matches_identity(
        self,
        usb_interface_path: Option<Seq<char>>,
        usb_serial: Option<Seq<char>>,
    ) -> bool {
        &&& self.card() is Some
        &&& usb_interface_path matches Some(expected) ==> path_holds(
            self.device_path->0@,
            expected,
        )
        &&& usb_serial is Some ==> self.serial() == usb_serial
    }
}

/// `index` is the only entry that matches.
pub open spec fn only_match(
    entries: Seq<SoundEntry>,
    index: int,
    usb_interface_path: Option<Seq<char>>,
    usb_serial: Option<Seq<char>>,
) -> bool {
    &&& 0 <= index < entries.len()
    &&& entries[index].matches_identity(usb_interface_path, usb_serial)
    &&& forall|other: int|
        0 <= other < entries.len() && (#[trigger] entries[other]).matches_identity(
            usb_interface_path,
            usb_serial,
        ) ==> other == index
}

/// The card that a stable identity names. `None` for the listing stands for a sound
/// class that cannot be read.
pub open spec fn card_of_identity(
    listing: Option<Seq<SoundEntry>>,
    usb_interface_path: Option<Seq<char>>,
    usb_serial: Option<Seq<char>>,
) -> Result<u32, i32> {
    if usb_interface_path is None && usb_serial is None {
        Err(AUDIO_INVALID_ARGUMENT)
    } else {
        match listing {
            Some(entries) => if exists|index: int|
                only_match(entries, index, usb_interface_path, usb_serial) {
                let index = choose|index: int|
                    only_match(entries, index, usb_interface_path, usb_serial);
                Ok(entries[index].card()->0)
            } else {
                Err(AUDIO_UNSUPPORTED)
            },
            None => Err(AUDIO_UNSUPPORTED),
        }
    }
}

/// The entries of a listing.
pub open spec fn entries_of(listing: Option<&Vec<SoundEntry>>) -> Option<Seq<SoundEntry>> {
    match listing {
        Some(entries) => Some(entries@),
        None => None,
    }
}

/// Locates the nearest USB interface on a canonical path, and returns how many
/// components lead to it, its own included.
pub fn usb_interface_from_device_path(device_path: &DevicePath) -> (length: Option<usize>)
    ensures
        match nearest_interface(device_path@) {
            Some(index) => length matches Some(length) && length == index + 1,
            None => length is None,
        },
        length matches Some(length) ==> 0 < length <= device_path@.len() && is_interface(
            device_path@[length - 1],
        ),
{
    let mut length: usize = device_path.len();
    assert(device_path@.take(length as int) =~= device_path@);
    while length > 0
        invariant
            length <= device_path@.len(),
            nearest_interface(device_path@) == nearest_interface(
                device_path@.take(length as int),
            ),
        decreases length,
    {
        assert(device_path@.take(length as int).last() == device_path@[length - 1]);
        match &device_path[length - 1] {
            Some(component) => {
                if looks_like_usb_interface_component(component.as_str()) {
                    return Some(length);
                }
            },
            None => {},
        }
        assert(device_path@.take(length as int).drop_last() =~= device_path@.take(length - 1));
        length = length - 1;
    }
    None
}

/// Extracts the nearest USB interface component of a canonical path.
pub fn usb_interface_path_from_device_path(device_path: &DevicePath) -> (component: Option<String>)
    ensures
        text_of(component) == match nearest_interface(device_path@) {
            Some(index) => text_of(device_path@[index]),
            None => None,
        },
        component is Some <==> nearest_interface(device_path@) is Some,
{
    match usb_interface_from_device_path(device_path) {
        Some(length) => match &device_path[length - 1] {
            Some(component) => Some(component.clone()),
            None => None,
        },
        None => None,
    }
}

/// The serial number of the physical device that owns the nearest USB interface.
///
/// A device without a serial number never inherits one from its hub or host, because
/// only its own file is looked at.
pub fn usb_serial_from_device_path(entry: &SoundEntry) -> (serial: Option<String>)
    ensures
        text_of(serial) == entry.serial(),
{
    match &entry.device_path {
        Some(device_path) => match usb_interface_from_device_path(device_path) {
            Some(_) => match &entry.serial_text {
                Some(text) => {
                    let serial = trim_line_end(text.as_str());
                    if valid_usb_serial(serial) {
                        Some(serial.to_owned())
                    } else {
                        None
                    }
                },
                None => None,
            },
            None => None,
        },
        None => None,
    }
}

fn path_contains(device_path: &DevicePath, expected: &str) -> (found: bool)
    ensures
        found == path_holds(device_path@, expected@),
{
    let mut index: usize = 0;
    while index < device_path.len()
        invariant
            index <= device_path@.len(),
            forall|j: int| 0 <= j < index ==> text_of(#[trigger] device_path@[j]) != Some(expected@),
        decreases device_path@.len() - index,
    {
        match &device_path[index] {
            Some(component) => {
                if same_text(component.as_str(), expected) {
                    assert(text_of(device_path@[index as int]) == Some(expected@));
                    return true;
                }
            },
            None => {},
        }
        index = index + 1;
    }
    false
}

/// The card number of an entry whose device can be resolved.
fn entry_card(entry: &SoundEntry) -> (card: Option<u32>)
    ensures
        card == entry.card(),
{
    match (&entry.name, &entry.device_path) {
        (Some(name), Some(_)) => parse_card_number(name.as_str()),
        _ => None,
    }
}

/// The card number of an entry that matches a stable identity.
fn matching_card(
    entry: &SoundEntry,
    usb_interface_path: Option<&str>,
    usb_serial: Option<&str>,
) -> (card: Option<u32>)
    ensures
        card == if entry.matches_identity(str_of(usb_interface_path), str_of(usb_serial)) {
            entry.card()
        } else {
            None
        },
{
    let card = match entry_card(entry) {
        Some(card) => card,
        None => return None,
    };
    match (usb_interface_path, &entry.device_path) {
        (Some(expected), Some(device_path)) => {
            if !path_contains(device_path, expected) {
                return None;
            }
        },
        _ => {},
    }
    match usb_serial {
        Some(expected) => match usb_serial_from_device_path(entry) {
            Some(serial) => {
                if !same_text(serial.as_str(), expected) {
                    return None;
                }
            },
            None => return None,
        },
        None => {},
    }
    Some(card)
}

/// Resolves a stable USB topology and/or serial number to exactly one ALSA card.
pub fn resolve_alsa_card_index_from_sysfs_identity(
    listing: Option<&Vec<SoundEntry>>,
    usb_interface_path: Option<&str>,
    usb_serial: Option<&str>,
) -> (card: Result<u32, i32>)
    ensures
        card == card_of_identity(
            entries_of(listing),
            str_of(usb_interface_path),
            str_of(usb_serial),
        ),
{
    if usb_interface_path.is_none() && usb_serial.is_none() {
        return Err(AUDIO_INVALID_ARGUMENT);
    }
    let entries = match listing {
        Some(entries) => entries,
        None => return Err(AUDIO_UNSUPPORTED),
    };
    let ghost path = str_of(usb_interface_path);
    let ghost serial = str_of(usb_serial);
    let mut result: Option<u32> = None;
    let ghost mut found: int = 0;
    let mut index: usize = 0;
    while index < entries.len()
        invariant
            index <= entries@.len(),
            path == str_of(usb_interface_path),
            serial == str_of(usb_serial),
            path is Some || serial is Some,
            entries_of(listing) == Some(entries@),
            result matches Some(card) ==> 0 <= found < index && entries@[found].matches_identity(
                path,
                serial,
            ) && entries@[found].card() == Some(card),
            forall|j: int|
                0 <= j < index && (#[trigger] entries@[j]).matches_identity(path, serial)
                    ==> result is Some && j == found,
        decreases entries@.len() - index,
    {
        match matching_card(&entries[index], usb_interface_path, usb_serial) {
            Some(card) => {
                if result.is_some() {
                    proof {
                        assert(entries@[found].matches_identity(path, serial));
                        assert(entries@[index as int].matches_identity(path, serial));
                        assert forall|k: int| !only_match(entries@, k, path, serial) by {}
                    }
                    return Err(AUDIO_UNSUPPORTED);
                }
                result = Some(card);
                proof {
                    found = index as int;
                }
            },
            None => {},
        }
        index = index + 1;
    }
    proof {
        if result is Some {
            assert(only_match(entries@, found, path, serial));
            let chosen = choose|k: int| only_match(entries@, k, path, serial);
            assert(only_match(entries@, chosen, path, serial));
            assert(chosen == found);
        }
    }
    match result {
        Some(card) => Ok(card),
        None => Err(AUDIO_UNSUPPORTED),
    }
}

/// Resolves a USB interface component to exactly one ALSA card.
pub fn resolve_alsa_card_index_from_sysfs(
    listing: Option<&Vec<SoundEntry>>,
    usb_interface_path: &str,
) -> (card: Result<u32, i32>)
    ensures
        card == card_of_identity(entries_of(listing), Some(usb_interface_path@), None),
{
    resolve_alsa_card_index_from_sysfs_identity(listing, Some(usb_interface_path), None)
}

/// One USB sound card with its stable identity.
#[derive(Debug, PartialEq, Eq)]
pub struct ResolvedUsbCard {
    pub card_index: u32,
    pub usb_interface_path: String,
    pub usb_serial: Option<String>,
}

/// The identity of a USB sound card.
#[verifier::ext_equal]
pub struct CardIdentity {
    pub card_index: u32,
    pub usb_interface_path: Seq<char>,
    pub usb_serial: Option<Seq<char>>,
}

impl View for ResolvedUsbCard {
    type V = CardIdentity;

    open spec fn view(&self) -> CardIdentity {
        CardIdentity {
            card_index: self.card_index,
            usb_interface_path: self.usb_interface_path@,
            usb_serial: text_of(self.usb_serial),
        }
    }
}

impl SoundEntry {
    /// The identity of an entry that is a USB sound card.
    pub open spec fn identity(self) -> Option<CardIdentity> {
        match self.card() {
            Some(card_index) => match nearest_interface(self.device_path->0@) {
                Some(index) => Some(
                    CardIdentity {
                        card_index,
                        usb_interface_path: text_of(self.device_path->0@[index])->0,
                        usb_serial: self.serial(),
                    },
                ),
                None => None,
            },
            None => None,
        }
    }
}

/// Where a card belongs in a list that is sorted by card number: after every card whose
/// number is not larger.
pub open spec fn insertion_point(cards: Seq<CardIdentity>, card_index: u32) -> int
    decreases cards.len(),
{
    if cards.len() == 0 || cards.last().card_index <= card_index {
        cards.len() as int
    } else {
        insertion_point(cards.drop_last(), card_index)
    }
}

/// The USB sound cards among `entries`, sorted by card number.
pub open spec fn usb_cards(entries: Seq<SoundEntry>) -> Seq<CardIdentity>
    decreases entries.len(),
{
    if entries.len() == 0 {
        Seq::empty()
    } else {
        let cards = usb_cards(entries.drop_last());
        match entries.last().identity() {
            Some(card) => cards.insert(insertion_point(cards, card.card_index), card),
            None => cards,
        }
    }
}

/// The identities of `cards`.
pub open spec fn identities(cards: Seq<ResolvedUsbCard>) -> Seq<CardIdentity> {
    cards.map_values(|card: ResolvedUsbCard| card@)
}

/// Card numbers never decrease along the list.
pub open spec fn sorted_by_card(cards: Seq<CardIdentity>) -> bool {
    forall|i: int, j: int|
        0 <= i <= j < cards.len() ==> (#[trigger] cards[i]).card_index <= (
        #[trigger] cards[j]).card_index
}

proof fn lemma_insertion_point(cards: Seq<CardIdentity>, card_index: u32)
    requires
        sorted_by_card(cards),
    ensures
        0 <= insertion_point(cards, card_index) <= cards.len(),
        forall|i: int|
            0 <= i < insertion_point(cards, card_index) ==> (#[trigger] cards[i]).card_index
                <= card_index,
        forall|i: int|
            insertion_point(cards, card_index) <= i < cards.len() ==> (#[trigger] cards[i]).card_index
                > card_index,
    decreases cards.len(),
{
    if cards.len() != 0 && cards.last().card_index > card_index {
        let rest = cards.drop_last();
        assert forall|i: int, j: int| 0 <= i <= j < rest.len() implies (
        #[trigger] rest[i]).card_index <= (#[trigger] rest[j]).card_index by {
            assert(rest[i] == cards[i] && rest[j] == cards[j]);
        }
        lemma_insertion_point(rest, card_index);
        assert forall|i: int| 0 <= i < insertion_point(cards, card_index) implies (
        #[trigger] cards[i]).card_index <= card_index by {
            assert(cards[i] == rest[i]);
        }
        assert forall|i: int| insertion_point(cards, card_index) <= i < cards.len() implies (
        #[trigger] cards[i]).card_index > card_index by {
            if i < rest.len() {
                assert(cards[i] == rest[i]);
            }
        }
    }
}

/// The inventory is sorted by card number, whatever order the entries were listed in.
pub proof fn law_inventory_is_sorted(entries: Seq<SoundEntry>)
    ensures
        sorted_by_card(usb_cards(entries)),
    decreases entries.len(),
{
    if entries.len() != 0 {
        law_inventory_is_sorted(entries.drop_last());
        let cards = usb_cards(entries.drop_last());
        if let Some(card) = entries.last().identity() {
            lemma_insertion_point(cards, card.card_index);
            let at = insertion_point(cards, card.card_index);
            let longer = cards.insert(at, card);
            assert forall|i: int, j: int| 0 <= i <= j < longer.len() implies (
            #[trigger] longer[i]).card_index <= (#[trigger] longer[j]).card_index by {
                let before_i = if i < at {
                    i
                } else {
                    i - 1
                };
                let before_j = if j < at {
                    j
                } else {
                    j - 1
                };
                if i != at {
                    assert(longer[i] == cards[before_i]);
                }
                if j != at {
                    assert(longer[j] == cards[before_j]);
                }
            }
        }
    }
}

/// The inventory holds exactly the USB sound cards of the listing: every such entry, and
/// nothing else.
pub proof fn law_inventory_is_complete(entries: Seq<SoundEntry>, card: CardIdentity)
    ensures
        usb_cards(entries).contains(card) <==> exists|i: int|
            0 <= i < entries.len() && (#[trigger] entries[i]).identity() == Some(card),
    decreases entries.len(),
{
    if entries.len() != 0 {
        let rest = entries.drop_last();
        law_inventory_is_sorted(rest);
        law_inventory_is_complete(rest, card);
        let cards = usb_cards(rest);
        let all = usb_cards(entries);
        if usb_cards(rest).contains(card) {
            let i = choose|i: int|
                0 <= i < rest.len() && (#[trigger] rest[i]).identity() == Some(card);
            assert(entries[i].identity() == Some(card));
        }
        if let Some(last) = entries.last().identity() {
            lemma_insertion_point(cards, last.card_index);
            let at = insertion_point(cards, last.card_index);
            if cards.contains(card) {
                let k = choose|k: int| 0 <= k < cards.len() && cards[k] == card;
                if k < at {
                    assert(all[k] == card);
                } else {
                    assert(all[k + 1] == card);
                }
            }
            if last == card {
                assert(all[at] == card);
                assert(entries[entries.len() - 1].identity() == Some(card));
            }
            if all.contains(card) {
                let k = choose|k: int| 0 <= k < all.len() && all[k] == card;
                if k < at {
                    assert(cards[k] == card);
                } else if k > at {
                    assert(cards[k - 1] == card);
                }
            }
        }
        if exists|i: int| 0 <= i < entries.len() && (#[trigger] entries[i]).identity() == Some(card) {
            let i = choose|i: int|
                0 <= i < entries.len() && (#[trigger] entries[i]).identity() == Some(card);
            if i < rest.len() {
                assert(rest[i].identity() == Some(card));
            }
        }
    }
}

/// Enumerates the USB sound cards in numerical order.
pub fn enumerate_usb_cards_from_sysfs(listing: Option<&Vec<SoundEntry>>) -> (result: Result<
    Vec<ResolvedUsbCard>,
    i32,
>)
    ensures
        match listing {
            Some(entries) => result matches Ok(cards) && identities(cards@) == usb_cards(entries@),
            None => result matches Err(error) && error == AUDIO_UNSUPPORTED,
        },
{
    let entries = match listing {
        Some(entries) => entries,
        None => return Err(AUDIO_UNSUPPORTED),
    };
    let mut cards: Vec<ResolvedUsbCard> = Vec::new();
    let mut index: usize = 0;
    assert(identities(cards@) =~= usb_cards(entries@.take(0)));
    while index < entries.len()
        invariant
            index <= entries@.len(),
            identities(cards@) == usb_cards(entries@.take(index as int)),
        decreases entries@.len() - index,
    {
        let entry: &SoundEntry = &entries[index];
        assert(entries@.take(index + 1).drop_last() =~= entries@.take(index as int));
        assert(entries@.take(index + 1).last() == *entry);
        match resolved_entry(entry) {
            Some(card) => {
                insert_card(&mut cards, card);
            },
            None => {},
        }
        index = index + 1;
    }
    assert(entries@.take(index as int) =~= entries@);
    Ok(cards)
}

/// The identity of an entry that is a USB sound card.
fn resolved_entry(entry: &SoundEntry) -> (card: Option<ResolvedUsbCard>)
    ensures
        match card {
            Some(card) => entry.identity() == Some(card@),
            None => entry.identity() is None,
        },
{
    let card_index = match entry_card(entry) {
        Some(card_index) => card_index,
        None => return None,
    };
    match &entry.device_path {
        Some(device_path) => match usb_interface_path_from_device_path(device_path) {
            Some(usb_interface_path) => Some(
                ResolvedUsbCard {
                    card_index,
                    usb_interface_path,
                    usb_serial: usb_serial_from_device_path(entry),
                },
            ),
            None => None,
        },
        None => None,
    }
}

/// Puts `card` in its place among `cards`.
fn insert_card(cards: &mut Vec<ResolvedUsbCard>, card: ResolvedUsbCard)
    ensures
        identities(final(cards)@) == identities(old(cards)@).insert(
            insertion_point(identities(old(cards)@), card.card_index),
            card@,
        ),
{
    let ghost all = identities(cards@);
    let ghost wanted = card.card_index;
    let mut at: usize = cards.len();
    assert(all.take(at as int) =~= all);
    while at > 0 && cards[at - 1].card_index > card.card_index
        invariant
            at <= cards@.len(),
            all == identities(cards@),
            wanted == card.card_index,
            insertion_point(all, wanted) == insertion_point(all.take(at as int), wanted),
        decreases at,
    {
        assert(all.take(at as int).last() == cards@[at - 1]@);
        assert(all.take(at as int).drop_last() =~= all.take(at - 1));
        at = at - 1;
    }
    assert(at > 0 ==> all.take(at as int).last() == cards@[at - 1]@);
    let ghost before = cards@;
    cards.insert(at, card);
    assert(identities(cards@) =~= all.insert(at as int, card@));
}

/// The first of `cards` with the given number.
pub open spec fn first_with_number(cards: Seq<CardIdentity>, card_index: u32) -> Option<CardIdentity>
    decreases cards.len(),
{
    if cards.len() == 0 {
        None
    } else if cards[0].card_index == card_index {
        Some(cards[0])
    } else {
        first_with_number(cards.skip(1), card_index)
    }
}

/// The USB sound card with a given number, in a listing.
pub open spec fn usb_card_with_number(
    listing: Option<Seq<SoundEntry>>,
    card_index: u32,
) -> Result<CardIdentity, i32> {
    match listing {
        Some(entries) => match first_with_number(usb_cards(entries), card_index) {
            Some(card) => Ok(card),
            None => Err(AUDIO_UNSUPPORTED),
        },
        None => Err(AUDIO_UNSUPPORTED),
    }
}

/// The identity that a resolution found.
pub open spec fn identity_of(result: Result<ResolvedUsbCard, i32>) -> Result<CardIdentity, i32> {
    match result {
        Ok(card) => Ok(card@),
        Err(error) => Err(error),
    }
}

/// Resolves a known ALSA card to its stable USB identity.
pub fn resolve_usb_card_from_alsa_card(
    listing: Option<&Vec<SoundEntry>>,
    card_index: u32,
) -> (result: Result<ResolvedUsbCard, i32>)
    ensures
        identity_of(result) == usb_card_with_number(entries_of(listing), card_index),
{
    let mut cards = match enumerate_usb_cards_from_sysfs(listing) {
        Ok(cards) => cards,
        Err(error) => return Err(error),
    };
    let ghost all = identities(cards@);
    let mut index: usize = 0;
    assert(all.skip(0) =~= all);
    while index < cards.len()
        invariant
            index <= cards@.len(),
            all == identities(cards@),
            listing is Some,
            all == usb_cards(entries_of(listing)->0),
            first_with_number(all, card_index) == first_with_number(
                all.skip(index as int),
                card_index,
            ),
        decreases cards@.len() - index,
    {
        assert(all.skip(index as int)[0] == cards@[index as int]@);
        if cards[index].card_index == card_index {
            return Ok(cards.remove(index));
        }
        assert(all.skip(index as int).skip(1) =~= all.skip(index + 1));
        index = index + 1;
    }
    Err(AUDIO_UNSUPPORTED)
}

/// The same entries, in whatever order they are listed, resolve a stable identity to the
/// same card.
pub proof fn law_identity_ignores_listing_order(
    first: Seq<SoundEntry>,
    second: Seq<SoundEntry>,
    places: Seq<int>,
    usb_interface_path: Option<Seq<char>>,
    usb_serial: Option<Seq<char>>,
)
    requires
        is_rearrangement(first, second, places),
    ensures
        card_of_identity(Some(first), usb_interface_path, usb_serial) == card_of_identity(
            Some(second),
            usb_interface_path,
            usb_serial,
        ),
{
    lemma_unique_match_moves(first, second, places, usb_interface_path, usb_serial);
    if exists|index: int| only_match(first, index, usb_interface_path, usb_serial) {
        let index = choose|index: int| only_match(first, index, usb_interface_path, usb_serial);
        assert(places.contains(index));
        let k = choose|k: int| 0 <= k < places.len() && #[trigger] places[k] == index;
        assert(only_match(second, k, usb_interface_path, usb_serial));
        let other = choose|index: int| only_match(second, index, usb_interface_path, usb_serial);
        assert(only_match(second, other, usb_interface_path, usb_serial));
        assert(other == k);
    } else {
        if exists|index: int| only_match(second, index, usb_interface_path, usb_serial) {
            let k = choose|index: int| only_match(second, index, usb_interface_path, usb_serial);
            assert(only_match(first, places[k], usb_interface_path, usb_serial));
        }
    }
}

/// `second` holds the entries of `first`, each exactly once: its entry at `k` is the
/// entry of `first` at `places[k]`.
pub open spec fn is_rearrangement(
    first: Seq<SoundEntry>,
    second: Seq<SoundEntry>,
    places: Seq<int>,
) -> bool {
    &&& places.len() == first.len() == second.len()
    &&& forall|k: int|
        0 <= k < places.len() ==> 0 <= #[trigger] places[k] < first.len() && second[k]
            == first[places[k]]
    &&& forall|j: int, k: int|
        0 <= j < k < places.len() ==> #[trigger] places[j] != #[trigger] places[k]
    &&& forall|i: int| 0 <= i < first.len() ==> #[trigger] places.contains(i)
}

proof fn lemma_unique_match_moves(
    first: Seq<SoundEntry>,
    second: Seq<SoundEntry>,
    places: Seq<int>,
    usb_interface_path: Option<Seq<char>>,
    usb_serial: Option<Seq<char>>,
)
    requires
        is_rearrangement(first, second, places),
    ensures
        forall|k: int|
            0 <= k < places.len() ==> (only_match(
                first,
                #[trigger] places[k],
                usb_interface_path,
                usb_serial,
            ) <==> only_match(second, k, usb_interface_path, usb_serial)),
{
    assert forall|k: int| 0 <= k < places.len() implies (only_match(
        first,
        #[trigger] places[k],
        usb_interface_path,
        usb_serial,
    ) <==> only_match(second, k, usb_interface_path, usb_serial)) by {
        if only_match(first, places[k], usb_interface_path, usb_serial) {
            assert forall|other: int|
                0 <= other < second.len() && (#[trigger] second[other]).matches_identity(
                    usb_interface_path,
                    usb_serial,
                ) implies other == k by {
                assert(second[other] == first[places[other]]);
                assert(places[other] == places[k]);
            }
        }
        if only_match(second, k, usb_interface_path, usb_serial) {
            assert forall|other: int|
                0 <= other < first.len() && (#[trigger] first[other]).matches_identity(
                    usb_interface_path,
                    usb_serial,
                ) implies other == places[k] by {
                assert(places.contains(other));
                let m = choose|m: int| 0 <= m < places.len() && #[trigger] places[m] == other;
                assert(second[m] == first[places[m]]);
                assert(m == k);
            }
        }
    }
}

/// No two USB sound cards of the listing carry the same number.
pub open spec fn distinct_cards(entries: Seq<SoundEntry>) -> bool {
    forall|i: int, j: int|
        0 <= i < j < entries.len() && (#[trigger] entries[i]).identity() is Some && (
        #[trigger] entries[j]).identity() is Some ==> entries[i].identity()->0.card_index
            != entries[j].identity()->0.card_index
}

/// Card numbers increase along the list.
pub open spec fn strictly_sorted_by_card(cards: Seq<CardIdentity>) -> bool {
    forall|i: int, j: int|
        0 <= i < j < cards.len() ==> (#[trigger] cards[i]).card_index < (
        #[trigger] cards[j]).card_index
}

proof fn lemma_distinct_inventory(entries: Seq<SoundEntry>)
    requires
        distinct_cards(entries),
    ensures
        strictly_sorted_by_card(usb_cards(entries)),
    decreases entries.len(),
{
    law_inventory_is_sorted(entries);
    if entries.len() != 0 {
        let rest = entries.drop_last();
        assert forall|i: int, j: int|
            0 <= i < j < rest.len() && (#[trigger] rest[i]).identity() is Some && (
            #[trigger] rest[j]).identity() is Some implies rest[i].identity()->0.card_index
            != rest[j].identity()->0.card_index by {
            assert(rest[i] == entries[i] && rest[j] == entries[j]);
        }
        lemma_distinct_inventory(rest);
        let cards = usb_cards(rest);
        if let Some(card) = entries.last().identity() {
            law_inventory_is_sorted(rest);
            lemma_insertion_point(cards, card.card_index);
            let at = insertion_point(cards, card.card_index);
            let longer = usb_cards(entries);
            assert forall|k: int| 0 <= k < cards.len() implies (#[trigger] cards[k]).card_index
                != card.card_index by {
                law_inventory_is_complete(rest, cards[k]);
                assert(cards.contains(cards[k]));
                let i = choose|i: int|
                    0 <= i < rest.len() && (#[trigger] rest[i]).identity() == Some(cards[k]);
                assert(entries[i] == rest[i]);
                assert(entries[entries.len() - 1].identity() == Some(card));
            }
            assert forall|i: int, j: int| 0 <= i < j < longer.len() implies (
            #[trigger] longer[i]).card_index < (#[trigger] longer[j]).card_index by {
                if i < at {
                    assert(longer[i] == cards[i]);
                } else if i > at {
                    assert(longer[i] == cards[i - 1]);
                }
                if j < at {
                    assert(longer[j] == cards[j]);
                } else if j > at {
                    assert(longer[j] == cards[j - 1]);
                }
            }
        }
    }
}

proof fn lemma_strictly_sorted_is_unique(first: Seq<CardIdentity>, second: Seq<CardIdentity>)
    requires
        strictly_sorted_by_card(first),
        strictly_sorted_by_card(second),
        forall|card: CardIdentity| first.contains(card) <==> #[trigger] second.contains(card),
    ensures
        first == second,
    decreases first.len(),
{
    if first.len() == 0 {
        if second.len() != 0 {
            assert(second.contains(second[0]));
        }
        assert(first =~= second);
    } else {
        assert(first.contains(first.last()));
        assert(second.contains(first.last()));
        let j = choose|j: int| 0 <= j < second.len() && second[j] == first.last();
        assert(second.contains(second.last()));
        assert(first.contains(second.last()));
        let i = choose|i: int| 0 <= i < first.len() && first[i] == second.last();
        assert(first[first.len() - 1] == first.last());
        assert(second[second.len() - 1] == second.last());
        assert(i == first.len() - 1);
        assert(first.last() == second.last());
        let a = first.drop_last();
        let b = second.drop_last();
        assert forall|card: CardIdentity| a.contains(card) <==> #[trigger] b.contains(card) by {
            if a.contains(card) {
                let k = choose|k: int| 0 <= k < a.len() && a[k] == card;
                assert(first[k] == card);
                assert(first.contains(card));
                assert(second.contains(card));
                let m = choose|m: int| 0 <= m < second.len() && second[m] == card;
                assert(m != second.len() - 1);
                assert(b[m] == card);
            }
            if b.contains(card) {
                let k = choose|k: int| 0 <= k < b.len() && b[k] == card;
                assert(second[k] == card);
                assert(second.contains(card));
                assert(first.contains(card));
                let m = choose|m: int| 0 <= m < first.len() && first[m] == card;
                assert(m != first.len() - 1);
                assert(a[m] == card);
            }
        }
        assert forall|x: int, y: int| 0 <= x < y < a.len() implies (#[trigger] a[x]).card_index < (
        #[trigger] a[y]).card_index by {
            assert(a[x] == first[x] && a[y] == first[y]);
        }
        assert forall|x: int, y: int| 0 <= x < y < b.len() implies (#[trigger] b[x]).card_index < (
        #[trigger] b[y]).card_index by {
            assert(b[x] == second[x] && b[y] == second[y]);
        }
        lemma_strictly_sorted_is_unique(a, b);
        assert(first =~= a.push(first.last()));
        assert(second =~= b.push(second.last()));
    }
}

/// The inventory does not depend on the order of the listing, as long as card numbers
/// are unique.
pub proof fn law_inventory_ignores_listing_order(
    first: Seq<SoundEntry>,
    second: Seq<SoundEntry>,
    places: Seq<int>,
)
    requires
        is_rearrangement(first, second, places),
        distinct_cards(first),
    ensures
        usb_cards(first) == usb_cards(second),
{
    assert(distinct_cards(second)) by {
        assert forall|i: int, j: int|
            0 <= i < j < second.len() && (#[trigger] second[i]).identity() is Some && (
            #[trigger] second[j]).identity() is Some implies second[i].identity()->0.card_index
            != second[j].identity()->0.card_index by {
            assert(second[i] == first[places[i]]);
            assert(second[j] == first[places[j]]);
            assert(places[i] != places[j]);
        }
    }
    lemma_distinct_inventory(first);
    lemma_distinct_inventory(second);
    assert forall|card: CardIdentity|
        usb_cards(first).contains(card) <==> #[trigger] usb_cards(second).contains(card) by {
        law_inventory_is_complete(first, card);
        law_inventory_is_complete(second, card);
        if usb_cards(first).contains(card) {
            let i = choose|i: int|
                0 <= i < first.len() && (#[trigger] first[i]).identity() == Some(card);
            assert(places.contains(i));
            let k = choose|k: int| 0 <= k < places.len() && #[trigger] places[k] == i;
            assert(second[k].identity() == Some(card));
        }
        if usb_cards(second).contains(card) {
            let k = choose|k: int|
                0 <= k < second.len() && (#[trigger] second[k]).identity() == Some(card);
            assert(second[k] == first[places[k]]);
        }
    }
    lemma_strictly_sorted_is_unique(usb_cards(first), usb_cards(second));
}

/// The entry is a card with that number, and has the wanted topology component and the
/// wanted serial number, as far as they are asked for. A serial number counts only beside a
/// USB interface, and as its file holds it but for line ends.
pub open spec fn is_wanted_card(
    entry: SoundEntry,
    card_index: u32,
    usb_interface_path: Option<Seq<char>>,
    usb_serial: Option<Seq<char>>,
) -> bool {
    &&& entry.name matches Some(name) && crate::text::card_number(name@) == Some(card_index)
    &&& entry.device_path matches Some(path) && {
        &&& usb_interface_path matches Some(expected) ==> exists|i: int|
            0 <= i < path@.len() && (#[trigger] path@[i] matches Some(part) && part@ == expected)
        &&& usb_serial matches Some(expected) ==> {
            &&& exists|i: int|
                0 <= i < path@.len() && (#[trigger] path@[i] matches Some(part)
                    && crate::text::is_usb_interface_component(part@))
            &&& entry.serial_text matches Some(text) && crate::text::without_line_end(text@)
                == expected
            &&& crate::text::usb_serial_allowed(expected)
        }
    }
}

proof fn lemma_wanted_card(
    entry: SoundEntry,
    usb_interface_path: Option<Seq<char>>,
    usb_serial: Option<Seq<char>>,
)
    ensures
        forall|card_index: u32|
            #![trigger is_wanted_card(entry, card_index, usb_interface_path, usb_serial)]
            is_wanted_card(entry, card_index, usb_interface_path, usb_serial) <==> {
                &&& entry.matches_identity(usb_interface_path, usb_serial)
                &&& entry.card() == Some(card_index)
            },
{
    if let Some(path) = entry.device_path {
        law_nearest_interface_is_the_last(path@);
        if let Some(expected) = usb_interface_path {
            assert(path_holds(path@, expected) <==> exists|i: int|
                0 <= i < path@.len() && (#[trigger] path@[i] matches Some(part) && part@
                    == expected)) by {
                if path_holds(path@, expected) {
                    let i = choose|i: int|
                        0 <= i < path@.len() && text_of(#[trigger] path@[i]) == Some(expected);
                    assert(path@[i] matches Some(part) && part@ == expected);
                }
                if exists|i: int|
                    0 <= i < path@.len() && (#[trigger] path@[i] matches Some(part) && part@
                        == expected) {
                    let i = choose|i: int|
                        0 <= i < path@.len() && (#[trigger] path@[i] matches Some(part) && part@
                            == expected);
                    assert(text_of(path@[i]) == Some(expected));
                }
            }
        }
        assert((nearest_interface(path@) is Some) <==> exists|i: int|
            0 <= i < path@.len() && (#[trigger] path@[i] matches Some(part)
                && crate::text::is_usb_interface_component(part@))) by {
            if let Some(index) = nearest_interface(path@) {
                assert(is_interface(path@[index]));
            }
            if exists|i: int|
                0 <= i < path@.len() && (#[trigger] path@[i] matches Some(part)
                    && crate::text::is_usb_interface_component(part@)) {
                let i = choose|i: int|
                    0 <= i < path@.len() && (#[trigger] path@[i] matches Some(part)
                        && crate::text::is_usb_interface_component(part@));
                assert(is_interface(path@[i]));
            }
        }
    }
}

/// An identity names a card exactly where that card is the only entry of the listing that has
/// what is asked for; otherwise it names none.
pub proof fn law_identity_names_the_only_card(
    entries: Seq<SoundEntry>,
    usb_interface_path: Option<Seq<char>>,
    usb_serial: Option<Seq<char>>,
    card_index: u32,
)
    requires
        usb_interface_path is Some || usb_serial is Some,
    ensures
        card_of_identity(Some(entries), usb_interface_path, usb_serial) == Ok::<u32, i32>(card_index)
            <==> exists|index: int|
            {
                &&& 0 <= index < entries.len()
                &&& is_wanted_card(
                    #[trigger] entries[index],
                    card_index,
                    usb_interface_path,
                    usb_serial,
                )
                &&& forall|other: int, number: u32|
                    0 <= other < entries.len() && #[trigger] is_wanted_card(
                        entries[other],
                        number,
                        usb_interface_path,
                        usb_serial,
                    ) ==> other == index
            },
        card_of_identity(Some(entries), usb_interface_path, usb_serial) matches Err(error) ==> error
            == AUDIO_UNSUPPORTED,
        card_of_identity(None, usb_interface_path, usb_serial) == Err::<u32, i32>(AUDIO_UNSUPPORTED),
{
    assert forall|k: int|
        0 <= k < entries.len() implies forall|number: u32|
        #![trigger is_wanted_card(entries[k], number, usb_interface_path, usb_serial)]
        is_wanted_card(entries[k], number, usb_interface_path, usb_serial) <==> {
            &&& (#[trigger] entries[k]).matches_identity(usb_interface_path, usb_serial)
            &&& entries[k].card() == Some(number)
        } by {
        lemma_wanted_card(entries[k], usb_interface_path, usb_serial);
    }
    if card_of_identity(Some(entries), usb_interface_path, usb_serial) == Ok::<u32, i32>(
        card_index,
    ) {
        let index = choose|index: int|
            only_match(entries, index, usb_interface_path, usb_serial);
        assert(is_wanted_card(entries[index], card_index, usb_interface_path, usb_serial));
    }
    if exists|index: int|
        {
            &&& 0 <= index < entries.len()
            &&& is_wanted_card(
                #[trigger] entries[index],
                card_index,
                usb_interface_path,
                usb_serial,
            )
            &&& forall|other: int, number: u32|
                0 <= other < entries.len() && #[trigger] is_wanted_card(
                    entries[other],
                    number,
                    usb_interface_path,
                    usb_serial,
                ) ==> other == index
        } {
        let index = choose|index: int|
            {
                &&& 0 <= index < entries.len()
                &&& is_wanted_card(
                    #[trigger] entries[index],
                    card_index,
                    usb_interface_path,
                    usb_serial,
                )
                &&& forall|other: int, number: u32|
                    0 <= other < entries.len() && #[trigger] is_wanted_card(
                        entries[other],
                        number,
                        usb_interface_path,
                        usb_serial,
                    ) ==> other == index
            };
        assert forall|other: int|
            0 <= other < entries.len() && (#[trigger] entries[other]).matches_identity(
                usb_interface_path,
                usb_serial,
            ) implies other == index by {
            assert(is_wanted_card(
                entries[other],
                entries[other].card()->0,
                usb_interface_path,
                usb_serial,
            ));
        }
        assert(only_match(entries, index, usb_interface_path, usb_serial));
        let chosen = choose|index: int|
            only_match(entries, index, usb_interface_path, usb_serial);
        assert(only_match(entries, chosen, usb_interface_path, usb_serial));
    }
}

/// The identity of a USB sound card is its number, the last component of its path that names
/// a USB interface, and its own serial number, none where its file holds no usable one.
pub proof fn law_card_identity(entry: SoundEntry, card: CardIdentity)
    ensures
        entry.identity() == Some(card) ==> {
            &&& entry.name matches Some(name) && crate::text::card_number(name@) == Some(
                card.card_index,
            )
            &&& entry.device_path matches Some(path) && exists|index: int|
                {
                    &&& 0 <= index < path@.len()
                    &&& #[trigger] path@[index] matches Some(part) && part@
                        == card.usb_interface_path && crate::text::is_usb_interface_component(part@)
                    &&& forall|below: int|
                        index < below < path@.len() ==> !(#[trigger] path@[below] matches Some(part)
                            && crate::text::is_usb_interface_component(part@))
                }
            &&& match card.usb_serial {
                Some(serial) => entry.serial_text matches Some(text)
                    && crate::text::without_line_end(text@) == serial
                    && crate::text::usb_serial_allowed(serial),
                None => entry.serial_text matches Some(text) ==> !crate::text::usb_serial_allowed(
                    crate::text::without_line_end(text@),
                ),
            }
        },
{
    if entry.identity() == Some(card) {
        let path = entry.device_path->0@;
        law_nearest_interface_is_the_last(path);
        let index = nearest_interface(path)->0;
        assert(is_interface(path[index]));
        assert forall|below: int| index < below < path.len() implies !(#[trigger] path[below]
            matches Some(part) && crate::text::is_usb_interface_component(part@)) by {
            assert(!is_interface(path[below]));
        }
    }
}

} // verus!
