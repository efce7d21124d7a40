//! Exact spellings: ALSA device names, USB topology components and serial numbers.
//!
//! Every rule is stated over the characters of a string.
use vstd::prelude::*;

use crate::abi::{AUDIO_INVALID_ARGUMENT, AUDIO_UNSUPPORTED};

verus! {

/// A C string argument.
#[derive(Clone, Copy, Debug, PartialEq, Eq)]
pub enum CText<'a> {
    /// The pointer is null.
    Null,
    /// The bytes are no UTF-8 text.
    NotUtf8,
    Text(&'a str),
}

/// The characters of `text`, in order.
pub fn characters(text: &str) -> (list: Vec<char>)
    ensures
        list@ == text@,
{
    let mut list: Vec<char> = Vec::new();
    let length: usize = text.unicode_len();
    let mut index: usize = 0;
    while index < length
        invariant
            index <= length,
            length == text@.len(),
            list@ == text@.take(index as int),
        decreases length - index,
    {
        list.push(text.get_char(index));
        index = index + 1;
        assert(text@.take(index as int) == text@.take(index - 1).push(text@[index - 1]));
    }
    assert(text@.take(length as int) == text@);
    list
}

/// True when two strings hold the same characters.
pub fn same_text(left: &str, right: &str) -> (same: bool)
    ensures
        same == (left@ == right@),
{
    let lefts = characters(left);
    let rights = characters(right);
    if lefts.len() != rights.len() {
        return false;
    }
    let mut index: usize = 0;
    while index < lefts.len()
        invariant
            index <= lefts@.len(),
            lefts@ == left@,
            rights@ == right@,
            lefts@.len() == rights@.len(),
            forall|j: int| 0 <= j < index ==> lefts@[j] == rights@[j],
        decreases lefts@.len() - index,
    {
        if lefts[index] != rights[index] {
            assert(left@[index as int] != right@[index as int]);
            return false;
        }
        index = index + 1;
    }
    assert(left@ =~= right@);
    true
}

/// A decimal digit.
pub open spec fn is_digit(c: char) -> bool {
    '0' <= c <= '9'
}

/// A Unicode control character.
pub open spec fn is_control(c: char) -> bool {
    c <= '\u{1f}' || '\u{7f}' <= c <= '\u{9f}'
}

/// A character that separates words in a PortAudio device name.
pub open spec fn is_ascii_space(c: char) -> bool {
    c == ' ' || c == '\t' || c == '\n' || c == '\u{c}' || c == '\r'
}

/// How many digits `text` starts with.
pub open spec fn digit_run(text: Seq<char>) -> nat
    decreases text.len(),
{
    if text.len() == 0 || !is_digit(text[0]) {
        0
    } else {
        1 + digit_run(text.skip(1))
    }
}

/// The number that a string of decimal digits spells.
pub open spec fn decimal_value(digits: Seq<char>) -> nat
    decreases digits.len(),
{
    if digits.len() == 0 {
        0
    } else {
        decimal_value(digits.drop_last()) * 10 + (digits.last() as nat - '0' as nat) as nat
    }
}

/// The unsigned number that `text` starts with, and what follows it.
pub open spec fn decimal_prefix(text: Seq<char>) -> Option<(u32, Seq<char>)> {
    let run = digit_run(text) as int;
    let value = decimal_value(text.take(run));
    if run == 0 || value > u32::MAX {
        None
    } else {
        Some((value as u32, text.skip(run)))
    }
}

/// The whole of `text` spells one unsigned number.
pub open spec fn whole_decimal(text: Seq<char>) -> Option<u32> {
    match decimal_prefix(text) {
        Some((value, rest)) => if rest.len() == 0 {
            Some(value)
        } else {
            None
        },
        None => None,
    }
}

proof fn lemma_digit_run_bounds(text: Seq<char>)
    ensures
        digit_run(text) <= text.len(),
        forall|j: int| 0 <= j < digit_run(text) ==> is_digit(#[trigger] text[j]),
        digit_run(text) < text.len() ==> !is_digit(text[digit_run(text) as int]),
    decreases text.len(),
{
    if text.len() != 0 && is_digit(text[0]) {
        lemma_digit_run_bounds(text.skip(1));
        assert forall|j: int| 0 <= j < digit_run(text) implies is_digit(#[trigger] text[j]) by {
            if j > 0 {
                assert(text[j] == text.skip(1)[j - 1]);
            }
        }
        if digit_run(text) < text.len() {
            assert(text[digit_run(text) as int] == text.skip(1)[digit_run(text) - 1]);
        }
    }
}

pub(crate) proof fn lemma_digit_run_is(text: Seq<char>, count: int)
    requires
        0 <= count <= text.len(),
        forall|j: int| 0 <= j < count ==> is_digit(#[trigger] text[j]),
        count < text.len() ==> !is_digit(text[count]),
    ensures
        digit_run(text) == count,
{
    lemma_digit_run_bounds(text);
    if digit_run(text) < count {
        assert(is_digit(text[digit_run(text) as int]));
    }
    if count < digit_run(text) {
        assert(is_digit(text[count]));
    }
}

proof fn lemma_value_grows(digits: Seq<char>, from: int, to: int)
    requires
        0 <= from <= to <= digits.len(),
    ensures
        decimal_value(digits.take(from)) <= decimal_value(digits.take(to)),
    decreases to - from,
{
    if from < to {
        lemma_value_grows(digits, from, to - 1);
        assert(digits.take(to).drop_last() == digits.take(to - 1));
    }
}

/// Reads the number that starts at `start`, and returns it with the index of the
/// first character after it.
fn read_decimal(text: &Vec<char>, start: usize) -> (found: Option<(u32, usize)>)
    requires
        start <= text@.len(),
    ensures
        match decimal_prefix(text@.skip(start as int)) {
            Some((value, rest)) => found matches Some((read, end)) && read == value && start < end
                <= text@.len() && rest == text@.skip(end as int),
            None => found is None,
        },
{
    let ghost tail = text@.skip(start as int);
    let mut index: usize = start;
    let mut value: u64 = 0;
    let mut fits: bool = true;
    while index < text.len() && '0' <= text[index] && text[index] <= '9'
        invariant
            start <= index <= text@.len(),
            tail == text@.skip(start as int),
            forall|j: int| 0 <= j < index - start ==> is_digit(#[trigger] tail[j]),
            fits ==> value <= u32::MAX && value == decimal_value(tail.take(index - start)),
            !fits ==> decimal_value(tail.take(index - start)) > u32::MAX,
        decreases text@.len() - index,
    {
        let digit: u64 = (text[index] as u32 - '0' as u32) as u64;
        proof {
            let count = index - start;
            assert(tail[count] == text@[index as int]);
            assert(tail.take(count + 1).drop_last() == tail.take(count));
            lemma_value_grows(tail, count, count + 1);
        }
        if fits {
            value = value * 10 + digit;
            if value > u32::MAX as u64 {
                fits = false;
            }
        }
        index = index + 1;
    }
    proof {
        let count = index - start;
        if index < text@.len() {
            assert(tail[count] == text@[index as int]);
        }
        lemma_digit_run_is(tail, count);
        assert(tail.skip(count) == text@.skip(index as int));
    }
    if index == start || !fits {
        None
    } else {
        Some((value as u32, index))
    }
}

/// Parses an unsigned decimal prefix; empty and overflowing prefixes are refused.
pub fn parse_decimal_prefix(value: &str) -> (parsed: Option<(u32, &str)>)
    ensures
        match decimal_prefix(value@) {
            Some((number, rest)) => parsed matches Some((read, remainder)) && read == number
                && remainder@ == rest,
            None => parsed is None,
        },
{
    let list = characters(value);
    assert(list@.skip(0) == list@);
    match read_decimal(&list, 0) {
        Some((number, end)) => Some((number, value.substring_char(end, list.len()))),
        None => None,
    }
}

/// A native ALSA card and PCM device.
#[derive(Clone, Copy, Debug, PartialEq, Eq, Structural)]
pub struct RawAlsaDevice {
    pub card_index: u32,
    pub pcm_device: u32,
}

/// `text` spells the prefix `hw:` at `index`.
pub open spec fn hw_prefix_at(text: Seq<char>, index: int) -> bool {
    &&& 0 <= index
    &&& index + 3 <= text.len()
    &&& text[index] == 'h'
    &&& text[index + 1] == 'w'
    &&& text[index + 2] == ':'
}

/// The `<card>,<pcm>` pair that `text` starts with, and what follows it.
pub open spec fn card_and_pcm(text: Seq<char>) -> Option<(RawAlsaDevice, Seq<char>)> {
    match decimal_prefix(text) {
        Some((card_index, after_card)) => if after_card.len() == 0 || after_card[0] != ',' {
            None
        } else {
            match decimal_prefix(after_card.skip(1)) {
                Some((pcm_device, rest)) => Some((RawAlsaDevice { card_index, pcm_device }, rest)),
                None => None,
            }
        },
        None => None,
    }
}

/// The raw device that the word at `index` names.
///
/// The word `hw:<card>,<pcm>` starts the name or follows a space or `(`, and ends
/// the name or is followed by a space or `)`; `plughw:` and other aliases are not
/// words of this form.
pub open spec fn native_token_at(name: Seq<char>, index: int) -> Option<RawAlsaDevice> {
    if hw_prefix_at(name, index) && (index == 0 || name[index - 1] == '(' || is_ascii_space(
        name[index - 1],
    )) {
        match card_and_pcm(name.skip(index + 3)) {
            Some((device, rest)) => if rest.len() == 0 || rest[0] == ')' || is_ascii_space(
                rest[0],
            ) {
                Some(device)
            } else {
                None
            },
            None => None,
        }
    } else {
        None
    }
}

fn ascii_space(c: char) -> (space: bool)
    ensures
        space == is_ascii_space(c),
{
    c == ' ' || c == '\t' || c == '\n' || c == '\u{c}' || c == '\r'
}

fn hw_prefix(text: &Vec<char>, index: usize) -> (found: bool)
    requires
        index <= text@.len(),
    ensures
        found == hw_prefix_at(text@, index as int),
{
    text.len() - index >= 3 && text[index] == 'h' && text[index + 1] == 'w' && text[index + 2]
        == ':'
}

fn native_token(text: &Vec<char>, index: usize) -> (token: Option<RawAlsaDevice>)
    requires
        index < text@.len(),
    ensures
        token == native_token_at(text@, index as int),
{
    let length: usize = text.len();
    if !hw_prefix(text, index) {
        return None;
    }
    if index != 0 && !(text[index - 1] == '(' || ascii_space(text[index - 1])) {
        return None;
    }
    let (card_index, after_card) = match read_decimal(text, index + 3) {
        Some(found) => found,
        None => return None,
    };
    if after_card == length || text[after_card] != ',' {
        return None;
    }
    assert(text@.skip(after_card as int).skip(1) == text@.skip(after_card + 1));
    let (pcm_device, after_pcm) = match read_decimal(text, after_card + 1) {
        Some(found) => found,
        None => return None,
    };
    if after_pcm == length || text[after_pcm] == ')' || ascii_space(text[after_pcm]) {
        Some(RawAlsaDevice { card_index, pcm_device })
    } else {
        None
    }
}

/// Returns the first native `hw:<card>,<pcm>` word of a PortAudio ALSA device name.
///
/// Plugin aliases are excluded, so that no format or latency policy hides behind
/// `plughw:` or another plugin.
pub fn raw_alsa_device_from_portaudio_name(name: &str) -> (device: Option<RawAlsaDevice>)
    ensures
        device == first_native_token(name@),
{
    let text = characters(name);
    let mut index: usize = 0;
    while index < text.len()
        invariant
            index <= text@.len(),
            text@ == name@,
            forall|j: int| 0 <= j < index ==> native_token_at(name@, j) is None,
        decreases text@.len() - index,
    {
        let token = native_token(&text, index);
        if token.is_some() {
            proof {
                lemma_first_native_token(name@, index as int);
            }
            return token;
        }
        index = index + 1;
    }
    proof {
        assert forall|j: int| native_token_at(name@, j) is None by {
            if j >= name@.len() || j < 0 {
                assert(!hw_prefix_at(name@, j));
            }
        }
    }
    None
}

/// The raw device that the first native word of `name` names, if it has one.
pub open spec fn first_native_token(name: Seq<char>) -> Option<RawAlsaDevice> {
    if exists|index: int| is_first_native_token(name, index) {
        native_token_at(name, choose|index: int| is_first_native_token(name, index))
    } else {
        None
    }
}

/// The first native word of `name` starts at `index`.
pub open spec fn is_first_native_token(name: Seq<char>, index: int) -> bool {
    &&& native_token_at(name, index) is Some
    &&& forall|earlier: int|
        0 <= earlier < index ==> native_token_at(name, earlier) is None
}

proof fn lemma_first_native_token(name: Seq<char>, index: int)
    requires
        0 <= index,
        is_first_native_token(name, index),
    ensures
        first_native_token(name) == native_token_at(name, index),
{
    let chosen = choose|index: int| is_first_native_token(name, index);
    assert(is_first_native_token(name, chosen));
    assert(hw_prefix_at(name, chosen));
    assert(hw_prefix_at(name, index));
    if chosen < index {
        assert(native_token_at(name, chosen) is None);
    }
    if index < chosen {
        assert(native_token_at(name, index) is None);
    }
}

/// What stands in the middle of a word, such as the end of `plughw:0,0`, names no raw
/// device.
pub proof fn law_aliases_are_not_native(name: Seq<char>, index: int)
    requires
        0 < index,
        name[index - 1] != '(',
        !is_ascii_space(name[index - 1]),
    ensures
        native_token_at(name, index) is None,
{
}

/// A parsed native `hw:<card>` or `hw:<card>,<pcm>` selector.
#[derive(Clone, Copy, Debug, PartialEq, Eq, Structural)]
pub struct LegacyHwSelector {
    pub card_index: u32,
    pub pcm_device: Option<u32>,
}

/// The selector that `text` spells exactly, with nothing before or after it.
pub open spec fn legacy_selector(text: Seq<char>) -> Option<LegacyHwSelector> {
    if !hw_prefix_at(text, 0) {
        None
    } else {
        match whole_decimal(text.skip(3)) {
            Some(card_index) => Some(LegacyHwSelector { card_index, pcm_device: None }),
            None => match card_and_pcm(text.skip(3)) {
                Some((device, rest)) => if rest.len() == 0 {
                    Some(
                        LegacyHwSelector {
                            card_index: device.card_index,
                            pcm_device: Some(device.pcm_device),
                        },
                    )
                } else {
                    None
                },
                None => None,
            },
        }
    }
}

/// Parses the exact native ALSA spelling accepted for compatibility selection.
pub fn parse_legacy_hw_selector(value: &str) -> (parsed: Result<LegacyHwSelector, i32>)
    ensures
        match legacy_selector(value@) {
            Some(selector) => parsed == Ok::<LegacyHwSelector, i32>(selector),
            None => parsed == Err::<LegacyHwSelector, i32>(AUDIO_INVALID_ARGUMENT),
        },
{
    let text = characters(value);
    if !hw_prefix(&text, 0) {
        return Err(AUDIO_INVALID_ARGUMENT);
    }
    let (card_index, after_card) = match read_decimal(&text, 3) {
        Some(found) => found,
        None => return Err(AUDIO_INVALID_ARGUMENT),
    };
    if after_card == text.len() {
        return Ok(LegacyHwSelector { card_index, pcm_device: None });
    }
    if text[after_card] != ',' {
        return Err(AUDIO_INVALID_ARGUMENT);
    }
    assert(text@.skip(after_card as int).skip(1) == text@.skip(after_card + 1));
    let (pcm_device, after_pcm) = match read_decimal(&text, after_card + 1) {
        Some(found) => found,
        None => return Err(AUDIO_INVALID_ARGUMENT),
    };
    if after_pcm != text.len() {
        return Err(AUDIO_INVALID_ARGUMENT);
    }
    Ok(LegacyHwSelector { card_index, pcm_device: Some(pcm_device) })
}

/// `value` starts with `hw:`, so it is a native selector and no topology.
pub fn starts_with_hw(value: &str) -> (found: bool)
    ensures
        found == hw_prefix_at(value@, 0),
{
    let text = characters(value);
    hw_prefix(&text, 0)
}

/// The card number that a sound-class entry name spells.
///
/// The number may carry a plus sign, as unsigned numbers may.
pub open spec fn card_number(name: Seq<char>) -> Option<u32> {
    if name.len() < 4 || name[0] != 'c' || name[1] != 'a' || name[2] != 'r' || name[3] != 'd' {
        None
    } else if name.len() > 4 && name[4] == '+' {
        whole_decimal(name.skip(5))
    } else {
        whole_decimal(name.skip(4))
    }
}

/// Parses `card<number>`.
pub fn parse_card_number(name: &str) -> (number: Option<u32>)
    ensures
        number == card_number(name@),
{
    let text = characters(name);
    if text.len() < 4 || text[0] != 'c' || text[1] != 'a' || text[2] != 'r' || text[3] != 'd' {
        return None;
    }
    let start: usize = if text.len() > 4 && text[4] == '+' {
        5
    } else {
        4
    };
    match read_decimal(&text, start) {
        Some((number, end)) => if end == text.len() {
            Some(number)
        } else {
            None
        },
        None => None,
    }
}

/// No character of `text` is a control character.
pub open spec fn control_free(text: Seq<char>) -> bool {
    forall|i: int| 0 <= i < text.len() ==> !is_control(#[trigger] text[i])
}

/// `text` can be one component of a sysfs path.
pub open spec fn usb_interface_path_allowed(text: Seq<char>) -> bool {
    &&& text.len() > 0
    &&& text != seq!['.']
    &&& text != seq!['.', '.']
    &&& !text.contains('/')
    &&& !text.contains('\\')
    &&& control_free(text)
}

/// `text` can be a USB serial number.
pub open spec fn usb_serial_allowed(text: Seq<char>) -> bool {
    text.len() > 0 && control_free(text)
}

fn has_control(text: &Vec<char>) -> (found: bool)
    ensures
        found == !control_free(text@),
{
    let mut index: usize = 0;
    while index < text.len()
        invariant
            index <= text@.len(),
            forall|j: int| 0 <= j < index ==> !is_control(#[trigger] text@[j]),
        decreases text@.len() - index,
    {
        let c: char = text[index];
        if c <= '\u{1f}' || ('\u{7f}' <= c && c <= '\u{9f}') {
            assert(is_control(text@[index as int]));
            return true;
        }
        index = index + 1;
    }
    false
}

fn holds(text: &Vec<char>, wanted: char) -> (found: bool)
    ensures
        found == text@.contains(wanted),
{
    let mut index: usize = 0;
    while index < text.len()
        invariant
            index <= text@.len(),
            forall|j: int| 0 <= j < index ==> text@[j] != wanted,
        decreases text@.len() - index,
    {
        if text[index] == wanted {
            assert(text@[index as int] == wanted);
            return true;
        }
        index = index + 1;
    }
    false
}

/// Accepts a string that can be one component of a sysfs path.
pub fn valid_usb_interface_path(value: &str) -> (valid: bool)
    ensures
        valid == usb_interface_path_allowed(value@),
{
    let text = characters(value);
    if text.len() == 0 {
        return false;
    }
    if text.len() == 1 && text[0] == '.' {
        assert(text@ =~= seq!['.']);
        return false;
    }
    if text.len() == 2 && text[0] == '.' && text[1] == '.' {
        assert(text@ =~= seq!['.', '.']);
        return false;
    }
    !holds(&text, '/') && !holds(&text, '\\') && !has_control(&text)
}

/// Accepts a string that can be a USB serial number.
pub fn valid_usb_serial(value: &str) -> (valid: bool)
    ensures
        valid == usb_serial_allowed(value@),
{
    let text = characters(value);
    text.len() != 0 && !has_control(&text)
}

/// A character of a USB port chain, such as `3-1.2`.
pub open spec fn is_topology_char(c: char) -> bool {
    is_digit(c) || c == '.' || c == '-'
}

/// A character of a USB configuration and interface number, such as `1.0`.
pub open spec fn is_interface_char(c: char) -> bool {
    is_digit(c) || c == '.'
}

/// `text` is a port chain and an interface number joined by the colon at `colon`.
pub open spec fn usb_interface_split(text: Seq<char>, colon: int) -> bool {
    &&& 0 < colon < text.len() - 1
    &&& text[colon] == ':'
    &&& forall|i: int| 0 <= i < colon ==> is_topology_char(#[trigger] text[i])
    &&& exists|i: int| 0 <= i < colon && #[trigger] text[i] == '-'
    &&& forall|i: int| colon < i < text.len() ==> is_interface_char(#[trigger] text[i])
}

/// `text` names a USB interface, such as `3-1.2:1.0`.
pub open spec fn is_usb_interface_component(text: Seq<char>) -> bool {
    exists|colon: int| usb_interface_split(text, colon)
}

/// Returns whether a sysfs path component names a USB interface.
pub fn looks_like_usb_interface_component(value: &str) -> (found: bool)
    ensures
        found == is_usb_interface_component(value@),
{
    let text = characters(value);
    let mut colon: usize = 0;
    let mut dash: bool = false;
    while colon < text.len() && text[colon] != ':'
        invariant
            colon <= text@.len(),
            text@ == value@,
            forall|i: int| 0 <= i < colon ==> is_topology_char(#[trigger] text@[i]),
            dash == exists|i: int| 0 <= i < colon && #[trigger] text@[i] == '-',
        decreases text@.len() - colon,
    {
        let c: char = text[colon];
        if !(('0' <= c && c <= '9') || c == '.' || c == '-') {
            proof {
                assert forall|k: int| !usb_interface_split(text@, k) by {
                    assert(!is_topology_char(text@[colon as int]));
                    assert(text@[colon as int] != ':');
                }
            }
            return false;
        }
        if c == '-' {
            dash = true;
            assert(text@[colon as int] == '-');
        }
        colon = colon + 1;
    }
    if colon == text.len() || colon == text.len() - 1 || !dash {
        proof {
            assert forall|k: int| !usb_interface_split(text@, k) by {
                if k < colon {
                    assert(0 <= k ==> is_topology_char(text@[k]));
                } else if k > colon && k < text@.len() {
                    assert(!is_topology_char(text@[colon as int]));
                }
            }
        }
        return false;
    }
    let mut index: usize = colon + 1;
    while index < text.len()
        invariant
            0 < colon < index <= text@.len(),
            text@ == value@,
            text@[colon as int] == ':',
            forall|i: int| 0 <= i < colon ==> is_topology_char(#[trigger] text@[i]),
            forall|i: int| colon < i < index ==> is_interface_char(#[trigger] text@[i]),
        decreases text@.len() - index,
    {
        let c: char = text[index];
        if !(('0' <= c && c <= '9') || c == '.') {
            proof {
                assert(!is_interface_char(text@[index as int]));
                assert forall|k: int| !usb_interface_split(text@, k) by {
                    if k < colon {
                        assert(0 <= k ==> is_topology_char(text@[k]));
                    } else if k > colon {
                        assert(!is_topology_char(text@[colon as int]));
                    }
                }
            }
            return false;
        }
        index = index + 1;
    }
    assert(usb_interface_split(text@, colon as int));
    true
}

/// `text` without the line ends at its end.
pub open spec fn without_line_end(text: Seq<char>) -> Seq<char>
    decreases text.len(),
{
    if text.len() > 0 && (text.last() == '\n' || text.last() == '\r') {
        without_line_end(text.drop_last())
    } else {
        text
    }
}

/// Removes the line ends at the end of `value`.
pub fn trim_line_end(value: &str) -> (trimmed: &str)
    ensures
        trimmed@ == without_line_end(value@),
{
    let text = characters(value);
    let mut end: usize = text.len();
    assert(text@.take(end as int) == text@);
    while end > 0 && (text[end - 1] == '\n' || text[end - 1] == '\r')
        invariant
            end <= text@.len(),
            text@ == value@,
            without_line_end(text@) == without_line_end(text@.take(end as int)),
        decreases end,
    {
        assert(text@.take(end as int).drop_last() == text@.take(end - 1));
        end = end - 1;
    }
    assert(end > 0 ==> text@.take(end as int).last() == text@[end - 1]);
    assert(value@.subrange(0, end as int) == text@.take(end as int));
    value.substring_char(0, end)
}

/// The content of a NUL-terminated buffer of `capacity` bytes that holds `bytes`.
pub open spec fn padded(bytes: Seq<u8>, capacity: nat) -> Seq<u8> {
    Seq::new(
        capacity,
        |i: int|
            if i < bytes.len() {
                bytes[i]
            } else {
                0
            },
    )
}

/// Copies `value` into a NUL-terminated buffer, or changes nothing if it and its
/// terminator do not fit.
pub fn copy_bytes(destination: &mut [u8], value: &[u8]) -> (copied: Result<(), i32>)
    ensures
        final(destination)@.len() == old(destination)@.len(),
        value@.len() < old(destination)@.len() ==> copied is Ok && final(destination)@ == padded(
            value@,
            old(destination)@.len(),
        ),
        value@.len() >= old(destination)@.len() ==> copied == Err::<(), i32>(AUDIO_UNSUPPORTED)
            && final(destination)@ == old(destination)@,
{
    let capacity: usize = destination.len();
    if value.len() >= capacity {
        return Err(AUDIO_UNSUPPORTED);
    }
    let mut index: usize = 0;
    while index < capacity
        invariant
            index <= capacity,
            destination@.len() == capacity,
            value@.len() < capacity,
            forall|j: int|
                0 <= j < index ==> destination@[j] == padded(value@, capacity as nat)[j],
        decreases capacity - index,
    {
        let byte: u8 = if index < value.len() {
            value[index]
        } else {
            0
        };
        destination[index] = byte;
        index = index + 1;
    }
    assert(destination@ =~= padded(value@, capacity as nat));
    Ok(())
}

/// Copies one host identity string into a NUL-terminated buffer.
pub fn copy_usb_identity_component(destination: &mut [u8], value: &str) -> (copied: Result<
    (),
    i32,
>)
    ensures
        final(destination)@.len() == old(destination)@.len(),
        vstd::utf8::encode_utf8(value@).len() < old(destination)@.len() ==> copied is Ok
            && final(destination)@ == padded(vstd::utf8::encode_utf8(value@), old(destination)@.len()),
        vstd::utf8::encode_utf8(value@).len() >= old(destination)@.len() ==> copied == Err::<(), i32>(
            AUDIO_UNSUPPORTED,
        ) && final(destination)@ == old(destination)@,
{
    copy_bytes(destination, value.as_bytes())
}

/// The characters from `from` up to `to` are decimal digits, at least one, and spell
/// `value`.
pub open spec fn number_between(text: Seq<char>, from: int, to: int, value: u32) -> bool {
    &&& 0 <= from < to <= text.len()
    &&& forall|i: int| from <= i < to ==> '0' <= #[trigger] text[i] <= '9'
    &&& decimal_value(text.subrange(from, to)) == value
}

/// A number is read from its digits, the last being the ones: each further digit makes ten of
/// what was read before it.
pub proof fn law_decimal_value(digits: Seq<char>, digit: char)
    requires
        '0' <= digit <= '9',
    ensures
        decimal_value(Seq::empty()) == 0,
        decimal_value(digits.push(digit)) == 10 * decimal_value(digits) + (digit as int - 48),
{
    assert(digits.push(digit).drop_last() =~= digits);
}

proof fn lemma_prefix_is_spelled(text: Seq<char>, from: int)
    requires
        0 <= from <= text.len(),
    ensures
        match decimal_prefix(text.skip(from)) {
            Some((value, rest)) => {
                let to = from + digit_run(text.skip(from));
                &&& number_between(text, from, to, value)
                &&& rest == text.skip(to)
                &&& to < text.len() ==> !is_digit(text[to])
            },
            None => forall|to: int, value: u32|
                #[trigger] number_between(text, from, to, value) ==> to < text.len() && is_digit(
                    text[to],
                ),
        },
{
    let tail = text.skip(from);
    let run = digit_run(tail) as int;
    lemma_digit_run_bounds(tail);
    assert forall|i: int| from <= i < from + run implies '0' <= #[trigger] text[i] <= '9' by {
        assert(is_digit(tail[i - from]));
    }
    assert(tail.take(run) =~= text.subrange(from, from + run));
    assert(tail.skip(run) =~= text.skip(from + run));
    if decimal_prefix(tail) is None {
        assert forall|to: int, value: u32| #[trigger]
            number_between(text, from, to, value) implies to < text.len() && is_digit(text[to]) by {
            if to == text.len() || !is_digit(text[to]) {
                lemma_number_is_read(text, from, to, value);
            }
        }
    }
}

proof fn lemma_number_is_read(text: Seq<char>, from: int, to: int, value: u32)
    requires
        number_between(text, from, to, value),
        to == text.len() || !is_digit(text[to]),
    ensures
        decimal_prefix(text.skip(from)) == Some((value, text.skip(to))),
{
    let tail = text.skip(from);
    assert forall|j: int| 0 <= j < to - from implies is_digit(#[trigger] tail[j]) by {
        assert(tail[j] == text[from + j]);
    }
    lemma_digit_run_is(tail, to - from);
    assert(tail.take(to - from) =~= text.subrange(from, to));
    assert(tail.skip(to - from) =~= text.skip(to));
}

/// The word `hw:<card>,<pcm>` stands from `index` on, its comma at `comma` and its end before
/// `end`: it starts the name or follows a space or `(`, and ends the name or is followed by a
/// space or `)`.
pub open spec fn is_native_word(
    name: Seq<char>,
    index: int,
    comma: int,
    end: int,
    device: RawAlsaDevice,
) -> bool {
    &&& 0 <= index && index + 3 < comma
    &&& index == 0 || name[index - 1] == '(' || name[index - 1] == ' ' || name[index - 1] == '\t'
        || name[index - 1] == '\n' || name[index - 1] == '\u{c}' || name[index - 1] == '\r'
    &&& comma < name.len()
    &&& name[index] == 'h' && name[index + 1] == 'w' && name[index + 2] == ':'
    &&& number_between(name, index + 3, comma, device.card_index)
    &&& name[comma] == ','
    &&& number_between(name, comma + 1, end, device.pcm_device)
    &&& end == name.len() || name[end] == ')' || name[end] == ' ' || name[end] == '\t' || name[end]
        == '\n' || name[end] == '\u{c}' || name[end] == '\r'
}

/// A name has a native word at a place exactly where it is spelled there, the card before the
/// comma and the PCM device after it.
pub proof fn law_native_word_is_spelled(name: Seq<char>, index: int, device: RawAlsaDevice)
    ensures
        native_token_at(name, index) == Some(device) <==> exists|comma: int, end: int|
            is_native_word(name, index, comma, end, device),
{
    if hw_prefix_at(name, index) {
        let start = index + 3;
        lemma_prefix_is_spelled(name, start);
        if native_token_at(name, index) == Some(device) {
            let comma = start + digit_run(name.skip(start));
            lemma_prefix_is_spelled(name, comma + 1);
            assert(name.skip(comma).skip(1) =~= name.skip(comma + 1));
            assert(name.skip(comma)[0] == name[comma]);
            let end = comma + 1 + digit_run(name.skip(comma + 1));
            if end < name.len() {
                assert(name.skip(end)[0] == name[end]);
            }
            assert(is_native_word(name, index, comma, end, device));
        }
    }
    if exists|comma: int, end: int| is_native_word(name, index, comma, end, device) {
        let (comma, end) = choose|comma: int, end: int|
            is_native_word(name, index, comma, end, device);
        let start = index + 3;
        lemma_number_is_read(name, start, comma, device.card_index);
        lemma_number_is_read(name, comma + 1, end, device.pcm_device);
        assert(name.skip(comma).skip(1) =~= name.skip(comma + 1));
        assert(name.skip(comma)[0] == name[comma]);
        if end < name.len() {
            assert(name.skip(end)[0] == name[end]);
        }
    }
}

/// A device name stands for the raw device of its first native word, and for none where it
/// has no such word.
pub proof fn law_name_stands_for_its_first_word(name: Seq<char>, device: RawAlsaDevice)
    ensures
        first_native_token(name) == Some(device) <==> exists|index: int|
            0 <= index && #[trigger] native_token_at(name, index) == Some(device) && forall|
                earlier: int,
            |
                0 <= earlier < index ==> #[trigger] native_token_at(name, earlier) is None,
        first_native_token(name) is None <==> forall|index: int| #[trigger]
            native_token_at(name, index) is None,
{
    if first_native_token(name) is Some {
        let chosen = choose|index: int| is_first_native_token(name, index);
        assert(is_first_native_token(name, chosen));
        assert(hw_prefix_at(name, chosen));
    }
    if exists|index: int|
        0 <= index && #[trigger] native_token_at(name, index) == Some(device) && forall|
            earlier: int,
        |
            0 <= earlier < index ==> #[trigger] native_token_at(name, earlier) is None {
        let index = choose|index: int|
            0 <= index && #[trigger] native_token_at(name, index) == Some(device) && forall|
                earlier: int,
            |
                0 <= earlier < index ==> #[trigger] native_token_at(name, earlier) is None;
        assert(is_first_native_token(name, index));
        lemma_first_native_token(name, index);
    }
    if exists|index: int| #[trigger] native_token_at(name, index) is Some {
        let index = choose|index: int| #[trigger] native_token_at(name, index) is Some;
        assert(hw_prefix_at(name, index));
        lemma_some_word_is_first(name, index);
    }
}

proof fn lemma_some_word_is_first(name: Seq<char>, index: int)
    requires
        0 <= index,
        native_token_at(name, index) is Some,
    ensures
        first_native_token(name) is Some,
    decreases index,
{
    if exists|earlier: int| 0 <= earlier < index && #[trigger] native_token_at(name, earlier) is Some {
        let earlier = choose|earlier: int|
            0 <= earlier < index && #[trigger] native_token_at(name, earlier) is Some;
        lemma_some_word_is_first(name, earlier);
    } else {
        assert(is_first_native_token(name, index));
        lemma_first_native_token(name, index);
    }
}

/// A native selector is the whole of `hw:<card>` or of `hw:<card>,<pcm>`, and nothing else.
pub proof fn law_native_selector_is_spelled(text: Seq<char>, selector: LegacyHwSelector)
    ensures
        legacy_selector(text) == Some(selector) <==> {
            &&& text.len() > 3 && text[0] == 'h' && text[1] == 'w' && text[2] == ':'
            &&& match selector.pcm_device {
                None => number_between(text, 3, text.len() as int, selector.card_index),
                Some(pcm_device) => exists|comma: int|
                    {
                        &&& #[trigger] number_between(text, 3, comma, selector.card_index)
                        &&& comma < text.len() && text[comma] == ','
                        &&& number_between(text, comma + 1, text.len() as int, pcm_device)
                    },
            }
        },
{
    let length = text.len() as int;
    if hw_prefix_at(text, 0) {
        lemma_prefix_is_spelled(text, 3);
        let comma = 3 + digit_run(text.skip(3)) as int;
        if decimal_prefix(text.skip(3)) is Some && comma < length {
            assert(text.skip(comma)[0] == text[comma]);
            assert(text.skip(comma).skip(1) =~= text.skip(comma + 1));
            lemma_prefix_is_spelled(text, comma + 1);
        }
    }
    if text.len() > 3 && text[0] == 'h' && text[1] == 'w' && text[2] == ':' {
        match selector.pcm_device {
            None => {
                if number_between(text, 3, length, selector.card_index) {
                    lemma_number_is_read(text, 3, length, selector.card_index);
                    assert(text.skip(length).len() == 0);
                }
            },
            Some(pcm_device) => {
                if exists|comma: int|
                    {
                        &&& #[trigger] number_between(text, 3, comma, selector.card_index)
                        &&& comma < text.len() && text[comma] == ','
                        &&& number_between(text, comma + 1, length, pcm_device)
                    } {
                    let comma = choose|comma: int|
                        {
                            &&& #[trigger] number_between(text, 3, comma, selector.card_index)
                            &&& comma < text.len() && text[comma] == ','
                            &&& number_between(text, comma + 1, length, pcm_device)
                        };
                    lemma_number_is_read(text, 3, comma, selector.card_index);
                    lemma_number_is_read(text, comma + 1, length, pcm_device);
                    assert(text.skip(comma).skip(1) =~= text.skip(comma + 1));
                    assert(text.skip(comma)[0] == text[comma]);
                    assert(text.skip(length).len() == 0);
                }
            },
        }
    }
}

/// An entry of the sound class is a card exactly where its name is `card` and a number, which
/// may carry a plus sign.
pub proof fn law_card_entry_is_spelled(name: Seq<char>, number: u32)
    ensures
        card_number(name) == Some(number) <==> {
            &&& name.len() > 4 && name[0] == 'c' && name[1] == 'a' && name[2] == 'r' && name[3]
                == 'd'
            &&& number_between(name, 4, name.len() as int, number) || name[4] == '+'
                && number_between(name, 5, name.len() as int, number)
        },
{
    let length = name.len() as int;
    if length >= 4 {
        lemma_prefix_is_spelled(name, 4);
        if number_between(name, 4, length, number) {
            lemma_number_is_read(name, 4, length, number);
            assert('0' <= name[4] <= '9');
        }
    }
    if length >= 5 {
        lemma_prefix_is_spelled(name, 5);
        if number_between(name, 5, length, number) {
            lemma_number_is_read(name, 5, length, number);
        }
    }
}

/// Line ends are taken off the end and nowhere else: what is left is a prefix that does not
/// end in one, and only line ends follow it.
pub proof fn law_line_ends_are_taken_off(text: Seq<char>)
    ensures
        ({
            let left = without_line_end(text);
            &&& left.len() <= text.len()
            &&& left == text.take(left.len() as int)
            &&& left.len() > 0 ==> left.last() != '\n' && left.last() != '\r'
            &&& forall|i: int|
                left.len() <= i < text.len() ==> #[trigger] text[i] == '\n' || text[i] == '\r'
        }),
    decreases text.len(),
{
    if text.len() > 0 && (text.last() == '\n' || text.last() == '\r') {
        let rest = text.drop_last();
        law_line_ends_are_taken_off(rest);
        let left = without_line_end(text);
        assert(text.take(left.len() as int) =~= rest.take(left.len() as int));
        assert forall|i: int| left.len() <= i < text.len() implies #[trigger] text[i] == '\n'
            || text[i] == '\r' by {
            if i < rest.len() {
                assert(text[i] == rest[i]);
            }
        }
    } else {
        assert(text.take(text.len() as int) =~= text);
    }
}

/// A path component is any text but the empty one, `.` and `..`, without slashes of either
/// kind and without control characters; a serial number is any text but the empty one
/// without control characters.
pub proof fn law_allowed_identity_texts(text: Seq<char>)
    ensures
        usb_interface_path_allowed(text) <==> {
            &&& text.len() > 0
            &&& !(text.len() == 1 && text[0] == '.')
            &&& !(text.len() == 2 && text[0] == '.' && text[1] == '.')
            &&& forall|i: int|
                0 <= i < text.len() ==> #[trigger] text[i] != '/' && text[i] != '\\' && text[i]
                    > '\u{1f}' && !('\u{7f}' <= text[i] <= '\u{9f}')
        },
        usb_serial_allowed(text) <==> {
            &&& text.len() > 0
            &&& forall|i: int|
                0 <= i < text.len() ==> #[trigger] text[i] > '\u{1f}' && !('\u{7f}' <= text[i]
                    <= '\u{9f}')
        },
{
    if text.len() == 1 && text[0] == '.' {
        assert(text =~= seq!['.']);
    }
    if text.len() == 2 && text[0] == '.' && text[1] == '.' {
        assert(text =~= seq!['.', '.']);
    }
    if usb_interface_path_allowed(text) {
        assert forall|i: int| 0 <= i < text.len() implies #[trigger] text[i] != '/' && text[i]
            != '\\' && text[i] > '\u{1f}' && !('\u{7f}' <= text[i] <= '\u{9f}') by {
            assert(text.contains(text[i]));
            assert(!is_control(text[i]));
        }
    }
    if usb_serial_allowed(text) {
        assert forall|i: int| 0 <= i < text.len() implies #[trigger] text[i] > '\u{1f}' && !(
        '\u{7f}' <= text[i] <= '\u{9f}') by {
            assert(!is_control(text[i]));
        }
    }
}

/// A component names a USB interface exactly where it is a port chain of digits, dots and at
/// least one dash, a colon, and an interface number of digits and dots.
pub proof fn law_interface_component_is_spelled(text: Seq<char>)
    ensures
        is_usb_interface_component(text) <==> exists|colon: int|
            {
                &&& 0 < colon < text.len() - 1
                &&& #[trigger] text[colon] == ':'
                &&& forall|i: int|
                    0 <= i < colon ==> '0' <= #[trigger] text[i] <= '9' || text[i] == '.' || text[i]
                        == '-'
                &&& exists|i: int| 0 <= i < colon && #[trigger] text[i] == '-'
                &&& forall|i: int|
                    colon < i < text.len() ==> '0' <= #[trigger] text[i] <= '9' || text[i] == '.'
            },
{
    if is_usb_interface_component(text) {
        let colon = choose|colon: int| usb_interface_split(text, colon);
        assert(text[colon] == ':');
        assert forall|i: int| 0 <= i < colon implies '0' <= #[trigger] text[i] <= '9' || text[i]
            == '.' || text[i] == '-' by {
            assert(is_topology_char(text[i]));
        }
        assert forall|i: int| colon < i < text.len() implies '0' <= #[trigger] text[i] <= '9'
            || text[i] == '.' by {
            assert(is_interface_char(text[i]));
        }
    }
    if exists|colon: int|
        {
            &&& 0 < colon < text.len() - 1
            &&& #[trigger] text[colon] == ':'
            &&& forall|i: int|
                0 <= i < colon ==> '0' <= #[trigger] text[i] <= '9' || text[i] == '.' || text[i]
                    == '-'
            &&& exists|i: int| 0 <= i < colon && #[trigger] text[i] == '-'
            &&& forall|i: int|
                colon < i < text.len() ==> '0' <= #[trigger] text[i] <= '9' || text[i] == '.'
        } {
        let colon = choose|colon: int|
            {
                &&& 0 < colon < text.len() - 1
                &&& #[trigger] text[colon] == ':'
                &&& forall|i: int|
                    0 <= i < colon ==> '0' <= #[trigger] text[i] <= '9' || text[i] == '.' || text[i]
                        == '-'
                &&& exists|i: int| 0 <= i < colon && #[trigger] text[i] == '-'
                &&& forall|i: int|
                    colon < i < text.len() ==> '0' <= #[trigger] text[i] <= '9' || text[i] == '.'
            };
        assert(usb_interface_split(text, colon));
    }
}

/// A C string buffer holds the bytes, then zeros.
pub proof fn law_padded_buffer(bytes: Seq<u8>, capacity: nat, place: int)
    requires
        0 <= place < capacity,
    ensures
        padded(bytes, capacity).len() == capacity,
        place < bytes.len() ==> padded(bytes, capacity)[place] == bytes[place],
        place >= bytes.len() ==> padded(bytes, capacity)[place] == 0,
{
}

} // verus!
