//! Device names, selectors and identity strings.
use rptadv_portaudio_alsa_adapter::abi::{AUDIO_INVALID_ARGUMENT, AUDIO_UNSUPPORTED};
use rptadv_portaudio_alsa_adapter::text::{
    characters, copy_bytes, parse_card_number, parse_decimal_prefix, parse_legacy_hw_selector,
    raw_alsa_device_from_portaudio_name, same_text, starts_with_hw, trim_line_end,
    valid_usb_interface_path, valid_usb_serial, LegacyHwSelector, RawAlsaDevice,
};

#[test]
fn raw_alsa_name_parser_accepts_native_names_and_rejects_aliases() {
    assert_eq!(
        raw_alsa_device_from_portaudio_name("CM119 (hw:4,0)"),
        Some(RawAlsaDevice { card_index: 4, pcm_device: 0 })
    );
    assert_eq!(
        raw_alsa_device_from_portaudio_name("hw:7,12"),
        Some(RawAlsaDevice { card_index: 7, pcm_device: 12 })
    );
    assert_eq!(raw_alsa_device_from_portaudio_name("CM119 (plughw:4,0)"), None);
    assert_eq!(raw_alsa_device_from_portaudio_name("xhw:4,0"), None);
    assert_eq!(raw_alsa_device_from_portaudio_name("hw:4,x"), None);
    assert_eq!(
        raw_alsa_device_from_portaudio_name("hw:x,0 CM119 (hw:4,0)"),
        Some(RawAlsaDevice { card_index: 4, pcm_device: 0 })
    );
    assert_eq!(raw_alsa_device_from_portaudio_name("hw:4,0x"), None);
    assert_eq!(raw_alsa_device_from_portaudio_name("hw:4"), None);
}

#[test]
fn legacy_hw_selector_parser_accepts_exact_native_identifiers() {
    assert_eq!(
        parse_legacy_hw_selector("hw:4"),
        Ok(LegacyHwSelector { card_index: 4, pcm_device: None })
    );
    assert_eq!(
        parse_legacy_hw_selector("hw:4,12"),
        Ok(LegacyHwSelector { card_index: 4, pcm_device: Some(12) })
    );
    assert_eq!(parse_legacy_hw_selector("hw:"), Err(AUDIO_INVALID_ARGUMENT));
    assert_eq!(parse_legacy_hw_selector("hw:4,"), Err(AUDIO_INVALID_ARGUMENT));
    assert_eq!(parse_legacy_hw_selector("hw:4x"), Err(AUDIO_INVALID_ARGUMENT));
    assert_eq!(parse_legacy_hw_selector("hw:4,12extra"), Err(AUDIO_INVALID_ARGUMENT));
    assert_eq!(parse_legacy_hw_selector("plughw:4,0"), Err(AUDIO_INVALID_ARGUMENT));
    assert_eq!(parse_legacy_hw_selector("hw:4294967296"), Err(AUDIO_INVALID_ARGUMENT));
    assert_eq!(parse_decimal_prefix(""), None);
    assert_eq!(parse_decimal_prefix("12x"), Some((12, "x")));
}

#[test]
fn decimal_prefixes_stop_at_the_first_other_character_and_do_not_overflow() {
    assert_eq!(parse_decimal_prefix("4294967295"), Some((u32::MAX, "")));
    assert_eq!(parse_decimal_prefix("4294967296"), None);
    assert_eq!(parse_decimal_prefix("007,é"), Some((7, ",é")));
    assert_eq!(parse_decimal_prefix("x1"), None);
}

#[test]
fn card_numbers_are_read_from_entry_names() {
    assert_eq!(parse_card_number("card0"), Some(0));
    assert_eq!(parse_card_number("card12"), Some(12));
    assert_eq!(parse_card_number("card"), None);
    assert_eq!(parse_card_number("card1x"), None);
    assert_eq!(parse_card_number("controlC0"), None);
    assert_eq!(parse_card_number("card4294967296"), None);
}

#[test]
fn identity_strings_are_bounded_and_single_line() {
    assert!(valid_usb_interface_path("3-1:1.0"));
    assert!(!valid_usb_interface_path(""));
    assert!(!valid_usb_interface_path("."));
    assert!(!valid_usb_interface_path(".."));
    assert!(!valid_usb_interface_path("a/b"));
    assert!(valid_usb_serial("CM119-A"));
    assert!(!valid_usb_serial(""));
    assert!(!valid_usb_serial("bad\nserial"));
    assert!(!valid_usb_serial("bad\rserial"));
}

#[test]
fn text_helpers_read_whole_characters() {
    assert_eq!(characters("aé"), ['a', 'é']);
    assert!(same_text("hw:4", "hw:4"));
    assert!(!same_text("hw:4", "hw:40"));
    assert!(starts_with_hw("hw:"));
    assert!(!starts_with_hw("plughw:4"));
    assert_eq!(trim_line_end("CM119-A\r\n\n"), "CM119-A");
    assert_eq!(trim_line_end("\nCM119-A"), "\nCM119-A");
}

#[test]
fn copies_are_terminated_and_never_truncated() {
    let mut destination = [9_u8; 4];
    assert_eq!(copy_bytes(&mut destination, b"ab"), Ok(()));
    assert_eq!(destination, [b'a', b'b', 0, 0]);
    assert_eq!(copy_bytes(&mut destination, b"abcd"), Err(AUDIO_UNSUPPORTED));
}
