use cosmic_applet_privacy::pipewire_monitor::proc_camera_usage;
use cosmic_applet_privacy::text::{chars_of, contains, parse_u32, starts_with, str_eq};

#[test]
fn parse_u32_accepts_plain_and_plus_signed_digits() {
    assert_eq!(parse_u32("123"), Some(123));
    assert_eq!(parse_u32("+7"), Some(7));
    assert_eq!(parse_u32("007"), Some(7));
    assert_eq!(parse_u32("0"), Some(0));
    assert_eq!(parse_u32("4294967295"), Some(u32::MAX));
}

#[test]
fn parse_u32_rejects_what_str_parse_rejects() {
    for s in ["", "+", "-", "-1", "-0", "4294967296", "99999999999", "12a", " 1", "1 ", "0x10", "++1", "١٢"] {
        assert_eq!(parse_u32(s), None, "input {:?}", s);
        assert_eq!(parse_u32(s), s.parse::<u32>().ok(), "input {:?}", s);
    }
}

#[test]
fn parse_u32_agrees_with_str_parse() {
    for s in ["42", "+42", "4294967294", "1000000", "+0", "65536"] {
        assert_eq!(parse_u32(s), s.parse::<u32>().ok(), "input {:?}", s);
    }
}

#[test]
fn contains_finds_substrings() {
    assert!(contains("alsa_output.monitor", "monitor"));
    assert!(contains("monitor", "monitor"));
    assert!(contains("abc", ""));
    assert!(!contains("monito", "monitor"));
    assert!(!contains("", "a"));
    assert!(contains("simplescreenrecorder", "recorder"));
}

#[test]
fn starts_with_checks_prefix() {
    assert!(starts_with("/dev/video0", "/dev/video"));
    assert!(starts_with("/dev/video", "/dev/video"));
    assert!(!starts_with("/dev/vide", "/dev/video"));
    assert!(!starts_with("/dev/snd/pcm", "/dev/video"));
}

#[test]
fn str_eq_compares_characters() {
    assert!(str_eq("Camera", "Camera"));
    assert!(!str_eq("Camera", "camera"));
    assert!(!str_eq("Camera", "Camera "));
    assert!(str_eq("", ""));
}

#[test]
fn chars_of_lists_characters() {
    assert_eq!(chars_of("aé/"), vec!['a', 'é', '/']);
    assert_eq!(chars_of(""), Vec::<char>::new());
}

#[test]
fn process_names_are_trimmed_of_unicode_white_space() {
    let u = proc_camera_usage(9, "/dev/video0".to_string(), Some("\u{a0}\tcheese\u{3000}\n".to_string())).unwrap();
    assert_eq!(u.app_name, "cheese");
    let u = proc_camera_usage(9, "/dev/video0".to_string(), Some("web cam\n".to_string())).unwrap();
    assert_eq!(u.app_name, "web cam");
    let u = proc_camera_usage(9, "/dev/video0".to_string(), Some(" \n".to_string())).unwrap();
    assert_eq!(u.app_name, "");
}
