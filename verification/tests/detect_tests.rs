use khudium::layout::{LayoutOptions, Layouts};
use khudium::layout_detect::{
    detect_hyprland, detect_layout, detect_layout_is_accepted, detect_localectl, detect_sway,
    detect_xkb_env, extract_json_string, extract_json_string_values, find_layout_in_json,
    json_scan_is_ok, layout_in_json_is_accepted, localectl_x11_layout_name, map_xkb_name,
};

const SWAY_INPUTS: &str = r#"[
  {
    "identifier": "1133:49291:Logitech_G502",
    "name": "Logitech G502",
    "type": "pointer",
    "xkb_active_layout_name": "Dvorak nonsense on a pointer"
  },
  {
    "identifier": "1:1:Generic_USB_keyboard",
    "name": "Generic USB keyboard",
    "type": "keyboard",
    "xkb_layout_names": [
      "English (Colemak)",
      "German"
    ],
    "xkb_active_layout_index": 0,
    "xkb_active_layout_name": "English (Colemak)",
    "libinput": {
      "send_events": "enabled"
    }
  }
]
"#;

const HYPR_DEVICES: &str = r#"{
    "mice": [],
    "keyboards": [
        {
            "address": "0x1",
            "name": "power-button",
            "layout": "de",
            "active_keymap": "German",
            "main": false
        },
        {
            "address": "0x2",
            "name": "generic-usb-keyboard",
            "active_keymap": "English (Dvorak)",
            "main": true
        }
    ]
}
"#;

#[test]
fn xkb_names_map_to_layouts() {
    assert_eq!(map_xkb_name("English (Dvorak)"), Some("dvorak"));
    assert_eq!(map_xkb_name("COLEMAK"), Some("colemak"));
    assert_eq!(map_xkb_name("English (Canary)"), Some("canary"));
    assert_eq!(map_xkb_name("English (US)"), Some("qwerty"));
    assert_eq!(map_xkb_name("us"), Some("qwerty"));
    assert_eq!(map_xkb_name("English (intl., with AltGr dead keys)"), Some("qwerty"));
    assert_eq!(map_xkb_name("German"), None);
    assert_eq!(map_xkb_name("de"), None);
    assert_eq!(map_xkb_name(""), None);
}

#[test]
fn dvorak_wins_over_english() {
    // "en" occurs too, but dvorak is looked for first
    assert_eq!(map_xkb_name("English (Dvorak, alt. intl.)"), Some("dvorak"));
}

#[test]
fn extracts_string_value_after_key() {
    assert_eq!(
        extract_json_string(r#""xkb_active_layout_name": "English (US)","#, "xkb_active_layout_name"),
        Some("English (US)".to_string())
    );
    assert_eq!(
        extract_json_string(r#""xkb_active_layout_name":"German""#, "xkb_active_layout_name"),
        Some("German".to_string())
    );
    assert_eq!(
        extract_json_string(r#""xkb_active_layout_index": 0,"#, "xkb_active_layout_index"),
        None
    );
    assert_eq!(extract_json_string(r#""name": "unterminated"#, "name"), None);
    assert_eq!(extract_json_string(r#""other": "x""#, "name"), None);
    assert_eq!(extract_json_string(r#""k": """#, "k"), Some(String::new()));
}

#[test]
fn extracts_every_value() {
    let values = extract_json_string_values(HYPR_DEVICES, "active_keymap");
    assert_eq!(values, vec!["German".to_string(), "English (Dvorak)".to_string()]);
    let names = extract_json_string_values(r#"{"a": "x", "b": 1, "a":"y", "a": 3}"#, "a");
    assert_eq!(names, vec!["x".to_string(), "y".to_string()]);
    assert!(extract_json_string_values("no keys here", "a").is_empty());
}

#[test]
fn scan_refuses_key_at_end_or_before_non_ascii() {
    assert!(json_scan_is_ok(HYPR_DEVICES, "active_keymap"));
    assert!(!json_scan_is_ok(r#"{"a":"#, "a"));
    assert!(!json_scan_is_ok(r#"{"a":é"#, "a"));
    assert!(json_scan_is_ok(r#"{"a": "é"}"#, "a"));
}

#[test]
fn sway_keyboard_block_is_preferred() {
    assert!(layout_in_json_is_accepted(SWAY_INPUTS));
    assert_eq!(find_layout_in_json(SWAY_INPUTS), Some("colemak".to_string()));
}

#[test]
fn sway_falls_back_to_any_layout_name() {
    let text = r#"[{"type": "pointer"}, {"xkb_active_layout_name": "English (US)"}]"#;
    assert_eq!(find_layout_in_json(text), Some("qwerty".to_string()));
    assert_eq!(find_layout_in_json("[]"), None);
}

#[test]
fn keyboard_block_closes_at_its_brace() {
    let text = "{\n\"type\": \"keyboard\",\n\"name\": \"kb\"\n}\n{\n\"xkb_active_layout_name\": \"German\"\n}\n";
    // The German line lies outside the keyboard block and maps to no layout.
    assert_eq!(find_layout_in_json(text), None);
}

#[test]
fn windows_line_endings() {
    let text = "{\r\n  \"type\": \"keyboard\",\r\n  \"xkb_active_layout_name\": \"Canary\"\r\n}\r\n";
    assert_eq!(find_layout_in_json(text), Some("canary".to_string()));
}

#[test]
fn hyprland_takes_first_known_keymap() {
    assert_eq!(detect_hyprland(Some(HYPR_DEVICES)), Some("dvorak".to_string()));
    assert_eq!(detect_hyprland(None), None);
}

#[test]
fn sway_needs_output() {
    assert_eq!(detect_sway(None), None);
    assert_eq!(detect_sway(Some(SWAY_INPUTS)), Some("colemak".to_string()));
}

#[test]
fn xkb_env_takes_first_listed_layout() {
    assert_eq!(detect_xkb_env(Some(" dvorak , us"), None), Some("dvorak".to_string()));
    assert_eq!(detect_xkb_env(Some("de,us"), Some("us")), Some("qwerty".to_string()));
    assert_eq!(detect_xkb_env(Some("de,us"), None), None);
    assert_eq!(detect_xkb_env(None, Some("Colemak")), Some("colemak".to_string()));
    assert_eq!(detect_xkb_env(None, None), None);
}

#[test]
fn detection_priority() {
    assert_eq!(detect_layout(None, Some(SWAY_INPUTS), Some(HYPR_DEVICES), Some("canary"), None), "colemak");
    assert_eq!(detect_layout(None, Some("[]"), Some(HYPR_DEVICES), Some("canary"), None), "dvorak");
    assert_eq!(detect_layout(None, None, None, Some("canary"), None), "canary");
    assert_eq!(detect_layout(None, None, None, None, None), "qwerty");
    assert_eq!(detect_layout(None, None, Some("{}"), Some("fr"), Some("de")), "qwerty");
}

#[test]
fn localectl_is_read_first() {
    assert_eq!(
        detect_layout(Some(LOCALECTL_DVORAK), Some(SWAY_INPUTS), Some(HYPR_DEVICES), Some("canary"), None),
        "dvorak"
    );
    assert_eq!(
        detect_layout(Some(LOCALECTL_GERMAN), Some(SWAY_INPUTS), None, None, None),
        "colemak"
    );
    assert_eq!(detect_layout(Some(LOCALECTL_GERMAN), None, None, None, None), "qwerty");
    assert_eq!(detect_layout(Some(LOCALECTL_US), None, None, Some("dvorak"), None), "qwerty");
}

#[test]
fn detected_names_are_layouts() {
    for name in [
        detect_layout(Some(LOCALECTL_DVORAK), None, None, None, None),
        detect_layout(None, Some(SWAY_INPUTS), None, None, None),
        detect_layout(None, None, Some(HYPR_DEVICES), None, None),
        detect_layout(None, None, None, Some("canary"), None),
        detect_layout(None, None, None, None, None),
    ] {
        assert!(Layouts::lookup(&name, LayoutOptions { fx_keys: false }).is_some());
    }
}

const LOCALECTL_DVORAK: &str = "   System Locale: LANG=en_US.UTF-8
       VC Keymap: dvorak
      X11 Layout: Dvorak
       X11 Model: pc105
";

const LOCALECTL_GERMAN: &str = "   System Locale: LANG=de_DE.UTF-8
       VC Keymap: de-latin1
      X11 Layout: de
";

const LOCALECTL_US: &str = "   System Locale: LANG=C.UTF-8\n      X11 Layout: us,de\n     X11 Variant: colemak\n";

#[test]
fn localectl_layout_line() {
    assert_eq!(localectl_x11_layout_name(LOCALECTL_DVORAK), Some("Dvorak".to_string()));
    assert_eq!(localectl_x11_layout_name(LOCALECTL_GERMAN), Some("de".to_string()));
    assert_eq!(localectl_x11_layout_name(LOCALECTL_US), Some("us,de".to_string()));
    assert_eq!(localectl_x11_layout_name("X11 Layout:   colemak  "), Some("colemak".to_string()));
    assert_eq!(localectl_x11_layout_name("   System Locale: LANG=C\n       VC Keymap: n/a\n"), None);
    assert_eq!(localectl_x11_layout_name("   X11 Model: pc105\nMy X11 Layout: us\n"), None);
    assert_eq!(localectl_x11_layout_name(""), None);
}

#[test]
fn localectl_names_a_layout() {
    assert_eq!(detect_localectl(Some(LOCALECTL_DVORAK)), Some("dvorak".to_string()));
    assert_eq!(detect_localectl(Some(LOCALECTL_GERMAN)), None);
    assert_eq!(detect_localectl(Some(LOCALECTL_US)), Some("qwerty".to_string()));
    assert_eq!(detect_localectl(Some("X11 Layout: canary,us")), Some("canary".to_string()));
    assert_eq!(detect_localectl(Some("X11 Layout: de,us")), Some("qwerty".to_string()));
    assert_eq!(detect_localectl(Some("X11 Layout: ENGLISH (COLEMAK)")), Some("colemak".to_string()));
    assert_eq!(detect_localectl(None), None);
}

#[test]
fn acceptance_skips_sources_after_an_answer() {
    let bad_sway = "{\"xkb_active_layout_name\":";
    assert!(!detect_layout_is_accepted(None, Some(bad_sway), None));
    assert!(detect_layout_is_accepted(Some(LOCALECTL_DVORAK), Some(bad_sway), None));
    assert!(!detect_layout_is_accepted(Some(LOCALECTL_GERMAN), Some(bad_sway), None));
    assert!(detect_layout_is_accepted(None, Some(SWAY_INPUTS), Some("\"active_keymap\":")));
    assert!(!detect_layout_is_accepted(None, None, Some("\"active_keymap\":")));
}

#[test]
fn xkb_names_ignore_ascii_case() {
    for name in ["English (US)", "dvorak", "Colemak-DH", "canary", "basic", "German"] {
        let upper = name.to_ascii_uppercase();
        let lower = name.to_ascii_lowercase();
        assert_eq!(map_xkb_name(name), map_xkb_name(&upper));
        assert_eq!(map_xkb_name(name), map_xkb_name(&lower));
    }
    assert_eq!(map_xkb_name("DVORAK"), Some("dvorak"));
}

#[test]
fn listing_without_keyboard_block_uses_all_values() {
    let text = "[{\"type\": \"pointer\", \"xkb_active_layout_name\": \"German\"},\n {\"xkb_active_layout_name\": \"English (Dvorak)\"}]";
    assert_eq!(find_layout_in_json(text), Some("dvorak".to_string()));
    let names = extract_json_string_values(text, "xkb_active_layout_name");
    assert_eq!(names, vec!["German".to_string(), "English (Dvorak)".to_string()]);
}

#[test]
fn found_layout_is_one_of_the_listed_values() {
    let found = find_layout_in_json(SWAY_INPUTS).unwrap();
    let names = extract_json_string_values(SWAY_INPUTS, "xkb_active_layout_name");
    assert!(names.iter().any(|n| map_xkb_name(n) == Some(found.as_str())));
    let unknown = "[{\"type\": \"keyboard\",\n \"xkb_active_layout_name\": \"German\"\n}]";
    assert_eq!(find_layout_in_json(unknown), None);
    let names = extract_json_string_values(unknown, "xkb_active_layout_name");
    assert!(names.iter().all(|n| map_xkb_name(n).is_none()));
}
