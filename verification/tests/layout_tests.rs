use khudium::layout::{build_layout, gap, k, KeyboardLayout, LayoutOptions, Layouts};

fn labels(layout: &KeyboardLayout, row: usize) -> Vec<&'static str> {
    layout.rows[row].iter().map(|k| k.label).collect()
}

fn codes(layout: &KeyboardLayout, row: usize) -> Vec<u16> {
    layout.rows[row].iter().map(|k| k.code).collect()
}

fn widths(layout: &KeyboardLayout, row: usize) -> Vec<u32> {
    layout.rows[row].iter().map(|k| k.width).collect()
}

#[test]
fn qwerty_rows() {
    let l = Layouts::get("qwerty", LayoutOptions { fx_keys: false });
    assert_eq!(l.rows.len(), 6);
    assert_eq!(
        labels(&l, 0),
        vec!["`", "1", "2", "3", "4", "5", "6", "7", "8", "9", "0", "-", "=", "Bksp"]
    );
    assert_eq!(codes(&l, 0), vec![41, 2, 3, 4, 5, 6, 7, 8, 9, 10, 11, 12, 13, 14]);
    assert_eq!(
        labels(&l, 1),
        vec!["Tab", "Q", "W", "E", "R", "T", "Y", "U", "I", "O", "P", "[", "]", "\\"]
    );
    assert_eq!(codes(&l, 1), vec![15, 16, 17, 18, 19, 20, 21, 22, 23, 24, 25, 26, 27, 43]);
    assert_eq!(
        labels(&l, 2),
        vec!["Caps", "A", "S", "D", "F", "G", "H", "J", "K", "L", ";", "'", "Enter"]
    );
    assert_eq!(codes(&l, 2), vec![58, 30, 31, 32, 33, 34, 35, 36, 37, 38, 39, 40, 28]);
    assert_eq!(
        labels(&l, 3),
        vec!["Shift", "Z", "X", "C", "V", "B", "N", "M", ",", ".", "/", "Shift"]
    );
    assert_eq!(codes(&l, 3), vec![42, 44, 45, 46, 47, 48, 49, 50, 51, 52, 53, 54]);
    assert_eq!(labels(&l, 4), vec!["Ctrl", "Win", "Alt", "Space", "Alt", "Win", "Ctrl"]);
    assert_eq!(codes(&l, 4), vec![29, 125, 56, 57, 100, 126, 97]);
    assert_eq!(widths(&l, 4), vec![125, 125, 125, 750, 125, 125, 125]);
    assert_eq!(labels(&l, 5), vec!["", "←", "↓", "↑", "→"]);
    assert_eq!(codes(&l, 5), vec![0, 105, 108, 103, 106]);
    assert_eq!(widths(&l, 5), vec![1100, 100, 100, 100, 100]);
}

#[test]
fn row_widths_in_hundredths() {
    let l = Layouts::get("qwerty", LayoutOptions { fx_keys: true });
    let total: Vec<u32> = l.rows.iter().map(|r| r.iter().map(|k| k.width).sum()).collect();
    assert_eq!(total, vec![1390, 1500, 1450, 1500, 1500, 1500, 1500]);
    assert_eq!(widths(&l, 3)[0], 175);
    assert_eq!(widths(&l, 4)[11], 275);
}

#[test]
fn fx_keys_add_function_row_on_top() {
    let with = Layouts::get("colemak", LayoutOptions { fx_keys: true });
    let without = Layouts::get("colemak", LayoutOptions { fx_keys: false });
    assert_eq!(with.rows.len(), 7);
    assert_eq!(
        labels(&with, 0),
        vec!["Esc", "", "F1", "F2", "F3", "F4", "", "F5", "F6", "F7", "F8", "", "F9", "F10", "F11", "F12"]
    );
    assert_eq!(
        codes(&with, 0),
        vec![1, 0, 59, 60, 61, 62, 0, 63, 64, 65, 66, 0, 67, 68, 87, 88]
    );
    assert_eq!(widths(&with, 0)[1], 30);
    for i in 0..6 {
        assert_eq!(labels(&with, i + 1), labels(&without, i));
        assert_eq!(codes(&with, i + 1), codes(&without, i));
    }
}

#[test]
fn names_match_in_any_case() {
    let l = Layouts::get("DvOrAk", LayoutOptions { fx_keys: false });
    assert_eq!(
        labels(&l, 1),
        vec!["Tab", "'", ",", ".", "P", "Y", "F", "G", "C", "R", "L", "/", "=", "\\"]
    );
    assert_eq!(
        labels(&l, 2),
        vec!["Caps", "A", "O", "E", "U", "I", "D", "H", "T", "N", "S", "-", "Enter"]
    );
    assert_eq!(labels(&l, 0)[11], "[");
    assert!(Layouts::lookup("CANARY", LayoutOptions { fx_keys: false }).is_some());
}

#[test]
fn canary_labels() {
    let l = Layouts::get("canary", LayoutOptions { fx_keys: false });
    assert_eq!(
        labels(&l, 3),
        vec!["Shift", "j", "v", "d", "g", "q", "m", "h", "/", ",", ".", "Shift"]
    );
    assert_eq!(labels(&l, 2)[10], "a");
}

#[test]
fn unknown_layout_is_none() {
    assert!(Layouts::lookup("azerty", LayoutOptions { fx_keys: false }).is_none());
    assert!(Layouts::lookup("", LayoutOptions { fx_keys: true }).is_none());
}

#[test]
fn layouts_share_codes_and_widths() {
    let names = ["qwerty", "dvorak", "colemak", "canary"];
    let base = Layouts::get("qwerty", LayoutOptions { fx_keys: true });
    for name in names {
        let l = Layouts::get(name, LayoutOptions { fx_keys: true });
        assert_eq!(l.rows.len(), base.rows.len());
        for r in 0..l.rows.len() {
            assert_eq!(codes(&l, r), codes(&base, r), "{name} row {r}");
            assert_eq!(widths(&l, r), widths(&base, r), "{name} row {r}");
        }
    }
}

#[test]
fn key_builders() {
    let key = k("Q", 16, 100);
    assert_eq!((key.label, key.code, key.width), ("Q", 16, 100));
    let g = gap(30);
    assert_eq!((g.label, g.code, g.width), ("", 0, 30));
}

#[test]
fn build_layout_from_definition() {
    let l = build_layout(&khudium::layout::LayoutDef {
        number: khudium::layout::NumberRow { labels: khudium::layout::QWERTY_NUMBER },
        alpha: khudium::layout::AlphaRows {
            top: khudium::layout::QWERTY_TOP,
            home: khudium::layout::QWERTY_HOME,
            bottom: khudium::layout::QWERTY_BOTTOM,
            top_punct: [
                khudium::layout::PunctKey { label: "[", code: 26 },
                khudium::layout::PunctKey { label: "]", code: 27 },
                khudium::layout::PunctKey { label: "\\", code: 43 },
            ],
            home_punct: [
                khudium::layout::PunctKey { label: ";", code: 39 },
                khudium::layout::PunctKey { label: "'", code: 40 },
            ],
            bottom_punct: [
                khudium::layout::PunctKey { label: ",", code: 51 },
                khudium::layout::PunctKey { label: ".", code: 52 },
                khudium::layout::PunctKey { label: "/", code: 53 },
            ],
        },
    }, LayoutOptions { fx_keys: false });
    let q = Layouts::get("qwerty", LayoutOptions { fx_keys: false });
    for r in 0..6 {
        assert_eq!(labels(&l, r), labels(&q, r));
        assert_eq!(codes(&l, r), codes(&q, r));
    }
}
