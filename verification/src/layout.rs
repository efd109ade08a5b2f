//! Keyboard layouts: the rows of keys drawn by the overlay.
//!
//! A key's width is given in hundredths of a key unit: a letter key is 100,
//! Tab is 150, the space bar is 750.

use vstd::prelude::*;
use crate::text::{lowercase, chars_of, chars_eq, to_lowercase, all_ascii, ascii_lower};

verus! {

/// One key: its label, its Linux `input_event.code` (0 for a gap that draws
/// nothing) and its width in hundredths of a key unit.
pub struct Key {
    pub label: &'static str,
    pub code: u16,
    pub width: u32,
}

/// What a key is, as a mathematical value.
#[verifier::ext_equal]
pub struct KeyView {
    pub label: Seq<char>,
    pub code: u16,
    pub width: u32,
}

impl View for Key {
    type V = KeyView;

    open spec fn view(&self) -> KeyView {
        KeyView { label: self.label@, code: self.code, width: self.width }
    }
}

/// The key described by a label, a code and a width.
pub open spec fn key_view(label: Seq<char>, code: u16, width: u32) -> KeyView {
    KeyView { label, code, width }
}

/// A row of keys, drawn left to right.
pub type Row = Vec<Key>;

/// The keys of a row as mathematical values.
pub open spec fn row_view(row: Seq<Key>) -> Seq<KeyView> {
    row.map_values(|k: Key| k@)
}

/// A keyboard: its rows, drawn top to bottom.
pub struct KeyboardLayout {
    pub rows: Vec<Row>,
}

impl View for KeyboardLayout {
    type V = Seq<Seq<KeyView>>;

    open spec fn view(&self) -> Seq<Seq<KeyView>> {
        self.rows@.map_values(|r: Row| row_view(r@))
    }
}

/// Options that change which rows a layout has.
pub struct LayoutOptions {
    /// Whether the function-key row (Esc, F1..F12) is shown on top.
    pub fx_keys: bool,
}


/// A punctuation key of an alpha row: its label and code.
pub struct PunctKey {
    pub label: &'static str,
    pub code: u16,
}

/// Letter labels mapped to standard QWERTY physical positions (Q-P, A-L,
/// Z-M), followed by the punctuation keys of each row.
pub struct AlphaRows {
    pub top: [&'static str; 10],
    pub home: [&'static str; 9],
    pub bottom: [&'static str; 7],
    pub top_punct: [PunctKey; 3],
    pub home_punct: [PunctKey; 2],
    pub bottom_punct: [PunctKey; 3],
}

/// The labels of the number row, from the key left of `1` to the key left
/// of Backspace.
pub struct NumberRow {
    pub labels: [&'static str; 13],
}

/// A standard layout: the labels of its number row and of its alpha rows.
pub struct LayoutDef {
    pub number: NumberRow,
    pub alpha: AlphaRows,
}

/// Codes of the number row: the key left of `1`, then `1` to `=`.
pub const NUMBER_CODES: [u16; 13] = [41, 2, 3, 4, 5, 6, 7, 8, 9, 10, 11, 12, 13];

/// Codes of the top alpha row (Q to P on QWERTY).
pub const TOP_CODES: [u16; 10] = [16, 17, 18, 19, 20, 21, 22, 23, 24, 25];

/// Codes of the home row (A to L on QWERTY).
pub const HOME_CODES: [u16; 9] = [30, 31, 32, 33, 34, 35, 36, 37, 38];

/// Codes of the bottom alpha row (Z to M on QWERTY).
pub const BOT_CODES: [u16; 7] = [44, 45, 46, 47, 48, 49, 50];

/// Codes of the punctuation keys: three on the top row (right of P on
/// QWERTY), two on the home row, three on the bottom row.
pub const PUNCT_CODES: [u16; 8] = [26, 27, 43, 39, 40, 51, 52, 53];

pub const QWERTY_NUMBER: [&'static str; 13] = ["`", "1", "2", "3", "4", "5", "6", "7", "8", "9", "0", "-", "="];
pub const QWERTY_TOP: [&'static str; 10] = ["Q", "W", "E", "R", "T", "Y", "U", "I", "O", "P"];
pub const QWERTY_HOME: [&'static str; 9] = ["A", "S", "D", "F", "G", "H", "J", "K", "L"];
pub const QWERTY_BOTTOM: [&'static str; 7] = ["Z", "X", "C", "V", "B", "N", "M"];
pub const QWERTY_PUNCT: [&'static str; 8] = ["[", "]", "\\", ";", "'", ",", ".", "/"];

pub const DVORAK_NUMBER: [&'static str; 13] = ["`", "1", "2", "3", "4", "5", "6", "7", "8", "9", "0", "[", "]"];
pub const DVORAK_TOP: [&'static str; 10] = ["'", ",", ".", "P", "Y", "F", "G", "C", "R", "L"];
pub const DVORAK_HOME: [&'static str; 9] = ["A", "O", "E", "U", "I", "D", "H", "T", "N"];
pub const DVORAK_BOTTOM: [&'static str; 7] = [";", "Q", "J", "K", "X", "B", "M"];
pub const DVORAK_PUNCT: [&'static str; 8] = ["/", "=", "\\", "S", "-", "W", "V", "Z"];

pub const COLEMAK_NUMBER: [&'static str; 13] = ["`", "1", "2", "3", "4", "5", "6", "7", "8", "9", "0", "-", "="];
pub const COLEMAK_TOP: [&'static str; 10] = ["Q", "W", "F", "P", "G", "J", "L", "U", "Y", ";"];
pub const COLEMAK_HOME: [&'static str; 9] = ["A", "R", "S", "T", "D", "H", "N", "E", "I"];
pub const COLEMAK_BOTTOM: [&'static str; 7] = ["Z", "X", "C", "V", "B", "K", "M"];
pub const COLEMAK_PUNCT: [&'static str; 8] = ["[", "]", "\\", "O", "'", ",", ".", "/"];

pub const CANARY_NUMBER: [&'static str; 13] = ["`", "1", "2", "3", "4", "5", "6", "7", "8", "9", "0", "-", "="];
pub const CANARY_TOP: [&'static str; 10] = ["w", "l", "y", "p", "k", "z", "x", "o", "u", ";"];
pub const CANARY_HOME: [&'static str; 9] = ["c", "r", "s", "t", "b", "f", "n", "e", "i"];
pub const CANARY_BOTTOM: [&'static str; 7] = ["j", "v", "d", "g", "q", "m", "h"];
pub const CANARY_PUNCT: [&'static str; 8] = ["[", "]", "\\", "a", "'", "/", ",", "."];

// ---------------------------------------------------------------------------
// What each row holds
// ---------------------------------------------------------------------------

/// Letter keys: each label with the code at the same position, one unit wide.
pub open spec fn letter_keys(labels: Seq<&'static str>, codes: Seq<u16>) -> Seq<KeyView> {
    Seq::new(labels.len(), |i: int| key_view(labels[i]@, codes[i], 100))
}

/// Punctuation keys, one unit wide.
pub open spec fn punct_keys(keys: Seq<PunctKey>) -> Seq<KeyView> {
    Seq::new(keys.len(), |i: int| key_view(keys[i].label@, keys[i].code, 100))
}

/// The number row: thirteen labelled keys, then a two-unit Backspace.
pub open spec fn number_row_view(num: NumberRow) -> Seq<KeyView> {
    letter_keys(num.labels@, NUMBER_CODES@).push(key_view("Bksp"@, 14, 200))
}

/// The top alpha row: Tab, ten letter keys, three punctuation keys.
pub open spec fn top_alpha_row_view(alpha: AlphaRows) -> Seq<KeyView> {
    seq![key_view("Tab"@, 15, 150)] + letter_keys(alpha.top@, TOP_CODES@) + punct_keys(
        alpha.top_punct@,
    )
}

/// The home row: Caps, nine letter keys, two punctuation keys, Enter.
pub open spec fn home_alpha_row_view(alpha: AlphaRows) -> Seq<KeyView> {
    (seq![key_view("Caps"@, 58, 175)] + letter_keys(alpha.home@, HOME_CODES@) + punct_keys(
        alpha.home_punct@,
    )).push(key_view("Enter"@, 28, 225))
}

/// The bottom alpha row: left Shift, seven letter keys, three punctuation
/// keys, right Shift.
pub open spec fn bottom_alpha_row_view(alpha: AlphaRows) -> Seq<KeyView> {
    (seq![key_view("Shift"@, 42, 225)] + letter_keys(alpha.bottom@, BOT_CODES@) + punct_keys(
        alpha.bottom_punct@,
    )).push(key_view("Shift"@, 54, 275))
}

/// The function-key row: Esc and F1 to F12 in groups of four.
pub open spec fn f_row_view() -> Seq<KeyView> {
    seq![
        key_view("Esc"@, 1, 100),
        key_view(""@, 0, 30),
        key_view("F1"@, 59, 100),
        key_view("F2"@, 60, 100),
        key_view("F3"@, 61, 100),
        key_view("F4"@, 62, 100),
        key_view(""@, 0, 30),
        key_view("F5"@, 63, 100),
        key_view("F6"@, 64, 100),
        key_view("F7"@, 65, 100),
        key_view("F8"@, 66, 100),
        key_view(""@, 0, 30),
        key_view("F9"@, 67, 100),
        key_view("F10"@, 68, 100),
        key_view("F11"@, 87, 100),
        key_view("F12"@, 88, 100),
    ]
}

/// The modifier row with the space bar.
pub open spec fn bottom_row_view() -> Seq<KeyView> {
    seq![
        key_view("Ctrl"@, 29, 125),
        key_view("Win"@, 125, 125),
        key_view("Alt"@, 56, 125),
        key_view("Space"@, 57, 750),
        key_view("Alt"@, 100, 125),
        key_view("Win"@, 126, 125),
        key_view("Ctrl"@, 97, 125),
    ]
}

/// The arrow keys, right-aligned under the keyboard.
pub open spec fn arrow_row_view() -> Seq<KeyView> {
    seq![
        key_view(""@, 0, 1100),
        key_view("←"@, 105, 100),
        key_view("↓"@, 108, 100),
        key_view("↑"@, 103, 100),
        key_view("→"@, 106, 100),
    ]
}

/// The rows of a standard layout: the function-key row when asked for, then
/// the number row, the three alpha rows, the modifier row and the arrows.
pub open spec fn layout_view(def: LayoutDef, fx_keys: bool) -> Seq<Seq<KeyView>> {
    let main = seq![
        number_row_view(def.number),
        top_alpha_row_view(def.alpha),
        home_alpha_row_view(def.alpha),
        bottom_alpha_row_view(def.alpha),
        bottom_row_view(),
        arrow_row_view(),
    ];
    if fx_keys {
        seq![f_row_view()] + main
    } else {
        main
    }
}

// ---------------------------------------------------------------------------
// Building rows
// ---------------------------------------------------------------------------

/// A key with a label, a code and a width.
pub fn k(label: &'static str, code: u16, width: u32) -> (r: Key)
    ensures
        r@ == key_view(label@, code, width),
{
    Key { label, code, width }
}

/// An empty space of the given width: no label, code 0.
pub fn gap(width: u32) -> (r: Key)
    ensures
        r@ == key_view(""@, 0, width),
{
    Key { label: "", code: 0, width }
}

/// Appends `key` to `row`.
fn push_key(row: &mut Row, key: Key)
    ensures
        row_view(final(row)@) == row_view(old(row)@).push(key@),
{
    row.push(key);
    assert(row_view(row@) =~= row_view(old(row)@).push(key@));
}

/// Appends one-unit keys with the given labels and codes to `row`.
fn push_letters(row: &mut Row, labels: &[&'static str], codes: &[u16])
    requires
        labels@.len() == codes@.len(),
    ensures
        row_view(final(row)@) == row_view(old(row)@) + letter_keys(labels@, codes@),
{
    let ghost start = row_view(row@);
    let mut i: usize = 0;
    while i < labels.len()
        invariant
            labels@.len() == codes@.len(),
            0 <= i <= labels@.len(),
            row_view(row@) == start + letter_keys(labels@.take(i as int), codes@.take(i as int)),
        decreases labels.len() - i,
    {
        push_key(row, k(labels[i], codes[i], 100));
        assert(letter_keys(labels@.take(i + 1), codes@.take(i + 1)) =~= letter_keys(
            labels@.take(i as int),
            codes@.take(i as int),
        ).push(key_view(labels@[i as int]@, codes@[i as int], 100)));
        i = i + 1;
    }
    assert(labels@.take(labels.len() as int) =~= labels@);
    assert(codes@.take(codes.len() as int) =~= codes@);
}

/// Appends one-unit punctuation keys to `row`.
fn push_punct(row: &mut Row, keys: &[PunctKey])
    ensures
        row_view(final(row)@) == row_view(old(row)@) + punct_keys(keys@),
{
    let ghost start = row_view(row@);
    let mut i: usize = 0;
    while i < keys.len()
        invariant
            0 <= i <= keys@.len(),
            row_view(row@) == start + punct_keys(keys@.take(i as int)),
        decreases keys.len() - i,
    {
        push_key(row, k(keys[i].label, keys[i].code, 100));
        assert(punct_keys(keys@.take(i + 1)) =~= punct_keys(keys@.take(i as int)).push(
            key_view(keys@[i as int].label@, keys@[i as int].code, 100),
        ));
        i = i + 1;
    }
    assert(keys@.take(keys.len() as int) =~= keys@);
}


/// A standard layout made of its label tables; the punctuation keys take
/// their codes from `PUNCT_CODES`.
pub open spec fn def_from(
    number: [&'static str; 13],
    top: [&'static str; 10],
    home: [&'static str; 9],
    bottom: [&'static str; 7],
    punct: [&'static str; 8],
) -> LayoutDef {
    LayoutDef {
        number: NumberRow { labels: number },
        alpha: AlphaRows {
            top,
            home,
            bottom,
            top_punct: [
                PunctKey { label: punct@[0], code: PUNCT_CODES@[0] },
                PunctKey { label: punct@[1], code: PUNCT_CODES@[1] },
                PunctKey { label: punct@[2], code: PUNCT_CODES@[2] },
            ],
            home_punct: [
                PunctKey { label: punct@[3], code: PUNCT_CODES@[3] },
                PunctKey { label: punct@[4], code: PUNCT_CODES@[4] },
            ],
            bottom_punct: [
                PunctKey { label: punct@[5], code: PUNCT_CODES@[5] },
                PunctKey { label: punct@[6], code: PUNCT_CODES@[6] },
                PunctKey { label: punct@[7], code: PUNCT_CODES@[7] },
            ],
        },
    }
}

/// Builds a standard layout from its label tables.
fn make_def(
    number: [&'static str; 13],
    top: [&'static str; 10],
    home: [&'static str; 9],
    bottom: [&'static str; 7],
    punct: [&'static str; 8],
) -> (r: LayoutDef)
    ensures
        r == def_from(number, top, home, bottom, punct),
{
    LayoutDef {
        number: NumberRow { labels: number },
        alpha: AlphaRows {
            top,
            home,
            bottom,
            top_punct: [
                PunctKey { label: punct[0], code: PUNCT_CODES[0] },
                PunctKey { label: punct[1], code: PUNCT_CODES[1] },
                PunctKey { label: punct[2], code: PUNCT_CODES[2] },
            ],
            home_punct: [
                PunctKey { label: punct[3], code: PUNCT_CODES[3] },
                PunctKey { label: punct[4], code: PUNCT_CODES[4] },
            ],
            bottom_punct: [
                PunctKey { label: punct[5], code: PUNCT_CODES[5] },
                PunctKey { label: punct[6], code: PUNCT_CODES[6] },
                PunctKey { label: punct[7], code: PUNCT_CODES[7] },
            ],
        },
    }
}


/// The standard layout with the given (lower-case) name, if there is one.
pub open spec fn standard_def(name: Seq<char>) -> Option<LayoutDef> {
    if name == "qwerty"@ {
        Some(def_from(QWERTY_NUMBER, QWERTY_TOP, QWERTY_HOME, QWERTY_BOTTOM, QWERTY_PUNCT))
    } else if name == "dvorak"@ {
        Some(def_from(DVORAK_NUMBER, DVORAK_TOP, DVORAK_HOME, DVORAK_BOTTOM, DVORAK_PUNCT))
    } else if name == "colemak"@ {
        Some(def_from(COLEMAK_NUMBER, COLEMAK_TOP, COLEMAK_HOME, COLEMAK_BOTTOM, COLEMAK_PUNCT))
    } else if name == "canary"@ {
        Some(def_from(CANARY_NUMBER, CANARY_TOP, CANARY_HOME, CANARY_BOTTOM, CANARY_PUNCT))
    } else {
        None
    }
}

/// The standard layout with the given (lower-case) name, if there is one.
fn standard_def_named(name: &Vec<char>) -> (r: Option<LayoutDef>)
    ensures
        r == standard_def(name@),
{
    if chars_eq(name, &chars_of("qwerty")) {
        Some(make_def(QWERTY_NUMBER, QWERTY_TOP, QWERTY_HOME, QWERTY_BOTTOM, QWERTY_PUNCT))
    } else if chars_eq(name, &chars_of("dvorak")) {
        Some(make_def(DVORAK_NUMBER, DVORAK_TOP, DVORAK_HOME, DVORAK_BOTTOM, DVORAK_PUNCT))
    } else if chars_eq(name, &chars_of("colemak")) {
        Some(make_def(COLEMAK_NUMBER, COLEMAK_TOP, COLEMAK_HOME, COLEMAK_BOTTOM, COLEMAK_PUNCT))
    } else if chars_eq(name, &chars_of("canary")) {
        Some(make_def(CANARY_NUMBER, CANARY_TOP, CANARY_HOME, CANARY_BOTTOM, CANARY_PUNCT))
    } else {
        None
    }
}

/// The number row of a layout.
fn number_row(num: &NumberRow) -> (row: Row)
    ensures
        row_view(row@) == number_row_view(*num),
{
    let mut row: Row = Vec::new();
    assert(row_view(row@) =~= Seq::<KeyView>::empty());
    push_letters(&mut row, num.labels.as_slice(), NUMBER_CODES.as_slice());
    push_key(&mut row, k("Bksp", 14, 200));
    assert(row_view(row@) =~= number_row_view(*num));
    row
}

/// The top alpha row of a layout.
fn top_alpha_row(alpha: &AlphaRows) -> (row: Row)
    ensures
        row_view(row@) == top_alpha_row_view(*alpha),
{
    let mut row: Row = Vec::new();
    assert(row_view(row@) =~= Seq::<KeyView>::empty());
    push_key(&mut row, k("Tab", 15, 150));
    push_letters(&mut row, alpha.top.as_slice(), TOP_CODES.as_slice());
    push_punct(&mut row, alpha.top_punct.as_slice());
    assert(row_view(row@) =~= top_alpha_row_view(*alpha));
    row
}

/// The home row of a layout.
fn home_alpha_row(alpha: &AlphaRows) -> (row: Row)
    ensures
        row_view(row@) == home_alpha_row_view(*alpha),
{
    let mut row: Row = Vec::new();
    assert(row_view(row@) =~= Seq::<KeyView>::empty());
    push_key(&mut row, k("Caps", 58, 175));
    push_letters(&mut row, alpha.home.as_slice(), HOME_CODES.as_slice());
    push_punct(&mut row, alpha.home_punct.as_slice());
    push_key(&mut row, k("Enter", 28, 225));
    assert(row_view(row@) =~= home_alpha_row_view(*alpha));
    row
}

/// The bottom alpha row of a layout.
fn bottom_alpha_row(alpha: &AlphaRows) -> (row: Row)
    ensures
        row_view(row@) == bottom_alpha_row_view(*alpha),
{
    let mut row: Row = Vec::new();
    assert(row_view(row@) =~= Seq::<KeyView>::empty());
    push_key(&mut row, k("Shift", 42, 225));
    push_letters(&mut row, alpha.bottom.as_slice(), BOT_CODES.as_slice());
    push_punct(&mut row, alpha.bottom_punct.as_slice());
    push_key(&mut row, k("Shift", 54, 275));
    assert(row_view(row@) =~= bottom_alpha_row_view(*alpha));
    row
}

/// The function-key row.
fn f_row() -> (row: Row)
    ensures
        row_view(row@) == f_row_view(),
{
    let mut row: Row = Vec::new();
    assert(row_view(row@) =~= Seq::<KeyView>::empty());
    push_key(&mut row, k("Esc", 1, 100));
    push_key(&mut row, gap(30));
    push_key(&mut row, k("F1", 59, 100));
    push_key(&mut row, k("F2", 60, 100));
    push_key(&mut row, k("F3", 61, 100));
    push_key(&mut row, k("F4", 62, 100));
    push_key(&mut row, gap(30));
    push_key(&mut row, k("F5", 63, 100));
    push_key(&mut row, k("F6", 64, 100));
    push_key(&mut row, k("F7", 65, 100));
    push_key(&mut row, k("F8", 66, 100));
    push_key(&mut row, gap(30));
    push_key(&mut row, k("F9", 67, 100));
    push_key(&mut row, k("F10", 68, 100));
    push_key(&mut row, k("F11", 87, 100));
    push_key(&mut row, k("F12", 88, 100));
    assert(row_view(row@) =~= f_row_view());
    row
}

/// The modifier row with the space bar.
fn bottom_row() -> (row: Row)
    ensures
        row_view(row@) == bottom_row_view(),
{
    let mut row: Row = Vec::new();
    assert(row_view(row@) =~= Seq::<KeyView>::empty());
    push_key(&mut row, k("Ctrl", 29, 125));
    push_key(&mut row, k("Win", 125, 125));
    push_key(&mut row, k("Alt", 56, 125));
    push_key(&mut row, k("Space", 57, 750));
    push_key(&mut row, k("Alt", 100, 125));
    push_key(&mut row, k("Win", 126, 125));
    push_key(&mut row, k("Ctrl", 97, 125));
    assert(row_view(row@) =~= bottom_row_view());
    row
}

/// The arrow-key row.
fn arrow_row() -> (row: Row)
    ensures
        row_view(row@) == arrow_row_view(),
{
    let mut row: Row = Vec::new();
    assert(row_view(row@) =~= Seq::<KeyView>::empty());
    push_key(&mut row, gap(1100));
    push_key(&mut row, k("←", 105, 100));
    push_key(&mut row, k("↓", 108, 100));
    push_key(&mut row, k("↑", 103, 100));
    push_key(&mut row, k("→", 106, 100));
    assert(row_view(row@) =~= arrow_row_view());
    row
}

/// Appends `row` to `rows`.
fn push_row(rows: &mut Vec<Row>, row: Row)
    ensures
        final(rows)@.map_values(|r: Row| row_view(r@)) == old(rows)@.map_values(
            |r: Row| row_view(r@),
        ).push(row_view(row@)),
{
    rows.push(row);
    assert(rows@.map_values(|r: Row| row_view(r@)) =~= old(rows)@.map_values(
        |r: Row| row_view(r@),
    ).push(row_view(row@)));
}

/// The keyboard of a standard layout.
pub fn build_layout(def: &LayoutDef, opts: LayoutOptions) -> (r: KeyboardLayout)
    ensures
        r@ == layout_view(*def, opts.fx_keys),
{
    let mut rows: Vec<Row> = Vec::new();
    assert(rows@.map_values(|r: Row| row_view(r@)) =~= Seq::<Seq<KeyView>>::empty());
    if opts.fx_keys {
        push_row(&mut rows, f_row());
    }
    push_row(&mut rows, number_row(&def.number));
    push_row(&mut rows, top_alpha_row(&def.alpha));
    push_row(&mut rows, home_alpha_row(&def.alpha));
    push_row(&mut rows, bottom_alpha_row(&def.alpha));
    push_row(&mut rows, bottom_row());
    push_row(&mut rows, arrow_row());
    let r = KeyboardLayout { rows };
    assert(r@ =~= layout_view(*def, opts.fx_keys));
    r
}

/// Looks layouts up by name.
pub struct Layouts;

impl Layouts {
    /// The keyboard of the standard layout `name` (qwerty, dvorak, colemak
    /// or canary, in any letter case). Other names are outside what it
    /// accepts; `lookup` answers `None` for them.
    pub fn get(name: &str, opts: LayoutOptions) -> (r: KeyboardLayout)
        requires
            standard_def(lowercase(name@)) is Some,
        ensures
            r@ == layout_view(standard_def(lowercase(name@))->0, opts.fx_keys),
    {
        let lower = to_lowercase(name);
        let lower_chars = chars_of(lower.as_str());
        let def = standard_def_named(&lower_chars).unwrap();
        build_layout(&def, opts)
    }

    /// The keyboard of the standard layout `name` (qwerty, dvorak, colemak
    /// or canary, in any letter case), or `None` for any other name.
    pub fn lookup(name: &str, opts: LayoutOptions) -> (r: Option<KeyboardLayout>)
        ensures
            match standard_def(lowercase(name@)) {
                Some(def) => r matches Some(layout) && layout@ == layout_view(def, opts.fx_keys),
                None => r is None,
            },
            all_ascii(name@) ==> lowercase(name@) == name@.map_values(|c: char| ascii_lower(c)),
    {
        let lower = to_lowercase(name);
        let lower_chars = chars_of(lower.as_str());
        if standard_def_named(&lower_chars).is_some() {
            Some(Layouts::get(name, opts))
        } else {
            None
        }
    }
}


// ---------------------------------------------------------------------------
// Laws
// ---------------------------------------------------------------------------

/// The code and width of each key of a row.
pub open spec fn row_geometry(row: Seq<KeyView>) -> Seq<(u16, u32)> {
    row.map_values(|k: KeyView| (k.code, k.width))
}

/// The code and width of each key of each row.
pub open spec fn layout_geometry(rows: Seq<Seq<KeyView>>) -> Seq<Seq<(u16, u32)>> {
    rows.map_values(|r: Seq<KeyView>| row_geometry(r))
}

/// With the function-key row shown, a layout is the function-key row on
/// top of the same layout without it.
pub proof fn lemma_fx_row_on_top(def: LayoutDef)
    ensures
        layout_view(def, true) == seq![f_row_view()] + layout_view(def, false),
{
}

proof fn lemma_letter_geometry(l1: Seq<&'static str>, l2: Seq<&'static str>, codes: Seq<u16>)
    requires
        l1.len() == l2.len(),
    ensures
        row_geometry(letter_keys(l1, codes)) == row_geometry(letter_keys(l2, codes)),
{
    assert(row_geometry(letter_keys(l1, codes)) =~= row_geometry(letter_keys(l2, codes)));
}

proof fn lemma_punct_geometry(p1: Seq<PunctKey>, p2: Seq<PunctKey>)
    requires
        p1.len() == p2.len(),
        forall|i: int| 0 <= i < p1.len() ==> p1[i].code == p2[i].code,
    ensures
        row_geometry(punct_keys(p1)) == row_geometry(punct_keys(p2)),
{
    assert(row_geometry(punct_keys(p1)) =~= row_geometry(punct_keys(p2)));
}

proof fn lemma_concat_geometry(a1: Seq<KeyView>, b1: Seq<KeyView>, a2: Seq<KeyView>, b2: Seq<KeyView>)
    requires
        row_geometry(a1) == row_geometry(a2),
        row_geometry(b1) == row_geometry(b2),
    ensures
        row_geometry(a1 + b1) == row_geometry(a2 + b2),
{
    assert(row_geometry(a1 + b1) =~= row_geometry(a1) + row_geometry(b1));
    assert(row_geometry(a2 + b2) =~= row_geometry(a2) + row_geometry(b2));
}

proof fn lemma_push_geometry(a1: Seq<KeyView>, a2: Seq<KeyView>, k: KeyView)
    requires
        row_geometry(a1) == row_geometry(a2),
    ensures
        row_geometry(a1.push(k)) == row_geometry(a2.push(k)),
{
    assert(row_geometry(a1.push(k)) =~= row_geometry(a1).push((k.code, k.width)));
    assert(row_geometry(a2.push(k)) =~= row_geometry(a2).push((k.code, k.width)));
}

/// Standard layouts differ in their labels only: whatever their names, two
/// standard layouts built with the same options have the same rows, with
/// the same key codes and widths at the same places.
pub proof fn lemma_standard_layouts_share_geometry(a: Seq<char>, b: Seq<char>, fx_keys: bool)
    requires
        standard_def(a) is Some,
        standard_def(b) is Some,
    ensures
        layout_geometry(layout_view(standard_def(a)->0, fx_keys)) == layout_geometry(
            layout_view(standard_def(b)->0, fx_keys),
        ),
{
    let d1 = standard_def(a)->0;
    let d2 = standard_def(b)->0;
    lemma_letter_geometry(d1.number.labels@, d2.number.labels@, NUMBER_CODES@);
    lemma_push_geometry(
        letter_keys(d1.number.labels@, NUMBER_CODES@),
        letter_keys(d2.number.labels@, NUMBER_CODES@),
        key_view("Bksp"@, 14, 200),
    );
    lemma_letter_geometry(d1.alpha.top@, d2.alpha.top@, TOP_CODES@);
    lemma_letter_geometry(d1.alpha.home@, d2.alpha.home@, HOME_CODES@);
    lemma_letter_geometry(d1.alpha.bottom@, d2.alpha.bottom@, BOT_CODES@);
    lemma_punct_geometry(d1.alpha.top_punct@, d2.alpha.top_punct@);
    lemma_punct_geometry(d1.alpha.home_punct@, d2.alpha.home_punct@);
    lemma_punct_geometry(d1.alpha.bottom_punct@, d2.alpha.bottom_punct@);
    let tab = seq![key_view("Tab"@, 15, 150)];
    lemma_concat_geometry(tab, letter_keys(d1.alpha.top@, TOP_CODES@), tab, letter_keys(d2.alpha.top@, TOP_CODES@));
    lemma_concat_geometry(
        tab + letter_keys(d1.alpha.top@, TOP_CODES@),
        punct_keys(d1.alpha.top_punct@),
        tab + letter_keys(d2.alpha.top@, TOP_CODES@),
        punct_keys(d2.alpha.top_punct@),
    );
    let caps = seq![key_view("Caps"@, 58, 175)];
    lemma_concat_geometry(caps, letter_keys(d1.alpha.home@, HOME_CODES@), caps, letter_keys(d2.alpha.home@, HOME_CODES@));
    lemma_concat_geometry(
        caps + letter_keys(d1.alpha.home@, HOME_CODES@),
        punct_keys(d1.alpha.home_punct@),
        caps + letter_keys(d2.alpha.home@, HOME_CODES@),
        punct_keys(d2.alpha.home_punct@),
    );
    lemma_push_geometry(
        caps + letter_keys(d1.alpha.home@, HOME_CODES@) + punct_keys(d1.alpha.home_punct@),
        caps + letter_keys(d2.alpha.home@, HOME_CODES@) + punct_keys(d2.alpha.home_punct@),
        key_view("Enter"@, 28, 225),
    );
    let shift = seq![key_view("Shift"@, 42, 225)];
    lemma_concat_geometry(shift, letter_keys(d1.alpha.bottom@, BOT_CODES@), shift, letter_keys(d2.alpha.bottom@, BOT_CODES@));
    lemma_concat_geometry(
        shift + letter_keys(d1.alpha.bottom@, BOT_CODES@),
        punct_keys(d1.alpha.bottom_punct@),
        shift + letter_keys(d2.alpha.bottom@, BOT_CODES@),
        punct_keys(d2.alpha.bottom_punct@),
    );
    lemma_push_geometry(
        shift + letter_keys(d1.alpha.bottom@, BOT_CODES@) + punct_keys(d1.alpha.bottom_punct@),
        shift + letter_keys(d2.alpha.bottom@, BOT_CODES@) + punct_keys(d2.alpha.bottom_punct@),
        key_view("Shift"@, 54, 275),
    );
    assert(layout_geometry(layout_view(d1, fx_keys)) =~= layout_geometry(layout_view(d2, fx_keys)));
}


/// Every standard keyboard has six rows, seven with the function-key row on
/// top; below the letter rows come the modifier row with the space bar and
/// the arrow keys, right-aligned, key by key (label, key code, width).
pub proof fn lemma_fixed_rows(def: LayoutDef, fx_keys: bool)
    ensures
        ({
            let rows = layout_view(def, fx_keys);
            let o: int = if fx_keys { 1 } else { 0 };
            &&& rows.len() == 6 + o
            &&& fx_keys ==> rows[0] == seq![
                key_view("Esc"@, 1, 100),
                key_view(""@, 0, 30),
                key_view("F1"@, 59, 100),
                key_view("F2"@, 60, 100),
                key_view("F3"@, 61, 100),
                key_view("F4"@, 62, 100),
                key_view(""@, 0, 30),
                key_view("F5"@, 63, 100),
                key_view("F6"@, 64, 100),
                key_view("F7"@, 65, 100),
                key_view("F8"@, 66, 100),
                key_view(""@, 0, 30),
                key_view("F9"@, 67, 100),
                key_view("F10"@, 68, 100),
                key_view("F11"@, 87, 100),
                key_view("F12"@, 88, 100),
            ]
            &&& rows[o + 4] == seq![
                key_view("Ctrl"@, 29, 125),
                key_view("Win"@, 125, 125),
                key_view("Alt"@, 56, 125),
                key_view("Space"@, 57, 750),
                key_view("Alt"@, 100, 125),
                key_view("Win"@, 126, 125),
                key_view("Ctrl"@, 97, 125),
            ]
            &&& rows[o + 5] == seq![
                key_view(""@, 0, 1100),
                key_view("←"@, 105, 100),
                key_view("↓"@, 108, 100),
                key_view("↑"@, 103, 100),
                key_view("→"@, 106, 100),
            ]
        }),
{
}

/// Only the four standard names name a layout.
pub proof fn lemma_standard_names(name: Seq<char>)
    ensures
        standard_def(name) is Some <==> (name == "qwerty"@ || name == "dvorak"@ || name
            == "colemak"@ || name == "canary"@),
{
    reveal_strlit("qwerty");
    reveal_strlit("dvorak");
    reveal_strlit("colemak");
    reveal_strlit("canary");
}

/// The qwerty keyboard: its number row and its three letter rows, key by
/// key (label, key code, width), below the function-key row when that is
/// shown.
pub proof fn lemma_qwerty_keys(fx_keys: bool)
    ensures
        standard_def("qwerty"@) is Some,
        ({
            let rows = layout_view(standard_def("qwerty"@)->0, fx_keys);
            let o: int = if fx_keys { 1 } else { 0 };
            &&& rows[o] == seq![
                    key_view("`"@, 41, 100),
                    key_view("1"@, 2, 100),
                    key_view("2"@, 3, 100),
                    key_view("3"@, 4, 100),
                    key_view("4"@, 5, 100),
                    key_view("5"@, 6, 100),
                    key_view("6"@, 7, 100),
                    key_view("7"@, 8, 100),
                    key_view("8"@, 9, 100),
                    key_view("9"@, 10, 100),
                    key_view("0"@, 11, 100),
                    key_view("-"@, 12, 100),
                    key_view("="@, 13, 100),
                    key_view("Bksp"@, 14, 200),
                ]
            &&& rows[o + 1] == seq![
                    key_view("Tab"@, 15, 150),
                    key_view("Q"@, 16, 100),
                    key_view("W"@, 17, 100),
                    key_view("E"@, 18, 100),
                    key_view("R"@, 19, 100),
                    key_view("T"@, 20, 100),
                    key_view("Y"@, 21, 100),
                    key_view("U"@, 22, 100),
                    key_view("I"@, 23, 100),
                    key_view("O"@, 24, 100),
                    key_view("P"@, 25, 100),
                    key_view("["@, 26, 100),
                    key_view("]"@, 27, 100),
                    key_view("\\"@, 43, 100),
                ]
            &&& rows[o + 2] == seq![
                    key_view("Caps"@, 58, 175),
                    key_view("A"@, 30, 100),
                    key_view("S"@, 31, 100),
                    key_view("D"@, 32, 100),
                    key_view("F"@, 33, 100),
                    key_view("G"@, 34, 100),
                    key_view("H"@, 35, 100),
                    key_view("J"@, 36, 100),
                    key_view("K"@, 37, 100),
                    key_view("L"@, 38, 100),
                    key_view(";"@, 39, 100),
                    key_view("'"@, 40, 100),
                    key_view("Enter"@, 28, 225),
                ]
            &&& rows[o + 3] == seq![
                    key_view("Shift"@, 42, 225),
                    key_view("Z"@, 44, 100),
                    key_view("X"@, 45, 100),
                    key_view("C"@, 46, 100),
                    key_view("V"@, 47, 100),
                    key_view("B"@, 48, 100),
                    key_view("N"@, 49, 100),
                    key_view("M"@, 50, 100),
                    key_view(","@, 51, 100),
                    key_view("."@, 52, 100),
                    key_view("/"@, 53, 100),
                    key_view("Shift"@, 54, 275),
                ]
        }),
{
    lemma_standard_names("qwerty"@);
    assert(standard_def("qwerty"@) == Some(
        def_from(QWERTY_NUMBER, QWERTY_TOP, QWERTY_HOME, QWERTY_BOTTOM, QWERTY_PUNCT),
    )) by {
        reveal_strlit("qwerty");
        reveal_strlit("dvorak");
        reveal_strlit("colemak");
        reveal_strlit("canary");
        assert("dvorak"@[0] != "qwerty"@[0]);
        assert("colemak"@[0] != "qwerty"@[0] && "colemak"@[0] != "dvorak"@[0]);
        assert("canary"@[0] != "qwerty"@[0] && "canary"@[0] != "dvorak"@[0]);
        assert("canary"@[1] != "colemak"@[1]);
    }
    let def = def_from(QWERTY_NUMBER, QWERTY_TOP, QWERTY_HOME, QWERTY_BOTTOM, QWERTY_PUNCT);
    assert(number_row_view(def.number) =~= seq![
            key_view("`"@, 41, 100),
            key_view("1"@, 2, 100),
            key_view("2"@, 3, 100),
            key_view("3"@, 4, 100),
            key_view("4"@, 5, 100),
            key_view("5"@, 6, 100),
            key_view("6"@, 7, 100),
            key_view("7"@, 8, 100),
            key_view("8"@, 9, 100),
            key_view("9"@, 10, 100),
            key_view("0"@, 11, 100),
            key_view("-"@, 12, 100),
            key_view("="@, 13, 100),
            key_view("Bksp"@, 14, 200),
        ]);
    assert(top_alpha_row_view(def.alpha) =~= seq![
            key_view("Tab"@, 15, 150),
            key_view("Q"@, 16, 100),
            key_view("W"@, 17, 100),
            key_view("E"@, 18, 100),
            key_view("R"@, 19, 100),
            key_view("T"@, 20, 100),
            key_view("Y"@, 21, 100),
            key_view("U"@, 22, 100),
            key_view("I"@, 23, 100),
            key_view("O"@, 24, 100),
            key_view("P"@, 25, 100),
            key_view("["@, 26, 100),
            key_view("]"@, 27, 100),
            key_view("\\"@, 43, 100),
        ]);
    assert(home_alpha_row_view(def.alpha) =~= seq![
            key_view("Caps"@, 58, 175),
            key_view("A"@, 30, 100),
            key_view("S"@, 31, 100),
            key_view("D"@, 32, 100),
            key_view("F"@, 33, 100),
            key_view("G"@, 34, 100),
            key_view("H"@, 35, 100),
            key_view("J"@, 36, 100),
            key_view("K"@, 37, 100),
            key_view("L"@, 38, 100),
            key_view(";"@, 39, 100),
            key_view("'"@, 40, 100),
            key_view("Enter"@, 28, 225),
        ]);
    assert(bottom_alpha_row_view(def.alpha) =~= seq![
            key_view("Shift"@, 42, 225),
            key_view("Z"@, 44, 100),
            key_view("X"@, 45, 100),
            key_view("C"@, 46, 100),
            key_view("V"@, 47, 100),
            key_view("B"@, 48, 100),
            key_view("N"@, 49, 100),
            key_view("M"@, 50, 100),
            key_view(","@, 51, 100),
            key_view("."@, 52, 100),
            key_view("/"@, 53, 100),
            key_view("Shift"@, 54, 275),
        ]);
}

/// The dvorak keyboard: its number row and its three letter rows, key by
/// key (label, key code, width), below the function-key row when that is
/// shown.
pub proof fn lemma_dvorak_keys(fx_keys: bool)
    ensures
        standard_def("dvorak"@) is Some,
        ({
            let rows = layout_view(standard_def("dvorak"@)->0, fx_keys);
            let o: int = if fx_keys { 1 } else { 0 };
            &&& rows[o] == seq![
                    key_view("`"@, 41, 100),
                    key_view("1"@, 2, 100),
                    key_view("2"@, 3, 100),
                    key_view("3"@, 4, 100),
                    key_view("4"@, 5, 100),
                    key_view("5"@, 6, 100),
                    key_view("6"@, 7, 100),
                    key_view("7"@, 8, 100),
                    key_view("8"@, 9, 100),
                    key_view("9"@, 10, 100),
                    key_view("0"@, 11, 100),
                    key_view("["@, 12, 100),
                    key_view("]"@, 13, 100),
                    key_view("Bksp"@, 14, 200),
                ]
            &&& rows[o + 1] == seq![
                    key_view("Tab"@, 15, 150),
                    key_view("'"@, 16, 100),
                    key_view(","@, 17, 100),
                    key_view("."@, 18, 100),
                    key_view("P"@, 19, 100),
                    key_view("Y"@, 20, 100),
                    key_view("F"@, 21, 100),
                    key_view("G"@, 22, 100),
                    key_view("C"@, 23, 100),
                    key_view("R"@, 24, 100),
                    key_view("L"@, 25, 100),
                    key_view("/"@, 26, 100),
                    key_view("="@, 27, 100),
                    key_view("\\"@, 43, 100),
                ]
            &&& rows[o + 2] == seq![
                    key_view("Caps"@, 58, 175),
                    key_view("A"@, 30, 100),
                    key_view("O"@, 31, 100),
                    key_view("E"@, 32, 100),
                    key_view("U"@, 33, 100),
                    key_view("I"@, 34, 100),
                    key_view("D"@, 35, 100),
                    key_view("H"@, 36, 100),
                    key_view("T"@, 37, 100),
                    key_view("N"@, 38, 100),
                    key_view("S"@, 39, 100),
                    key_view("-"@, 40, 100),
                    key_view("Enter"@, 28, 225),
                ]
            &&& rows[o + 3] == seq![
                    key_view("Shift"@, 42, 225),
                    key_view(";"@, 44, 100),
                    key_view("Q"@, 45, 100),
                    key_view("J"@, 46, 100),
                    key_view("K"@, 47, 100),
                    key_view("X"@, 48, 100),
                    key_view("B"@, 49, 100),
                    key_view("M"@, 50, 100),
                    key_view("W"@, 51, 100),
                    key_view("V"@, 52, 100),
                    key_view("Z"@, 53, 100),
                    key_view("Shift"@, 54, 275),
                ]
        }),
{
    lemma_standard_names("dvorak"@);
    assert(standard_def("dvorak"@) == Some(
        def_from(DVORAK_NUMBER, DVORAK_TOP, DVORAK_HOME, DVORAK_BOTTOM, DVORAK_PUNCT),
    )) by {
        reveal_strlit("qwerty");
        reveal_strlit("dvorak");
        reveal_strlit("colemak");
        reveal_strlit("canary");
        assert("dvorak"@[0] != "qwerty"@[0]);
        assert("colemak"@[0] != "qwerty"@[0] && "colemak"@[0] != "dvorak"@[0]);
        assert("canary"@[0] != "qwerty"@[0] && "canary"@[0] != "dvorak"@[0]);
        assert("canary"@[1] != "colemak"@[1]);
    }
    let def = def_from(DVORAK_NUMBER, DVORAK_TOP, DVORAK_HOME, DVORAK_BOTTOM, DVORAK_PUNCT);
    assert(number_row_view(def.number) =~= seq![
            key_view("`"@, 41, 100),
            key_view("1"@, 2, 100),
            key_view("2"@, 3, 100),
            key_view("3"@, 4, 100),
            key_view("4"@, 5, 100),
            key_view("5"@, 6, 100),
            key_view("6"@, 7, 100),
            key_view("7"@, 8, 100),
            key_view("8"@, 9, 100),
            key_view("9"@, 10, 100),
            key_view("0"@, 11, 100),
            key_view("["@, 12, 100),
            key_view("]"@, 13, 100),
            key_view("Bksp"@, 14, 200),
        ]);
    assert(top_alpha_row_view(def.alpha) =~= seq![
            key_view("Tab"@, 15, 150),
            key_view("'"@, 16, 100),
            key_view(","@, 17, 100),
            key_view("."@, 18, 100),
            key_view("P"@, 19, 100),
            key_view("Y"@, 20, 100),
            key_view("F"@, 21, 100),
            key_view("G"@, 22, 100),
            key_view("C"@, 23, 100),
            key_view("R"@, 24, 100),
            key_view("L"@, 25, 100),
            key_view("/"@, 26, 100),
            key_view("="@, 27, 100),
            key_view("\\"@, 43, 100),
        ]);
    assert(home_alpha_row_view(def.alpha) =~= seq![
            key_view("Caps"@, 58, 175),
            key_view("A"@, 30, 100),
            key_view("O"@, 31, 100),
            key_view("E"@, 32, 100),
            key_view("U"@, 33, 100),
            key_view("I"@, 34, 100),
            key_view("D"@, 35, 100),
            key_view("H"@, 36, 100),
            key_view("T"@, 37, 100),
            key_view("N"@, 38, 100),
            key_view("S"@, 39, 100),
            key_view("-"@, 40, 100),
            key_view("Enter"@, 28, 225),
        ]);
    assert(bottom_alpha_row_view(def.alpha) =~= seq![
            key_view("Shift"@, 42, 225),
            key_view(";"@, 44, 100),
            key_view("Q"@, 45, 100),
            key_view("J"@, 46, 100),
            key_view("K"@, 47, 100),
            key_view("X"@, 48, 100),
            key_view("B"@, 49, 100),
            key_view("M"@, 50, 100),
            key_view("W"@, 51, 100),
            key_view("V"@, 52, 100),
            key_view("Z"@, 53, 100),
            key_view("Shift"@, 54, 275),
        ]);
}

/// The colemak keyboard: its number row and its three letter rows, key by
/// key (label, key code, width), below the function-key row when that is
/// shown.
pub proof fn lemma_colemak_keys(fx_keys: bool)
    ensures
        standard_def("colemak"@) is Some,
        ({
            let rows = layout_view(standard_def("colemak"@)->0, fx_keys);
            let o: int = if fx_keys { 1 } else { 0 };
            &&& rows[o] == seq![
                    key_view("`"@, 41, 100),
                    key_view("1"@, 2, 100),
                    key_view("2"@, 3, 100),
                    key_view("3"@, 4, 100),
                    key_view("4"@, 5, 100),
                    key_view("5"@, 6, 100),
                    key_view("6"@, 7, 100),
                    key_view("7"@, 8, 100),
                    key_view("8"@, 9, 100),
                    key_view("9"@, 10, 100),
                    key_view("0"@, 11, 100),
                    key_view("-"@, 12, 100),
                    key_view("="@, 13, 100),
                    key_view("Bksp"@, 14, 200),
                ]
            &&& rows[o + 1] == seq![
                    key_view("Tab"@, 15, 150),
                    key_view("Q"@, 16, 100),
                    key_view("W"@, 17, 100),
                    key_view("F"@, 18, 100),
                    key_view("P"@, 19, 100),
                    key_view("G"@, 20, 100),
                    key_view("J"@, 21, 100),
                    key_view("L"@, 22, 100),
                    key_view("U"@, 23, 100),
                    key_view("Y"@, 24, 100),
                    key_view(";"@, 25, 100),
                    key_view("["@, 26, 100),
                    key_view("]"@, 27, 100),
                    key_view("\\"@, 43, 100),
                ]
            &&& rows[o + 2] == seq![
                    key_view("Caps"@, 58, 175),
                    key_view("A"@, 30, 100),
                    key_view("R"@, 31, 100),
                    key_view("S"@, 32, 100),
                    key_view("T"@, 33, 100),
                    key_view("D"@, 34, 100),
                    key_view("H"@, 35, 100),
                    key_view("N"@, 36, 100),
                    key_view("E"@, 37, 100),
                    key_view("I"@, 38, 100),
                    key_view("O"@, 39, 100),
                    key_view("'"@, 40, 100),
                    key_view("Enter"@, 28, 225),
                ]
            &&& rows[o + 3] == seq![
                    key_view("Shift"@, 42, 225),
                    key_view("Z"@, 44, 100),
                    key_view("X"@, 45, 100),
                    key_view("C"@, 46, 100),
                    key_view("V"@, 47, 100),
                    key_view("B"@, 48, 100),
                    key_view("K"@, 49, 100),
                    key_view("M"@, 50, 100),
                    key_view(","@, 51, 100),
                    key_view("."@, 52, 100),
                    key_view("/"@, 53, 100),
                    key_view("Shift"@, 54, 275),
                ]
        }),
{
    lemma_standard_names("colemak"@);
    assert(standard_def("colemak"@) == Some(
        def_from(COLEMAK_NUMBER, COLEMAK_TOP, COLEMAK_HOME, COLEMAK_BOTTOM, COLEMAK_PUNCT),
    )) by {
        reveal_strlit("qwerty");
        reveal_strlit("dvorak");
        reveal_strlit("colemak");
        reveal_strlit("canary");
        assert("dvorak"@[0] != "qwerty"@[0]);
        assert("colemak"@[0] != "qwerty"@[0] && "colemak"@[0] != "dvorak"@[0]);
        assert("canary"@[0] != "qwerty"@[0] && "canary"@[0] != "dvorak"@[0]);
        assert("canary"@[1] != "colemak"@[1]);
    }
    let def = def_from(COLEMAK_NUMBER, COLEMAK_TOP, COLEMAK_HOME, COLEMAK_BOTTOM, COLEMAK_PUNCT);
    assert(number_row_view(def.number) =~= seq![
            key_view("`"@, 41, 100),
            key_view("1"@, 2, 100),
            key_view("2"@, 3, 100),
            key_view("3"@, 4, 100),
            key_view("4"@, 5, 100),
            key_view("5"@, 6, 100),
            key_view("6"@, 7, 100),
            key_view("7"@, 8, 100),
            key_view("8"@, 9, 100),
            key_view("9"@, 10, 100),
            key_view("0"@, 11, 100),
            key_view("-"@, 12, 100),
            key_view("="@, 13, 100),
            key_view("Bksp"@, 14, 200),
        ]);
    assert(top_alpha_row_view(def.alpha) =~= seq![
            key_view("Tab"@, 15, 150),
            key_view("Q"@, 16, 100),
            key_view("W"@, 17, 100),
            key_view("F"@, 18, 100),
            key_view("P"@, 19, 100),
            key_view("G"@, 20, 100),
            key_view("J"@, 21, 100),
            key_view("L"@, 22, 100),
            key_view("U"@, 23, 100),
            key_view("Y"@, 24, 100),
            key_view(";"@, 25, 100),
            key_view("["@, 26, 100),
            key_view("]"@, 27, 100),
            key_view("\\"@, 43, 100),
        ]);
    assert(home_alpha_row_view(def.alpha) =~= seq![
            key_view("Caps"@, 58, 175),
            key_view("A"@, 30, 100),
            key_view("R"@, 31, 100),
            key_view("S"@, 32, 100),
            key_view("T"@, 33, 100),
            key_view("D"@, 34, 100),
            key_view("H"@, 35, 100),
            key_view("N"@, 36, 100),
            key_view("E"@, 37, 100),
            key_view("I"@, 38, 100),
            key_view("O"@, 39, 100),
            key_view("'"@, 40, 100),
            key_view("Enter"@, 28, 225),
        ]);
    assert(bottom_alpha_row_view(def.alpha) =~= seq![
            key_view("Shift"@, 42, 225),
            key_view("Z"@, 44, 100),
            key_view("X"@, 45, 100),
            key_view("C"@, 46, 100),
            key_view("V"@, 47, 100),
            key_view("B"@, 48, 100),
            key_view("K"@, 49, 100),
            key_view("M"@, 50, 100),
            key_view(","@, 51, 100),
            key_view("."@, 52, 100),
            key_view("/"@, 53, 100),
            key_view("Shift"@, 54, 275),
        ]);
}

/// The canary keyboard: its number row and its three letter rows, key by
/// key (label, key code, width), below the function-key row when that is
/// shown.
pub proof fn lemma_canary_keys(fx_keys: bool)
    ensures
        standard_def("canary"@) is Some,
        ({
            let rows = layout_view(standard_def("canary"@)->0, fx_keys);
            let o: int = if fx_keys { 1 } else { 0 };
            &&& rows[o] == seq![
                    key_view("`"@, 41, 100),
                    key_view("1"@, 2, 100),
                    key_view("2"@, 3, 100),
                    key_view("3"@, 4, 100),
                    key_view("4"@, 5, 100),
                    key_view("5"@, 6, 100),
                    key_view("6"@, 7, 100),
                    key_view("7"@, 8, 100),
                    key_view("8"@, 9, 100),
                    key_view("9"@, 10, 100),
                    key_view("0"@, 11, 100),
                    key_view("-"@, 12, 100),
                    key_view("="@, 13, 100),
                    key_view("Bksp"@, 14, 200),
                ]
            &&& rows[o + 1] == seq![
                    key_view("Tab"@, 15, 150),
                    key_view("w"@, 16, 100),
                    key_view("l"@, 17, 100),
                    key_view("y"@, 18, 100),
                    key_view("p"@, 19, 100),
                    key_view("k"@, 20, 100),
                    key_view("z"@, 21, 100),
                    key_view("x"@, 22, 100),
                    key_view("o"@, 23, 100),
                    key_view("u"@, 24, 100),
                    key_view(";"@, 25, 100),
                    key_view("["@, 26, 100),
                    key_view("]"@, 27, 100),
                    key_view("\\"@, 43, 100),
                ]
            &&& rows[o + 2] == seq![
                    key_view("Caps"@, 58, 175),
                    key_view("c"@, 30, 100),
                    key_view("r"@, 31, 100),
                    key_view("s"@, 32, 100),
                    key_view("t"@, 33, 100),
                    key_view("b"@, 34, 100),
                    key_view("f"@, 35, 100),
                    key_view("n"@, 36, 100),
                    key_view("e"@, 37, 100),
                    key_view("i"@, 38, 100),
                    key_view("a"@, 39, 100),
                    key_view("'"@, 40, 100),
                    key_view("Enter"@, 28, 225),
                ]
            &&& rows[o + 3] == seq![
                    key_view("Shift"@, 42, 225),
                    key_view("j"@, 44, 100),
                    key_view("v"@, 45, 100),
                    key_view("d"@, 46, 100),
                    key_view("g"@, 47, 100),
                    key_view("q"@, 48, 100),
                    key_view("m"@, 49, 100),
                    key_view("h"@, 50, 100),
                    key_view("/"@, 51, 100),
                    key_view(","@, 52, 100),
                    key_view("."@, 53, 100),
                    key_view("Shift"@, 54, 275),
                ]
        }),
{
    lemma_standard_names("canary"@);
    assert(standard_def("canary"@) == Some(
        def_from(CANARY_NUMBER, CANARY_TOP, CANARY_HOME, CANARY_BOTTOM, CANARY_PUNCT),
    )) by {
        reveal_strlit("qwerty");
        reveal_strlit("dvorak");
        reveal_strlit("colemak");
        reveal_strlit("canary");
        assert("dvorak"@[0] != "qwerty"@[0]);
        assert("colemak"@[0] != "qwerty"@[0] && "colemak"@[0] != "dvorak"@[0]);
        assert("canary"@[0] != "qwerty"@[0] && "canary"@[0] != "dvorak"@[0]);
        assert("canary"@[1] != "colemak"@[1]);
    }
    let def = def_from(CANARY_NUMBER, CANARY_TOP, CANARY_HOME, CANARY_BOTTOM, CANARY_PUNCT);
    assert(number_row_view(def.number) =~= seq![
            key_view("`"@, 41, 100),
            key_view("1"@, 2, 100),
            key_view("2"@, 3, 100),
            key_view("3"@, 4, 100),
            key_view("4"@, 5, 100),
            key_view("5"@, 6, 100),
            key_view("6"@, 7, 100),
            key_view("7"@, 8, 100),
            key_view("8"@, 9, 100),
            key_view("9"@, 10, 100),
            key_view("0"@, 11, 100),
            key_view("-"@, 12, 100),
            key_view("="@, 13, 100),
            key_view("Bksp"@, 14, 200),
        ]);
    assert(top_alpha_row_view(def.alpha) =~= seq![
            key_view("Tab"@, 15, 150),
            key_view("w"@, 16, 100),
            key_view("l"@, 17, 100),
            key_view("y"@, 18, 100),
            key_view("p"@, 19, 100),
            key_view("k"@, 20, 100),
            key_view("z"@, 21, 100),
            key_view("x"@, 22, 100),
            key_view("o"@, 23, 100),
            key_view("u"@, 24, 100),
            key_view(";"@, 25, 100),
            key_view("["@, 26, 100),
            key_view("]"@, 27, 100),
            key_view("\\"@, 43, 100),
        ]);
    assert(home_alpha_row_view(def.alpha) =~= seq![
            key_view("Caps"@, 58, 175),
            key_view("c"@, 30, 100),
            key_view("r"@, 31, 100),
            key_view("s"@, 32, 100),
            key_view("t"@, 33, 100),
            key_view("b"@, 34, 100),
            key_view("f"@, 35, 100),
            key_view("n"@, 36, 100),
            key_view("e"@, 37, 100),
            key_view("i"@, 38, 100),
            key_view("a"@, 39, 100),
            key_view("'"@, 40, 100),
            key_view("Enter"@, 28, 225),
        ]);
    assert(bottom_alpha_row_view(def.alpha) =~= seq![
            key_view("Shift"@, 42, 225),
            key_view("j"@, 44, 100),
            key_view("v"@, 45, 100),
            key_view("d"@, 46, 100),
            key_view("g"@, 47, 100),
            key_view("q"@, 48, 100),
            key_view("m"@, 49, 100),
            key_view("h"@, 50, 100),
            key_view("/"@, 51, 100),
            key_view(","@, 52, 100),
            key_view("."@, 53, 100),
            key_view("Shift"@, 54, 275),
        ]);
}

} // verus!
