//! Detecting the active keyboard layout from what the compositor reports.
//!
//! The compositors answer in JSON; the layout name is read from a string
//! value of a known key, and mapped to one of the standard layouts by
//! looking for tell-tale words in it.

use vstd::prelude::*;
use crate::layout::standard_def;
use crate::text::{
    all_ascii, ascii_lower, ascii_upper, chars_of, contains_chars, copy_range, count_char, count_char_exec,
    find_chars, find_from, has_substring, lemma_count_char_le_len, lemma_find_from,
    lemma_trim_keeps_substring, lemma_trim_start_extend, lemma_find_from_extend, trim_start_offset,
    trim_end_offset, is_whitespace,
    lemma_find_shift, lowercase, occurs_at, occurs_at_exec, skip_whitespace, str_contains, substring,
    to_lowercase, trim, trim_bounds, trim_start,
};

verus! {

broadcast use vstd::string::group_string_axioms;

// ---------------------------------------------------------------------------
// Layout names
// ---------------------------------------------------------------------------

/// The standard layout that an XKB layout name (already in lower case)
/// stands for: the first of dvorak, colemak, canary whose name occurs in it;
/// else qwerty when it holds "us", "english", "en", "qwerty", "intl" or
/// "basic"; else none.
pub open spec fn xkb_layout_for(n: Seq<char>) -> Option<Seq<char>> {
    if has_substring(n, "dvorak"@) {
        Some("dvorak"@)
    } else if has_substring(n, "colemak"@) {
        Some("colemak"@)
    } else if has_substring(n, "canary"@) {
        Some("canary"@)
    } else if has_substring(n, "us"@) || has_substring(n, "english"@) || has_substring(n, "en"@)
        || has_substring(n, "qwerty"@) || has_substring(n, "intl"@) || has_substring(
        n,
        "basic"@,
    ) {
        Some("qwerty"@)
    } else {
        None
    }
}

/// The standard layout that the XKB layout name `name` stands for, matched
/// without regard to letter case.
pub fn map_xkb_name(name: &str) -> (r: Option<&'static str>)
    ensures
        match r {
            Some(s) => xkb_layout_for(lowercase(name@)) == Some(s@),
            None => xkb_layout_for(lowercase(name@)) is None,
        },
        all_ascii(name@) ==> match r {
            Some(s) => xkb_layout_for(name@.map_values(|c: char| ascii_lower(c))) == Some(s@),
            None => xkb_layout_for(name@.map_values(|c: char| ascii_lower(c))) is None,
        },
{
    let lower = to_lowercase(name);
    let n = lower.as_str();
    if str_contains(n, "dvorak") {
        Some("dvorak")
    } else if str_contains(n, "colemak") {
        Some("colemak")
    } else if str_contains(n, "canary") {
        Some("canary")
    } else if str_contains(n, "us") || str_contains(n, "english") || str_contains(n, "en")
        || str_contains(n, "qwerty") || str_contains(n, "intl") || str_contains(n, "basic") {
        Some("qwerty")
    } else {
        None
    }
}


/// What an XKB layout name (in lower case) stands for: dvorak wins over
/// everything, then colemak, then canary; a name holding none of those is
/// qwerty exactly when it holds `us`, `english`, `en`, `qwerty`, `intl` or
/// `basic`; a name holding none of the nine words stands for no layout.
pub proof fn lemma_layout_name_words(n: Seq<char>)
    ensures
        has_substring(n, "dvorak"@) ==> xkb_layout_for(n) == Some("dvorak"@),
        !has_substring(n, "dvorak"@) && has_substring(n, "colemak"@) ==> xkb_layout_for(n) == Some(
            "colemak"@,
        ),
        !has_substring(n, "dvorak"@) && !has_substring(n, "colemak"@) && has_substring(
            n,
            "canary"@,
        ) ==> xkb_layout_for(n) == Some("canary"@),
        !has_substring(n, "dvorak"@) && !has_substring(n, "colemak"@) && !has_substring(
            n,
            "canary"@,
        ) ==> (xkb_layout_for(n) == Some("qwerty"@) <==> (has_substring(n, "us"@)
            || has_substring(n, "english"@) || has_substring(n, "en"@) || has_substring(
            n,
            "qwerty"@,
        ) || has_substring(n, "intl"@) || has_substring(n, "basic"@))),
        xkb_layout_for(n) is None <==> !(has_substring(n, "dvorak"@) || has_substring(
            n,
            "colemak"@,
        ) || has_substring(n, "canary"@) || has_substring(n, "us"@) || has_substring(
            n,
            "english"@,
        ) || has_substring(n, "en"@) || has_substring(n, "qwerty"@) || has_substring(
            n,
            "intl"@,
        ) || has_substring(n, "basic"@)),
{
    reveal_strlit("qwerty");
    reveal_strlit("dvorak");
    reveal_strlit("colemak");
    reveal_strlit("canary");
    assert("qwerty"@[0] != "dvorak"@[0] && "qwerty"@[0] != "colemak"@[0] && "qwerty"@[0]
        != "canary"@[0]);
}

/// Letter case does not matter to the layout that an ASCII XKB name stands
/// for: the name, its ASCII upper case and its ASCII lower case are all
/// ASCII and stand for the same layout.
pub proof fn lemma_xkb_name_ignores_ascii_case(name: Seq<char>)
    requires
        all_ascii(name),
    ensures
        ({
            let upper = name.map_values(|c: char| ascii_upper(c));
            let lower = name.map_values(|c: char| ascii_lower(c));
            &&& all_ascii(upper)
            &&& all_ascii(lower)
            &&& xkb_layout_for(upper.map_values(|c: char| ascii_lower(c))) == xkb_layout_for(lower)
            &&& xkb_layout_for(lower.map_values(|c: char| ascii_lower(c))) == xkb_layout_for(lower)
        }),
{
    let upper = name.map_values(|c: char| ascii_upper(c));
    let lower = name.map_values(|c: char| ascii_lower(c));
    assert forall|i: int| 0 <= i < name.len() implies (upper[i] as u32) < 128 && ascii_lower(
        upper[i],
    ) == lower[i] && (lower[i] as u32) < 128 && ascii_lower(lower[i]) == lower[i] by {
        let c = name[i];
        assert((c as u32) < 128);
    }
    assert(upper.map_values(|c: char| ascii_lower(c)) =~= lower);
    assert(lower.map_values(|c: char| ascii_lower(c)) =~= lower);
}

// ---------------------------------------------------------------------------
// String values in JSON text
// ---------------------------------------------------------------------------

/// The text that introduces the value of `key`: the key in double quotes,
/// then a colon.
pub open spec fn key_pattern(key: Seq<char>) -> Seq<char> {
    seq!['"'] + key + seq!['"', ':']
}

/// The string value that starts at `pos` of `s`, after any whitespace: the
/// characters between its opening double quote and the next double quote.
/// None when no double quote opens it, or none closes it.
pub open spec fn quoted_value_at(s: Seq<char>, pos: int) -> Option<Seq<char>> {
    let rest = trim_start(s.subrange(pos, s.len() as int));
    if rest.len() > 0 && rest[0] == '"' {
        let body = rest.drop_first();
        match find_from(body, seq!['"'], 0) {
            Some(e) => Some(body.subrange(0, e)),
            None => None,
        }
    } else {
        None
    }
}

/// The string value of the first occurrence of `key` in `line`.
pub open spec fn json_string_value(line: Seq<char>, key: Seq<char>) -> Option<Seq<char>> {
    match find_from(line, key_pattern(key), 0) {
        Some(i) => quoted_value_at(line, i + key_pattern(key).len()),
        None => None,
    }
}

/// A string value ends at the first double quote after its opening one, so
/// it holds no double quote.
pub proof fn lemma_string_value_has_no_quote(s: Seq<char>, pos: int)
    requires
        0 <= pos <= s.len(),
    ensures
        quoted_value_at(s, pos) matches Some(v) ==> !v.contains('"'),
{
    let rest = trim_start(s.subrange(pos, s.len() as int));
    if rest.len() > 0 && rest[0] == '"' {
        let body = rest.drop_first();
        lemma_find_from(body, seq!['"'], 0);
        if let Some(e) = find_from(body, seq!['"'], 0) {
            let v = body.subrange(0, e);
            assert forall|j: int| 0 <= j < v.len() implies v[j] != '"' by {
                if v[j] == '"' {
                    assert(body.subrange(j, j + 1) =~= seq!['"']);
                    assert(occurs_at(body, seq!['"'], j));
                }
            }
        }
    }
}

/// The characters of `key_pattern(key)`.
fn key_pattern_exec(key: &str) -> (r: Vec<char>)
    ensures
        r@ == key_pattern(key@),
{
    let kv = chars_of(key);
    let mut p: Vec<char> = Vec::new();
    p.push('"');
    let mut i: usize = 0;
    while i < kv.len()
        invariant
            0 <= i <= kv.len(),
            p@ == seq!['"'] + kv@.take(i as int),
        decreases kv.len() - i,
    {
        p.push(kv[i]);
        assert(kv@.take(i + 1) =~= kv@.take(i as int).push(kv@[i as int]));
        i = i + 1;
    }
    p.push('"');
    p.push(':');
    assert(kv@.take(kv.len() as int) =~= kv@);
    assert(p@ =~= key_pattern(key@));
    p
}

/// The bounds in `s` of the string value that starts at `pos`.
fn quoted_value_bounds(s: &Vec<char>, pos: usize) -> (r: Option<(usize, usize)>)
    requires
        pos <= s.len(),
    ensures
        match r {
            Some((a, b)) => a <= b <= s.len() && quoted_value_at(s@, pos as int) == Some(
                s@.subrange(a as int, b as int),
            ),
            None => quoted_value_at(s@, pos as int) is None,
        },
{
    let a0: usize = skip_whitespace(s, pos);
    if a0 < s.len() && s[a0] == '"' {
        let ghost rest = trim_start(s@.subrange(pos as int, s.len() as int));
        let ghost body = rest.drop_first();
        assert(body =~= s@.subrange(a0 + 1, s.len() as int));
        let quote = vec!['"'];
        assert(quote@ =~= seq!['"']);
        proof {
            lemma_find_shift(s@, quote@, a0 + 1, 0);
        }
        match find_chars(s, &quote, a0 + 1) {
            Some(e) => {
                proof {
                    lemma_find_from(s@, quote@, a0 + 1);
                    assert(find_from(body, seq!['"'], 0) == Some(e - (a0 + 1)));
                    assert(body.subrange(0, e - (a0 + 1)) =~= s@.subrange(a0 + 1, e as int));
                }
                Some((a0 + 1, e))
            },
            None => None,
        }
    } else {
        None
    }
}

/// The bounds in `lv` of the string value of the first occurrence of the
/// key pattern `pat` in `lv`.
fn json_string_value_bounds(lv: &Vec<char>, pat: &Vec<char>, key: Ghost<Seq<char>>) -> (r:
    Option<(usize, usize)>)
    requires
        pat@ == key_pattern(key@),
    ensures
        match r {
            Some((a, b)) => a <= b <= lv.len() && json_string_value(lv@, key@) == Some(
                lv@.subrange(a as int, b as int),
            ),
            None => json_string_value(lv@, key@) is None,
        },
{
    let len: usize = lv.len();
    match find_chars(lv, pat, 0) {
        Some(i) => {
            proof {
                lemma_find_from(lv@, pat@, 0);
                assert(occurs_at(lv@, pat@, i as int));
                assert(i + pat@.len() <= len);
            }
            let pos: usize = i + pat.len();
            quoted_value_bounds(lv, pos)
        },
        None => None,
    }
}

/// The string value of the first occurrence of `"key":` in `line`: after
/// the colon and any whitespace, the characters between a double quote and
/// the next one.
pub fn extract_json_string(line: &str, key: &str) -> (r: Option<String>)
    ensures
        match r {
            Some(v) => json_string_value(line@, key@) == Some(v@),
            None => json_string_value(line@, key@) is None,
        },
{
    let lv = chars_of(line);
    let pat = key_pattern_exec(key);
    match json_string_value_bounds(&lv, &pat, Ghost(key@)) {
        Some((a, b)) => Some(substring(line, a, b)),
        None => None,
    }
}


/// The string values of the occurrences of the key pattern `p` in `t` that
/// a scan from `from` meets: it finds the next occurrence, takes the value
/// after it (when there is one), and goes on one character after the end
/// of the occurrence.
pub open spec fn json_values_from(t: Seq<char>, p: Seq<char>, from: int) -> Seq<Seq<char>>
    decreases t.len() + 1 - from,
{
    if from < 0 {
        seq![]
    } else {
        match find_from(t, p, from) {
            None => seq![],
            Some(i) => {
                proof {
                    lemma_find_from(t, p, from);
                }
                let pos: int = i + p.len();
                let here = match quoted_value_at(t, pos) {
                    Some(v) => seq![v],
                    None => seq![],
                };
                here + json_values_from(t, p, pos + 1)
            },
        }
    }
}

/// Whether the scan of `json_values_from(t, p, from)` can step past every
/// occurrence it meets: each is followed by an ASCII character, so that the
/// next search starts on a character boundary inside the text.
pub open spec fn json_scan_ok(t: Seq<char>, p: Seq<char>, from: int) -> bool
    decreases t.len() + 1 - from,
{
    if from < 0 {
        true
    } else {
        match find_from(t, p, from) {
            None => true,
            Some(i) => {
                proof {
                    lemma_find_from(t, p, from);
                }
                let pos: int = i + p.len();
                pos < t.len() && (t[pos] as u32) < 128 && json_scan_ok(t, p, pos + 1)
            },
        }
    }
}

/// The string values of every occurrence of `"key":` in `text`, in order.
pub open spec fn json_string_values(text: Seq<char>, key: Seq<char>) -> Seq<Seq<char>> {
    json_values_from(text, key_pattern(key), 0)
}

/// The strings of `v` as character sequences.
pub open spec fn strings_view(v: Seq<String>) -> Seq<Seq<char>> {
    v.map_values(|s: String| s@)
}

/// The string values of every occurrence of `"key":` in `text`, in order.
/// After an occurrence the search goes on one byte after its colon, so an
/// occurrence that ends the text, or that a non-ASCII character follows,
/// is outside what the function accepts.
pub fn extract_json_string_values(text: &str, key: &str) -> (r: Vec<String>)
    requires
        json_scan_ok(text@, key_pattern(key@), 0),
    ensures
        strings_view(r@) == json_string_values(text@, key@),
{
    let tv = chars_of(text);
    let n: usize = tv.len();
    let pat = key_pattern_exec(key);
    let mut values: Vec<String> = Vec::new();
    let mut from: usize = 0;
    assert(strings_view(values@) =~= Seq::<Seq<char>>::empty());
    while from <= n
        invariant
            n == tv@.len(),
            tv@ == text@,
            pat@ == key_pattern(key@),
            from <= n,
            json_values_from(tv@, pat@, 0) == strings_view(values@) + json_values_from(
                tv@,
                pat@,
                from as int,
            ),
            json_scan_ok(tv@, pat@, from as int),
        ensures
            json_values_from(tv@, pat@, 0) == strings_view(values@),
        decreases n + 1 - from,
    {
        match find_chars(&tv, &pat, from) {
            None => {
                assert(json_values_from(tv@, pat@, from as int) =~= Seq::<Seq<char>>::empty());
                assert(strings_view(values@) + Seq::<Seq<char>>::empty() =~= strings_view(values@));
                break ;
            },
            Some(i) => {
                proof {
                    lemma_find_from(tv@, pat@, from as int);
                    assert(occurs_at(tv@, pat@, i as int));
                }
                let pos: usize = i + pat.len();
                let ghost before = strings_view(values@);
                match quoted_value_bounds(&tv, pos) {
                    Some((a, b)) => {
                        let v = substring(text, a, b);
                        values.push(v);
                        assert(strings_view(values@) =~= before.push(tv@.subrange(a as int, b as int)));
                    },
                    None => {},
                }
                assert(strings_view(values@) + json_values_from(tv@, pat@, pos + 1) =~= before
                    + json_values_from(tv@, pat@, from as int));
                from = pos + 1;
            },
        }
    }
    values
}


// ---------------------------------------------------------------------------
// The keyboard of a sway input listing
// ---------------------------------------------------------------------------

/// The lines of `t`: the pieces between newline characters. (`str::lines`
/// also drops a trailing `\r` and a last empty piece; after trimming, which
/// removes `\r`, neither changes what the scan below finds.)
pub open spec fn split_lines(t: Seq<char>) -> Seq<Seq<char>>
    decreases t.len(),
{
    match find_from(t, seq!['\n'], 0) {
        Some(e) => {
            proof {
                lemma_find_from(t, seq!['\n'], 0);
            }
            seq![t.subrange(0, e)] + split_lines(t.subrange(e + 1, t.len() as int))
        },
        None => seq![t],
    }
}

/// The key whose value names the active layout in a sway input listing.
pub open spec fn sway_layout_key() -> Seq<char> {
    "xkb_active_layout_name"@
}

/// The standard layout named by the value of `xkb_active_layout_name` in a
/// (trimmed) line, if the line holds one that maps to a layout.
pub open spec fn layout_named_in_line(line: Seq<char>) -> Option<Seq<char>> {
    match json_string_value(line, sway_layout_key()) {
        Some(name) => xkb_layout_for(lowercase(name)),
        None => None,
    }
}

/// One step of the scan over a trimmed line, given whether the scan is
/// inside a keyboard's block and the brace depth there: the new state and
/// the layout found on the line, if any.
///
/// A line that mentions `"type"` and `keyboard` opens a keyboard's block at
/// depth 0. Inside a block every `{` adds one to the depth and every `}`
/// takes one away; the block closes on a line that holds a `}` and leaves
/// the depth at 0 or below. Only lines inside a block are searched.
pub open spec fn scan_line(state: (bool, int), line: Seq<char>) -> ((bool, int), Option<Seq<char>>) {
    let opens = has_substring(line, "\"type\""@) && has_substring(line, "keyboard"@);
    let in_keyboard = opens || state.0;
    let depth: int = if opens { 0 } else { state.1 };
    if in_keyboard {
        let d: int = depth + count_char(line, '{') - count_char(line, '}');
        let closes = d <= 0 && has_substring(line, seq!['}']);
        ((!closes, d), layout_named_in_line(line))
    } else {
        ((false, depth), None)
    }
}

/// The first layout found by scanning `lines` (each trimmed) from `state`.
pub open spec fn scan_lines(lines: Seq<Seq<char>>, state: (bool, int)) -> Option<Seq<char>>
    decreases lines.len(),
{
    if lines.len() == 0 {
        None
    } else {
        let (next, found) = scan_line(state, trim(lines[0]));
        if found is Some {
            found
        } else {
            scan_lines(lines.drop_first(), next)
        }
    }
}

/// The first of `names` that maps to a standard layout, mapped.
pub open spec fn first_known_layout(names: Seq<Seq<char>>) -> Option<Seq<char>>
    decreases names.len(),
{
    if names.len() == 0 {
        None
    } else {
        match xkb_layout_for(lowercase(names[0])) {
            Some(l) => Some(l),
            None => first_known_layout(names.drop_first()),
        }
    }
}

/// The layout that the line scan of a sway input listing finds.
pub open spec fn keyboard_block_layout(text: Seq<char>) -> Option<Seq<char>> {
    scan_lines(split_lines(text), (false, 0))
}

/// The layout of a sway input listing: the one the scan of the keyboards'
/// blocks finds, else the first `xkb_active_layout_name` value anywhere in
/// the text that maps to a layout.
pub open spec fn layout_in_json(text: Seq<char>) -> Option<Seq<char>> {
    match keyboard_block_layout(text) {
        Some(l) => Some(l),
        None => first_known_layout(json_string_values(text, sway_layout_key())),
    }
}

/// A line scan outside any keyboard's block that meets no line mentioning
/// both `"type"` and `keyboard` finds nothing.
proof fn lemma_scan_lines_without_block(lines: Seq<Seq<char>>)
    requires
        forall|i: int|
            0 <= i < lines.len() ==> !(has_substring(#[trigger] lines[i], "\"type\""@)
                && has_substring(lines[i], "keyboard"@)),
    ensures
        scan_lines(lines, (false, 0)) is None,
    decreases lines.len(),
{
    if lines.len() > 0 {
        lemma_trim_keeps_substring(lines[0], "\"type\""@);
        lemma_trim_keeps_substring(lines[0], "keyboard"@);
        let rest = lines.drop_first();
        assert forall|i: int| 0 <= i < rest.len() implies !(has_substring(
            #[trigger] rest[i],
            "\"type\""@,
        ) && has_substring(rest[i], "keyboard"@)) by {
            assert(rest[i] == lines[i + 1]);
        }
        lemma_scan_lines_without_block(rest);
    }
}

/// When no line of a sway input listing mentions both `"type"` and
/// `keyboard`, no keyboard's block is scanned: the layout is the first
/// `xkb_active_layout_name` value anywhere in the text that maps to a
/// layout.
pub proof fn lemma_no_keyboard_block(text: Seq<char>)
    requires
        forall|i: int|
            0 <= i < split_lines(text).len() ==> !(has_substring(
                #[trigger] split_lines(text)[i],
                "\"type\""@,
            ) && has_substring(split_lines(text)[i], "keyboard"@)),
    ensures
        keyboard_block_layout(text) is None,
        layout_in_json(text) == first_known_layout(json_string_values(text, sway_layout_key())),
{
    lemma_scan_lines_without_block(split_lines(text));
}

/// A quoted value found in a piece of `t` is the value found at the same
/// place in `t`.
proof fn lemma_quoted_value_in_piece(t: Seq<char>, o: int, n: int, pos: int)
    requires
        0 <= o,
        o + n <= t.len(),
        0 <= pos <= n,
        quoted_value_at(t.subrange(o, o + n), pos) is Some,
    ensures
        quoted_value_at(t, o + pos) == quoted_value_at(t.subrange(o, o + n), pos),
{
    let l = t.subrange(o, o + n);
    let x = l.subrange(pos, n);
    let z = t.subrange(o + n, t.len() as int);
    assert(x =~= t.subrange(o + pos, o + n));
    assert(t.subrange(o + pos, t.len() as int) =~= x + z);
    lemma_trim_start_extend(x, z);
    let rest = trim_start(x);
    let body = rest.drop_first();
    assert((rest + z).drop_first() =~= body + z);
    lemma_find_from_extend(body, z, seq!['"'], 0);
    let e = find_from(body, seq!['"'], 0)->0;
    lemma_find_from(body, seq!['"'], 0);
    assert((body + z).subrange(0, e) =~= body.subrange(0, e));
}

/// Where line `m` of `t` starts: the line is `t` from there on, for its
/// length, and it is the first line or follows a newline.
proof fn line_start(t: Seq<char>, m: int) -> (s: int)
    requires
        0 <= m < split_lines(t).len(),
    ensures
        0 <= s,
        s + split_lines(t)[m].len() <= t.len(),
        split_lines(t)[m] == t.subrange(s, s + split_lines(t)[m].len()),
        s == 0 || t[s - 1] == '\n',
    decreases t.len(),
{
    lemma_find_from(t, seq!['\n'], 0);
    match find_from(t, seq!['\n'], 0) {
        Some(e) => {
            let rest = t.subrange(e + 1, t.len() as int);
            assert(split_lines(t) == seq![t.subrange(0, e)] + split_lines(rest));
            if m == 0 {
                assert(t.subrange(0, e).len() == e);
                0
            } else {
                assert(split_lines(t)[m] == split_lines(rest)[m - 1]);
                let s2 = line_start(rest, m - 1);
                let line = split_lines(rest)[m - 1];
                assert(rest.subrange(s2, s2 + line.len()) =~= t.subrange(
                    e + 1 + s2,
                    e + 1 + s2 + line.len(),
                ));
                if s2 == 0 {
                    assert(t.subrange(e, e + 1) == seq!['\n']);
                    assert(t[e] == t.subrange(e, e + 1)[0]);
                } else {
                    assert(rest[s2 - 1] == t[e + 1 + s2 - 1]);
                }
                e + 1 + s2
            }
        },
        None => {
            assert(split_lines(t) == seq![t]);
            assert(t.subrange(0, t.len() as int) =~= t);
            0
        },
    }
}

/// A scan of the key pattern from `from` meets the occurrence at `j`, and
/// lists its value, when no occurrence lies in the stretch of the pattern's
/// length before `j` (the scan steps one character past each occurrence it
/// meets).
proof fn lemma_values_reach(t: Seq<char>, p: Seq<char>, from: int, j: int)
    requires
        0 <= from <= j,
        occurs_at(t, p, j),
        forall|k: int| from <= k < j && j - p.len() <= k ==> !occurs_at(t, p, k),
        quoted_value_at(t, j + p.len()) is Some,
    ensures
        json_values_from(t, p, from).contains(quoted_value_at(t, j + p.len())->0),
    decreases t.len() + 1 - from,
{
    lemma_find_from(t, p, from);
    let i = find_from(t, p, from)->0;
    let pos = i + p.len();
    let here = match quoted_value_at(t, pos) {
        Some(v) => seq![v],
        None => Seq::<Seq<char>>::empty(),
    };
    let v = quoted_value_at(t, j + p.len())->0;
    assert(json_values_from(t, p, from) == here + json_values_from(t, p, pos + 1));
    if i == j {
        assert((here + json_values_from(t, p, pos + 1))[0] == v);
    } else {
        assert(i < j - p.len());
        lemma_values_reach(t, p, pos + 1, j);
        let rest = json_values_from(t, p, pos + 1);
        let idx = choose|idx: int| 0 <= idx < rest.len() && rest[idx] == v;
        assert((here + rest)[here.len() + idx] == v);
    }
}

/// No character of the key pattern of `xkb_active_layout_name` is
/// whitespace or a newline.
proof fn lemma_sway_pattern_chars()
    ensures
        forall|q: int|
            0 <= q < key_pattern(sway_layout_key()).len() ==> !is_whitespace(
                #[trigger] key_pattern(sway_layout_key())[q],
            ) && key_pattern(sway_layout_key())[q] != '\n',
{
    reveal_strlit("xkb_active_layout_name");
    let p = key_pattern(sway_layout_key());
    assert(p =~= seq!['"', 'x', 'k', 'b', '_', 'a', 'c', 't', 'i', 'v', 'e', '_', 'l', 'a', 'y', 'o', 'u', 't', '_', 'n', 'a', 'm', 'e', '"', ':']);
}

/// The layout name that a line of a sway listing gives is one of the
/// values that the scan of the whole text lists.
proof fn lemma_line_value_is_listed(text: Seq<char>, m: int)
    requires
        0 <= m < split_lines(text).len(),
        json_string_value(trim(split_lines(text)[m]), sway_layout_key()) is Some,
    ensures
        json_string_values(text, sway_layout_key()).contains(
            json_string_value(trim(split_lines(text)[m]), sway_layout_key())->0,
        ),
{
    let line = split_lines(text)[m];
    let pat = key_pattern(sway_layout_key());
    let plen = pat.len() as int;
    let s = line_start(text, m);
    let a = trim_start_offset(line);
    let b = trim_end_offset(trim_start(line));
    let l = trim(line);
    let o = s + a;
    assert(l =~= text.subrange(o, o + b));
    lemma_find_from(l, pat, 0);
    let i = find_from(l, pat, 0)->0;
    let j = o + i;
    assert(text.subrange(j, j + plen) =~= l.subrange(i, i + plen));
    lemma_sway_pattern_chars();
    assert forall|k: int| 0 <= k < j && j - plen <= k implies !occurs_at(text, pat, k) by {
        if occurs_at(text, pat, k) {
            if k >= o {
                assert(l.subrange(k - o, k - o + plen) =~= text.subrange(k, k + plen));
                assert(occurs_at(l, pat, k - o));
            } else {
                assert(text[o - 1] == text.subrange(k, k + plen)[o - 1 - k]);
                assert(!is_whitespace(pat[o - 1 - k]) && pat[o - 1 - k] != '\n');
                if a > 0 {
                    assert(text[o - 1] == line[a - 1]);
                    assert(is_whitespace(line[a - 1]));
                } else {
                    assert(text[s - 1] == '\n');
                }
            }
        }
    }
    lemma_quoted_value_in_piece(text, o, b, i + plen);
    lemma_values_reach(text, pat, 0, j);
}

/// A line scan that finds a layout finds it on one of the lines.
proof fn scan_lines_source(lines: Seq<Seq<char>>, state: (bool, int)) -> (m: int)
    requires
        scan_lines(lines, state) is Some,
    ensures
        0 <= m < lines.len(),
        layout_named_in_line(trim(lines[m])) == scan_lines(lines, state),
    decreases lines.len(),
{
    let (next, found) = scan_line(state, trim(lines[0]));
    if found is Some {
        0
    } else {
        let m2 = scan_lines_source(lines.drop_first(), next);
        assert(lines.drop_first()[m2] == lines[m2 + 1]);
        m2 + 1
    }
}

/// The first of `names` that maps to a layout: there is none exactly when
/// none maps to one, and the layout it gives is that of one of them.
proof fn lemma_first_known_layout_source(names: Seq<Seq<char>>)
    ensures
        first_known_layout(names) is None <==> forall|v: Seq<char>|
            names.contains(v) ==> xkb_layout_for(lowercase(v)) is None,
        first_known_layout(names) matches Some(l) ==> exists|v: Seq<char>|
            names.contains(v) && xkb_layout_for(lowercase(v)) == Some(l),
    decreases names.len(),
{
    if names.len() > 0 {
        let rest = names.drop_first();
        lemma_first_known_layout_source(rest);
        assert(names.contains(names[0]));
        assert forall|v: Seq<char>| rest.contains(v) implies names.contains(v) by {
            let idx = choose|idx: int| 0 <= idx < rest.len() && rest[idx] == v;
            assert(names[idx + 1] == v);
        }
        if xkb_layout_for(lowercase(names[0])) is None {
            assert forall|v: Seq<char>| names.contains(v) && v != names[0] implies rest.contains(
                v,
            ) by {
                let idx = choose|idx: int| 0 <= idx < names.len() && names[idx] == v;
                assert(rest[idx - 1] == v);
            }
        }
    }
}

/// The layout of a sway input listing is always the layout of one of the
/// `xkb_active_layout_name` values that the scan of the whole text lists,
/// and there is none exactly when none of those values maps to a layout.
pub proof fn lemma_layout_in_json_is_a_listed_value(text: Seq<char>)
    ensures
        layout_in_json(text) is None <==> forall|v: Seq<char>|
            json_string_values(text, sway_layout_key()).contains(v) ==> xkb_layout_for(
                lowercase(v),
            ) is None,
        layout_in_json(text) matches Some(l) ==> exists|v: Seq<char>|
            json_string_values(text, sway_layout_key()).contains(v) && xkb_layout_for(
                lowercase(v),
            ) == Some(l),
{
    let values = json_string_values(text, sway_layout_key());
    lemma_first_known_layout_source(values);
    if keyboard_block_layout(text) is Some {
        let lines = split_lines(text);
        let m = scan_lines_source(lines, (false, 0));
        let name = json_string_value(trim(lines[m]), sway_layout_key())->0;
        lemma_line_value_is_listed(text, m);
        assert(values.contains(name));
        assert(xkb_layout_for(lowercase(name)) == keyboard_block_layout(text));
    }
}

/// What `find_layout_in_json` accepts: a text short enough that the brace
/// depth stays within `i32`, and whose `xkb_active_layout_name` occurrences
/// can all be stepped past when the line scan finds nothing.
pub open spec fn layout_in_json_accepts(text: Seq<char>) -> bool {
    &&& text.len() <= i32::MAX
    &&& keyboard_block_layout(text) is None ==> json_scan_ok(
        text,
        key_pattern(sway_layout_key()),
        0,
    )
}

/// The layout found on one trimmed line `tl`, which is `text` from `lo` to
/// `lo + tl.len()`.
fn layout_in_line(text: &str, tv: &Vec<char>, tl: &Vec<char>, lo: usize, pat: &Vec<char>) -> (r:
    Option<&'static str>)
    requires
        tv@ == text@,
        lo + tl@.len() <= tv@.len(),
        tl@ == tv@.subrange(lo as int, lo + tl@.len()),
        pat@ == key_pattern(sway_layout_key()),
    ensures
        match r {
            Some(l) => layout_named_in_line(tl@) == Some(l@),
            None => layout_named_in_line(tl@) is None,
        },
{
    let len: usize = tv.len();
    match json_string_value_bounds(tl, pat, Ghost(sway_layout_key())) {
        Some((a, b)) => {
            assert(lo + b <= len);
            let name = substring(text, lo + a, lo + b);
            assert(name@ =~= tl@.subrange(a as int, b as int));
            map_xkb_name(name.as_str())
        },
        None => None,
    }
}

/// The first layout named by the scan of the keyboards' blocks, line by
/// line.
fn scan_keyboard_blocks(text: &str, tv: &Vec<char>) -> (r: Option<&'static str>)
    requires
        tv@ == text@,
        text@.len() <= i32::MAX,
    ensures
        match r {
            Some(l) => keyboard_block_layout(text@) == Some(l@),
            None => keyboard_block_layout(text@) is None,
        },
{
    let n: usize = tv.len();
    let nl = vec!['\n'];
    assert(nl@ =~= seq!['\n']);
    let type_pat = chars_of("\"type\"");
    let keyboard_pat = chars_of("keyboard");
    let close_pat = vec!['}'];
    assert(close_pat@ =~= seq!['}']);
    let pat = key_pattern_exec("xkb_active_layout_name");
    let mut start: usize = 0;
    let mut in_keyboard = false;
    let mut depth: i64 = 0;
    assert(tv@.subrange(0, n as int) =~= tv@);
    loop
        invariant
            n == tv@.len(),
            tv@ == text@,
            n <= i32::MAX,
            nl@ == seq!['\n'],
            close_pat@ == seq!['}'],
            type_pat@ == "\"type\""@,
            keyboard_pat@ == "keyboard"@,
            pat@ == key_pattern(sway_layout_key()),
            start <= n,
            -(start as int) <= depth <= start,
            keyboard_block_layout(text@) == scan_lines(
                split_lines(tv@.subrange(start as int, n as int)),
                (in_keyboard, depth as int),
            ),
        decreases n - start,
    {
        let ghost rest = tv@.subrange(start as int, n as int);
        proof {
            lemma_find_shift(tv@, nl@, start as int, 0);
            lemma_find_from(tv@, nl@, start as int);
        }
        let (end, last): (usize, bool) = match find_chars(tv, &nl, start) {
            Some(e) => (e, false),
            None => (n, true),
        };
        let line = copy_range(tv, start, end);
        let (a, b) = trim_bounds(&line);
        let tl = copy_range(&line, a, b);
        proof {
            assert(line@ =~= rest.subrange(0, end - start));
            assert(tl@ =~= tv@.subrange(start + a, start + b));
            if !last {
                assert(rest.subrange(end - start + 1, rest.len() as int) =~= tv@.subrange(
                    end + 1,
                    n as int,
                ));
                assert(split_lines(rest) == seq![line@] + split_lines(
                    tv@.subrange(end + 1, n as int),
                ));
            } else {
                assert(split_lines(rest) == seq![line@]);
                assert(line@ =~= rest);
            }
        }
        let ghost st0 = (in_keyboard, depth as int);
        let ghost tail = if last { Seq::<Seq<char>>::empty() } else { split_lines(tv@.subrange(end + 1, n as int)) };
        proof {
            assert(split_lines(rest) =~= seq![line@] + tail);
            assert((seq![line@] + tail)[0] == line@);
            assert((seq![line@] + tail).drop_first() =~= tail);
            assert(trim(line@) == tl@);
        }
        let opens = contains_chars(&tl, &type_pat) && contains_chars(&tl, &keyboard_pat);
        if opens {
            in_keyboard = true;
            depth = 0;
        }
        if in_keyboard {
            proof {
                lemma_count_char_le_len(tl@, '{');
                lemma_count_char_le_len(tl@, '}');
            }
            let opened: usize = count_char_exec(&tl, '{');
            let closed: usize = count_char_exec(&tl, '}');
            depth = depth + opened as i64;
            depth = depth - closed as i64;
            match layout_in_line(text, tv, &tl, start + a, &pat) {
                Some(l) => {
                    return Some(l);
                },
                None => {},
            }
            if depth <= 0 && contains_chars(&tl, &close_pat) {
                in_keyboard = false;
            }
        }
        assert((in_keyboard, depth as int) == scan_line(st0, tl@).0);
        assert(scan_line(st0, tl@).1 is None);
        if last {
            assert(tail =~= Seq::<Seq<char>>::empty());
            assert(scan_lines(tail, (in_keyboard, depth as int)) is None);
            return None;
        }
        start = end + 1;
    }
}


/// Whether a scan of the key pattern of `key` over `text` can step past
/// every occurrence it meets (see `json_scan_ok`).
pub fn json_scan_is_ok(text: &str, key: &str) -> (r: bool)
    ensures
        r == json_scan_ok(text@, key_pattern(key@), 0),
{
    let tv = chars_of(text);
    let n: usize = tv.len();
    let pat = key_pattern_exec(key);
    let mut from: usize = 0;
    while from <= n
        invariant
            n == tv@.len(),
            tv@ == text@,
            pat@ == key_pattern(key@),
            from <= n,
            json_scan_ok(tv@, pat@, 0) == json_scan_ok(tv@, pat@, from as int),
        decreases n + 1 - from,
    {
        match find_chars(&tv, &pat, from) {
            None => {
                return true;
            },
            Some(i) => {
                proof {
                    lemma_find_from(tv@, pat@, from as int);
                    assert(occurs_at(tv@, pat@, i as int));
                }
                let pos: usize = i + pat.len();
                if pos >= n || (tv[pos] as u32) >= 128 {
                    return false;
                }
                from = pos + 1;
            },
        }
    }
    true
}

/// The first of `names` that maps to a standard layout, mapped.
fn first_known_layout_exec(names: &Vec<String>) -> (r: Option<&'static str>)
    ensures
        match r {
            Some(l) => first_known_layout(strings_view(names@)) == Some(l@),
            None => first_known_layout(strings_view(names@)) is None,
        },
{
    let ghost sv = strings_view(names@);
    let mut i: usize = 0;
    assert(sv.subrange(0, sv.len() as int) =~= sv);
    while i < names.len()
        invariant
            0 <= i <= names.len(),
            sv == strings_view(names@),
            first_known_layout(sv) == first_known_layout(sv.subrange(i as int, sv.len() as int)),
        decreases names.len() - i,
    {
        assert(sv.subrange(i as int, sv.len() as int)[0] == names@[i as int]@);
        assert(sv.subrange(i as int, sv.len() as int).drop_first() =~= sv.subrange(
            i + 1,
            sv.len() as int,
        ));
        match map_xkb_name(names[i].as_str()) {
            Some(l) => {
                return Some(l);
            },
            None => {},
        }
        i = i + 1;
    }
    assert(sv.subrange(i as int, sv.len() as int) =~= Seq::<Seq<char>>::empty());
    None
}

/// The standard layout of a sway input listing (the output of
/// `swaymsg -t get_inputs`): the layout named inside the first keyboard's
/// block that names one, else the first `xkb_active_layout_name` value
/// anywhere that maps to a layout.
pub fn find_layout_in_json(text: &str) -> (r: Option<String>)
    requires
        layout_in_json_accepts(text@),
    ensures
        match r {
            Some(l) => layout_in_json(text@) == Some(l@),
            None => layout_in_json(text@) is None,
        },
{
    let tv = chars_of(text);
    match scan_keyboard_blocks(text, &tv) {
        Some(l) => {
            return Some(String::from_str(l));
        },
        None => {},
    }
    let names = extract_json_string_values(text, "xkb_active_layout_name");
    match first_known_layout_exec(&names) {
        Some(l) => Some(String::from_str(l)),
        None => None,
    }
}

/// Whether `find_layout_in_json` accepts `text`.
pub fn layout_in_json_is_accepted(text: &str) -> (r: bool)
    ensures
        r == layout_in_json_accepts(text@),
{
    let tv = chars_of(text);
    if tv.len() > 0x7fff_ffff {
        return false;
    }
    match scan_keyboard_blocks(text, &tv) {
        Some(_) => true,
        None => json_scan_is_ok(text, "xkb_active_layout_name"),
    }
}


// ---------------------------------------------------------------------------
// Choosing the layout
// ---------------------------------------------------------------------------

/// A string option as an option of character sequences.
pub open spec fn opt_view(o: Option<&str>) -> Option<Seq<char>> {
    match o {
        Some(s) => Some(s@),
        None => None,
    }
}

/// The key whose values name the keymaps in a Hyprland device listing.
pub open spec fn hyprland_keymap_key() -> Seq<char> {
    "active_keymap"@
}

/// The layout from sway: the layout of its input listing, when there is one.
pub open spec fn sway_layout(output: Option<Seq<char>>) -> Option<Seq<char>> {
    match output {
        Some(t) => layout_in_json(t),
        None => None,
    }
}

/// The layout from Hyprland: the first `active_keymap` value of its device
/// listing that maps to a layout.
pub open spec fn hyprland_layout(output: Option<Seq<char>>) -> Option<Seq<char>> {
    match output {
        Some(t) => first_known_layout(json_string_values(t, hyprland_keymap_key())),
        None => None,
    }
}

/// The first layout of an XKB layout list such as `us,de`: the text before
/// the first comma, trimmed.
pub open spec fn primary_layout(v: Seq<char>) -> Seq<char> {
    trim(
        match find_from(v, seq![','], 0) {
            Some(i) => v.subrange(0, i),
            None => v,
        },
    )
}

/// The layout that one XKB environment value names.
pub open spec fn xkb_value_layout(value: Option<Seq<char>>) -> Option<Seq<char>> {
    match value {
        Some(v) => xkb_layout_for(lowercase(primary_layout(v))),
        None => None,
    }
}

/// The layout from the environment: `XKB_DEFAULT_LAYOUT` first, then
/// `XKB_LAYOUT`.
pub open spec fn xkb_env_layout(default_layout: Option<Seq<char>>, layout: Option<Seq<char>>) -> Option<
    Seq<char>,
> {
    match xkb_value_layout(default_layout) {
        Some(l) => Some(l),
        None => xkb_value_layout(layout),
    }
}

/// The label of the line of `localectl status` that gives the X11 layout.
pub open spec fn x11_layout_label() -> Seq<char> {
    "X11 Layout:"@
}

/// The X11 layout that one line of `localectl status` gives: the line,
/// trimmed, starts with `X11 Layout:`, and the value is what follows,
/// trimmed.
pub open spec fn x11_layout_in_line(line: Seq<char>) -> Option<Seq<char>> {
    let t = trim(line);
    let k = x11_layout_label();
    if occurs_at(t, k, 0) {
        Some(trim(t.subrange(k.len() as int, t.len() as int)))
    } else {
        None
    }
}

/// The X11 layout given by the first of `lines` that gives one.
pub open spec fn first_x11_layout(lines: Seq<Seq<char>>) -> Option<Seq<char>>
    decreases lines.len(),
{
    if lines.len() == 0 {
        None
    } else {
        match x11_layout_in_line(lines[0]) {
            Some(v) => Some(v),
            None => first_x11_layout(lines.drop_first()),
        }
    }
}

/// The X11 layout that the output of `localectl status` reports.
pub open spec fn localectl_x11_layout(output: Seq<char>) -> Option<Seq<char>> {
    first_x11_layout(split_lines(output))
}

/// The layout from `localectl status` (when it ran): the standard layout
/// that its X11 layout name stands for.
pub open spec fn localectl_layout(output: Option<Seq<char>>) -> Option<Seq<char>> {
    match output {
        Some(t) => match localectl_x11_layout(t) {
            Some(name) => xkb_layout_for(lowercase(name)),
            None => None,
        },
        None => None,
    }
}

/// Detection takes the first source that names a layout, in this order:
/// localectl, sway, Hyprland, the XKB environment; qwerty when none does.
/// A source that names a layout wins whatever the later ones hold.
pub proof fn lemma_detection_order(
    localectl: Option<Seq<char>>,
    sway: Option<Seq<char>>,
    hyprland: Option<Seq<char>>,
    d: Option<Seq<char>>,
    x: Option<Seq<char>>,
)
    ensures
        ({
            let r = detected_layout(localectl, sway, hyprland, d, x);
            &&& localectl_layout(localectl) matches Some(l) ==> r == l
            &&& localectl_layout(localectl) is None ==> r == detected_layout(None, sway, hyprland, d, x)
            &&& sway_layout(sway) matches Some(l) ==> detected_layout(None, sway, hyprland, d, x) == l
            &&& sway_layout(sway) is None ==> detected_layout(None, sway, hyprland, d, x)
                == detected_layout(None, None, hyprland, d, x)
            &&& hyprland_layout(hyprland) matches Some(l) ==> detected_layout(None, None, hyprland, d, x) == l
            &&& hyprland_layout(hyprland) is None ==> detected_layout(None, None, hyprland, d, x)
                == detected_layout(None, None, None, d, x)
            &&& sway_layout(None) is None && hyprland_layout(None) is None && localectl_layout(None) is None
        }),
{
}

/// The X11 layout of a `localectl status` output is the one on its first
/// line that gives one: when line `m` gives one and no earlier line does,
/// that is the answer; when no line gives one, there is none.
pub proof fn lemma_first_x11_layout_is_first(lines: Seq<Seq<char>>, m: int)
    requires
        0 <= m < lines.len(),
        x11_layout_in_line(lines[m]) is Some,
        forall|i: int| 0 <= i < m ==> x11_layout_in_line(#[trigger] lines[i]) is None,
    ensures
        first_x11_layout(lines) == x11_layout_in_line(lines[m]),
    decreases m,
{
    if m > 0 {
        let rest = lines.drop_first();
        assert forall|i: int| 0 <= i < m - 1 implies x11_layout_in_line(#[trigger] rest[i]) is None by {
            assert(rest[i] == lines[i + 1]);
        }
        assert(rest[m - 1] == lines[m]);
        lemma_first_x11_layout_is_first(rest, m - 1);
    }
}

/// A line gives the X11 layout exactly when, trimmed, it starts with
/// `X11 Layout:`; the layout is what follows, trimmed.
pub proof fn lemma_x11_layout_line(before: Seq<char>, rest: Seq<char>)
    requires
        trim(before) == "X11 Layout:"@ + rest,
    ensures
        x11_layout_in_line(before) == Some(trim(rest)),
{
    let k = "X11 Layout:"@;
    let t = trim(before);
    assert(t.subrange(0, k.len() as int) =~= k);
    assert(t.subrange(k.len() as int, t.len() as int) =~= rest);
}

/// The environment reads `XKB_DEFAULT_LAYOUT` first: when its value names a
/// standard layout, that is the environment's layout whatever `XKB_LAYOUT`
/// holds, and `XKB_LAYOUT` is read only when it names none. A value names
/// the layout of its first listed name; an unset variable names none. With
/// no other source, detection gives the environment's layout, else qwerty.
pub proof fn lemma_xkb_default_layout_first(d: Option<Seq<char>>, x: Option<Seq<char>>)
    ensures
        xkb_value_layout(d) is Some ==> xkb_env_layout(d, x) == xkb_value_layout(d),
        xkb_value_layout(d) is None ==> xkb_env_layout(d, x) == xkb_value_layout(x),
        xkb_value_layout(None) is None,
        d matches Some(v) ==> xkb_value_layout(d) == xkb_layout_for(lowercase(primary_layout(v))),
        xkb_value_layout(d) matches Some(l) ==> detected_layout(None, None, None, d, x) == l,
        xkb_value_layout(d) is None && xkb_value_layout(x) is None ==> detected_layout(
            None,
            None,
            None,
            d,
            x,
        ) == "qwerty"@,
{
}

/// The first layout of a list is the text before its first comma, trimmed;
/// a value without a comma is one name, trimmed.
pub proof fn lemma_primary_layout_is_first(first: Seq<char>, rest: Seq<char>)
    requires
        !first.contains(','),
    ensures
        primary_layout(first + seq![','] + rest) == trim(first),
        primary_layout(first) == trim(first),
{
    let v = first + seq![','] + rest;
    lemma_find_from(v, seq![','], 0);
    lemma_find_from(first, seq![','], 0);
    assert(v.subrange(first.len() as int, first.len() + 1int) =~= seq![',']);
    assert forall|j: int| 0 <= j < first.len() implies !occurs_at(v, seq![','], j) by {
        if occurs_at(v, seq![','], j) {
            assert(v.subrange(j, j + 1)[0] == v[j]);
            assert(first[j] == ',');
        }
    }
    assert(occurs_at(v, seq![','], first.len() as int));
    assert(find_from(v, seq![','], 0) == Some(first.len() as int));
    assert(v.subrange(0, first.len() as int) =~= first);
    assert forall|j: int| 0 <= j implies !occurs_at(first, seq![','], j) by {
        if occurs_at(first, seq![','], j) {
            assert(first.subrange(j, j + 1)[0] == first[j]);
        }
    }
}

/// The layout to show: the one localectl reports, else sway's, else
/// Hyprland's, else the environment's, else qwerty.
pub open spec fn detected_layout(
    localectl: Option<Seq<char>>,
    sway: Option<Seq<char>>,
    hyprland: Option<Seq<char>>,
    xkb_default_layout: Option<Seq<char>>,
    xkb_layout: Option<Seq<char>>,
) -> Seq<char> {
    match localectl_layout(localectl) {
        Some(l) => l,
        None => match sway_layout(sway) {
            Some(l) => l,
            None => match hyprland_layout(hyprland) {
                Some(l) => l,
                None => match xkb_env_layout(xkb_default_layout, xkb_layout) {
                    Some(l) => l,
                    None => "qwerty"@,
                },
            },
        },
    }
}

/// What `detect_layout` accepts: when localectl gives no layout, a sway
/// listing that `find_layout_in_json` accepts and, when sway gives none
/// either, a Hyprland listing whose `active_keymap` occurrences can all be
/// stepped past.
pub open spec fn detect_layout_accepts(
    localectl: Option<Seq<char>>,
    sway: Option<Seq<char>>,
    hyprland: Option<Seq<char>>,
) -> bool {
    &&& localectl_layout(localectl) is None ==> (sway matches Some(t) ==> layout_in_json_accepts(t))
    &&& localectl_layout(localectl) is None && sway_layout(sway) is None ==> (hyprland matches Some(
        h,
    ) ==> json_scan_ok(h, key_pattern(hyprland_keymap_key()), 0))
}

/// The layout of sway's input listing, given the output of
/// `swaymsg -t get_inputs` when sway runs and the command succeeded.
pub fn detect_sway(output: Option<&str>) -> (r: Option<String>)
    requires
        output matches Some(t) ==> layout_in_json_accepts(t@),
    ensures
        match r {
            Some(l) => sway_layout(opt_view(output)) == Some(l@),
            None => sway_layout(opt_view(output)) is None,
        },
{
    match output {
        Some(text) => find_layout_in_json(text),
        None => None,
    }
}

/// The layout of Hyprland's device listing, given the output of
/// `hyprctl devices -j` when Hyprland runs and the command succeeded.
pub fn detect_hyprland(output: Option<&str>) -> (r: Option<String>)
    requires
        output matches Some(t) ==> json_scan_ok(t@, key_pattern(hyprland_keymap_key()), 0),
    ensures
        match r {
            Some(l) => hyprland_layout(opt_view(output)) == Some(l@),
            None => hyprland_layout(opt_view(output)) is None,
        },
{
    match output {
        Some(text) => {
            let names = extract_json_string_values(text, "active_keymap");
            match first_known_layout_exec(&names) {
                Some(l) => Some(String::from_str(l)),
                None => None,
            }
        },
        None => None,
    }
}

/// The layout that one XKB environment value names.
fn xkb_value_layout_exec(value: Option<&str>) -> (r: Option<&'static str>)
    ensures
        match r {
            Some(l) => xkb_value_layout(opt_view(value)) == Some(l@),
            None => xkb_value_layout(opt_view(value)) is None,
        },
{
    match value {
        Some(val) => {
            let vv = chars_of(val);
            let comma = vec![','];
            assert(comma@ =~= seq![',']);
            let end: usize = match find_chars(&vv, &comma, 0) {
                Some(i) => {
                    proof {
                        lemma_find_from(vv@, comma@, 0);
                    }
                    i
                },
                None => vv.len(),
            };
            let first = copy_range(&vv, 0, end);
            assert(vv@.subrange(0, vv@.len() as int) =~= vv@);
            let (a, b) = trim_bounds(&first);
            let primary = substring(val, a, b);
            assert(primary@ =~= primary_layout(val@));
            map_xkb_name(primary.as_str())
        },
        None => None,
    }
}

/// The layout named by the environment, given the values of
/// `XKB_DEFAULT_LAYOUT` and `XKB_LAYOUT` (when set): the first of the two
/// whose first listed layout maps to a standard layout.
pub fn detect_xkb_env(xkb_default_layout: Option<&str>, xkb_layout: Option<&str>) -> (r: Option<
    String,
>)
    ensures
        match r {
            Some(l) => xkb_env_layout(opt_view(xkb_default_layout), opt_view(xkb_layout)) == Some(
                l@,
            ),
            None => xkb_env_layout(opt_view(xkb_default_layout), opt_view(xkb_layout)) is None,
        },
{
    match xkb_value_layout_exec(xkb_default_layout) {
        Some(l) => {
            return Some(String::from_str(l));
        },
        None => {},
    }
    match xkb_value_layout_exec(xkb_layout) {
        Some(l) => Some(String::from_str(l)),
        None => None,
    }
}

/// The X11 layout that the output of `localectl status` reports: the value
/// on its first line that starts, after leading whitespace, with
/// `X11 Layout:`, trimmed.
pub fn localectl_x11_layout_name(output: &str) -> (r: Option<String>)
    ensures
        match r {
            Some(name) => localectl_x11_layout(output@) == Some(name@),
            None => localectl_x11_layout(output@) is None,
        },
{
    let tv = chars_of(output);
    let n: usize = tv.len();
    let nl = vec!['\n'];
    assert(nl@ =~= seq!['\n']);
    let label = chars_of("X11 Layout:");
    let mut start: usize = 0;
    assert(tv@.subrange(0, n as int) =~= tv@);
    loop
        invariant
            n == tv@.len(),
            tv@ == output@,
            nl@ == seq!['\n'],
            label@ == x11_layout_label(),
            start <= n,
            localectl_x11_layout(output@) == first_x11_layout(
                split_lines(tv@.subrange(start as int, n as int)),
            ),
        decreases n - start,
    {
        let ghost rest = tv@.subrange(start as int, n as int);
        proof {
            lemma_find_shift(tv@, nl@, start as int, 0);
            lemma_find_from(tv@, nl@, start as int);
        }
        let (end, last): (usize, bool) = match find_chars(&tv, &nl, start) {
            Some(e) => (e, false),
            None => (n, true),
        };
        let line = copy_range(&tv, start, end);
        let (a, b) = trim_bounds(&line);
        let tl = copy_range(&line, a, b);
        let ghost tail = if last {
            Seq::<Seq<char>>::empty()
        } else {
            split_lines(tv@.subrange(end + 1, n as int))
        };
        proof {
            assert(line@ =~= rest.subrange(0, end - start));
            assert(tl@ =~= tv@.subrange(start + a, start + b));
            if !last {
                assert(rest.subrange(end - start + 1, rest.len() as int) =~= tv@.subrange(
                    end + 1,
                    n as int,
                ));
            } else {
                assert(line@ =~= rest);
            }
            assert(split_lines(rest) =~= seq![line@] + tail);
            assert((seq![line@] + tail)[0] == line@);
            assert((seq![line@] + tail).drop_first() =~= tail);
            assert(trim(line@) == tl@);
        }
        if occurs_at_exec(&tl, &label, 0) {
            let value = copy_range(&tl, label.len(), tl.len());
            let (c, d) = trim_bounds(&value);
            let lo: usize = start + a + label.len();
            let name = substring(output, lo + c, lo + d);
            assert(name@ =~= value@.subrange(c as int, d as int));
            return Some(name);
        }
        assert(x11_layout_in_line(line@) is None);
        if last {
            assert(tail =~= Seq::<Seq<char>>::empty());
            assert(first_x11_layout(tail) is None);
            return None;
        }
        start = end + 1;
    }
}

/// The layout that localectl reports, given the output of
/// `localectl status` when the command succeeded.
pub fn detect_localectl(output: Option<&str>) -> (r: Option<String>)
    ensures
        match r {
            Some(l) => localectl_layout(opt_view(output)) == Some(l@),
            None => localectl_layout(opt_view(output)) is None,
        },
{
    match output {
        Some(text) => match localectl_x11_layout_name(text) {
            Some(name) => match map_xkb_name(name.as_str()) {
                Some(l) => Some(String::from_str(l)),
                None => None,
            },
            None => None,
        },
        None => None,
    }
}

/// The standard layout to show, from what the system and the session
/// report: the output of `localectl status`, of `swaymsg -t get_inputs`
/// (when sway runs), of `hyprctl devices -j` (when Hyprland runs), and the
/// values of `XKB_DEFAULT_LAYOUT` and `XKB_LAYOUT`. The first source that
/// names a layout wins; qwerty when none does.
pub fn detect_layout(
    localectl: Option<&str>,
    sway: Option<&str>,
    hyprland: Option<&str>,
    xkb_default_layout: Option<&str>,
    xkb_layout: Option<&str>,
) -> (r: String)
    requires
        detect_layout_accepts(opt_view(localectl), opt_view(sway), opt_view(hyprland)),
    ensures
        r@ == detected_layout(
            opt_view(localectl),
            opt_view(sway),
            opt_view(hyprland),
            opt_view(xkb_default_layout),
            opt_view(xkb_layout),
        ),
{
    if let Some(layout) = detect_localectl(localectl) {
        return layout;
    }
    if let Some(layout) = detect_sway(sway) {
        return layout;
    }
    if let Some(layout) = detect_hyprland(hyprland) {
        return layout;
    }
    if let Some(layout) = detect_xkb_env(xkb_default_layout, xkb_layout) {
        return layout;
    }
    String::from_str("qwerty")
}

/// Whether `detect_layout` accepts the localectl, sway and Hyprland
/// outputs.
pub fn detect_layout_is_accepted(localectl: Option<&str>, sway: Option<&str>, hyprland: Option<
    &str,
>) -> (r: bool)
    ensures
        r == detect_layout_accepts(opt_view(localectl), opt_view(sway), opt_view(hyprland)),
{
    if detect_localectl(localectl).is_some() {
        return true;
    }
    if let Some(text) = sway {
        if !layout_in_json_is_accepted(text) {
            return false;
        }
    }
    if detect_sway(sway).is_some() {
        return true;
    }
    match hyprland {
        Some(text) => json_scan_is_ok(text, "active_keymap"),
        None => true,
    }
}

// ---------------------------------------------------------------------------
// What detection can answer
// ---------------------------------------------------------------------------

/// The names of the standard layouts.
pub open spec fn is_standard_name(n: Seq<char>) -> bool {
    n == "qwerty"@ || n == "dvorak"@ || n == "colemak"@ || n == "canary"@
}

proof fn lemma_scan_lines_standard(lines: Seq<Seq<char>>, state: (bool, int))
    ensures
        scan_lines(lines, state) matches Some(l) ==> is_standard_name(l),
    decreases lines.len(),
{
    if lines.len() > 0 {
        let (next, found) = scan_line(state, trim(lines[0]));
        lemma_scan_lines_standard(lines.drop_first(), next);
    }
}

proof fn lemma_first_known_layout_standard(names: Seq<Seq<char>>)
    ensures
        first_known_layout(names) matches Some(l) ==> is_standard_name(l),
    decreases names.len(),
{
    if names.len() > 0 {
        lemma_first_known_layout_standard(names.drop_first());
    }
}

/// Every name that detection gives is a standard layout's name, written in
/// ASCII lower case, so that `Layouts::get` accepts it.
pub proof fn lemma_detected_layout_is_standard(
    localectl: Option<Seq<char>>,
    sway: Option<Seq<char>>,
    hyprland: Option<Seq<char>>,
    xkb_default_layout: Option<Seq<char>>,
    xkb_layout: Option<Seq<char>>,
)
    ensures
        ({
            let n = detected_layout(localectl, sway, hyprland, xkb_default_layout, xkb_layout);
            &&& is_standard_name(n)
            &&& standard_def(n) is Some
            &&& all_ascii(n)
            &&& n.map_values(|c: char| ascii_lower(c)) == n
        }),
{
    let n = detected_layout(localectl, sway, hyprland, xkb_default_layout, xkb_layout);
    if let Some(t) = sway {
        lemma_scan_lines_standard(split_lines(t), (false, 0));
        lemma_first_known_layout_standard(json_string_values(t, sway_layout_key()));
    }
    if let Some(t) = hyprland {
        lemma_first_known_layout_standard(json_string_values(t, hyprland_keymap_key()));
    }
    reveal_strlit("qwerty");
    reveal_strlit("dvorak");
    reveal_strlit("colemak");
    reveal_strlit("canary");
    assert(is_standard_name(n));
    assert(n.map_values(|c: char| ascii_lower(c)) =~= n);
}

} // verus!
