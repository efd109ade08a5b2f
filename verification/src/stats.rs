//! Typing statistics: characters and words typed since the first keystroke.
//!
//! A character is any press of a typable key that does not end a word; a word
//! is counted when Space or Enter is pressed after at least one character.

use vstd::prelude::*;
use std::time::Instant;

verus! {

#[verifier::external_type_specification]
#[verifier::external_body]
pub struct ExInstant(Instant);

/// Calls `std::time::Instant::now`, which reads the monotonic clock.
/// The contract promises nothing about the value: it depends on the time.
#[verifier::external_body]
fn instant_now() -> Instant {
    Instant::now()
}

/// Key codes that end a word: Space and Enter.
pub const WORD_END_KEYS: [u16; 2] = [57, 28];

/// Key codes that are never counted as typed characters, because they type
/// none: modifiers, caps lock, escape, function keys, arrows, tab,
/// backspace, insert, delete, home, end, page up and page down, and the
/// mouse buttons (a keyboard device may also report those).
pub const IGNORED_KEYS: [u16; 39] = [
    1, 29, 42, 54, 56, 58, 97, 100, 125, 126,
    59, 60, 61, 62, 63, 64, 65, 66, 67, 68, 87, 88,
    103, 105, 106, 108,
    15, 14,
    110, 111, 102, 107, 104, 109,
    272, 273, 274, 275, 276,
];

/// Whether `code` ends a word.
pub open spec fn spec_is_word_end(code: u16) -> bool {
    WORD_END_KEYS@.contains(code)
}

/// Whether `code` is counted as a typed character (when it does not end a word).
pub open spec fn spec_is_typable(code: u16) -> bool {
    !IGNORED_KEYS@.contains(code) && code != 0
}

/// Whether a press of `code` counts as one typed character.
pub open spec fn counts_as_char(code: u16) -> bool {
    !spec_is_word_end(code) && spec_is_typable(code)
}

/// The counters after one key press, given the counters before it:
/// `(characters, words, whether a word is in progress)`.
pub open spec fn count_step(counts: (nat, nat, bool), code: u16) -> (nat, nat, bool) {
    let (chars, words, pending) = counts;
    if spec_is_word_end(code) {
        if pending {
            (chars, words + 1, false)
        } else {
            (chars, words, false)
        }
    } else if spec_is_typable(code) {
        (chars + 1, words, true)
    } else {
        counts
    }
}

/// The counters after a whole sequence of key presses, starting from `counts`.
pub open spec fn count_presses(counts: (nat, nat, bool), codes: Seq<u16>) -> (nat, nat, bool)
    decreases codes.len(),
{
    if codes.len() == 0 {
        counts
    } else {
        count_step(count_presses(counts, codes.drop_last()), codes.last())
    }
}

/// The number of presses in `codes` that count as typed characters.
pub open spec fn typed_chars(codes: Seq<u16>) -> nat
    decreases codes.len(),
{
    if codes.len() == 0 {
        0
    } else {
        typed_chars(codes.drop_last()) + if counts_as_char(codes.last()) { 1nat } else { 0nat }
    }
}

/// Returns whether `code` ends a word (Space or Enter).
pub fn is_word_end(code: u16) -> (r: bool)
    ensures
        r == spec_is_word_end(code),
{
    let mut i: usize = 0;
    while i < 2
        invariant
            0 <= i <= 2,
            forall|j: int| 0 <= j < i ==> WORD_END_KEYS@[j] != code,
        decreases 2 - i,
    {
        if WORD_END_KEYS[i] == code {
            return true;
        }
        i = i + 1;
    }
    false
}

/// Returns whether `code` is a typable key: not one of `IGNORED_KEYS` (keys
/// that type no character), and not the reserved code 0.
pub fn is_typable(code: u16) -> (r: bool)
    ensures
        r == spec_is_typable(code),
{
    if code == 0 {
        return false;
    }
    let mut i: usize = 0;
    while i < 39
        invariant
            0 <= i <= 39,
            forall|j: int| 0 <= j < i ==> IGNORED_KEYS@[j] != code,
        decreases 39 - i,
    {
        if IGNORED_KEYS[i] == code {
            return false;
        }
        i = i + 1;
    }
    true
}

/// Typing statistics: CPM counts characters, WPM counts words
/// (Space or Enter ends a word).
#[derive(Debug, Clone)]
pub struct TypingStats {
    pub chars: u64,
    pub words: u64,
    /// When the first character was typed.
    pub started: Option<Instant>,
    /// Whether characters have been typed since the last word end.
    pending_word: bool,
}

impl TypingStats {
    /// The counters `(characters, words, whether a word is in progress)`.
    pub closed spec fn counts(&self) -> (nat, nat, bool) {
        (self.chars as nat, self.words as nat, self.pending_word)
    }

    /// When the first character was typed, if one was.
    pub closed spec fn started_at(&self) -> Option<Instant> {
        self.started
    }

    /// Whether characters have been typed since the last word end.
    pub fn pending_word(&self) -> (r: bool)
        ensures
            r == self.counts().2,
    {
        self.pending_word
    }

    /// Every counted word holds at least one counted character, the word in
    /// progress holds one that no counted word holds, and the clock runs
    /// exactly when characters have been counted.
    pub open spec fn wf(&self) -> bool {
        let (chars, words, pending) = self.counts();
        &&& words + (if pending { 1int } else { 0int }) <= chars
        &&& (self.started_at() is Some <==> chars > 0)
    }

    /// Fresh statistics: nothing typed, clock not started.
    pub fn new() -> (r: Self)
        ensures
            r.counts() == (0nat, 0nat, false),
            r.started_at() is None,
            r.wf(),
    {
        TypingStats { chars: 0, words: 0, started: None, pending_word: false }
    }

    /// Records one key press.
    ///
    /// Space and Enter close the word in progress, if any. Any other typable
    /// key counts one character, starts a word, and starts the clock on the
    /// first character. Other keys change nothing.
    pub fn on_key_press(&mut self, code: u16)
        requires
            spec_is_word_end(code) && old(self).counts().2 ==> old(self).counts().1 < u64::MAX,
            counts_as_char(code) ==> old(self).counts().0 < u64::MAX,
        ensures
            final(self).counts() == count_step(old(self).counts(), code),
            counts_as_char(code) ==> final(self).started_at() is Some,
            old(self).started_at() is Some || !counts_as_char(code) ==> final(self).started_at()
                == old(self).started_at(),
            old(self).wf() ==> final(self).wf(),
    {
        if is_word_end(code) {
            if self.pending_word {
                self.words = self.words + 1;
                self.pending_word = false;
            }
            return;
        }
        if is_typable(code) {
            if self.started.is_none() {
                self.started = Some(instant_now());
            }
            self.chars = self.chars + 1;
            self.pending_word = true;
        }
    }

    /// The statistics line shown above the keyboard, given the words and
    /// characters per minute rounded to whole numbers:
    /// `WPM: <wpm>  CPM: <cpm>`.
    pub fn display_text(wpm: u128, cpm: u128) -> (r: String)
        ensures
            r@ == "WPM: "@ + decimal(wpm as nat) + "  CPM: "@ + decimal(cpm as nat),
    {
        let mut s = String::from_str("WPM: ");
        push_decimal(&mut s, wpm);
        s.append("  CPM: ");
        push_decimal(&mut s, cpm);
        s
    }
}

impl Default for TypingStats {
    fn default() -> (r: Self)
        ensures
            r.counts() == (0nat, 0nat, false),
            r.started_at() is None,
            r.wf(),
    {
        TypingStats::new()
    }
}

/// The decimal digit for `d` (0 to 9).
pub open spec fn digit_char(d: nat) -> char {
    seq!['0', '1', '2', '3', '4', '5', '6', '7', '8', '9'][d as int]
}

/// The decimal notation of `n`, without leading zeros.
pub open spec fn decimal(n: nat) -> Seq<char>
    decreases n,
{
    if n < 10 {
        seq![digit_char(n)]
    } else {
        decimal(n / 10).push(digit_char(n % 10))
    }
}

/// Appends the decimal notation of `n` to `s`.
fn push_decimal(s: &mut String, n: u128)
    ensures
        final(s)@ == old(s)@ + decimal(n as nat),
    decreases n,
{
    if n >= 10 {
        push_decimal(s, n / 10);
    }
    let d: usize = (n % 10) as usize;
    let digits = "0123456789";
    proof {
        reveal_strlit("0123456789");
    }
    let one = digits.substring_char(d, d + 1);
    assert(one@ =~= seq![digit_char(d as nat)]);
    s.append(one);
    assert(s@ =~= old(s)@ + decimal(n as nat));
}

/// The keys that end a word are exactly Space (57) and Enter (28); a key is
/// typable exactly when it is none of the keys that type nothing: escape
/// (1), the modifiers (29, 42, 54, 56, 97, 100, 125, 126), caps lock (58),
/// F1 to F12 (59 to 68, 87, 88), the arrows (103, 105, 106, 108), tab (15),
/// backspace (14), insert (110), delete (111), home (102), end (107), page
/// up (104), page down (109), the mouse buttons (272 to 276), nor the
/// reserved code 0.
pub proof fn lemma_which_keys_count(code: u16)
    ensures
        spec_is_word_end(code) <==> (code == 57 || code == 28),
        spec_is_typable(code) <==> !(code == 0 || code == 1 || code == 29 || code == 42 || code
            == 54 || code == 56 || code == 97 || code == 100 || code == 125 || code == 126
            || code == 58 || (59 <= code <= 68) || code == 87 || code == 88 || code == 103
            || code == 105 || code == 106 || code == 108 || code == 15 || code == 14 || code
            == 110 || code == 111 || code == 102 || code == 107 || code == 104 || code == 109
            || (272 <= code <= 276)),
{
    if spec_is_word_end(code) {
        let i = choose|i: int| 0 <= i < WORD_END_KEYS@.len() && WORD_END_KEYS@[i] == code;
    }
    if IGNORED_KEYS@.contains(code) {
        let i = choose|i: int| 0 <= i < IGNORED_KEYS@.len() && IGNORED_KEYS@[i] == code;
    }
    assert(code == 57 ==> WORD_END_KEYS@[0] == code);
    assert(code == 28 ==> WORD_END_KEYS@[1] == code);
    assert forall|j: int| 0 <= j < 39 implies #[trigger] IGNORED_KEYS@[j] == IGNORED_KEYS@[j] by {}
}

/// A key press never takes back a counted character or word.
pub proof fn lemma_count_step_grows(counts: (nat, nat, bool), code: u16)
    ensures
        count_step(counts, code).0 >= counts.0,
        count_step(counts, code).1 >= counts.1,
{
}

/// Whether a word is in progress after the presses `codes` (from fresh
/// statistics): some press counted as a character and no Space or Enter
/// came after it.
pub open spec fn word_in_progress(codes: Seq<u16>) -> bool {
    exists|j: int|
        0 <= j < codes.len() && #[trigger] counts_as_char(codes[j]) && forall|k: int|
            j < k < codes.len() ==> !#[trigger] spec_is_word_end(codes[k])
}

/// The number of words closed by the presses `codes` (from fresh
/// statistics): the presses of Space or Enter that came while a word was in
/// progress.
pub open spec fn closed_words(codes: Seq<u16>) -> nat
    decreases codes.len(),
{
    if codes.len() == 0 {
        0
    } else {
        closed_words(codes.drop_last()) + if spec_is_word_end(codes.last()) && word_in_progress(
            codes.drop_last(),
        ) {
            1nat
        } else {
            0nat
        }
    }
}

/// From fresh statistics, the counters after any sequence of key presses
/// are: the presses that count as characters; the Space and Enter presses
/// that each closed a word holding at least one such character since the
/// previous Space or Enter; and whether such a character came after the
/// last Space or Enter.
pub proof fn lemma_counts_follow_history(codes: Seq<u16>)
    ensures
        count_presses((0, 0, false), codes) == (
            typed_chars(codes),
            closed_words(codes),
            word_in_progress(codes),
        ),
    decreases codes.len(),
{
    if codes.len() > 0 {
        let p = codes.drop_last();
        let c = codes.last();
        let n = codes.len() as int;
        lemma_counts_follow_history(p);
        assert forall|j: int| 0 <= j < p.len() implies p[j] == codes[j] by {}
        if spec_is_word_end(c) {
            assert(!word_in_progress(codes)) by {
                assert forall|j: int| 0 <= j < n && counts_as_char(codes[j]) implies !(forall|
                    k: int,
                | j < k < n ==> !#[trigger] spec_is_word_end(codes[k])) by {
                    assert(j != n - 1);
                    assert(spec_is_word_end(codes[n - 1]));
                }
            }
        } else if spec_is_typable(c) {
            assert(counts_as_char(codes[n - 1]));
            assert(word_in_progress(codes));
        } else {
            assert(!counts_as_char(codes[n - 1]));
            if word_in_progress(p) {
                let j = choose|j: int|
                    0 <= j < p.len() && #[trigger] counts_as_char(p[j]) && forall|k: int|
                        j < k < p.len() ==> !#[trigger] spec_is_word_end(p[k]);
                assert(counts_as_char(codes[j]));
                assert forall|k: int| j < k < n implies !#[trigger] spec_is_word_end(codes[k]) by {
                    if k < n - 1 {
                        assert(codes[k] == p[k]);
                    }
                }
                assert(word_in_progress(codes));
            }
            if word_in_progress(codes) {
                let j = choose|j: int|
                    0 <= j < n && #[trigger] counts_as_char(codes[j]) && forall|k: int|
                        j < k < n ==> !#[trigger] spec_is_word_end(codes[k]);
                assert(j != n - 1);
                assert(counts_as_char(p[j]));
                assert forall|k: int| j < k < p.len() implies !#[trigger] spec_is_word_end(p[k]) by {
                    assert(codes[k] == p[k]);
                }
                assert(word_in_progress(p));
            }
        }
        lemma_typed_counts(codes);
    }
}

/// From fresh statistics, after any sequence of key presses the character
/// count is the number of presses that count as characters, and the words
/// (with the word in progress) never outnumber the characters.
pub proof fn lemma_typed_counts(codes: Seq<u16>)
    ensures
        count_presses((0, 0, false), codes).0 == typed_chars(codes),
        count_presses((0, 0, false), codes).1 + (if count_presses((0, 0, false), codes).2 {
            1int
        } else {
            0int
        }) <= count_presses((0, 0, false), codes).0,
    decreases codes.len(),
{
    if codes.len() > 0 {
        lemma_typed_counts(codes.drop_last());
    }
}

} // verus!
