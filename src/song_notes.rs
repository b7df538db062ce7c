//! Reading note names with an octave, such as "Ab7", as MIDI note numbers.

use vstd::prelude::*;
use crate::tuning::{note_to_offset, offset_of_name};

verus! {

/// The text of the note name and of the octave in the first match of
/// `(?P<note>[A-Ga-g][b#]?)(?P<octave>-?\d)` in `text`, if there is a match.
pub uninterp spec fn note_octave_captures(text: Seq<char>) -> Option<(Seq<char>, Seq<char>)>;

/// Relies on regex's `Regex::new` and `Regex::captures`: the leftmost-first
/// match of the note pattern, with the text of its two named groups.
#[verifier::external_body]
fn capture_note_and_octave(text: &str) -> (r: Option<(String, String)>)
    ensures
        match r {
            Some((note, octave)) => note_octave_captures(text@) == Some((note@, octave@)),
            None => note_octave_captures(text@) is None,
        },
{
    let re = regex::Regex::new(r"(?P<note>[A-Ga-g][b#]?)(?P<octave>-?\d)").unwrap();
    match re.captures(text) {
        Some(caps) => Some((
            caps.name("note").map_or(String::new(), |m| m.as_str().to_string()),
            caps.name("octave").map_or(String::new(), |m| m.as_str().to_string()),
        )),
        None => None,
    }
}

/// A non-empty run of ASCII decimal digits.
pub open spec fn is_decimal(s: Seq<char>) -> bool {
    s.len() > 0 && forall|i: int| 0 <= i < s.len() ==> '0' <= #[trigger] s[i] <= '9'
}

/// The number that a run of decimal digits writes.
pub open spec fn decimal_value(s: Seq<char>) -> int
    decreases s.len(),
{
    if s.len() == 0 {
        0
    } else {
        decimal_value(s.drop_last()) * 10 + (s.last() as u32 - '0' as u32)
    }
}

/// The digits of an unsigned number's text, after an optional leading `+`.
pub open spec fn unsigned_digits(s: Seq<char>) -> Seq<char> {
    if s.len() > 0 && s[0] == '+' {
        s.drop_first()
    } else {
        s
    }
}

/// What `str::parse::<usize>` gives for `s`: the number, if `s` is an optional
/// `+` and decimal digits whose value fits in a `usize`.
pub open spec fn parsed_usize(s: Seq<char>) -> Option<int> {
    let d = unsigned_digits(s);
    if is_decimal(d) && decimal_value(d) <= usize::MAX {
        Some(decimal_value(d))
    } else {
        None
    }
}

/// Relies on `str::parse::<usize>` (`usize::from_str`): an optional `+`
/// followed by decimal digits, within range, and nothing else.
#[verifier::external_body]
fn parse_usize(s: &str) -> (r: Option<usize>)
    ensures
        match r {
            Some(v) => parsed_usize(s@) == Some(v as int),
            None => parsed_usize(s@) is None,
        },
{
    s.parse::<usize>().ok()
}

/// The MIDI note number `(octave + 1) * 12 + offset` of a note name and an
/// octave text, if the name is known, the octave parses as an unsigned
/// number, and the result fits in a `usize`.
pub open spec fn midi_from_parts(note: Seq<char>, octave: Seq<char>) -> Option<int> {
    match (offset_of_name(note), parsed_usize(octave)) {
        (Some(k), Some(o)) => if (o + 1) * 12 + k <= usize::MAX {
            Some((o + 1) * 12 + k)
        } else {
            None
        },
        _ => None,
    }
}

/// What a note with octave, such as "Ab7", reads as.
pub open spec fn midi_of_text(text: Seq<char>) -> Option<int> {
    match note_octave_captures(text) {
        Some((note, octave)) => midi_from_parts(note, octave),
        None => None,
    }
}

/// The MIDI note number of a note name and the text of its octave:
/// `("Ab", "7")` gives 104.
pub fn midi_pitch_from_parts(note: &str, octave: &str) -> (r: Option<usize>)
    ensures
        match r {
            Some(v) => midi_from_parts(note@, octave@) == Some(v as int),
            None => midi_from_parts(note@, octave@) is None,
        },
{
    let octave_number = parse_usize(octave);
    let offset = note_to_offset(note);
    match (offset, octave_number) {
        (Some(k), Some(o)) => {
            if o < (usize::MAX - k) / 12 {
                assert((o + 1) * 12 + k <= usize::MAX) by (nonlinear_arith)
                    requires
                        o < (usize::MAX - k) / 12,
                        k < usize::MAX,
                ;
                Some((o + 1) * 12 + k)
            } else {
                assert((o + 1) * 12 + k > usize::MAX) by (nonlinear_arith)
                    requires
                        o >= (usize::MAX - k) / 12,
                        k <= usize::MAX,
                ;
                None
            }
        },
        _ => None,
    }
}

/// The MIDI note number of the first note with octave found in `note`, such
/// as "Ab7", by `(octave + 1) * 12 + offset`.
pub fn note_with_octave_string_to_midi_pitch(note: &str) -> (r: Option<usize>)
    ensures
        match r {
            Some(v) => midi_of_text(note@) == Some(v as int),
            None => midi_of_text(note@) is None,
        },
{
    match capture_note_and_octave(note) {
        Some((name, octave)) => midi_pitch_from_parts(name.as_str(), octave.as_str()),
        None => None,
    }
}

} // verus!
