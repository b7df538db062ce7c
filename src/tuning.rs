//! Note arithmetic on MIDI note numbers (A4 = 69) and note names.

use vstd::prelude::*;
use vstd::string::*;

verus! {

/// The one or two characters of each pitch-class name, C = 0 up to B = 11,
/// with flats for the black keys; a space stands for no second character.
pub open spec fn name_pair(offset: int) -> (char, char) {
    if offset == 0 {
        ('C', ' ')
    } else if offset == 1 {
        ('D', 'b')
    } else if offset == 2 {
        ('D', ' ')
    } else if offset == 3 {
        ('E', 'b')
    } else if offset == 4 {
        ('E', ' ')
    } else if offset == 5 {
        ('F', ' ')
    } else if offset == 6 {
        ('G', 'b')
    } else if offset == 7 {
        ('G', ' ')
    } else if offset == 8 {
        ('A', 'b')
    } else if offset == 9 {
        ('A', ' ')
    } else if offset == 10 {
        ('B', 'b')
    } else {
        ('B', ' ')
    }
}

/// The pitch-class name at `offset`: "C", "Db", "D", ..., "Bb", "B".
pub open spec fn note_name_spec(offset: int) -> Seq<char> {
    let (a, b) = name_pair(offset);
    if b == ' ' {
        seq![a]
    } else {
        seq![a, b]
    }
}

/// Offset within the octave of the note named `name`, if it is one of the twelve names.
pub open spec fn offset_of_name(name: Seq<char>) -> Option<int> {
    if exists|k: int| 0 <= k < 12 && name == note_name_spec(k) {
        Some(choose|k: int| 0 <= k < 12 && name == note_name_spec(k))
    } else {
        None
    }
}

/// Rust's truncating division, on mathematical integers.
pub open spec fn trunc_div(a: int, b: int) -> int
    recommends
        b > 0,
{
    if a >= 0 {
        a / b
    } else {
        -((-a) / b)
    }
}

/// No two of the twelve names are the same.
pub proof fn lemma_names_distinct(i: int, j: int)
    requires
        0 <= i < 12,
        0 <= j < 12,
        note_name_spec(i) == note_name_spec(j),
    ensures
        i == j,
{
    let (a0, a1) = name_pair(i);
    let (b0, b1) = name_pair(j);
    let a = note_name_spec(i);
    let b = note_name_spec(j);
    assert(a == (if a1 == ' ' { seq![a0] } else { seq![a0, a1] }));
    assert(b == (if b1 == ' ' { seq![b0] } else { seq![b0, b1] }));
    assert(seq![a0].len() == 1 && seq![a0][0] == a0);
    assert(seq![b0].len() == 1 && seq![b0][0] == b0);
    assert(seq![a0, a1].len() == 2 && seq![a0, a1][0] == a0 && seq![a0, a1][1] == a1);
    assert(seq![b0, b1].len() == 2 && seq![b0, b1][0] == b0 && seq![b0, b1][1] == b1);
    assert(a.len() == b.len());
    assert(a[0] == b[0]);
    if a1 == ' ' {
        assert(b1 == ' ');
        assert(a0 == b0);
    } else {
        assert(b1 != ' ');
        assert(a[1] == b[1]);
        assert(a0 == b0 && a1 == b1);
    }
}

/// The offset of the `k`-th note name is `k`.
pub proof fn lemma_offset_of_name(name: Seq<char>, k: int)
    requires
        0 <= k < 12,
        name == note_name_spec(k),
    ensures
        offset_of_name(name) == Some(k),
{
    let c = choose|k2: int| 0 <= k2 < 12 && name == note_name_spec(k2);
    lemma_names_distinct(c, k);
}

/// Octave number of a MIDI note, with C4 = 60 in octave 4.
pub fn octave_from_note(note: i32) -> (r: i32)
    ensures
        r == trunc_div(note as int, 12) - 1,
{
    note / 12 - 1
}

/// Offset within the octave (C = 0, B = 11) of a note name such as "Eb".
pub fn note_to_offset(note: &str) -> (r: Option<usize>)
    ensures
        match r {
            Some(k) => offset_of_name(note@) == Some(k as int),
            None => offset_of_name(note@) is None,
        },
{
    let n = note.unicode_len();
    let mut k: usize = 0;
    while k < 12
        invariant
            0 <= k <= 12,
            n == note@.len(),
            forall|j: int| 0 <= j < k ==> note@ != note_name_spec(j),
        decreases 12 - k,
    {
        if names_match(note, n, k) {
            proof {
                lemma_offset_of_name(note@, k as int);
            }
            return Some(k);
        }
        k = k + 1;
    }
    None
}

/// Whether `note`, of `n` characters, is the `k`-th note name.
fn names_match(note: &str, n: usize, k: usize) -> (r: bool)
    requires
        n == note@.len(),
        k < 12,
    ensures
        r == (note@ == note_name_spec(k as int)),
{
    let ghost name = note_name_spec(k as int);
    let (first, second): (char, char) = name_chars(k);
    if n == 1 && second == ' ' {
        let c = note.get_char(0);
        if c == first {
            assert(note@ =~= name);
            true
        } else {
            false
        }
    } else if n == 2 && second != ' ' {
        let c0 = note.get_char(0);
        let c1 = note.get_char(1);
        if c0 == first && c1 == second {
            assert(note@ =~= name);
            true
        } else {
            false
        }
    } else {
        false
    }
}

/// The characters of the `k`-th note name.
fn name_chars(k: usize) -> (r: (char, char))
    requires
        k < 12,
    ensures
        r == name_pair(k as int),
{
    if k == 0 {
        ('C', ' ')
    } else if k == 1 {
        ('D', 'b')
    } else if k == 2 {
        ('D', ' ')
    } else if k == 3 {
        ('E', 'b')
    } else if k == 4 {
        ('E', ' ')
    } else if k == 5 {
        ('F', ' ')
    } else if k == 6 {
        ('G', 'b')
    } else if k == 7 {
        ('G', ' ')
    } else if k == 8 {
        ('A', 'b')
    } else if k == 9 {
        ('A', ' ')
    } else if k == 10 {
        ('B', 'b')
    } else {
        ('B', ' ')
    }
}

/// The name of the pitch class at `offset`, C = 0 up to B = 11.
pub fn note_name(offset: usize) -> (r: &'static str)
    requires
        offset < 12,
    ensures
        r@ == note_name_spec(offset as int),
{
    if offset == 0 {
        proof {
            reveal_strlit("C");
        }
        assert("C"@ =~= seq!['C']);
        "C"
    } else if offset == 1 {
        proof {
            reveal_strlit("Db");
        }
        assert("Db"@ =~= seq!['D', 'b']);
        "Db"
    } else if offset == 2 {
        proof {
            reveal_strlit("D");
        }
        assert("D"@ =~= seq!['D']);
        "D"
    } else if offset == 3 {
        proof {
            reveal_strlit("Eb");
        }
        assert("Eb"@ =~= seq!['E', 'b']);
        "Eb"
    } else if offset == 4 {
        proof {
            reveal_strlit("E");
        }
        assert("E"@ =~= seq!['E']);
        "E"
    } else if offset == 5 {
        proof {
            reveal_strlit("F");
        }
        assert("F"@ =~= seq!['F']);
        "F"
    } else if offset == 6 {
        proof {
            reveal_strlit("Gb");
        }
        assert("Gb"@ =~= seq!['G', 'b']);
        "Gb"
    } else if offset == 7 {
        proof {
            reveal_strlit("G");
        }
        assert("G"@ =~= seq!['G']);
        "G"
    } else if offset == 8 {
        proof {
            reveal_strlit("Ab");
        }
        assert("Ab"@ =~= seq!['A', 'b']);
        "Ab"
    } else if offset == 9 {
        proof {
            reveal_strlit("A");
        }
        assert("A"@ =~= seq!['A']);
        "A"
    } else if offset == 10 {
        proof {
            reveal_strlit("Bb");
        }
        assert("Bb"@ =~= seq!['B', 'b']);
        "Bb"
    } else {
        proof {
            reveal_strlit("B");
        }
        assert("B"@ =~= seq!['B']);
        "B"
    }
}

/// A reading within ten cents of the note counts as in tune.
pub open spec fn in_tune(cents_off: int) -> bool {
    -10 < cents_off < 10
}

/// Whether a tuner reading `cents_off` from the nearest note is in tune.
pub fn is_in_tune(cents_off: i32) -> (r: bool)
    ensures
        r == in_tune(cents_off as int),
{
    cents_off > -10 && cents_off < 10
}

} // verus!
