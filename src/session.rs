//! The session configuration: which screen the game opens on, and finding a
//! device or a song again by its name.

use vstd::prelude::*;

verus! {

/// The screens of the game.
#[derive(Clone, Copy, PartialEq, Eq, Structural, Debug, Hash)]
pub enum AppState {
    InputDeviceOverview,
    InputDeviceDetail,
    Tune,
    SongSelect,
    SongPlay,
}

/// The first screen: song selection when a saved device was found and at
/// least one channel is selected, the device list otherwise.
pub open spec fn initial_state_spec(device_found: bool, selected_channels: nat) -> AppState {
    if device_found && selected_channels > 0 {
        AppState::SongSelect
    } else {
        AppState::InputDeviceOverview
    }
}

/// The screen the game opens on, given the configuration that was loaded.
pub fn initial_state(device_found: bool, selection: &[u16]) -> (r: AppState)
    ensures
        r == initial_state_spec(device_found, selection@.len()),
{
    if device_found && selection.len() > 0 {
        AppState::SongSelect
    } else {
        AppState::InputDeviceOverview
    }
}

/// The index of the first of `names` equal to `wanted`.
pub open spec fn first_index_of(names: Seq<Seq<char>>, wanted: Seq<char>) -> Option<int> {
    if exists|i: int| 0 <= i < names.len() && names[i] == wanted {
        Some(
            choose|i: int|
                0 <= i < names.len() && names[i] == wanted && forall|j: int|
                    0 <= j < i ==> names[j] != wanted,
        )
    } else {
        None
    }
}

/// The views of a list of strings.
pub open spec fn views(names: Seq<String>) -> Seq<Seq<char>> {
    names.map_values(|s: String| s@)
}

/// Finds the first of `names` that equals `wanted`, character for character:
/// a device by its name, or a song by its identifier.
pub fn index_of_name(names: &[String], wanted: &String) -> (r: Option<usize>)
    ensures
        match r {
            Some(i) => first_index_of(views(names@), wanted@) == Some(i as int),
            None => first_index_of(views(names@), wanted@) is None,
        },
{
    let ghost v = views(names@);
    let mut i: usize = 0;
    while i < names.len()
        invariant
            0 <= i <= names@.len(),
            v == views(names@),
            v.len() == names@.len(),
            forall|j: int| 0 <= j < i ==> v[j] != wanted@,
        decreases names@.len() - i,
    {
        if names[i] == *wanted {
            proof {
                assert(v[i as int] == wanted@);
                let k = choose|k: int|
                    0 <= k < v.len() && v[k] == wanted@ && forall|j: int|
                        0 <= j < k ==> v[j] != wanted@;
                assert(0 <= i < v.len() && v[i as int] == wanted@ && forall|j: int|
                    0 <= j < i ==> v[j] != wanted@);
                if k < i {
                    assert(v[k] != wanted@);
                } else if k > i {
                    assert(v[i as int] != wanted@);
                }
            }
            return Some(i);
        }
        i = i + 1;
    }
    proof {
        assert forall|j: int| 0 <= j < v.len() implies v[j] != wanted@ by {}
    }
    None
}

/// The device to restore from a saved configuration: the first of the
/// enumerated `names` equal to the saved name; none when no name was saved or
/// no device has it.
pub fn restore_device(saved_name: &Option<String>, names: &[String]) -> (r: Option<usize>)
    ensures
        match saved_name {
            None => r is None,
            Some(name) => match r {
                Some(i) => first_index_of(views(names@), name@) == Some(i as int),
                None => first_index_of(views(names@), name@) is None,
            },
        },
{
    match saved_name {
        Some(name) => index_of_name(names, name),
        None => None,
    }
}

} // verus!
