use guitar_gaming::device_config::{
    all_channels, choose_input_config, is_selected, selection_ready, toggle_channel, InputConfig,
    SupportedInputConfig,
};
use guitar_gaming::session::{index_of_name, initial_state, restore_device, AppState};

fn range(channels: u16, min: u32, max: u32) -> SupportedInputConfig {
    SupportedInputConfig { channels, min_sample_rate: min, max_sample_rate: max }
}

#[test]
fn first_range_with_a_channel_at_its_highest_rate() {
    let supported = vec![range(0, 8000, 96000), range(2, 44100, 48000), range(1, 8000, 192000)];
    let chosen = choose_input_config(&supported);
    assert!(chosen == Some(InputConfig { channels: 2, sample_rate: 48000 }));
}

#[test]
fn no_range_with_a_channel_gives_none() {
    assert!(choose_input_config(&[]).is_none());
    assert!(choose_input_config(&[range(0, 44100, 48000)]).is_none());
}

#[test]
fn all_channels_lists_each_once() {
    assert_eq!(all_channels(0), Vec::<u16>::new());
    assert_eq!(all_channels(4), vec![0, 1, 2, 3]);
}

#[test]
fn toggling_adds_then_removes() {
    let mut selection = vec![0u16, 1];
    toggle_channel(&mut selection, 3);
    assert_eq!(selection, vec![0, 1, 3]);
    toggle_channel(&mut selection, 1);
    assert_eq!(selection, vec![0, 3]);
    toggle_channel(&mut selection, 1);
    assert_eq!(selection, vec![0, 3, 1]);
    let mut repeated = vec![2u16, 5, 2];
    toggle_channel(&mut repeated, 2);
    assert_eq!(repeated, vec![5]);
}

#[test]
fn selection_membership_and_readiness() {
    assert!(is_selected(&[0, 4], 4));
    assert!(!is_selected(&[0, 4], 1));
    assert!(!selection_ready(&[]));
    assert!(selection_ready(&[1]));
}

#[test]
fn opening_screen_depends_on_saved_configuration() {
    assert_eq!(initial_state(true, &[0]), AppState::SongSelect);
    assert_eq!(initial_state(true, &[]), AppState::InputDeviceOverview);
    assert_eq!(initial_state(false, &[0, 1]), AppState::InputDeviceOverview);
}

#[test]
fn names_are_matched_exactly_and_first_wins() {
    let names = vec!["Mic".to_string(), "USB Audio".to_string(), "Mic".to_string()];
    assert_eq!(index_of_name(&names, &"Mic".to_string()), Some(0));
    assert_eq!(index_of_name(&names, &"USB Audio".to_string()), Some(1));
    assert_eq!(index_of_name(&names, &"mic".to_string()), None);
    assert_eq!(index_of_name(&[], &"Mic".to_string()), None);
}

#[test]
fn saved_device_is_restored_by_name() {
    let names = vec!["Built-in".to_string(), "Interface 2x2".to_string()];
    assert_eq!(restore_device(&Some("Interface 2x2".to_string()), &names), Some(1));
    assert_eq!(restore_device(&Some("Gone".to_string()), &names), None);
    assert_eq!(restore_device(&None, &names), None);
}
