use zoid::scrollbar::scrollbar_row_to_offset;

#[test]
fn track_ends_map_to_conversation_ends() {
    assert_eq!(scrollbar_row_to_offset(5, 5, 11, 100), Some(0));
    assert_eq!(scrollbar_row_to_offset(15, 5, 11, 100), Some(100));
    assert_eq!(scrollbar_row_to_offset(10, 5, 11, 100), Some(50));
}

#[test]
fn clicks_outside_the_track_clamp_to_it() {
    assert_eq!(scrollbar_row_to_offset(0, 5, 11, 100), Some(0));
    assert_eq!(scrollbar_row_to_offset(300, 5, 11, 100), Some(100));
}

#[test]
fn offsets_round_to_nearest() {
    assert_eq!(scrollbar_row_to_offset(1, 0, 4, 10), Some(3));
    assert_eq!(scrollbar_row_to_offset(2, 0, 4, 10), Some(7));
}

#[test]
fn single_row_track_does_not_scroll() {
    assert_eq!(scrollbar_row_to_offset(3, 3, 1, 100), None);
    assert_eq!(scrollbar_row_to_offset(3, 3, 0, 100), None);
}

#[test]
fn extreme_geometry_stays_in_range() {
    assert_eq!(scrollbar_row_to_offset(u16::MAX, 0, u16::MAX, u16::MAX), Some(u16::MAX));
    assert_eq!(scrollbar_row_to_offset(u16::MAX - 1, 0, u16::MAX, u16::MAX), Some(u16::MAX));
    assert_eq!(scrollbar_row_to_offset(u16::MAX - 2, 0, u16::MAX, u16::MAX), Some(u16::MAX - 1));
}
