use nodeinnet::rdesk::{remap_button, selected_bitrate};

#[test]
fn gtk_buttons_remap_to_protocol() {
    assert_eq!(remap_button(1), 1);
    assert_eq!(remap_button(3), 2);
    assert_eq!(remap_button(2), 3);
    assert_eq!(remap_button(9), 9);
}

#[test]
fn remapping_twice_gives_the_button_back() {
    for b in 1u32..=9 {
        assert_eq!(remap_button(remap_button(b) as u32) as u32, b);
    }
}

#[test]
fn bitrates_by_menu_position() {
    assert_eq!(selected_bitrate(0), 400_000);
    assert_eq!(selected_bitrate(2), 1_500_000);
    assert_eq!(selected_bitrate(3), 3_000_000);
    assert_eq!(selected_bitrate(42), 800_000);
}
