use screen_flash::{after_sample, colorref_from_flash_color, combine_outcomes, FlashAction, FlashColor};

#[test]
fn converts_rgb_to_colorref_layout() {
    assert_eq!(
        colorref_from_flash_color(FlashColor {
            red: 0x12,
            green: 0x34,
            blue: 0x56,
        }),
        0x0056_3412
    );
}

#[test]
fn colorref_extremes() {
    assert_eq!(colorref_from_flash_color(FlashColor { red: 0, green: 0, blue: 0 }), 0);
    assert_eq!(
        colorref_from_flash_color(FlashColor { red: 255, green: 255, blue: 255 }),
        0x00ff_ffff
    );
    assert_eq!(colorref_from_flash_color(FlashColor { red: 0, green: 0, blue: 1 }), 0x0001_0000);
}

#[test]
fn flash_loop_waits_at_least_a_millisecond() {
    assert_eq!(after_sample(Some(16)), FlashAction::Wait { ms: 16 });
    assert_eq!(after_sample(Some(0)), FlashAction::Wait { ms: 1 });
    assert_eq!(after_sample(None), FlashAction::Finish);
}

#[test]
fn first_failure_of_a_flash_wins() {
    assert_eq!(combine_outcomes::<&str>(Ok(()), Ok(())), Ok(()));
    assert_eq!(combine_outcomes(Err("flash"), Err("unregister")), Err("flash"));
    assert_eq!(combine_outcomes(Ok(()), Err("unregister")), Err("unregister"));
    assert_eq!(combine_outcomes(Err("flash"), Ok(())), Err("flash"));
}
