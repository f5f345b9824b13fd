use screen_flash::{run, BuiltinEffect, Cli, DefaultFlashEffect, FlashColor, RainbowFlashEffect, SelectedEffect};

#[test]
fn default_effect_without_color_is_black() {
    let chosen = run(Cli { effect: BuiltinEffect::Default, color: None }).unwrap();
    assert_eq!(chosen, SelectedEffect::Default(DefaultFlashEffect::default()));
}

#[test]
fn default_effect_takes_the_given_color() {
    let color = FlashColor { red: 255, green: 102, blue: 0 };
    let chosen = Cli { effect: BuiltinEffect::Default, color: Some(color) }.run().unwrap();
    assert_eq!(chosen, SelectedEffect::Default(DefaultFlashEffect { color }));
}

#[test]
fn rainbow_effect_refuses_a_color() {
    let color = FlashColor { red: 1, green: 2, blue: 3 };
    assert_eq!(
        run(Cli { effect: BuiltinEffect::Rainbow, color: Some(color) }),
        Err("--color can only be used with the default effect".to_string())
    );
    assert_eq!(
        run(Cli { effect: BuiltinEffect::Rainbow, color: None }),
        Ok(SelectedEffect::Rainbow(RainbowFlashEffect))
    );
}
