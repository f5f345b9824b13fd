use screen_flash::{
    DefaultFlashEffect, DefaultPhase, FlashColor, RainbowFlashEffect, DURATION_MS, FADE_MS,
    HOLD_MS, RAINBOW_DURATION_MS, STEP_MS,
};

#[test]
fn default_effect_uses_black_as_default_color() {
    assert_eq!(
        DefaultFlashEffect::default().color,
        FlashColor {
            red: 0,
            green: 0,
            blue: 0,
        }
    );
}

#[test]
fn default_effect_reports_schedule_while_active_and_stops_when_finished() {
    let effect = DefaultFlashEffect {
        color: FlashColor {
            red: 0,
            green: 0,
            blue: 0,
        },
    };
    let active = effect.frame(0);
    let finished = effect.frame(10_000);

    assert!(matches!(active.next_step_ms, Some(step_ms) if step_ms > 0));
    assert_eq!(finished.next_step_ms, None);
}

#[test]
fn default_effect_holds_then_fades_then_finishes() {
    let effect = DefaultFlashEffect {
        color: FlashColor { red: 12, green: 34, blue: 56 },
    };
    let start = effect.frame(0);
    let hold = effect.frame(45);
    let fading = effect.frame(210);
    let finished = effect.frame(10_000);

    assert_eq!(start.color, effect.color);
    assert_eq!(start.phase, DefaultPhase::Hold);
    assert_eq!(hold.phase, start.phase);
    assert_eq!(fading.phase, DefaultPhase::Fading { remaining_ms: 120 });
    assert_eq!(finished.phase, DefaultPhase::Finished);
    assert_eq!(finished.color, effect.color);
}

#[test]
fn default_effect_phase_boundaries() {
    let effect = DefaultFlashEffect::default();
    assert_eq!(HOLD_MS, 90);
    assert_eq!(FADE_MS, 240);
    assert_eq!(DURATION_MS, 330);
    assert_eq!(effect.frame(90).phase, DefaultPhase::Hold);
    assert_eq!(effect.frame(91).phase, DefaultPhase::Fading { remaining_ms: 239 });
    assert_eq!(effect.frame(329).phase, DefaultPhase::Fading { remaining_ms: 1 });
    assert_eq!(effect.frame(329).next_step_ms, Some(STEP_MS));
    assert_eq!(effect.frame(330).phase, DefaultPhase::Finished);
    assert_eq!(effect.frame(330).next_step_ms, None);
    assert_eq!(effect.frame(u64::MAX).phase, DefaultPhase::Finished);
}

#[test]
fn default_fade_only_shrinks() {
    let effect = DefaultFlashEffect::default();
    let mut previous = FADE_MS;
    for t in 91..330 {
        match effect.frame(t).phase {
            DefaultPhase::Fading { remaining_ms } => {
                assert!(remaining_ms < previous);
                assert!(remaining_ms > 0);
                previous = remaining_ms;
            }
            other => panic!("expected a fade at {t}, got {other:?}"),
        }
    }
}

#[test]
fn rainbow_effect_moves_through_hues_and_ends() {
    let start = RainbowFlashEffect.frame(0);
    let middle = RainbowFlashEffect.frame(450);
    let finished = RainbowFlashEffect.frame(10_000);

    assert_ne!(start.hue_elapsed_ms, middle.hue_elapsed_ms);
    assert_eq!(start.active, middle.active);
    assert!(start.active);
    assert!(!finished.active);
    assert_eq!(finished.next_step_ms, None);
    assert_eq!(finished.hue_elapsed_ms, RAINBOW_DURATION_MS);
}

#[test]
fn rainbow_outlasts_default_effect() {
    let default_at_400 = DefaultFlashEffect::default().frame(400);
    let rainbow_at_400 = RainbowFlashEffect.frame(400);

    assert_eq!(default_at_400.phase, DefaultPhase::Finished);
    assert!(rainbow_at_400.active);
    assert!(rainbow_at_400.next_step_ms.is_some());
    for t in (0..2000).step_by(7) {
        if DefaultFlashEffect::default().frame(t).next_step_ms.is_some() {
            assert!(RainbowFlashEffect.frame(t).active);
        }
    }
}

#[test]
fn rainbow_keeps_running_until_its_duration() {
    assert!(RainbowFlashEffect.frame(600).active);
    assert!(RainbowFlashEffect.frame(899).active);
    assert!(!RainbowFlashEffect.frame(900).active);
}
