use backlightd::sun::compute_brightness_percentage;
use backlightd::sun::get_brightness_based_on_sun_times;
use backlightd::sun::get_brightness_based_on_time;

const TRANSITION: u32 = 4 * 60 * 60;

#[test]
fn test_fallback() {
    let brightness_up_begin: u32 = 6 * 3600;
    let brightness_up_end: u32 = brightness_up_begin + TRANSITION;
    let brightness_down_begin: u32 = 18 * 3600;
    let brightness_down_end: u32 = brightness_down_begin + TRANSITION;

    for i in 0..=6u32 {
        assert_eq!(
            compute_brightness_percentage(
                i * 3600,
                brightness_up_begin,
                brightness_up_end,
                brightness_down_begin,
                brightness_down_end
            ),
            1
        );
    }

    for i in 10..=18u32 {
        assert_eq!(
            compute_brightness_percentage(
                i * 3600,
                brightness_up_begin,
                brightness_up_end,
                brightness_down_begin,
                brightness_down_end
            ),
            100
        );
    }

    for i in 22..=23u32 {
        assert_eq!(
            compute_brightness_percentage(
                i * 3600,
                brightness_up_begin,
                brightness_up_end,
                brightness_down_begin,
                brightness_down_end
            ),
            1
        );
    }
}

#[test]
fn test_exact_transition_points() {
    let brightness_up_begin: u32 = 6 * 3600 + 7 * 60 + 8;
    let brightness_up_end: u32 = 7 * 3600 + 8 * 60 + 9;
    let brightness_down_begin: u32 = 19 * 3600 + 18 * 60 + 17;
    let brightness_down_end: u32 = 20 * 3600 + 19 * 60 + 18;

    assert_eq!(
        compute_brightness_percentage(
            brightness_up_begin,
            brightness_up_begin,
            brightness_up_end,
            brightness_down_begin,
            brightness_down_end
        ),
        1
    );
    assert_eq!(
        compute_brightness_percentage(
            brightness_down_end,
            brightness_up_begin,
            brightness_up_end,
            brightness_down_begin,
            brightness_down_end
        ),
        1
    );
    assert_eq!(
        compute_brightness_percentage(
            brightness_up_end,
            brightness_up_begin,
            brightness_up_end,
            brightness_down_begin,
            brightness_down_end
        ),
        100
    );
    assert_eq!(
        compute_brightness_percentage(
            brightness_down_begin,
            brightness_up_begin,
            brightness_up_end,
            brightness_down_begin,
            brightness_down_end
        ),
        100
    );
}

#[test]
fn ramp_midpoint_rounds_half_up() {
    // halfway up the morning ramp: round(99 / 2) + 1 == 51
    assert_eq!(compute_brightness_percentage(28800, 21600, 36000, 64800, 79200), 51);
    // one quarter up: round(99 / 4) + 1 == 26
    assert_eq!(compute_brightness_percentage(25200, 21600, 36000, 64800, 79200), 26);
    // halfway down the evening ramp
    assert_eq!(compute_brightness_percentage(72000, 21600, 36000, 64800, 79200), 51);
}

#[test]
fn fallback_clock_curve() {
    assert_eq!(get_brightness_based_on_time(0), 1);
    assert_eq!(get_brightness_based_on_time(6 * 3600), 1);
    assert_eq!(get_brightness_based_on_time(12 * 3600), 100);
    assert_eq!(get_brightness_based_on_time(22 * 3600), 1);
    assert_eq!(get_brightness_based_on_time(23 * 3600 + 3599), 1);
}

#[test]
fn sun_times_drive_the_curve() {
    // sunrise 06:00, sunset 18:00: the ramps land on the fallback shape
    assert_eq!(get_brightness_based_on_sun_times(12 * 3600, 21600, 64800), Some(100));
    assert_eq!(get_brightness_based_on_sun_times(21600, 21600, 64800), Some(1));
    assert_eq!(get_brightness_based_on_sun_times(36000, 21600, 64800), Some(100));
    assert_eq!(get_brightness_based_on_sun_times(79200, 21600, 64800), Some(1));
    assert_eq!(get_brightness_based_on_sun_times(0, 21600, 64800), Some(1));
}

#[test]
fn unusable_sun_times_fall_back() {
    // a 21:00 sunrise wraps its ramp past midnight: no usable boundaries
    assert_eq!(get_brightness_based_on_sun_times(43200, 75600, 82800), None);
    // sunset inside the morning ramp
    assert_eq!(get_brightness_based_on_sun_times(43200, 21600, 23000), None);
}
