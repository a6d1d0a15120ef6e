use std::cmp::Ordering;

use glow::leds::{
    colour_blue, colour_coral, colour_orange, colour_red, colour_salmon, get_blinkt_brightness,
    get_pivot, party_frames, Brightness, Colour, ColourBucket, ColourRange, FrameCache,
};

fn get_colour_range() -> ColourRange {
    ColourRange::new(
        14_000_000,
        4_000_000,
        &[colour_blue(), colour_orange(), colour_salmon(), colour_coral(), colour_red()],
    )
    .unwrap()
}

#[test]
fn leds_cannot_create_colour_range_with_no_buckets() {
    let colour_range = ColourRange::new(0, 0, &[]);

    assert!(colour_range.is_err());
}

#[test]
fn leds_get_pixels_returns_all_pixels_as_colour_when_only_one_bucket() {
    let colour_range = ColourRange::new(14_000_000, 4_000_000, &[colour_blue()]).unwrap();

    assert!(colour_range.get_pixels(12_000_000) == vec![colour_blue(); 8]);
    assert!(colour_range.get_pixels(14_000_000) == vec![colour_blue(); 8]);
    assert!(colour_range.get_pixels(18_000_000) == vec![colour_blue(); 8]);
}

#[test]
fn leds_get_pixels_with_multiple_colour_ranges_lower_bound() {
    let colour_range = get_colour_range();

    assert!(colour_range.get_pixels(12_000_000) == vec![colour_blue(); 8]);
}

#[test]
fn leds_get_pixels_with_multiple_colour_ranges_upper_bound() {
    let colour_range = get_colour_range();

    assert!(colour_range.get_pixels(31_000_000) == vec![colour_red(); 8]);
}

#[test]
fn leds_get_pixels_with_multiple_colour_ranges_split_pixels() {
    let colour_range = get_colour_range();

    assert_eq!(
        colour_range.get_pixels(16_000_000),
        vec![
            colour_blue(),
            colour_blue(),
            colour_blue(),
            colour_blue(),
            colour_orange(),
            colour_orange(),
            colour_orange(),
            colour_orange(),
        ]
    );
    assert_eq!(
        colour_range.get_pixels(17_000_000),
        vec![
            colour_blue(),
            colour_blue(),
            colour_orange(),
            colour_orange(),
            colour_orange(),
            colour_orange(),
            colour_orange(),
            colour_orange(),
        ]
    );
}

#[test]
fn colour_bucket_ordering() {
    let bucket1 = ColourBucket::new("first", 1_100_000, colour_blue());
    let bucket2 = ColourBucket::new("second", 2_200_000, colour_orange());
    let bucket3 = ColourBucket::new("third", 1_100_000, colour_red());

    assert!(bucket1 < bucket2);
    assert!(bucket2 > bucket3);
    assert_eq!(bucket1.cmp(&bucket3), Ordering::Equal);
    assert!(bucket1 != bucket3);
}

#[test]
fn getting_pivot() {
    assert_eq!(get_pivot(&[colour_blue(); 8]), 0);
    assert_eq!(
        get_pivot(&[
            colour_blue(),
            colour_blue(),
            colour_blue(),
            colour_orange(),
            colour_orange(),
            colour_orange(),
            colour_orange(),
            colour_orange(),
        ]),
        3
    );
    assert_eq!(
        get_pivot(&[
            colour_blue(),
            colour_blue(),
            colour_blue(),
            colour_blue(),
            colour_blue(),
            colour_blue(),
            colour_orange(),
            colour_orange(),
        ]),
        6
    );
    assert_eq!(
        get_pivot(&[
            colour_blue(),
            colour_blue(),
            colour_blue(),
            colour_blue(),
            colour_blue(),
            colour_blue(),
            colour_blue(),
            colour_orange(),
        ]),
        7
    );
}

fn six_blue_two_orange() -> [Colour; 8] {
    [
        colour_blue(),
        colour_blue(),
        colour_blue(),
        colour_blue(),
        colour_blue(),
        colour_blue(),
        colour_orange(),
        colour_orange(),
    ]
}

#[test]
fn get_blinkt_brightness_when_off() {
    let mut colours = six_blue_two_orange();
    colours[6] = colour_blue();
    colours[7] = colour_orange();

    // brightness 5 thousandths is below the first tier: everything off
    assert_eq!(get_blinkt_brightness(&colours, 5), [0; 8]);
}

#[test]
fn get_blinkt_brightness_when_two_leds() {
    assert_eq!(
        get_blinkt_brightness(&six_blue_two_orange(), 10),
        [40, 0, 0, 0, 0, 0, 40, 0]
    );
}

#[test]
fn get_blinkt_brightness_when_three_leds() {
    assert_eq!(
        get_blinkt_brightness(&six_blue_two_orange(), 20),
        [40, 0, 0, 0, 0, 0, 40, 40]
    );
}

#[test]
fn get_blinkt_brightness_when_four_leds() {
    assert_eq!(
        get_blinkt_brightness(&six_blue_two_orange(), 30),
        [40, 0, 0, 0, 0, 40, 40, 40]
    );
}

#[test]
fn get_blinkt_brightness_when_on() {
    assert_eq!(get_blinkt_brightness(&six_blue_two_orange(), 40), [40; 8]);
}

#[test]
fn brightness_next_from() {
    assert_eq!(Brightness::next_from(0), Brightness::Dim);
    assert_eq!(Brightness::next_from(9), Brightness::Dim);
    assert_eq!(Brightness::next_from(10), Brightness::Bright);
    assert_eq!(Brightness::next_from(490), Brightness::Bright);
    assert_eq!(Brightness::next_from(500), Brightness::Off);
    assert_eq!(Brightness::next_from(900), Brightness::Off);
}

#[test]
fn colour_names() {
    assert_eq!(colour_blue().name(), "blue");
    assert_eq!(colour_orange().name(), "orange");
    assert_eq!(colour_salmon().name(), "salmon");
    assert_eq!(colour_coral().name(), "coral");
    assert_eq!(colour_red().name(), "red");
    assert_eq!(Colour::black().name(), "unnamed");
}

#[test]
fn party_frames_light_up_left_to_right() {
    let frames = party_frames();

    assert_eq!(frames.len(), 24);
    let mut first = vec![Colour(0, 0, 0); 8];
    first[0] = Colour(255, 0, 0);
    assert_eq!(frames[0], first);
    assert_eq!(frames[7], vec![Colour(255, 0, 0); 8]);
    let mut ninth = vec![Colour(255, 0, 0); 8];
    ninth[0] = Colour(0, 255, 0);
    assert_eq!(frames[8], ninth);
    assert_eq!(frames[23], vec![Colour(10, 10, 226); 8]);
}

#[test]
fn frame_cache_skips_unchanged_frames() {
    let mut cache = FrameCache::new();
    let frame = vec![colour_blue(); 8];

    // nothing rendered yet: the first frame always goes out
    assert!(cache.should_update(&frame, 500));
    // the very same frame again: no hardware write
    assert!(!cache.should_update(&frame, 500));
    // same colours, other brightness: rendered
    assert!(cache.should_update(&frame, 10));
    // other colours, same brightness: rendered
    assert!(cache.should_update(&vec![colour_red(); 8], 10));
}
