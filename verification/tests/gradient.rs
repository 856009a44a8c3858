use cube_convert::error::{ConvertError, InputError};
use cube_convert::cancel::CancellationToken;
use cube_convert::gradient::{
    fill_solid, gradient_frames, gradient_frames_until_cancelled, interpolate, interpolate_pair,
    interpolate_until_cancelled, lerp_color, parse_colors, resample, solid_frame, FRAME_BYTES,
    FRAME_HEIGHT, FRAME_WIDTH, GRADIENT_FRAMES, STEPS_PER_PAIR,
};

#[test]
fn lerp_starts_on_first_colour() {
    let v = lerp_color([10, 20, 30], [110, 220, 130], 100);
    assert_eq!(v.len(), 100);
    assert_eq!(v[0], [10, 20, 30]);
    assert_eq!(v[50], [60, 120, 80]);
    assert_eq!(v[99], [109, 218, 129]);
}

#[test]
fn lerp_rounds_down_when_falling() {
    let v = lerp_color([10, 0, 255], [0, 0, 0], 3);
    assert_eq!(v, vec![[10, 0, 255], [6, 0, 170], [3, 0, 85]]);
}

#[test]
fn lerp_is_monotonic_in_each_channel() {
    let v = lerp_color([0, 200, 7], [255, 3, 7], 3000);
    for i in 1..v.len() {
        assert!(v[i - 1][0] <= v[i][0]);
        assert!(v[i - 1][1] >= v[i][1]);
        assert_eq!(v[i][2], 7);
    }
    assert!(v[2999][0] >= 254);
    assert!(v[2999][1] <= 4);
}

#[test]
fn lerp_with_no_steps_is_empty() {
    assert!(lerp_color([1, 2, 3], [4, 5, 6], 0).is_empty());
}

#[test]
fn colours_are_read_nine_digits_at_a_time() {
    let colors = parse_colors(b"010 020 030\n255,000,128 999300001 12345");
    assert_eq!(colors, vec![[10, 20, 30], [255, 0, 128], [0, 0, 1]]);
}

#[test]
fn text_without_nine_digits_has_no_colour() {
    assert!(parse_colors(b"12345678").is_empty());
    assert!(parse_colors(b"no digits here").is_empty());
}

#[test]
fn timeline_has_three_thousand_steps_per_pair_and_the_last_colour() {
    let colors = vec![[10u8, 10, 10], [20, 20, 20], [30, 30, 30]];
    let timeline = interpolate(&colors);
    assert_eq!(timeline.len(), 2 * STEPS_PER_PAIR + 1);
    assert_eq!(timeline[0], [10, 10, 10]);
    assert_eq!(timeline[3000], [20, 20, 20]);
    assert_eq!(timeline[1500], [15, 15, 15]);
    assert_eq!(timeline[5999], [29, 29, 29]);
    assert_eq!(timeline[6000], [30, 30, 30]);
    assert_eq!(interpolate(&vec![[1u8, 2, 3]]), vec![[1, 2, 3]]);
    assert!(interpolate(&Vec::new()).is_empty());
}

#[test]
fn resample_takes_the_nearest_index() {
    let timeline = vec![[0u8, 0, 0], [1, 1, 1], [2, 2, 2], [3, 3, 3]];
    let frames = resample(&timeline, 8);
    let firsts: Vec<u8> = frames.iter().map(|c| c[0]).collect();
    assert_eq!(firsts, vec![0, 0, 0, 1, 1, 2, 2, 3]);
    let fewer = resample(&timeline, 2);
    assert_eq!(fewer, vec![[0, 0, 0], [3, 3, 3]]);
    let same = resample(&timeline, 4);
    assert_eq!(same, timeline);
    assert_eq!(resample(&timeline, 1), vec![[0, 0, 0]]);
    assert!(resample(&timeline, 0).is_empty());
}

#[test]
fn three_greys_open_on_the_first_and_close_on_the_last() {
    let colors = vec![[10u8, 10, 10], [20, 20, 20], [30, 30, 30]];
    let frames = gradient_frames(&colors, GRADIENT_FRAMES).unwrap();
    assert_eq!(frames.len(), 25 * 720);
    assert_eq!(frames[0], [10, 10, 10]);
    let last = frames[frames.len() - 1];
    assert_eq!(last, [30, 30, 30]);
    assert_eq!(frames[17998], [29, 29, 29]);
    assert_eq!(frames[9000], [20, 20, 20]);
    for i in 1..frames.len() {
        assert!(frames[i - 1][0] <= frames[i][0]);
    }
}

#[test]
fn one_triple_gives_one_static_colour() {
    let frames = gradient_frames(&vec![[10u8, 20, 30]], GRADIENT_FRAMES).unwrap();
    assert_eq!(frames.len(), 18000);
    assert_eq!(frames[0], [10, 20, 30]);
    assert_eq!(frames[17999], [10, 20, 30]);
    assert!(frames.iter().all(|c| *c == [10, 20, 30]));
}

#[test]
fn no_colour_is_an_input_error() {
    let r = gradient_frames(&Vec::new(), GRADIENT_FRAMES);
    assert_eq!(r, Err(ConvertError::Input(InputError::EmptyData)));
}

#[test]
fn solid_frame_repeats_the_colour() {
    let mut raw = vec![0u8; 12];
    fill_solid(&mut raw, [1, 2, 3]);
    assert_eq!(raw, vec![1, 2, 3, 1, 2, 3, 1, 2, 3, 1, 2, 3]);
}

#[test]
fn cancelled_token_stops_the_interpolation() {
    let colors = vec![[10u8, 10, 10], [20, 20, 20], [30, 30, 30]];
    let token = CancellationToken::new();
    assert_eq!(interpolate_until_cancelled(&colors, &token), Ok(interpolate(&colors)));
    assert_eq!(
        gradient_frames_until_cancelled(&colors, 100, &token),
        gradient_frames(&colors, 100)
    );
    token.cancel();
    assert_eq!(interpolate_until_cancelled(&colors, &token), Err(ConvertError::Cancelled));
    assert_eq!(
        gradient_frames_until_cancelled(&colors, 100, &token),
        Err(ConvertError::Cancelled)
    );
    assert_eq!(
        gradient_frames_until_cancelled(&Vec::new(), 100, &token),
        Err(ConvertError::Input(InputError::EmptyData))
    );
    let single = vec![[1u8, 2, 3]];
    assert_eq!(
        gradient_frames_until_cancelled(&single, 4, &token),
        Ok(vec![[1, 2, 3]; 4])
    );
    assert_eq!(interpolate_until_cancelled(&single, &token), Ok(vec![[1, 2, 3]]));
}

#[test]
fn last_frame_shows_the_last_colour_read_from_text() {
    let colors = parse_colors(b"010020030040050060");
    assert_eq!(colors, vec![[10, 20, 30], [40, 50, 60]]);
    let frames = gradient_frames(&colors, GRADIENT_FRAMES).unwrap();
    assert_eq!(frames.len(), 18000);
    assert_eq!(frames[0], [10, 20, 30]);
    assert_eq!(frames[17999], [40, 50, 60]);
    assert_eq!(frames[17998], [39, 49, 59]);
}

#[test]
fn long_lists_still_open_and_close_on_their_ends() {
    let colors: Vec<[u8; 3]> = (0..40u8).map(|i| [i * 5, 200 - i * 3, i]).collect();
    let frames = gradient_frames(&colors, 100).unwrap();
    assert_eq!(frames[0], colors[0]);
    assert_eq!(frames[99], colors[39]);
    let two = gradient_frames(&colors, 2).unwrap();
    assert_eq!(two, vec![colors[0], colors[39]]);
    let one = gradient_frames(&colors, 1).unwrap();
    assert_eq!(one, vec![colors[0]]);
}

#[test]
fn one_step_of_the_interpolation_adds_a_pair_or_stops() {
    let colors = vec![[0u8, 0, 0], [30, 60, 90], [0, 0, 0]];
    let mut out = Vec::new();
    assert_eq!(interpolate_pair(&mut out, &colors, 0, true), Err(ConvertError::Cancelled));
    assert!(out.is_empty());
    assert_eq!(interpolate_pair(&mut out, &colors, 0, false), Ok(()));
    assert_eq!(out.len(), 3000);
    assert_eq!(out[1000], [10, 20, 30]);
    assert_eq!(interpolate_pair(&mut out, &colors, 1, true), Err(ConvertError::Cancelled));
    assert_eq!(out.len(), 3000);
    assert_eq!(interpolate_pair(&mut out, &colors, 1, false), Ok(()));
    assert_eq!(out.len(), 6000);
    assert_eq!(out[3000], [30, 60, 90]);
}

#[test]
fn solid_frame_has_the_size_the_encoder_is_told() {
    let raw = solid_frame([7, 8, 9]);
    assert_eq!(raw.len(), 3 * FRAME_WIDTH as usize * FRAME_HEIGHT as usize);
    assert_eq!(raw.len(), FRAME_BYTES);
    assert_eq!((FRAME_WIDTH, FRAME_HEIGHT), (520, 520));
    assert!(raw.chunks(3).all(|p| p == [7, 8, 9]));
}
