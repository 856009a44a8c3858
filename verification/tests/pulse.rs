use cube_convert::cancel::CancellationToken;
use cube_convert::error::{ConvertError, InputError};
use cube_convert::pulse::{
    beat_layout, parse_rates, phase_at, plan_beats, plan_beats_until_cancelled, rates_are_valid,
    Beat, BeatLayout, Phase, SAMPLE_RATE, TOTAL_SAMPLES,
};

fn duration(plan: &Vec<Beat>) -> usize {
    let last = plan[plan.len() - 1];
    last.start + last.len
}

#[test]
fn rates_are_read_three_digits_at_a_time() {
    assert_eq!(parse_rates(b"060 072\n110"), vec![60, 72, 110]);
    assert_eq!(parse_rates(b"0600725"), vec![60, 72, 5]);
    assert_eq!(parse_rates(b"12"), vec![12]);
    assert!(parse_rates(b"bpm").is_empty());
}

#[test]
fn sixty_beats_a_minute_are_one_second_apart() {
    let plan = plan_beats(&vec![60]).unwrap();
    assert_eq!(plan.len(), 720);
    for (k, beat) in plan.iter().enumerate() {
        assert_eq!(beat.start, k * SAMPLE_RATE as usize);
        assert_eq!(beat.len, 44100);
        assert_eq!(beat.rate, 60);
    }
}

#[test]
fn duration_does_not_depend_on_the_length_of_the_list() {
    let one = plan_beats(&vec![75]).unwrap();
    let fifty: Vec<u32> = (0..50).map(|i| 50 + 3 * i).collect();
    let many = plan_beats(&fifty).unwrap();
    assert_eq!(duration(&one), TOTAL_SAMPLES);
    assert_eq!(duration(&many), TOTAL_SAMPLES);
    assert_eq!(TOTAL_SAMPLES, 12 * 60 * 44100);
}

#[test]
fn beats_follow_one_another_without_gap() {
    let plan = plan_beats(&vec![61, 97, 143]).unwrap();
    assert_eq!(plan[0].start, 0);
    for k in 1..plan.len() {
        assert_eq!(plan[k].start, plan[k - 1].start + plan[k - 1].len);
    }
    assert_eq!(duration(&plan), TOTAL_SAMPLES);
}

#[test]
fn each_rate_is_played_for_its_share_and_the_last_to_the_end() {
    let plan = plan_beats(&vec![60, 120]).unwrap();
    assert_eq!(plan.len(), 369 + 702);
    assert!(plan[..369].iter().all(|b| b.rate == 60 && b.len == 44100));
    assert!(plan[369..].iter().all(|b| b.rate == 120 && b.len == 22050));
    assert_eq!(plan[369].start, 369 * 44100);
}

#[test]
fn last_beat_is_cut_where_the_audio_ends() {
    let plan = plan_beats(&vec![11]).unwrap();
    let whole = 2_646_000 / 11;
    assert_eq!(whole, 240_545);
    assert_eq!(plan.len(), 133);
    let last = plan[plan.len() - 1];
    assert_eq!(last.start, 132 * whole);
    assert_eq!(last.len, 60);
    let even = plan_beats(&vec![7]).unwrap();
    assert_eq!(even.len(), 84);
    assert_eq!(even[83].len, 378_000);
}

#[test]
fn empty_list_of_rates_is_rejected() {
    assert_eq!(plan_beats(&Vec::new()), Err(ConvertError::Input(InputError::EmptyData)));
}

#[test]
fn zero_rate_is_rejected() {
    assert_eq!(plan_beats(&vec![60, 0, 80]), Err(ConvertError::Input(InputError::InvalidRate)));
    assert!(!rates_are_valid(&vec![0]));
    assert!(rates_are_valid(&vec![1, 2_646_000]));
    assert_eq!(plan_beats(&vec![2_646_001]), Err(ConvertError::Input(InputError::InvalidRate)));
}

#[test]
fn cancelled_token_stops_the_planning() {
    let token = CancellationToken::new();
    assert_eq!(plan_beats_until_cancelled(&vec![60], &token), plan_beats(&vec![60]));
    token.cancel();
    assert_eq!(plan_beats_until_cancelled(&vec![60], &token), Err(ConvertError::Cancelled));
    assert_eq!(
        plan_beats_until_cancelled(&Vec::new(), &token),
        Err(ConvertError::Input(InputError::EmptyData))
    );
    assert_eq!(
        plan_beats_until_cancelled(&vec![0], &token),
        Err(ConvertError::Input(InputError::InvalidRate))
    );
}

#[test]
fn layout_shares_out_a_beat() {
    let layout = beat_layout(60).unwrap();
    assert_eq!(layout, BeatLayout { lub: 3528, gap: 2205, dub: 2646, rest: 35721 });
    let odd = beat_layout(7).unwrap();
    assert_eq!(odd, BeatLayout { lub: 30240, gap: 18900, dub: 22680, rest: 306180 });
    assert_eq!(odd.lub + odd.gap + odd.dub + odd.rest, 378000);
    assert_eq!(beat_layout(0), None);
    assert_eq!(beat_layout(2_646_001), None);
    assert_eq!(
        beat_layout(2_646_000),
        Some(BeatLayout { lub: 0, gap: 0, dub: 0, rest: 1 })
    );
}

#[test]
fn phases_of_a_beat() {
    let layout = BeatLayout { lub: 8, gap: 5, dub: 6, rest: 81 };
    assert_eq!(phase_at(&layout, 0), Phase::Lub { pos: 0, len: 8 });
    assert_eq!(phase_at(&layout, 7), Phase::Lub { pos: 7, len: 8 });
    assert_eq!(phase_at(&layout, 8), Phase::Gap);
    assert_eq!(phase_at(&layout, 12), Phase::Gap);
    assert_eq!(phase_at(&layout, 13), Phase::Dub { pos: 0, len: 6 });
    assert_eq!(phase_at(&layout, 18), Phase::Dub { pos: 5, len: 6 });
    assert_eq!(phase_at(&layout, 19), Phase::Rest);
    assert_eq!(phase_at(&layout, 5000), Phase::Rest);
}
