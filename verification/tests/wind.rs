use cube_convert::error::{ConvertError, InputError};
use cube_convert::wind::{
    intensity_blend, locate, loop_index, sample_count, split_on, table_fields, Blend,
    SAMPLES_PER_DAY,
};

#[test]
fn split_keeps_empty_pieces() {
    assert_eq!(split_on(b"a,b,,c", b','), vec![b"a".to_vec(), b"b".to_vec(), vec![], b"c".to_vec()]);
    assert_eq!(split_on(b"", b','), vec![Vec::<u8>::new()]);
    assert_eq!(split_on(b",", b','), vec![Vec::<u8>::new(), Vec::new()]);
    assert_eq!(split_on(b"abc", b','), vec![b"abc".to_vec()]);
}

#[test]
fn table_drops_the_prefix_of_each_line() {
    let table = table_fields(b"1 3.5, 4 ,x\n2 7\nab\n");
    assert_eq!(table.len(), 4);
    assert_eq!(table[0], vec![b"3.5".to_vec(), b" 4 ".to_vec(), b"x".to_vec()]);
    assert_eq!(table[1], vec![b"7".to_vec()]);
    assert_eq!(table[2], vec![b"ab".to_vec()]);
    assert_eq!(table[3], vec![Vec::<u8>::new()]);
}

#[test]
fn sample_count_is_days_times_thirty_seconds() {
    assert_eq!(sample_count(1), Ok(30 * 44100));
    assert_eq!(sample_count(2), Ok(2 * 30 * 44100));
    assert_eq!(sample_count(24), Ok(24 * 1_323_000));
    assert_eq!(sample_count(25), Ok(25 * 30 * 44100));
    assert_eq!(sample_count(100), Ok(132_300_000));
    assert_eq!(sample_count(0), Err(ConvertError::Input(InputError::EmptyData)));
}

#[test]
fn day_of_one_entry_holds_its_value() {
    for i in [0usize, 1, 661_500, 1_322_999] {
        let b = intensity_blend(i, 1).unwrap();
        assert_eq!(b, Blend { from: 0, to: 0, num: i, den: SAMPLES_PER_DAY });
    }
    assert_eq!(intensity_blend(1_323_000, 1), None);
    assert_eq!(intensity_blend(0, 0), None);
}

#[test]
fn day_of_two_entries_changes_at_half_time() {
    assert_eq!(
        intensity_blend(0, 2),
        Some(Blend { from: 0, to: 1, num: 0, den: 1_323_000 })
    );
    assert_eq!(
        intensity_blend(661_499, 2),
        Some(Blend { from: 0, to: 1, num: 1_322_998, den: 1_323_000 })
    );
    assert_eq!(
        intensity_blend(661_500, 2),
        Some(Blend { from: 1, to: 1, num: 0, den: 1_323_000 })
    );
    assert_eq!(
        intensity_blend(1_322_999, 2),
        Some(Blend { from: 1, to: 1, num: 1_322_998, den: 1_323_000 })
    );
}

#[test]
fn blend_steps_through_the_entries() {
    let b = intensity_blend(500_000, 7).unwrap();
    assert_eq!(b, Blend { from: 2, to: 3, num: 3_500_000 - 2 * 1_323_000, den: 1_323_000 });
}

#[test]
fn noise_loop_is_read_at_its_own_rate_and_wraps() {
    assert_eq!(loop_index(0, 44100, 1000), Some(0));
    assert_eq!(loop_index(999, 44100, 1000), Some(999));
    assert_eq!(loop_index(1000, 44100, 1000), Some(0));
    assert_eq!(loop_index(44100, 22050, 100_000), Some(22050));
    assert_eq!(loop_index(3, 22050, 100_000), Some(1));
    assert_eq!(loop_index(5, 48000, 7), Some(5));
    assert_eq!(loop_index(5, 48000, 0), None);
}

#[test]
fn output_sample_belongs_to_a_day() {
    assert_eq!(locate(0), (0, 0));
    assert_eq!(locate(1_322_999), (0, 1_322_999));
    assert_eq!(locate(1_323_000), (1, 0));
    assert_eq!(locate(3 * 1_323_000 + 17), (3, 17));
}
