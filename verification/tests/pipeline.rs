//! Frame discovery and naming for the batch pipeline, and the playback
//! cadence computations.

use rust_ascii::errors::AsciiError;
use rust_ascii::{frame_file_name, frame_time_millis, plan_batch, plan_playback, wait_before_next};

#[test]
fn batch_plan_sorts_and_filters() {
    let names: Vec<String> = vec![
        "000003.png".to_string(),
        "readme.txt".to_string(),
        "000001.png".to_string(),
        "000002.png".to_string(),
        ".png".to_string(),
    ];
    let plan = plan_batch(&names).unwrap();
    assert_eq!(plan, vec!["000001.png", "000002.png", "000003.png"]);
}

#[test]
fn playback_plan_sorts_and_filters() {
    let names: Vec<String> = vec![
        "000002.txt".to_string(),
        "000001.txt".to_string(),
        "cover.png".to_string(),
    ];
    let plan = plan_playback(&names).unwrap();
    assert_eq!(plan, vec!["000001.txt", "000002.txt"]);
}

#[test]
fn empty_input_set_is_an_error() {
    let no_files: Vec<String> = vec![];
    assert!(matches!(plan_batch(&no_files), Err(AsciiError::EmptyInputSet)));
    let wrong_kind: Vec<String> = vec!["a.txt".to_string(), "b.jpeg".to_string()];
    assert!(matches!(plan_batch(&wrong_kind), Err(AsciiError::EmptyInputSet)));
    assert!(matches!(plan_playback(&vec!["a.png".to_string()]), Err(AsciiError::EmptyInputSet)));
    let e = plan_batch(&no_files).unwrap_err();
    assert_eq!(e.message(), "no matching frames found");
}

#[test]
fn frame_names_are_zero_padded_and_sequential() {
    assert_eq!(frame_file_name(1), "000001.txt");
    assert_eq!(frame_file_name(2), "000002.txt");
    assert_eq!(frame_file_name(42), "000042.txt");
    assert_eq!(frame_file_name(999999), "999999.txt");
    assert_eq!(frame_file_name(1234567), "1234567.txt");
}

#[test]
fn frame_names_follow_lexicographic_order() {
    // The padded names sort like the indices: the naming alone restores
    // frame order, whatever order the files were written in.
    let mut names: Vec<String> = (1..=12).rev().map(frame_file_name).collect();
    names.sort();
    let expected: Vec<String> = (1..=12).map(frame_file_name).collect();
    assert_eq!(names, expected);
}

#[test]
fn frame_time_is_coerced_to_at_least_one_millisecond() {
    assert_eq!(frame_time_millis(30), 33);
    assert_eq!(frame_time_millis(1), 1000);
    assert_eq!(frame_time_millis(1000), 1);
    assert_eq!(frame_time_millis(2000), 1);
}

#[test]
fn wait_blocks_until_the_absolute_deadline() {
    // Frame 0's slot ends 33 ms after the start: displayed at 10 ms, wait 23.
    assert_eq!(wait_before_next(33, 0, 10), 23);
    // Frame 2's slot ends at 99 ms: displayed at 40 ms, wait 59 — the
    // deadline is absolute, not relative to the previous frame.
    assert_eq!(wait_before_next(33, 2, 40), 59);
    // A frame past its deadline starts the next one immediately.
    assert_eq!(wait_before_next(33, 0, 50), 0);
    assert_eq!(wait_before_next(33, 1, 66), 0);
}

#[test]
fn slow_frames_never_shorten_the_cadence() {
    // Replay the scheduler's arithmetic over 5 frames at 33 ms with jittery
    // display times: each frame waits until its absolute deadline, so the
    // last frame never begins before 4 cadence intervals have passed.
    let ft: u64 = 33;
    let render_cost: [u64; 5] = [1, 60, 2, 100, 3];
    let mut now: u64 = 0;
    let mut displayed_at: Vec<u64> = Vec::new();
    for (i, cost) in render_cost.iter().enumerate() {
        now += cost; // drawing the frame
        displayed_at.push(now);
        now += wait_before_next(ft, i, now);
    }
    assert!(displayed_at[4] >= displayed_at[0] + (5 - 1) * ft);
}
