//! Starting and ending a recording.

use aicam::recording::{
    proceed, start_recording, stop_recording, Act, Action, Part, Progress, Side,
};

fn of(list: &[Action], side: Side) -> Vec<Act> {
    list.iter()
        .filter(|a| a.side == side)
        .map(|a| a.act)
        .collect()
}

#[test]
fn starts_cycle_the_elements_and_open_the_valve() {
    let list = start_recording(false, 30, 8192);
    assert_eq!(
        of(&list, Side::Picture),
        vec![
            Act::Halt(Part::FileSink),
            Act::Halt(Part::Encoder),
            Act::Halt(Part::Convert),
            Act::Halt(Part::Queue),
            Act::Locate,
            Act::Bitrate(8192),
            Act::KeyInterval(30),
            Act::Resume(Part::FileSink),
            Act::Resume(Part::Encoder),
            Act::Resume(Part::Convert),
            Act::Resume(Part::Queue),
            Act::Open,
        ]
    );
    assert!(of(&list, Side::Sound).is_empty());
}

#[test]
fn the_sound_opens_before_the_picture() {
    let list = start_recording(true, 25, 1000);
    let opens: Vec<Side> = list
        .iter()
        .filter(|a| a.act == Act::Open)
        .map(|a| a.side)
        .collect();
    assert_eq!(opens, vec![Side::Sound, Side::Picture]);
    assert_eq!(list.last().map(|a| a.act), Some(Act::Open));
    assert_eq!(of(&list, Side::Sound).len(), 10);
}

#[test]
fn ends_flush_and_discard() {
    let list = stop_recording(true);
    assert_eq!(
        list[..4],
        [
            Action {
                side: Side::Picture,
                act: Act::Close
            },
            Action {
                side: Side::Picture,
                act: Act::Flush
            },
            Action {
                side: Side::Sound,
                act: Act::Flush
            },
            Action {
                side: Side::Sound,
                act: Act::Close
            },
        ]
    );
    for side in [Side::Picture, Side::Sound] {
        let acts = of(&list, side);
        assert_eq!(acts.iter().filter(|a| **a == Act::Discard).count(), 1);
        assert!(!acts.contains(&Act::Locate));
    }
    assert_eq!(stop_recording(false).len(), 11);
}

/// Carry out a start where some steps fail. Gives the steps that were taken.
fn run(list: &Vec<Action>, fails: impl Fn(Action) -> bool) -> (Vec<Action>, Progress) {
    let mut taken = vec![];
    let mut at = 0;
    loop {
        taken.push(list[at]);
        match proceed(list, at, !fails(list[at])) {
            Progress::Next(n) => at = n,
            end => return (taken, end),
        }
    }
}

#[test]
fn starts_go_well() {
    let list = start_recording(true, 30, 500);
    let (taken, end) = run(&list, |_| false);
    assert_eq!(taken, list);
    assert_eq!(end, Progress::Started);
}

#[test]
fn sound_that_fails_is_left_out() {
    let list = start_recording(true, 30, 500);
    let (taken, end) = run(&list, |a| {
        a.side == Side::Sound && a.act == Act::Resume(Part::Encoder)
    });
    assert_eq!(end, Progress::Started);
    assert_eq!(
        taken.last(),
        Some(&Action {
            side: Side::Picture,
            act: Act::Open
        })
    );
    assert!(!taken.contains(&Action {
        side: Side::Sound,
        act: Act::Open
    }));
}

#[test]
fn pictures_that_fail_end_the_start() {
    let list = start_recording(true, 30, 500);
    let (taken, end) = run(&list, |a| a.act == Act::Resume(Part::FileSink));
    assert_eq!(end, Progress::Failed);
    assert!(taken.iter().all(|a| a.act != Act::Open));
}
