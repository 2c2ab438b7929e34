//! The steps by which a recording starts and ends.
//!
//! The recording pipelines run for as long as the service does, and a closed
//! valve keeps frames out of them. A recording takes their elements down, points
//! the file sink at the session's file, brings the elements back and opens the
//! valve. Its end flushes the file and points the sink at nothing again.
use vstd::prelude::*;

verus! {

/// One of the two recording pipelines.
#[derive(Debug, Clone, Copy, PartialEq, Eq, Structural)]
pub enum Side {
    Picture,
    Sound,
}

/// An element of a recording pipeline. The sound is not converted.
#[derive(Debug, Clone, Copy, PartialEq, Eq, Structural)]
pub enum Part {
    Valve,
    Queue,
    Convert,
    Encoder,
    FileSink,
}

/// What is done to a recording pipeline.
#[derive(Debug, Clone, Copy, PartialEq, Eq, Structural)]
pub enum Act {
    /// Take an element down.
    Halt(Part),
    /// Bring an element back to its pipeline's state.
    Resume(Part),
    /// Let the file sink write to the session's file.
    Locate,
    /// Let the file sink write to nothing.
    Discard,
    /// Set the encoder's bitrate, where it has one.
    Bitrate(u32),
    /// Set the encoder's distance between key frames, where it has one.
    KeyInterval(u32),
    /// Let frames through the valve.
    Open,
    /// Keep frames out.
    Close,
    /// Send the end of the stream through the queue, and wait until the file
    /// sink has it or five seconds have passed.
    Flush,
}

/// A step.
#[derive(Debug, Clone, Copy, PartialEq, Eq, Structural)]
pub struct Action {
    pub side: Side,
    pub act: Act,
}

pub open spec fn picture(act: Act) -> Action {
    Action { side: Side::Picture, act }
}

pub open spec fn sound(act: Act) -> Action {
    Action { side: Side::Sound, act }
}

/// Make the picture's pipeline ready to record.
pub open spec fn picture_ready(fps: u32, kbps: u32) -> Seq<Action> {
    seq![
        picture(Act::Halt(Part::FileSink)),
        picture(Act::Halt(Part::Encoder)),
        picture(Act::Halt(Part::Convert)),
        picture(Act::Halt(Part::Queue)),
        picture(Act::Locate),
        picture(Act::Bitrate(kbps)),
        picture(Act::KeyInterval(fps)),
        picture(Act::Resume(Part::FileSink)),
        picture(Act::Resume(Part::Encoder)),
        picture(Act::Resume(Part::Convert)),
        picture(Act::Resume(Part::Queue)),
    ]
}

/// Make the sound's pipeline ready and let it record.
pub open spec fn sound_start() -> Seq<Action> {
    seq![
        sound(Act::Halt(Part::FileSink)),
        sound(Act::Halt(Part::Encoder)),
        sound(Act::Halt(Part::Queue)),
        sound(Act::Halt(Part::Valve)),
        sound(Act::Locate),
        sound(Act::Resume(Part::FileSink)),
        sound(Act::Resume(Part::Encoder)),
        sound(Act::Resume(Part::Queue)),
        sound(Act::Resume(Part::Valve)),
        sound(Act::Open),
    ]
}

/// The steps of a start. The picture's valve opens last.
pub open spec fn start_actions(has_audio: bool, fps: u32, kbps: u32) -> Seq<Action> {
    picture_ready(fps, kbps) + (if has_audio {
        sound_start()
    } else {
        Seq::empty()
    }) + seq![picture(Act::Open)]
}

/// Flush the sound and point its sink at nothing.
pub open spec fn sound_stop() -> Seq<Action> {
    seq![
        sound(Act::Flush),
        sound(Act::Close),
        sound(Act::Halt(Part::FileSink)),
        sound(Act::Halt(Part::Encoder)),
        sound(Act::Halt(Part::Queue)),
        sound(Act::Halt(Part::Valve)),
        sound(Act::Discard),
        sound(Act::Resume(Part::FileSink)),
        sound(Act::Resume(Part::Encoder)),
        sound(Act::Resume(Part::Queue)),
        sound(Act::Resume(Part::Valve)),
    ]
}

/// Point the picture's sink at nothing.
pub open spec fn picture_rest() -> Seq<Action> {
    seq![
        picture(Act::Halt(Part::FileSink)),
        picture(Act::Halt(Part::Encoder)),
        picture(Act::Halt(Part::Convert)),
        picture(Act::Halt(Part::Queue)),
        picture(Act::Discard),
        picture(Act::Resume(Part::FileSink)),
        picture(Act::Resume(Part::Encoder)),
        picture(Act::Resume(Part::Convert)),
        picture(Act::Resume(Part::Queue)),
    ]
}

/// The steps of an end. None of them can fail it.
pub open spec fn stop_actions(has_audio: bool) -> Seq<Action> {
    seq![picture(Act::Close), picture(Act::Flush)] + (if has_audio {
        sound_stop()
    } else {
        Seq::empty()
    }) + picture_rest()
}

fn push_all(list: &mut Vec<Action>, side: Side, acts: &[Act])
    ensures
        final(list)@ == old(list)@ + acts@.map(|i: int, act: Act| Action { side, act }),
{
    let mut i: usize = 0;
    let ghost all = acts@.map(|i: int, act: Act| Action { side, act });
    assert(list@ =~= old(list)@ + all.take(0));
    while i < acts.len()
        invariant
            i <= acts@.len(),
            all == acts@.map(|i: int, act: Act| Action { side, act }),
            list@ == old(list)@ + all.take(i as int),
        decreases acts@.len() - i,
    {
        list.push(Action { side, act: acts[i] });
        assert(all.take(i + 1) =~= all.take(i as int).push(all[i as int]));
        i = i + 1;
    }
    assert(all.take(i as int) =~= all);
}

/// Plan the start of a recording, with sound or without.
pub fn start_recording(has_audio: bool, fps: u32, kbps: u32) -> (list: Vec<Action>)
    ensures
        list@ == start_actions(has_audio, fps, kbps),
{
    let mut list: Vec<Action> = Vec::new();
    push_all(
        &mut list,
        Side::Picture,
        &[
            Act::Halt(Part::FileSink),
            Act::Halt(Part::Encoder),
            Act::Halt(Part::Convert),
            Act::Halt(Part::Queue),
            Act::Locate,
            Act::Bitrate(kbps),
            Act::KeyInterval(fps),
            Act::Resume(Part::FileSink),
            Act::Resume(Part::Encoder),
            Act::Resume(Part::Convert),
            Act::Resume(Part::Queue),
        ],
    );
    assert(list@ =~= picture_ready(fps, kbps));
    if has_audio {
        push_all(
            &mut list,
            Side::Sound,
            &[
                Act::Halt(Part::FileSink),
                Act::Halt(Part::Encoder),
                Act::Halt(Part::Queue),
                Act::Halt(Part::Valve),
                Act::Locate,
                Act::Resume(Part::FileSink),
                Act::Resume(Part::Encoder),
                Act::Resume(Part::Queue),
                Act::Resume(Part::Valve),
                Act::Open,
            ],
        );
        assert(list@ =~= picture_ready(fps, kbps) + sound_start());
    }
    list.push(Action { side: Side::Picture, act: Act::Open });
    assert(list@ =~= start_actions(has_audio, fps, kbps));
    list
}

/// Plan the end of a recording, with sound or without.
pub fn stop_recording(has_audio: bool) -> (list: Vec<Action>)
    ensures
        list@ == stop_actions(has_audio),
{
    let mut list: Vec<Action> = Vec::new();
    push_all(&mut list, Side::Picture, &[Act::Close, Act::Flush]);
    assert(list@ =~= seq![picture(Act::Close), picture(Act::Flush)]);
    if has_audio {
        push_all(
            &mut list,
            Side::Sound,
            &[
                Act::Flush,
                Act::Close,
                Act::Halt(Part::FileSink),
                Act::Halt(Part::Encoder),
                Act::Halt(Part::Queue),
                Act::Halt(Part::Valve),
                Act::Discard,
                Act::Resume(Part::FileSink),
                Act::Resume(Part::Encoder),
                Act::Resume(Part::Queue),
                Act::Resume(Part::Valve),
            ],
        );
        assert(list@ =~= seq![picture(Act::Close), picture(Act::Flush)] + sound_stop());
    }
    push_all(
        &mut list,
        Side::Picture,
        &[
            Act::Halt(Part::FileSink),
            Act::Halt(Part::Encoder),
            Act::Halt(Part::Convert),
            Act::Halt(Part::Queue),
            Act::Discard,
            Act::Resume(Part::FileSink),
            Act::Resume(Part::Encoder),
            Act::Resume(Part::Convert),
            Act::Resume(Part::Queue),
        ],
    );
    assert(list@ =~= stop_actions(has_audio));
    list
}

// Carrying out a start.

/// What follows a step.
#[derive(Debug, Clone, Copy, PartialEq, Eq, Structural)]
pub enum Progress {
    /// Take the step at this index.
    Next(usize),
    Started,
    /// The recording did not start.
    Failed,
}

/// The first step of the picture from an index on, or the end.
pub open spec fn next_picture(list: Seq<Action>, from: int) -> int
    decreases list.len() - from,
{
    if from >= list.len() || list[from].side == Side::Picture {
        from
    } else {
        next_picture(list, from + 1)
    }
}

/// What follows the step at an index that went well, or did not. Without its
/// picture a recording fails; where the sound cannot be made ready, it goes on
/// without.
pub open spec fn after(list: Seq<Action>, at: int, ok: bool) -> Progress {
    if !ok && list[at].side == Side::Picture {
        Progress::Failed
    } else {
        let n = if ok {
            at + 1
        } else {
            next_picture(list, at + 1)
        };
        if n < list.len() {
            Progress::Next(n as usize)
        } else {
            Progress::Started
        }
    }
}

/// Decide what follows a step of a start.
pub fn proceed(list: &Vec<Action>, at: usize, ok: bool) -> (p: Progress)
    requires
        at < list@.len(),
    ensures
        p == after(list@, at as int, ok),
{
    if !ok && list[at].side == Side::Picture {
        return Progress::Failed;
    }
    let len: usize = list.len();
    let mut n: usize = at + 1;
    if !ok {
        while n < len && list[n].side != Side::Picture
            invariant
                at < n <= len == list@.len(),
                next_picture(list@, at + 1) == next_picture(list@, n as int),
            decreases list@.len() - n,
        {
            n = n + 1;
        }
    }
    if n < len {
        Progress::Next(n)
    } else {
        Progress::Started
    }
}

// What holds of every recording.

/// A valve opens only after everything else was done on its side, the picture's
/// last of all.
pub proof fn law_valves_open_last(has_audio: bool, fps: u32, kbps: u32, i: int, j: int)
    requires
        0 <= i < start_actions(has_audio, fps, kbps).len(),
        0 <= j < start_actions(has_audio, fps, kbps).len(),
        start_actions(has_audio, fps, kbps)[i].act == Act::Open,
    ensures
        start_actions(has_audio, fps, kbps)[j].side == start_actions(has_audio, fps, kbps)[i].side
            ==> j <= i,
        start_actions(has_audio, fps, kbps)[i].side == Side::Picture ==> i + 1 == start_actions(
            has_audio,
            fps,
            kbps,
        ).len(),
{
    let ready = picture_ready(fps, kbps);
    assert(forall|k: int| 0 <= k < ready.len() ==> #[trigger] ready[k].act != Act::Open);
    assert(forall|k: int|
        0 <= k < sound_start().len() - 1 ==> #[trigger] sound_start()[k].act != Act::Open);
    assert(forall|k: int|
        0 <= k < sound_start().len() ==> #[trigger] sound_start()[k].side == Side::Sound);
    assert(forall|k: int| 0 <= k < ready.len() ==> #[trigger] ready[k].side == Side::Picture);
}

/// How far down the stream an element stands.
pub open spec fn depth(p: Part) -> int {
    match p {
        Part::Valve => 0,
        Part::Queue => 1,
        Part::Convert => 2,
        Part::Encoder => 3,
        Part::FileSink => 4,
    }
}

/// Elements are brought back from the far end of the stream on, so that no
/// element hands frames to one that is down.
pub open spec fn downstream_first(list: Seq<Action>) -> bool {
    forall|i: int, j: int|
        #![trigger list[i], list[j]]
        0 <= i < j < list.len() && list[i].side == list[j].side ==> match (
            list[i].act,
            list[j].act,
        ) {
            (Act::Resume(p), Act::Resume(q)) => depth(p) > depth(q),
            _ => true,
        }
}

/// A file sink changes its file only while it is down: it was taken down
/// before, and is brought back only after.
pub open spec fn files_change_at_rest(list: Seq<Action>) -> bool {
    forall|i: int|
        #![trigger list[i]]
        0 <= i < list.len() && (list[i].act == Act::Locate || list[i].act == Act::Discard) ==> {
            &&& exists|j: int|
                #![trigger list[j]]
                0 <= j < i && list[j] == (Action {
                    side: list[i].side,
                    act: Act::Halt(Part::FileSink),
                })
            &&& forall|j: int|
                #![trigger list[j]]
                0 <= j < list.len() && list[j] == (Action {
                    side: list[i].side,
                    act: Act::Resume(Part::FileSink),
                }) ==> i < j
        }
}

/// Starts and ends bring elements back from the far end of the stream on, and
/// change a file only while its sink is down.
pub proof fn law_elements_cycle_safely(has_audio: bool, fps: u32, kbps: u32)
    ensures
        downstream_first(start_actions(has_audio, fps, kbps)),
        downstream_first(stop_actions(has_audio)),
        files_change_at_rest(start_actions(has_audio, fps, kbps)),
        files_change_at_rest(stop_actions(has_audio)),
{
    let s = start_actions(has_audio, fps, kbps);
    let e = stop_actions(has_audio);
    assert(s[0] == picture(Act::Halt(Part::FileSink)));
    assert(s[4] == picture(Act::Locate));
    if has_audio {
        assert(s[11] == sound(Act::Halt(Part::FileSink)));
        assert(e[4] == sound(Act::Halt(Part::FileSink)));
        assert(e[13] == picture(Act::Halt(Part::FileSink)));
    } else {
        assert(e[2] == picture(Act::Halt(Part::FileSink)));
    }
}

/// Where the sound cannot be made ready, the next step opens the picture's
/// valve, and the sound's stays closed.
pub proof fn law_picture_goes_on_without_sound(fps: u32, kbps: u32, at: int)
    requires
        picture_ready(fps, kbps).len() <= at < picture_ready(fps, kbps).len()
            + sound_start().len(),
    ensures
        ({
            let list = start_actions(true, fps, kbps);
            after(list, at, false) == Progress::Next((list.len() - 1) as usize) && list.last()
                == picture(Act::Open)
        }),
{
    let list = start_actions(true, fps, kbps);
    assert forall|k: int| at < k < list.len() - 1 implies list[k].side == Side::Sound by {
        assert(list[k] == sound_start()[k - picture_ready(fps, kbps).len()]);
    }
    lemma_next_picture(list, at + 1);
}

proof fn lemma_next_picture(list: Seq<Action>, from: int)
    requires
        0 <= from < list.len(),
        list.last().side == Side::Picture,
        forall|k: int| from <= k < list.len() - 1 ==> #[trigger] list[k].side == Side::Sound,
    ensures
        next_picture(list, from) == list.len() - 1,
    decreases list.len() - from,
{
    if from < list.len() - 1 {
        assert(list[from].side == Side::Sound);
        lemma_next_picture(list, from + 1);
    }
}

/// An end closes the picture's valve first and flushes each file before its
/// sink is taken down.
pub proof fn law_files_are_flushed(has_audio: bool, i: int)
    requires
        0 <= i < stop_actions(has_audio).len(),
        stop_actions(has_audio)[i].act == Act::Halt(Part::FileSink),
    ensures
        stop_actions(has_audio)[0] == picture(Act::Close),
        exists|j: int|
            #![trigger stop_actions(has_audio)[j]]
            0 <= j < i && stop_actions(has_audio)[j] == (Action {
                side: stop_actions(has_audio)[i].side,
                act: Act::Flush,
            }),
{
    let e = stop_actions(has_audio);
    assert(e[1] == picture(Act::Flush));
    if has_audio {
        assert(e[2] == sound(Act::Flush));
    }
}

/// Each step of a start follows the one before it, and the recording has started after
/// the last. It fails with any step of the picture.
pub proof fn law_start_goes_step_by_step(list: Seq<Action>, at: int)
    requires
        0 <= at < list.len() <= usize::MAX,
    ensures
        at + 1 < list.len() ==> after(list, at, true) == Progress::Next((at + 1) as usize),
        at + 1 == list.len() ==> after(list, at, true) == Progress::Started,
        after(list, at, false) == Progress::Failed <==> list[at].side == Side::Picture,
{
}

} // verus!
