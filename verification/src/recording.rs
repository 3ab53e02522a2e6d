//! The recording state machine: starting, stopping, the hotkey toggle, the
//! polling loop of a running capture, and the format of the audio file.

use vstd::prelude::*;

verus! {

/// Longest recording, in seconds.
pub const MAX_RECORDING_SECS: u64 = 120;

/// Interval between two looks at the recording flag, in milliseconds.
pub const POLL_INTERVAL_MS: u64 = 50;

/// Time given to the capture after the flag drops, in milliseconds.
pub const CAPTURE_TAIL_MS: u64 = 500;

/// Whether a start request is accepted in state `recording`.
pub open spec fn start_accepted(recording: bool) -> bool {
    !recording
}

/// Whether a stop request is accepted in state `recording`.
pub open spec fn stop_accepted(recording: bool) -> bool {
    recording
}

/// The state after a start request in state `recording`.
pub open spec fn after_start(recording: bool) -> bool {
    true
}

/// The state after a stop request in state `recording`.
pub open spec fn after_stop(recording: bool) -> bool {
    false
}

/// Asks to start recording: refused with `Already recording` when a
/// recording runs, otherwise the flag is raised and `recording_started` is
/// returned.
pub fn begin_recording(is_recording: &mut bool) -> (r: Result<String, String>)
    ensures
        *final(is_recording) == next_state(*old(is_recording), RecordingRequest::Start),
        (r is Ok) == accepts(*old(is_recording), RecordingRequest::Start),
        start_accepted(*old(is_recording)) ==> *final(is_recording) == after_start(
            *old(is_recording),
        ),
        !start_accepted(*old(is_recording)) ==> *final(is_recording) == *old(is_recording),
        start_accepted(*old(is_recording)) ==> (r matches Ok(m) && m@ == "recording_started"@),
        !start_accepted(*old(is_recording)) ==> (r matches Err(e) && e@ == "Already recording"@),
{
    if *is_recording {
        return Err(String::from_str("Already recording"));
    }
    *is_recording = true;
    Ok(String::from_str("recording_started"))
}

/// Asks to stop recording: refused with `Not recording` when none runs,
/// otherwise the flag is lowered.
pub fn end_recording(is_recording: &mut bool) -> (r: Result<(), String>)
    ensures
        *final(is_recording) == next_state(*old(is_recording), RecordingRequest::Stop),
        (r is Ok) == accepts(*old(is_recording), RecordingRequest::Stop),
        stop_accepted(*old(is_recording)) ==> *final(is_recording) == after_stop(
            *old(is_recording),
        ) && r is Ok,
        !stop_accepted(*old(is_recording)) ==> *final(is_recording) == *old(is_recording) && (
        r matches Err(e) && e@ == "Not recording"@),
{
    if !*is_recording {
        return Err(String::from_str("Not recording"));
    }
    *is_recording = false;
    Ok(())
}

/// What a press of the global shortcut does.
#[derive(Clone, Copy, Debug, PartialEq, Eq, Structural)]
pub enum HotkeyAction {
    /// Start a recording.
    Start,
    /// Stop the running recording, then transcribe and deliver it.
    StopAndTranscribe,
}

/// The shortcut stops a running recording and starts one otherwise.
pub fn hotkey_action(is_recording: bool) -> (a: HotkeyAction)
    ensures
        is_recording ==> a == HotkeyAction::StopAndTranscribe,
        !is_recording ==> a == HotkeyAction::Start,
{
    if is_recording {
        HotkeyAction::StopAndTranscribe
    } else {
        HotkeyAction::Start
    }
}

/// What the capture loop does after one look at the flag and the clock.
#[derive(Clone, Copy, Debug, PartialEq, Eq, Structural)]
pub enum PollOutcome {
    /// Keep capturing.
    Continue,
    /// The user stopped the recording.
    Stopped,
    /// The time limit is reached: lower the flag and stop.
    TimedOut,
}

/// The capture continues while the flag is raised and less than `max_nanos`
/// have passed; reaching the limit stops it as a time-out.
pub fn poll_recording(still_recording: bool, elapsed_nanos: u128, max_nanos: u128) -> (o:
    PollOutcome)
    ensures
        elapsed_nanos >= max_nanos ==> o == PollOutcome::TimedOut,
        elapsed_nanos < max_nanos && !still_recording ==> o == PollOutcome::Stopped,
        elapsed_nanos < max_nanos && still_recording ==> o == PollOutcome::Continue,
{
    let timed_out = elapsed_nanos >= max_nanos;
    if !still_recording || timed_out {
        if timed_out {
            PollOutcome::TimedOut
        } else {
            PollOutcome::Stopped
        }
    } else {
        PollOutcome::Continue
    }
}

/// The format of the recorded audio file.
#[derive(Clone, Copy, Debug, PartialEq, Eq, Structural)]
pub struct WavFormat {
    /// Number of interleaved channels.
    pub channels: u16,
    /// Samples per second and channel.
    pub sample_rate: u32,
    /// Bits in one sample.
    pub bits_per_sample: u16,
    /// Samples are integers (not floating point).
    pub integer_samples: bool,
}

/// Recordings keep the device's channels and rate, as 16-bit integer PCM.
pub fn recording_wav_format(channels: u16, sample_rate: u32) -> (f: WavFormat)
    ensures
        f == (WavFormat { channels, sample_rate, bits_per_sample: 16, integer_samples: true }),
{
    WavFormat { channels, sample_rate, bits_per_sample: 16, integer_samples: true }
}

/// A start that is accepted is followed by a stop that is accepted and leaves
/// no recording running; a second start while recording is refused.
pub proof fn lemma_start_stop_cycle(recording: bool)
    requires
        start_accepted(recording),
    ensures
        stop_accepted(after_start(recording)),
        !start_accepted(after_start(recording)),
        after_stop(after_start(recording)) == recording,
        start_accepted(after_stop(after_start(recording))),
{
}

/// A request made to the recording state machine.
#[derive(Clone, Copy, Debug, PartialEq, Eq, Structural)]
pub enum RecordingRequest {
    /// A start request (`begin_recording`).
    Start,
    /// A stop request (`end_recording`).
    Stop,
}

/// Whether request `r` is accepted in state `recording`.
pub open spec fn accepts(recording: bool, r: RecordingRequest) -> bool {
    match r {
        RecordingRequest::Start => start_accepted(recording),
        RecordingRequest::Stop => stop_accepted(recording),
    }
}

/// The state after request `r` in state `recording`: changed as the request
/// says when it is accepted, unchanged when it is refused.
pub open spec fn next_state(recording: bool, r: RecordingRequest) -> bool {
    if accepts(recording, r) {
        match r {
            RecordingRequest::Start => after_start(recording),
            RecordingRequest::Stop => after_stop(recording),
        }
    } else {
        recording
    }
}

/// The state after the requests `reqs`, made in order from the idle state.
pub open spec fn state_after(reqs: Seq<RecordingRequest>) -> bool
    decreases reqs.len(),
{
    if reqs.len() == 0 {
        false
    } else {
        next_state(state_after(reqs.drop_last()), reqs.last())
    }
}

/// Whether request `k` of `reqs` is accepted.
pub open spec fn accepted_at(reqs: Seq<RecordingRequest>, k: int) -> bool {
    accepts(state_after(reqs.take(k)), reqs[k])
}

/// Among the first `k` requests, some accepted start has no accepted stop
/// after it.
pub open spec fn started_since_last_stop(reqs: Seq<RecordingRequest>, k: int) -> bool {
    exists|i: int|
        0 <= i < k && reqs[i] == RecordingRequest::Start && #[trigger] accepted_at(reqs, i) && (
        forall|j: int|
            i < j < k ==> !(reqs[j] == RecordingRequest::Stop && #[trigger] accepted_at(reqs, j)))
}

proof fn lemma_state_tracks_history(reqs: Seq<RecordingRequest>, k: int)
    requires
        0 <= k <= reqs.len(),
    ensures
        state_after(reqs.take(k)) == started_since_last_stop(reqs, k),
    decreases k,
{
    if k == 0 {
        assert(reqs.take(0) =~= Seq::<RecordingRequest>::empty());
    } else {
        let p = k - 1;
        lemma_state_tracks_history(reqs, p);
        assert(reqs.take(k).drop_last() =~= reqs.take(p));
        assert(reqs.take(k).last() == reqs[p]);
        let before = state_after(reqs.take(p));
        if reqs[p] == RecordingRequest::Start {
            if accepted_at(reqs, p) {
                assert(started_since_last_stop(reqs, k)) by {
                    assert(forall|j: int| p < j < k ==> !(reqs[j] == RecordingRequest::Stop && #[trigger] accepted_at(reqs, j)));
                }
            } else {
                assert(before);
                let i = choose|i: int|
                    0 <= i < p && reqs[i] == RecordingRequest::Start && #[trigger] accepted_at(reqs, i)
                        && (forall|j: int|
                        i < j < p ==> !(reqs[j] == RecordingRequest::Stop && #[trigger] accepted_at(
                            reqs,
                            j,
                        )));
                assert(started_since_last_stop(reqs, k)) by {
                    assert(forall|j: int| i < j < k ==> !(reqs[j] == RecordingRequest::Stop && #[trigger] accepted_at(reqs, j)));
                }
            }
        } else {
            if started_since_last_stop(reqs, k) {
                let i = choose|i: int|
                    0 <= i < k && reqs[i] == RecordingRequest::Start && #[trigger] accepted_at(reqs, i)
                        && (forall|j: int|
                        i < j < k ==> !(reqs[j] == RecordingRequest::Stop && #[trigger] accepted_at(
                            reqs,
                            j,
                        )));
                assert(i < p);
                assert(!accepted_at(reqs, p));
                assert(started_since_last_stop(reqs, p)) by {
                    assert(forall|j: int| i < j < p ==> !(reqs[j] == RecordingRequest::Stop && #[trigger] accepted_at(reqs, j)));
                }
                assert(false);
            }
        }
    }
}

/// Over any run of start and stop requests from the idle state, a start is
/// accepted exactly when no accepted start has come since the last accepted
/// stop (or since the beginning), and a stop exactly when one has; the state
/// after the run is whether one has.
pub proof fn lemma_requests_follow_history(reqs: Seq<RecordingRequest>)
    ensures
        forall|k: int|
            0 <= k < reqs.len() && reqs[k] == RecordingRequest::Start ==> (#[trigger] accepted_at(
                reqs,
                k,
            ) <==> !started_since_last_stop(reqs, k)),
        forall|k: int|
            0 <= k < reqs.len() && reqs[k] == RecordingRequest::Stop ==> (#[trigger] accepted_at(
                reqs,
                k,
            ) <==> started_since_last_stop(reqs, k)),
        state_after(reqs) == started_since_last_stop(reqs, reqs.len() as int),
{
    assert forall|k: int| 0 <= k < reqs.len() implies state_after(reqs.take(k))
        == started_since_last_stop(reqs, k) by {
        lemma_state_tracks_history(reqs, k);
    }
    lemma_state_tracks_history(reqs, reqs.len() as int);
    assert(reqs.take(reqs.len() as int) =~= reqs);
}

} // verus!
