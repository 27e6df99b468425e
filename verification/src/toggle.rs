//! Decisions of the display-only overlay client, which stays connected and
//! starts or stops recording on each signal of its control socket.

use vstd::prelude::*;

use vstd::string::StringExecFns;

verus! {

/// What a toggle asks of the client.
#[derive(Debug, Clone, Copy, PartialEq, Eq)]
pub enum ToggleAction {
    /// Send START, clear the previous texts from the bar, drop the audio
    /// captured while idle, and show that recording runs.
    StartRecording,
    /// Send STOP.
    StopRecording,
}

/// Whether the client records.
pub struct ToggleRecorder {
    recording: bool,
}

impl ToggleRecorder {
    pub closed spec fn spec_recording(self) -> bool {
        self.recording
    }

    /// An idle client.
    pub fn new() -> (t: Self)
        ensures
            !t.spec_recording(),
    {
        ToggleRecorder { recording: false }
    }

    /// A toggle signal: idle starts recording, recording stops.
    pub fn toggle(&mut self) -> (a: ToggleAction)
        ensures
            final(self).spec_recording() == !old(self).spec_recording(),
            a == if old(self).spec_recording() {
                ToggleAction::StopRecording
            } else {
                ToggleAction::StartRecording
            },
    {
        self.recording = !self.recording;
        if self.recording {
            ToggleAction::StartRecording
        } else {
            ToggleAction::StopRecording
        }
    }

    /// Whether captured audio is sent to the engine: only while recording.
    pub fn forwards_audio(&self) -> (b: bool)
        ensures
            b == self.spec_recording(),
    {
        self.recording
    }
}

/// The status shown once a session has stopped: waiting when nothing was
/// committed, otherwise whether typing the text with wtype worked.
pub open spec fn stopped_status_text(committed_nothing: bool, typed: bool) -> Seq<char> {
    if committed_nothing {
        "待機中"@
    } else if typed {
        "入力しました（kikitori-toggle で再開）"@
    } else {
        "wtype 失敗"@
    }
}

pub fn stopped_status(committed_nothing: bool, typed: bool) -> (s: String)
    ensures
        s@ == stopped_status_text(committed_nothing, typed),
{
    if committed_nothing {
        String::from_str("待機中")
    } else if typed {
        String::from_str("入力しました（kikitori-toggle で再開）")
    } else {
        String::from_str("wtype 失敗")
    }
}

} // verus!
