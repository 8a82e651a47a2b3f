//! The typing orchestrator: one pass over a text, as a state machine that the
//! caller drives while it performs the writes and pauses itself.

use vstd::prelude::*;
use crate::encode::{DeviceEvent, event_stream, keystrokes, lemma_event_stream_append, stroke, stroke_events, typed_keys};
use crate::keymap::KeySpec;

verus! {

/// Why a virtual keyboard could not be created.
#[derive(Clone, Copy, Debug, PartialEq, Eq, Structural)]
pub enum DeviceFailure {
    /// The kernel facility for virtual input devices is absent.
    MissingDriver,
    /// Creating a virtual input device was not permitted.
    PermissionDenied,
    Other,
}

/// Why a typing pass failed.
#[derive(Clone, Debug)]
pub enum TypingError {
    /// The virtual keyboard could not be created.
    DeviceCreation(DeviceFailure),
    /// No display server could be reached.
    Connection,
    /// Writing one event failed; carries the diagnostic of the failure.
    Emission(String),
    /// The host text-injection call returned this nonzero status.
    InjectionFailed(i32),
}

/// What the caller of a typing pass does next.
#[derive(Clone, Copy, Debug, PartialEq, Eq, Structural)]
pub enum Action {
    /// Write this event to the device, then report a failure if the write failed.
    Write(DeviceEvent),
    /// One character is complete: wait the short inter-key pause.
    Pause,
    /// The pass is over; its result is taken with `into_result`.
    Finish,
}

/// One typing pass over a text on a virtual keyboard.
pub struct TypingPass {
    keys: Vec<KeySpec>,
    current: Vec<DeviceEvent>,
    char_index: usize,
    event_index: usize,
    failure: Option<TypingError>,
}

impl TypingPass {
    /// The keys that the pass types, one per supported character.
    pub closed spec fn keys(&self) -> Seq<KeySpec> {
        self.keys@
    }

    /// The number of characters whose events have all been handed out and
    /// whose pause has been taken.
    pub closed spec fn chars_done(&self) -> nat {
        self.char_index as nat
    }

    /// The events handed out for writing so far, in order.
    pub closed spec fn emitted(&self) -> Seq<DeviceEvent> {
        event_stream(self.keys@.take(self.char_index as int)) + self.current@.take(
            self.event_index as int,
        )
    }

    /// The first failure reported, if any.
    pub closed spec fn failure(&self) -> Option<TypingError> {
        self.failure
    }

    /// How many actions at most are left before the pass finishes.
    pub closed spec fn remaining(&self) -> int {
        (self.keys@.len() - self.char_index) * 9 - self.event_index
    }

    pub closed spec fn wf(&self) -> bool {
        &&& self.char_index <= self.keys@.len()
        &&& self.char_index < self.keys@.len() ==> {
            &&& self.current@ == stroke_events(self.keys@[self.char_index as int])
            &&& self.event_index <= self.current@.len()
        }
        &&& self.char_index == self.keys@.len() ==> self.event_index == 0
    }

    /// Whether every character has been typed.
    pub open spec fn complete(&self) -> bool {
        self.chars_done() == self.keys().len()
    }

    /// Starts a pass over `text`: the supported characters are kept in order,
    /// all others are skipped; nothing is emitted yet.
    pub fn new(text: &str) -> (r: TypingPass)
        ensures
            r.wf(),
            r.keys() == typed_keys(text@),
            r.emitted() == Seq::<DeviceEvent>::empty(),
            r.chars_done() == 0,
            r.failure() is None,
    {
        let keys = keystrokes(text);
        let current = if keys.len() > 0 {
            stroke(keys[0])
        } else {
            Vec::new()
        };
        let r = TypingPass { keys, current, char_index: 0, event_index: 0, failure: None };
        assert(r.emitted() =~= Seq::<DeviceEvent>::empty());
        r
    }

    /// The next step of the pass. After a reported failure the pass only
    /// finishes; otherwise it hands out the events of each character in
    /// order, with a pause after each character, and then finishes.
    pub fn next_action(&mut self) -> (r: Action)
        requires
            old(self).wf(),
        ensures
            final(self).wf(),
            final(self).keys() == old(self).keys(),
            final(self).failure() == old(self).failure(),
            old(self).failure() is Some ==> r == Action::Finish && final(self).emitted()
                == old(self).emitted(),
            r == Action::Finish <==> (old(self).failure() is Some || old(self).complete()),
            r == Action::Finish ==> final(self).emitted() == old(self).emitted()
                && final(self).chars_done() == old(self).chars_done(),
            (r == Action::Finish && old(self).failure() is None) ==> final(self).emitted()
                == event_stream(final(self).keys()),
            r is Write ==> final(self).emitted() == old(self).emitted().push(r->Write_0)
                && final(self).chars_done() == old(self).chars_done(),
            r is Write ==> old(self).emitted().len() < event_stream(old(self).keys()).len()
                && r->Write_0 == event_stream(old(self).keys())[old(self).emitted().len() as int],
            r == Action::Pause ==> {
                &&& final(self).emitted() == old(self).emitted()
                &&& final(self).chars_done() == old(self).chars_done() + 1
                &&& final(self).emitted() == event_stream(
                    final(self).keys().take(final(self).chars_done() as int),
                )
            },
            r != Action::Finish ==> 0 <= final(self).remaining() < old(self).remaining(),
    {
        if self.failure.is_some() {
            return Action::Finish;
        }
        if self.char_index >= self.keys.len() {
            assert(self.keys@.take(self.char_index as int) =~= self.keys@);
            assert(self.current@.take(0) =~= Seq::<DeviceEvent>::empty());
            assert(self.emitted() =~= event_stream(self.keys@));
            return Action::Finish;
        }
        if self.event_index < self.current.len() {
            let e = self.current[self.event_index];
            let ghost before = self.emitted();
            self.event_index = self.event_index + 1;
            assert(self.current@.take(self.event_index as int) =~= self.current@.take(
                self.event_index - 1,
            ).push(e));
            assert(self.emitted() =~= before.push(e));
            proof {
                lemma_emitted_is_prefix(self);
                assert(self.emitted()[before.len() as int] == e);
            }
            Action::Write(e)
        } else {
            let ghost before = self.emitted();
            let ghost ci = self.char_index as int;
            proof {
                assert(self.keys@.take(ci + 1).drop_last() =~= self.keys@.take(ci));
                assert(self.current@.take(self.event_index as int) =~= self.current@);
            }
            self.char_index = self.char_index + 1;
            self.event_index = 0;
            if self.char_index < self.keys.len() {
                self.current = stroke(self.keys[self.char_index]);
            }
            assert(self.current@.take(0) =~= Seq::<DeviceEvent>::empty());
            assert(self.emitted() =~= before);
            Action::Pause
        }
    }

    /// Records that writing the last event failed. Only the first failure
    /// counts; the pass then hands out nothing more.
    pub fn fail(&mut self, error: TypingError)
        requires
            old(self).wf(),
        ensures
            final(self).wf(),
            final(self).keys() == old(self).keys(),
            final(self).emitted() == old(self).emitted(),
            final(self).chars_done() == old(self).chars_done(),
            final(self).failure() == (if old(self).failure() is Some {
                old(self).failure()
            } else {
                Some(error)
            }),
    {
        if self.failure.is_none() {
            self.failure = Some(error);
        }
    }

    /// Whether the pass has ended: it failed, or every character was typed.
    pub fn is_finished(&self) -> (r: bool)
        requires
            self.wf(),
        ensures
            r == (self.failure() is Some || self.complete()),
    {
        self.failure.is_some() || self.char_index == self.keys.len()
    }

    /// The single result of an ended pass: the first failure, or success
    /// once every event of the text was handed out.
    pub fn into_result(self) -> (r: Result<(), TypingError>)
        requires
            self.wf(),
            self.failure() is Some || self.complete(),
        ensures
            self.failure() is Some ==> r == Err::<(), TypingError>(self.failure()->0),
            self.failure() is None ==> r is Ok && self.emitted() == event_stream(self.keys()),
    {
        proof {
            if self.failure is None {
                assert(self.keys@.take(self.char_index as int) =~= self.keys@);
                assert(self.current@.take(0) =~= Seq::<DeviceEvent>::empty());
                assert(self.emitted() =~= event_stream(self.keys@));
            }
        }
        match self.failure {
            Some(e) => Err(e),
            None => Ok(()),
        }
    }
}

/// The result of one host text-injection call: success on status zero, and
/// otherwise a failure that carries the raw status.
pub fn injection_outcome(status: i32) -> (r: Result<(), TypingError>)
    ensures
        status == 0 ==> r is Ok,
        status != 0 ==> r == Err::<(), TypingError>(TypingError::InjectionFailed(status)),
{
    if status == 0 {
        Ok(())
    } else {
        Err(TypingError::InjectionFailed(status))
    }
}

/// What a pass has emitted is always the start of the full event stream of
/// its text: a failure cuts the stream short, and nothing typed is undone.
pub proof fn lemma_emitted_is_prefix(p: &TypingPass)
    requires
        p.wf(),
    ensures
        p.emitted().len() <= event_stream(p.keys()).len(),
        p.emitted() == event_stream(p.keys()).take(p.emitted().len() as int),
{
    let ks = p.keys@;
    let ci = p.char_index as int;
    if ci < ks.len() {
        lemma_event_stream_append(ks.take(ci + 1), ks.skip(ci + 1));
        assert(ks.take(ci + 1) + ks.skip(ci + 1) =~= ks);
        assert(ks.take(ci + 1).drop_last() =~= ks.take(ci));
        let head = event_stream(ks.take(ci));
        let st = stroke_events(ks[ci]);
        assert(event_stream(ks.take(ci + 1)) == head + st);
        assert(event_stream(ks) == head + st + event_stream(ks.skip(ci + 1)));
        assert(p.emitted() =~= event_stream(ks).take(p.emitted().len() as int));
    } else {
        assert(ks.take(ci) =~= ks);
        assert(p.emitted() =~= event_stream(ks));
        assert(event_stream(ks).take(p.emitted().len() as int) =~= event_stream(ks));
    }
}

} // verus!
