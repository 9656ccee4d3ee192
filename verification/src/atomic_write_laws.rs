//! What has been done to replace a file by the time this is in a phase, and when it succeeds.
//!
//! The laws speak of what was answered, not of how this got from one phase to the next.
use vstd::prelude::*;

use crate::atomic_write::{after, is_course, AtomicWrite, WriteEvent, WritePhase};

verus! {

/// What was answered. What was not asked yet has no answer; what was not permitted has a negative
/// one.
pub struct WriteDeeds {
    /// The mode of the target, if it is there.
    pub mode: Option<Option<u32>>,
    /// A temporary file was made.
    pub created: Option<bool>,
    /// The temporary file was given the mode of the target.
    pub mode_set: Option<bool>,
    pub temp_written: bool,
    pub persisted: bool,
    pub target_written: bool,
}

impl WriteDeeds {
    /// Nothing was answered.
    pub open spec fn none() -> WriteDeeds {
        WriteDeeds {
            mode: None,
            created: None,
            mode_set: None,
            temp_written: false,
            persisted: false,
            target_written: false,
        }
    }

    /// What was answered, once this was answered too.
    pub open spec fn noting(self, phase: WritePhase, event: WriteEvent) -> WriteDeeds {
        match (phase, event) {
            (WritePhase::ReadMode, WriteEvent::Mode(mode)) => WriteDeeds {
                mode: Some(mode),
                ..self
            },
            (WritePhase::CreateTemp(_), WriteEvent::Done) => WriteDeeds {
                created: Some(true),
                ..self
            },
            (WritePhase::CreateTemp(_), WriteEvent::PermissionDenied) => WriteDeeds {
                created: Some(false),
                ..self
            },
            (WritePhase::SetMode(_), WriteEvent::Done) => WriteDeeds {
                mode_set: Some(true),
                ..self
            },
            (WritePhase::SetMode(_), WriteEvent::PermissionDenied) => WriteDeeds {
                mode_set: Some(false),
                ..self
            },
            (WritePhase::WriteTemp, WriteEvent::Done) => WriteDeeds { temp_written: true, ..self },
            (WritePhase::Persist, WriteEvent::Done) => WriteDeeds { persisted: true, ..self },
            (WritePhase::WriteTarget, WriteEvent::Done) => WriteDeeds {
                target_written: true,
                ..self
            },
            _ => self,
        }
    }

    /// There is a temporary file. It has the mode of the target, if that is there.
    pub open spec fn has_temp(self) -> bool {
        &&& self.mode is Some
        &&& self.created == Some(true)
        &&& self.mode_set == match self.mode {
            Some(Some(_)) => Some(true),
            _ => None,
        }
    }

    /// There can be no temporary file, or none with the mode of the target.
    pub open spec fn is_denied(self) -> bool {
        self.created == Some(false) || self.mode_set == Some(false)
    }

    /// All contents went to a temporary file, and that took the target's place.
    pub open spec fn is_replaced(self) -> bool {
        self.has_temp() && self.temp_written && self.persisted && !self.target_written
    }

    /// The target itself was written, since there can be no temporary file.
    pub open spec fn is_overwritten(self) -> bool {
        self.is_denied() && !self.temp_written && !self.persisted && self.target_written
    }
}

/// What was answered so far.
pub open spec fn deeds(strict: bool, events: Seq<WriteEvent>) -> WriteDeeds
    decreases events.len(),
{
    if events.len() == 0 {
        WriteDeeds::none()
    } else {
        deeds(strict, events.drop_last()).noting(
            after(strict, events.drop_last()).phase,
            events.last(),
        )
    }
}

/// This has done what it must have done by now, nothing else, and remembers it.
pub open spec fn is_on_plan(strict: bool, write: AtomicWrite, deeds: WriteDeeds) -> bool {
    let unwritten = !deeds.temp_written && !deeds.persisted && !deeds.target_written;
    &&& write.strict == strict
    &&& write.phase is ReadMode || write.phase is Failed || deeds.mode == Some(write.mode)
    &&& match write.phase {
        WritePhase::ReadMode => deeds == WriteDeeds::none(),
        WritePhase::CreateTemp(mode) => deeds.created is None && deeds.mode_set is None && unwritten
            && match deeds.mode {
            Some(Some(found)) => mode == found,
            Some(None) => mode == 0o666,
            None => false,
        },
        WritePhase::SetMode(mode) => deeds.created == Some(true) && deeds.mode_set is None
            && unwritten && deeds.mode == Some(Some(mode)),
        WritePhase::WriteTemp => deeds.has_temp() && unwritten,
        WritePhase::Persist => deeds.has_temp() && deeds.temp_written && !deeds.persisted
            && !deeds.target_written,
        WritePhase::WriteTarget => !strict && deeds.is_denied() && unwritten,
        WritePhase::Finished => deeds.is_replaced() || (!strict && deeds.is_overwritten()),
        WritePhase::Failed => !deeds.persisted && !deeds.target_written,
    }
}

/// What is on plan is so after the next event.
proof fn lemma_stays_on_plan(
    strict: bool,
    write: AtomicWrite,
    deeds: WriteDeeds,
    event: WriteEvent,
)
    requires
        is_on_plan(strict, write, deeds),
        write.awaits(event),
    ensures
        is_on_plan(strict, write.next(event), deeds.noting(write.phase, event)),
{
}

/// In every phase this has done what comes before, and nothing that comes later. Once it is
/// finished, the target was replaced by a temporary file with all contents and the mode that the
/// target had, or, unless it must be replaced, was itself written where there can be no such file.
/// Where it failed, the target was left alone or may have been written in part, but was not
/// replaced.
pub proof fn writing_does_one_thing_after_another(strict: bool, events: Seq<WriteEvent>)
    requires
        is_course(strict, events),
    ensures
        is_on_plan(strict, after(strict, events), deeds(strict, events)),
    decreases events.len(),
{
    if events.len() > 0 {
        let front = events.drop_last();
        writing_does_one_thing_after_another(strict, front);
        lemma_stays_on_plan(strict, after(strict, front), deeds(strict, front), events.last());
    }
}

/// How far this has come in a phase.
pub open spec fn stage(phase: WritePhase) -> int {
    match phase {
        WritePhase::ReadMode => 0,
        WritePhase::CreateTemp(_) => 1,
        WritePhase::SetMode(_) => 2,
        WritePhase::WriteTemp => 3,
        WritePhase::Persist => 4,
        WritePhase::WriteTarget => 4,
        WritePhase::Finished => 5,
        WritePhase::Failed => 5,
    }
}

/// What this does about an answer. It fails if that was a failure, or if something is not
/// permitted that it cannot do without: a temporary file, if the target must be replaced, and
/// anything else. Otherwise it comes forward.
pub proof fn writing_fails_only_for_a_reason(
    strict: bool,
    events: Seq<WriteEvent>,
    event: WriteEvent,
)
    requires
        is_course(strict, events),
        after(strict, events).awaits(event),
    ensures
        ({
            let before = after(strict, events).phase;
            let phase = after(strict, events.push(event)).phase;
            let may_do_without = !strict && (before is CreateTemp || before is SetMode);
            &&& phase is Failed <==> event is Failed || (event is PermissionDenied
                && !may_do_without)
            &&& phase is WriteTarget <==> event is PermissionDenied && may_do_without
            &&& stage(phase) > stage(before)
        }),
{
    assert(events.push(event).drop_last() =~= events);
    writing_does_one_thing_after_another(strict, events);
    lemma_one_answer(strict, after(strict, events), deeds(strict, events), event);
}

/// What this does about an answer while it is on plan.
proof fn lemma_one_answer(
    strict: bool,
    write: AtomicWrite,
    deeds: WriteDeeds,
    event: WriteEvent,
)
    requires
        is_on_plan(strict, write, deeds),
        write.awaits(event),
    ensures
        ({
            let before = write.phase;
            let phase = write.next(event).phase;
            let may_do_without = !strict && (before is CreateTemp || before is SetMode);
            &&& phase is Failed <==> event is Failed || (event is PermissionDenied
                && !may_do_without)
            &&& phase is WriteTarget <==> event is PermissionDenied && may_do_without
            &&& stage(phase) > stage(before)
        }),
{
}

} // verus!
