//! The course of replacing a file as a whole.
//!
//! The contents go to a temporary file beside the target, which then takes the target's place. So
//! the target is never left half written. This module decides what is done next; the caller does
//! it and reports what came of it.
use vstd::prelude::*;

verus! {

/// The mode with which new files are asked for, before the process takes its share away.
pub const NEW_FILE_MODE: u32 = 0o666;

/// What the name of a temporary file starts with: the target's name, so that it can be told what
/// the file is for.
pub fn temp_file_prefix(file_name: Option<&str>) -> (prefix: String)
    ensures
        prefix@ == "."@ + match file_name {
            Some(name) => name@,
            None => "tmp"@,
        } + "."@,
{
    let mut prefix = ".".to_owned();
    match file_name {
        Some(name) => {
            prefix.append(name);
        },
        None => {
            prefix.append("tmp");
        },
    }
    prefix.append(".");
    prefix
}

/// What is to be done next.
#[derive(Debug, Clone, Copy, PartialEq, Eq, Structural)]
pub enum WritePhase {
    /// See with what mode the target is there.
    ReadMode,
    /// Make the temporary file, with this mode at most.
    CreateTemp(u32),
    /// Give the temporary file exactly this mode.
    SetMode(u32),
    /// Write the contents to the temporary file.
    WriteTemp,
    /// Put the temporary file in the target's place.
    Persist,
    /// Write the contents to the target itself.
    WriteTarget,
    /// Nothing: the target has the contents.
    Finished,
    /// Nothing: it failed.
    Failed,
}

/// What came of what was done.
#[derive(Debug, Clone, Copy, PartialEq, Eq, Structural)]
pub enum WriteEvent {
    /// It is done.
    Done,
    /// The target is there with this mode, or is not there.
    Mode(Option<u32>),
    /// It is not permitted.
    PermissionDenied,
    /// It failed.
    Failed,
}

/// A file on its way to be replaced.
#[derive(Debug, Clone, Copy, PartialEq, Eq, Structural)]
pub struct AtomicWrite {
    /// The target is not written itself, even where it cannot be replaced.
    pub strict: bool,
    pub phase: WritePhase,
    /// The mode of the target, if it is there.
    pub mode: Option<u32>,
}

impl AtomicWrite {
    /// Nothing has been done yet.
    pub open spec fn begun(strict: bool) -> AtomicWrite {
        AtomicWrite { strict, phase: WritePhase::ReadMode, mode: None }
    }

    /// The event is an answer to what was to be done.
    pub open spec fn awaits(self, event: WriteEvent) -> bool {
        match self.phase {
            WritePhase::Finished | WritePhase::Failed => false,
            WritePhase::ReadMode => !(event is Done),
            _ => !(event is Mode),
        }
    }

    /// In another phase.
    pub open spec fn at(self, phase: WritePhase) -> AtomicWrite {
        AtomicWrite { phase, ..self }
    }

    /// Where this goes if there can be no temporary file.
    pub open spec fn denied(self) -> AtomicWrite {
        if self.strict {
            self.at(WritePhase::Failed)
        } else {
            self.at(WritePhase::WriteTarget)
        }
    }

    /// Where this goes after an event.
    pub open spec fn next(self, event: WriteEvent) -> AtomicWrite {
        match (self.phase, event) {
            (_, WriteEvent::Failed) => self.at(WritePhase::Failed),
            (WritePhase::ReadMode, WriteEvent::Mode(mode)) => AtomicWrite {
                mode,
                ..self.at(
                    WritePhase::CreateTemp(
                        match mode {
                            Some(mode) => mode,
                            None => NEW_FILE_MODE,
                        },
                    ),
                )
            },
            (WritePhase::CreateTemp(_), WriteEvent::PermissionDenied) => self.denied(),
            (WritePhase::SetMode(_), WriteEvent::PermissionDenied) => self.denied(),
            (_, WriteEvent::PermissionDenied) => self.at(WritePhase::Failed),
            (WritePhase::CreateTemp(_), WriteEvent::Done) => match self.mode {
                Some(mode) => self.at(WritePhase::SetMode(mode)),
                None => self.at(WritePhase::WriteTemp),
            },
            (WritePhase::SetMode(_), WriteEvent::Done) => self.at(WritePhase::WriteTemp),
            (WritePhase::WriteTemp, WriteEvent::Done) => self.at(WritePhase::Persist),
            (WritePhase::Persist, WriteEvent::Done) => self.at(WritePhase::Finished),
            (WritePhase::WriteTarget, WriteEvent::Done) => self.at(WritePhase::Finished),
            _ => self,
        }
    }

    /// Begins.
    pub fn new(strict: bool) -> (write: AtomicWrite)
        ensures
            write == Self::begun(strict),
    {
        AtomicWrite { strict, phase: WritePhase::ReadMode, mode: None }
    }

    /// Goes on without a temporary file.
    fn deny(&mut self)
        ensures
            *final(self) == old(self).denied(),
    {
        if self.strict {
            self.phase = WritePhase::Failed;
        } else {
            self.phase = WritePhase::WriteTarget;
        }
    }

    /// Goes on after an event.
    pub fn step(&mut self, event: WriteEvent)
        requires
            old(self).awaits(event),
        ensures
            *final(self) == old(self).next(event),
    {
        match (self.phase, event) {
            (_, WriteEvent::Failed) => {
                self.phase = WritePhase::Failed;
            },
            (WritePhase::ReadMode, WriteEvent::Mode(mode)) => {
                self.mode = mode;
                match mode {
                    Some(mode) => {
                        self.phase = WritePhase::CreateTemp(mode);
                    },
                    None => {
                        self.phase = WritePhase::CreateTemp(NEW_FILE_MODE);
                    },
                }
            },
            (WritePhase::CreateTemp(_), WriteEvent::PermissionDenied) => {
                self.deny();
            },
            (WritePhase::SetMode(_), WriteEvent::PermissionDenied) => {
                self.deny();
            },
            (_, WriteEvent::PermissionDenied) => {
                self.phase = WritePhase::Failed;
            },
            (WritePhase::CreateTemp(_), WriteEvent::Done) => {
                match self.mode {
                    Some(mode) => {
                        self.phase = WritePhase::SetMode(mode);
                    },
                    None => {
                        self.phase = WritePhase::WriteTemp;
                    },
                }
            },
            (WritePhase::SetMode(_), WriteEvent::Done) => {
                self.phase = WritePhase::WriteTemp;
            },
            (WritePhase::WriteTemp, WriteEvent::Done) => {
                self.phase = WritePhase::Persist;
            },
            (WritePhase::Persist, WriteEvent::Done) => {
                self.phase = WritePhase::Finished;
            },
            (WritePhase::WriteTarget, WriteEvent::Done) => {
                self.phase = WritePhase::Finished;
            },
            _ => {},
        }
    }
}

/// Where this is after these events.
pub open spec fn after(strict: bool, events: Seq<WriteEvent>) -> AtomicWrite
    decreases events.len(),
{
    if events.len() == 0 {
        AtomicWrite::begun(strict)
    } else {
        after(strict, events.drop_last()).next(events.last())
    }
}

/// Each event is an answer to what was to be done.
pub open spec fn is_course(strict: bool, events: Seq<WriteEvent>) -> bool
    decreases events.len(),
{
    events.len() == 0 || (is_course(strict, events.drop_last()) && after(
        strict,
        events.drop_last(),
    ).awaits(events.last()))
}

/// A strict write never writes the target itself: it is replaced as a whole, or left alone.
pub proof fn strict_write_replaces_only(strict: bool, events: Seq<WriteEvent>)
    requires
        is_course(strict, events),
        strict,
    ensures
        after(strict, events).strict,
        !(after(strict, events).phase is WriteTarget),
    decreases events.len(),
{
    if events.len() > 0 {
        strict_write_replaces_only(strict, events.drop_last());
    }
}

/// The target is replaced only once all contents are in the temporary file.
pub proof fn replacement_follows_writing(strict: bool, events: Seq<WriteEvent>)
    requires
        is_course(strict, events),
        after(strict, events).phase is Persist,
    ensures
        events.len() > 0,
        events.last() == WriteEvent::Done,
        after(strict, events.drop_last()).phase is WriteTemp,
{
}

/// The contents are written only once the temporary file has the mode of the target, if that is
/// there. So a replaced file keeps its mode.
pub proof fn replaced_file_keeps_its_mode(strict: bool, events: Seq<WriteEvent>, mode: u32)
    requires
        is_course(strict, events),
        after(strict, events).phase is WriteTemp,
        after(strict, events).mode == Some(mode),
    ensures
        events.len() > 0,
        events.last() == WriteEvent::Done,
        after(strict, events.drop_last()).phase == WritePhase::SetMode(mode),
{
    let front = events.drop_last();
    assert(after(strict, front).phase is SetMode);
    assert(front.len() > 0 && is_course(strict, front));
    assert(after(strict, front.drop_last()).phase is CreateTemp);
}

/// Only a target that cannot have a temporary file beside it is written itself.
pub proof fn target_is_written_only_where_it_must(strict: bool, events: Seq<WriteEvent>)
    requires
        is_course(strict, events),
        after(strict, events).phase is WriteTarget,
    ensures
        !strict,
        events.last() == WriteEvent::PermissionDenied,
{
    if strict {
        strict_write_replaces_only(strict, events);
    }
}

} // verus!
