//! The relay that makes the compositor its own input method client.
use vstd::prelude::*;

verus! {

/// Events from the relay.
#[derive(Debug, Clone, Copy, PartialEq, Eq, Structural)]
pub enum ImEvent {
    /// A text field wants input.
    Activated,
    /// The text field no longer wants input.
    Deactivated,
}

/// Commands to the relay.
#[derive(Debug, Clone, PartialEq)]
pub enum ImCommand {
    /// Commit text to the active text field.
    CommitString(String),
}

/// An event of the input method protocol.
#[derive(Debug, Clone, Copy, PartialEq, Eq, Structural)]
pub enum ProtocolEvent {
    Activate,
    Deactivate,
    Done,
    Other,
}

/// What the relay sends to the compositor.
#[derive(Debug, PartialEq)]
pub enum RelayRequest {
    /// Commit this text, with this serial.
    Commit { text: String, serial: u32 },
}

/// The state of the relay.
#[derive(Debug, Clone, Copy, PartialEq, Eq, Structural)]
pub struct RelayState {
    /// The input method is bound.
    pub bound: bool,
    /// How many batches of events were completed.
    pub serial: u32,
    /// A text field is active.
    pub active: bool,
}

impl RelayState {
    /// The state at the start.
    pub fn new() -> (r: RelayState)
        ensures
            r == (RelayState { bound: false, serial: 0, active: false }),
    {
        RelayState { bound: false, serial: 0, active: false }
    }

    /// The state after an event.
    pub open spec fn after(self, event: ProtocolEvent) -> RelayState {
        match event {
            ProtocolEvent::Activate => RelayState { active: true, ..self },
            ProtocolEvent::Deactivate => RelayState { active: false, ..self },
            ProtocolEvent::Done => RelayState {
                serial: if self.serial == u32::MAX {
                    0
                } else {
                    (self.serial + 1) as u32
                },
                ..self
            },
            ProtocolEvent::Other => self,
        }
    }

    /// Takes up an event, and gives what the compositor is told of it.
    pub fn handle_event(&mut self, event: ProtocolEvent) -> (r: Option<ImEvent>)
        ensures
            *final(self) == old(self).after(event),
            r == match event {
                ProtocolEvent::Activate => Some(ImEvent::Activated),
                ProtocolEvent::Deactivate => Some(ImEvent::Deactivated),
                _ => None,
            },
    {
        match event {
            ProtocolEvent::Activate => {
                self.active = true;
                Some(ImEvent::Activated)
            },
            ProtocolEvent::Deactivate => {
                self.active = false;
                Some(ImEvent::Deactivated)
            },
            ProtocolEvent::Done => {
                self.serial = self.serial.wrapping_add(1);
                None
            },
            ProtocolEvent::Other => None,
        }
    }

    /// Carries out a command: text is committed while a text field is active,
    /// and otherwise dropped.
    pub fn handle_command(&self, cmd: ImCommand) -> (r: Option<RelayRequest>)
        ensures
            match cmd {
                ImCommand::CommitString(s) => if self.bound && self.active {
                    r matches Some(RelayRequest::Commit { text, serial }) && text@ == s@ && serial
                        == self.serial
                } else {
                    r is None
                },
            },
    {
        match cmd {
            ImCommand::CommitString(text) => if self.bound && self.active {
                Some(RelayRequest::Commit { text, serial: self.serial })
            } else {
                None
            },
        }
    }
}

/// Text is committed exactly between an activation and the deactivation that
/// follows it.
pub proof fn lemma_active_between(s: RelayState, e: ProtocolEvent)
    ensures
        s.after(ProtocolEvent::Activate).active,
        !s.after(ProtocolEvent::Deactivate).active,
        e !is Activate && e !is Deactivate ==> s.after(e).active == s.active,
{
}

} // verus!
