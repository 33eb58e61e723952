//! The decisions of a session: what each captured frame and each client
//! command lead to. Waiting, locking and talking to the browser stay with the
//! caller, which performs what these functions return.
use vstd::prelude::*;
use crate::frame::{diff_frames, frame_diff, full_sync, full_sync_commands, msgs, Frame};
use crate::pointer::{input_for, next_state, ButtonState, PointerInput};
use crate::protocol::{ClientCommand, ServerCommand};

verus! {

/// Capacity of the queue of commands waiting to go out to the client.
pub const OUTBOUND_CAPACITY: usize = 16;

/// The frame that a reset sends: the one waiting to be handled, else the last
/// one handled.
pub open spec fn reset_frame(pending: Option<Frame>, prev: Option<Frame>) -> Option<Frame> {
    if pending is Some {
        pending
    } else {
        prev
    }
}

/// The last frame the client was brought to.
pub struct FrameSync {
    pub prev: Option<Frame>,
}

impl FrameSync {
    pub open spec fn wf(&self) -> bool {
        self.prev matches Some(p) ==> p.wf()
    }

    pub fn new() -> (r: Self)
        ensures
            r.prev is None,
            r.wf(),
    {
        FrameSync { prev: None }
    }

    /// The commands that bring the client to `frame`, which then becomes the
    /// frame to compare the next one against.
    pub fn handle_frame(&mut self, frame: Frame) -> (r: Vec<ServerCommand>)
        requires
            old(self).wf(),
            frame.wf(),
        ensures
            msgs(r@) == frame_diff(old(self).prev, frame),
            final(self).prev == Some(frame),
            final(self).wf(),
    {
        let prev = self.prev.take();
        let out = diff_frames(&prev, &frame);
        self.prev = Some(frame);
        out
    }

    /// Sends the waiting frame, else the last one handled, in full; does
    /// nothing where there is neither.
    pub fn reset(&mut self, pending: Option<Frame>) -> (r: Vec<ServerCommand>)
        requires
            old(self).wf(),
            pending matches Some(f) ==> f.wf(),
        ensures
            final(self).wf(),
            match reset_frame(pending, old(self).prev) {
                Some(f) => msgs(r@) == full_sync(f) && final(self).prev == Some(f),
                None => r@.len() == 0 && final(self).prev is None,
            },
    {
        let frame = match pending {
            Some(f) => Some(f),
            None => self.prev.take(),
        };
        match frame {
            Some(f) => {
                let out = full_sync_commands(&f);
                self.prev = Some(f);
                out
            },
            None => Vec::new(),
        }
    }
}

/// A reset before any frame arrived sends nothing and changes nothing.
pub proof fn lemma_reset_without_frame(sync: FrameSync)
    requires
        sync.prev is None,
    ensures
        reset_frame(None, sync.prev) is None,
{
}

/// What a client command asks of the session.
#[derive(Clone, Debug, PartialEq, Eq)]
pub enum CommandAction {
    /// Send the current frame in full.
    Resync,
    /// Navigate the tab to this url.
    Navigate(String),
    /// Hand this input request to the pointer mailbox.
    Pointer(PointerInput),
}

/// Turns a client command into what the session has to do, updating the held
/// buttons on a mouse command.
pub fn plan_command(command: ClientCommand, buttons: &mut ButtonState) -> (r: CommandAction)
    ensures
        match command {
            ClientCommand::Reset => r is Resync && *final(buttons) == *old(buttons),
            ClientCommand::Load { url } => (r matches CommandAction::Navigate(u) && u@ == url@)
                && *final(buttons) == *old(buttons),
            ClientCommand::Mouse { x, y, event } => *final(buttons) == next_state(
                *old(buttons),
                event,
            ) && r == CommandAction::Pointer(input_for(*final(buttons), x, y, event)),
        },
{
    match command {
        ClientCommand::Reset => CommandAction::Resync,
        ClientCommand::Load { url } => CommandAction::Navigate(url),
        ClientCommand::Mouse { x, y, event } => CommandAction::Pointer(buttons.apply(x, y, event)),
    }
}

} // verus!
