use vstd::prelude::*;

verus! {

/// What the pattern receiver's link to the arpeggiator knows: the port it
/// was told, whether a channel to the arpeggiator is open, and whether a
/// connection attempt is already on its way.
#[derive(Clone, Copy, Debug, PartialEq, Eq, Structural)]
pub struct PatternLink {
    pub port: Option<u16>,
    pub connected: bool,
    pub retry_scheduled: bool,
}

/// What happens to the link: a command from the plugin, or the outcome of
/// an action it asked for.
#[derive(Clone, Copy, Debug, PartialEq, Eq, Structural)]
pub enum LinkEvent {
    Stop,
    TryConnect,
    SetPort(u16),
    /// A payload is to be sent; the caller holds it.
    Send,
    Connected,
    ConnectFailed,
    SendFailed,
}

/// What the link asks its runner to do next.
#[derive(Clone, Copy, Debug, PartialEq, Eq, Structural)]
pub enum LinkAction {
    /// Stop the worker.
    Exit,
    Nothing,
    /// Try to open a channel to the arpeggiator listening on this port, then
    /// report `Connected` or `ConnectFailed`.
    Connect(u16),
    /// Queue a `TryConnect` now.
    ScheduleConnect,
    /// Wait a second, then queue a `TryConnect`.
    RetryLater,
    /// Send the payload, then report `SendFailed` if it fails.
    Deliver,
    /// Discard the payload: no channel is open.
    Discard,
}

/// The link's next state and action on an event.
pub open spec fn link_step(s: PatternLink, e: LinkEvent) -> (PatternLink, LinkAction) {
    match e {
        LinkEvent::Stop => (s, LinkAction::Exit),
        LinkEvent::TryConnect => {
            let s1 = PatternLink { retry_scheduled: false, ..s };
            if s.connected {
                (s1, LinkAction::Nothing)
            } else {
                match s.port {
                    Some(p) => (s1, LinkAction::Connect(p)),
                    None => (s1, LinkAction::Nothing),
                }
            }
        },
        LinkEvent::Connected => (PatternLink { connected: true, ..s }, LinkAction::Nothing),
        LinkEvent::ConnectFailed => (
            PatternLink { connected: false, retry_scheduled: true, ..s },
            LinkAction::RetryLater,
        ),
        LinkEvent::SetPort(p) => {
            let s1 = PatternLink { port: Some(p), connected: false, ..s };
            if s.retry_scheduled {
                (s1, LinkAction::Nothing)
            } else {
                (PatternLink { retry_scheduled: true, ..s1 }, LinkAction::ScheduleConnect)
            }
        },
        LinkEvent::Send => (s, if s.connected { LinkAction::Deliver } else { LinkAction::Discard }),
        LinkEvent::SendFailed => {
            let s1 = PatternLink { connected: false, ..s };
            if s.retry_scheduled {
                (s1, LinkAction::Nothing)
            } else {
                (PatternLink { retry_scheduled: true, ..s1 }, LinkAction::ScheduleConnect)
            }
        },
    }
}

impl PatternLink {
    /// No port, no channel, nothing scheduled.
    pub fn new() -> (r: PatternLink)
        ensures
            r == (PatternLink { port: None, connected: false, retry_scheduled: false }),
    {
        PatternLink { port: None, connected: false, retry_scheduled: false }
    }

    /// Takes an event and says what to do (see `link_step`).
    pub fn step(&mut self, e: LinkEvent) -> (r: LinkAction)
        ensures
            (*final(self), r) == link_step(*old(self), e),
    {
        match e {
            LinkEvent::Stop => LinkAction::Exit,
            LinkEvent::TryConnect => {
                self.retry_scheduled = false;
                if self.connected {
                    LinkAction::Nothing
                } else {
                    match self.port {
                        Some(p) => LinkAction::Connect(p),
                        None => LinkAction::Nothing,
                    }
                }
            },
            LinkEvent::Connected => {
                self.connected = true;
                LinkAction::Nothing
            },
            LinkEvent::ConnectFailed => {
                self.connected = false;
                self.retry_scheduled = true;
                LinkAction::RetryLater
            },
            LinkEvent::SetPort(p) => {
                self.port = Some(p);
                self.connected = false;
                if self.retry_scheduled {
                    LinkAction::Nothing
                } else {
                    self.retry_scheduled = true;
                    LinkAction::ScheduleConnect
                }
            },
            LinkEvent::Send => {
                if self.connected {
                    LinkAction::Deliver
                } else {
                    LinkAction::Discard
                }
            },
            LinkEvent::SendFailed => {
                self.connected = false;
                if self.retry_scheduled {
                    LinkAction::Nothing
                } else {
                    self.retry_scheduled = true;
                    LinkAction::ScheduleConnect
                }
            },
        }
    }
}

/// A payload is delivered only over an open channel, and dropped otherwise.
pub proof fn lemma_deliver_only_when_connected(s: PatternLink)
    ensures
        link_step(s, LinkEvent::Send).1 == LinkAction::Deliver <==> s.connected,
        link_step(s, LinkEvent::Send).1 == LinkAction::Discard <==> !s.connected,
        link_step(s, LinkEvent::Send).0 == s,
{
}

/// A new port closes the channel; the attempt that follows connects to the
/// new port.
pub proof fn lemma_new_port_reconnects(s: PatternLink, p: u16)
    ensures
        !link_step(s, LinkEvent::SetPort(p)).0.connected,
        link_step(s, LinkEvent::SetPort(p)).0.retry_scheduled,
        link_step(link_step(s, LinkEvent::SetPort(p)).0, LinkEvent::TryConnect).1 == LinkAction::Connect(p),
{
}

/// Losing the channel or failing to open it always leaves one connection
/// attempt on its way, never a second one.
pub proof fn lemma_failure_schedules_one_attempt(s: PatternLink)
    ensures
        link_step(s, LinkEvent::SendFailed).0.retry_scheduled,
        link_step(s, LinkEvent::SendFailed).1 == LinkAction::ScheduleConnect <==> !s.retry_scheduled,
        link_step(s, LinkEvent::ConnectFailed).0.retry_scheduled,
        !link_step(s, LinkEvent::ConnectFailed).0.connected,
{
}

} // verus!
