//! How a session is ended, step by step.

use crate::channels;
use crate::client;
use crate::client::{ClientTree, DXLinkClient, MAIN_CHANNEL};
use crate::messages::KeepaliveMessage;
use crate::reconnect;
use std::time::Duration;
use vstd::prelude::*;

verus! {

/// How many seconds a step of the shutdown may take before it is forced.
pub const SHUTDOWN_GRACE_SECS: u64 = 5;

/// One step of a shutdown.
#[derive(Debug)]
pub enum ShutdownStep {
    /// Stop whatever would rebuild the session: from here on, every step looks
    /// exactly like a session that dies.
    StopSupervisor,
    /// Stop the maintenance, so that nothing races the shutdown.
    StopKeepalive,
    /// Close these channels, while the reader is still there to pass on the
    /// answers.
    CloseChannels(Vec<u32>),
    /// Stop the reader and the delivery: there is nothing left to pass on.
    StopReader,
    /// The session is over, and the client holds nothing of it any more.
    Done,
}

/// How far a shutdown has come.
#[derive(Debug, Clone, Copy, PartialEq, Eq, Structural)]
pub enum Progress {
    /// Nothing is done.
    Begun,
    /// The supervisor is stopped.
    Unsupervised,
    /// The maintenance is stopped.
    Quiet,
    /// The channels are closed.
    Closed,
    /// The reader is stopped.
    Stopped,
    /// Everything is done.
    Over,
}

/// A shutdown.
#[derive(Debug)]
pub struct Shutdown {
    progress: Progress,
}

impl View for Shutdown {
    type V = Progress;

    closed spec fn view(&self) -> Progress {
        self.progress
    }
}

/// How far a shutdown has come after one more step.
pub open spec fn progress_after(progress: Progress) -> Progress {
    match progress {
        Progress::Begun => Progress::Unsupervised,
        Progress::Unsupervised => Progress::Quiet,
        Progress::Quiet => Progress::Closed,
        Progress::Closed => Progress::Stopped,
        Progress::Stopped => Progress::Over,
        Progress::Over => Progress::Over,
    }
}

impl Shutdown {
    /// A shutdown at its start.
    pub fn begin() -> (r: Self)
        ensures
            r@ == Progress::Begun,
    {
        Shutdown { progress: Progress::Begun }
    }

    /// The next step. Whatever a step comes to, the shutdown goes on.
    ///
    /// The stream of connection states ends once nobody rebuilds the session.
    /// The channels are closed while somebody can still answer. The state of
    /// the session goes last.
    pub fn next(&mut self, client: &mut DXLinkClient) -> (r: ShutdownStep)
        ensures
            final(self)@ == progress_after(old(self)@),
            match old(self)@ {
                Progress::Begun => r is StopSupervisor && final(client)@ == old(client)@,
                Progress::Unsupervised => r is StopKeepalive && final(client)@ == (ClientTree {
                    state_stream: None,
                    ..old(client)@
                }),
                Progress::Quiet => {
                    &&& r is CloseChannels
                    &&& final(client)@ == old(client)@
                    &&& old(client)@.connected ==> channels::lists_channels(
                        r->CloseChannels_0@,
                        old(client)@.channels.dom(),
                    )
                    &&& !old(client)@.connected ==> r->CloseChannels_0@.len() == 0
                },
                Progress::Closed => r is StopReader && final(client)@ == old(client)@,
                Progress::Stopped => r is Done && final(client)@ == client::after_disconnect(
                    old(client)@,
                ),
                Progress::Over => r is Done && final(client)@ == old(client)@,
            },
    {
        match self.progress {
            Progress::Begun => {
                self.progress = Progress::Unsupervised;
                ShutdownStep::StopSupervisor
            },
            Progress::Unsupervised => {
                self.progress = Progress::Quiet;
                client.close_states();
                ShutdownStep::StopKeepalive
            },
            Progress::Quiet => {
                self.progress = Progress::Closed;
                ShutdownStep::CloseChannels(client.channels_to_close())
            },
            Progress::Closed => {
                self.progress = Progress::Stopped;
                ShutdownStep::StopReader
            },
            Progress::Stopped => {
                self.progress = Progress::Over;
                client.finish_disconnect();
                ShutdownStep::Done
            },
            Progress::Over => ShutdownStep::Done,
        }
    }
}

/// To disconnect a second time changes nothing, and there is nothing left to
/// close.
pub proof fn disconnecting_twice_is_disconnecting_once(before: ClientTree)
    ensures
        client::after_disconnect(client::after_disconnect(before)) == client::after_disconnect(
            before,
        ),
        !client::after_disconnect(before).connected,
        client::after_disconnect(before).channels.dom() == Set::<u32>::empty(),
        client::after_disconnect(before).pending.requests.len() == 0,
{
    assert(client::after_disconnect(client::after_disconnect(before)) =~= client::after_disconnect(
        before,
    ));
    assert(client::after_disconnect(before).channels.dom() =~= Set::<u32>::empty());
}

/// After a session was ended, a new one starts with a stream of events of its
/// own, and with what was set on the client, but with nothing of the session.
pub proof fn a_new_session_starts_clean(before: ClientTree, negotiated: Option<u32>)
    ensures
        ({
            let ended = client::after_disconnect(before);
            let started = client::after_connect(ended, negotiated);
            &&& !ended.event_stream_taken
            &&& started.connected
            &&& started.channels == Map::<u32, Seq<char>>::empty()
            &&& started.schemas == Map::<u32, crate::schema::SchemaTree>::empty()
            &&& started.subscriptions.len() == 0
            &&& started.pending.requests.len() == 0
            &&& started.url == before.url
            &&& started.token == before.token
            &&& started.keepalive_timeout == before.keepalive_timeout
            &&& started.reconnect == before.reconnect
            &&& started.state_stream is Some <==> before.reconnect is Some
            &&& started.next_channel_id == before.next_channel_id
            &&& started.dropped_events == before.dropped_events
        }),
{
}

// ---------------------------------------------------------------------------
// Maintenance
// ---------------------------------------------------------------------------
/// Decides whether maintenance is due. Any message that went out within the
/// interval has done its work already.
pub fn maintenance(since_last_send: Duration, interval: Duration) -> (r: Option<KeepaliveMessage>)
    ensures
        match r {
            Some(message) => reconnect::nanos_of(since_last_send) >= reconnect::nanos_of(interval)
                && message.channel == MAIN_CHANNEL && message.message_type@ == "KEEPALIVE"@,
            None => reconnect::nanos_of(since_last_send) < reconnect::nanos_of(interval),
        },
{
    if since_last_send.as_nanos() < interval.as_nanos() {
        return None;
    }
    Some(keepalive(MAIN_CHANNEL))
}

/// The message that keeps a channel alive.
pub fn keepalive(channel: u32) -> (r: KeepaliveMessage)
    ensures
        r.channel == channel,
        r.message_type@ == "KEEPALIVE"@,
{
    KeepaliveMessage { channel, message_type: "KEEPALIVE".to_owned() }
}

} // verus!
