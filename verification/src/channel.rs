//! The channel-establishment coordinator: a connection attempt raced
//! against a timer, resolved from the single message the race delivers
//! to exactly one outcome per call. The dialing, the handshake stages
//! and the timer itself run outside; they classify each stage's result
//! through this module and hand the winning message to `resolve`.

use vstd::prelude::*;
use vstd::string::StringExecFns;

use crate::error::Error;
use crate::error::ErrorKind;
use crate::text::spec_dec;
use crate::text::u64_to_dec;

verus! {

/// The stages of one connection attempt, in the order the connector
/// task runs them.
#[derive(Debug, Clone, Copy, PartialEq, Eq, Structural)]
pub enum ConnectStage {
    /// Dial the TLS transport.
    Dial,
    /// Obtain the peer's certificate.
    Certificate,
    /// The obtained certificate must be present.
    CertificatePresence,
    /// Launch the protocol handshake.
    Handshake,
    /// Verify the handshake against the target identity.
    Verify,
    /// Finish the channel and obtain its handle.
    Finish,
}

/// The message recorded when the attempt fails at a stage.
pub open spec fn spec_stage_message(stage: ConnectStage) -> Seq<char> {
    match stage {
        ConnectStage::Dial => "no tls connector"@,
        ConnectStage::Certificate => "peer_cert error"@,
        ConnectStage::CertificatePresence => "peer_cert is_none"@,
        ConnectStage::Handshake => "channel error"@,
        ConnectStage::Verify => "channel error"@,
        ConnectStage::Finish => "channel finish error"@,
    }
}

/// The classified error of a failure at `stage`.
pub fn stage_failure(stage: ConnectStage) -> (e: Error)
    ensures
        e.kind matches ErrorKind::TcpConnectError(m) && m@ == spec_stage_message(stage),
{
    let msg = match stage {
        ConnectStage::Dial => "no tls connector",
        ConnectStage::Certificate => "peer_cert error",
        ConnectStage::CertificatePresence => "peer_cert is_none",
        ConnectStage::Handshake => "channel error",
        ConnectStage::Verify => "channel error",
        ConnectStage::Finish => "channel finish error",
    };
    Error { kind: ErrorKind::TcpConnectError(msg.to_owned()) }
}

/// The stage the connector runs after `stage`, or `None` after the
/// last one succeeded.
pub fn next_stage(stage: ConnectStage) -> (r: Option<ConnectStage>)
    ensures
        r == (match stage {
            ConnectStage::Dial => Some(ConnectStage::Certificate),
            ConnectStage::Certificate => Some(ConnectStage::CertificatePresence),
            ConnectStage::CertificatePresence => Some(ConnectStage::Handshake),
            ConnectStage::Handshake => Some(ConnectStage::Verify),
            ConnectStage::Verify => Some(ConnectStage::Finish),
            ConnectStage::Finish => None::<ConnectStage>,
        }),
{
    match stage {
        ConnectStage::Dial => Some(ConnectStage::Certificate),
        ConnectStage::Certificate => Some(ConnectStage::CertificatePresence),
        ConnectStage::CertificatePresence => Some(ConnectStage::Handshake),
        ConnectStage::Handshake => Some(ConnectStage::Verify),
        ConnectStage::Verify => Some(ConnectStage::Finish),
        ConnectStage::Finish => None,
    }
}

/// The per-attempt record the race fills: an owned handle to an
/// established channel, or a classified error, written by whichever of
/// the racing tasks finishes first.
pub struct TorChannel<H> {
    pub channel: Option<H>,
    pub error: Option<Error>,
}

/// One outcome per `establish` call.
pub enum Outcome<H> {
    /// The connector won with an established channel handle.
    Connected(H),
    /// The attempt failed, with the classified error; a timer win with
    /// no recorded failure classifies as a connect timeout.
    Failed(Error),
}

impl<H> TorChannel<H> {
    /// The record at the start of one attempt: empty.
    pub fn new() -> (r: TorChannel<H>)
        ensures
            r.channel is None,
            r.error is None,
    {
        TorChannel { channel: None, error: None }
    }

    /// Record the connector task's classified failure at `stage`,
    /// before it sends its no-winner signal.
    pub fn record_failure(&mut self, stage: ConnectStage)
        ensures
            final(self).channel == old(self).channel,
            final(self).error matches Some(e) && e.kind matches ErrorKind::TcpConnectError(m)
                && m@ == spec_stage_message(stage),
    {
        self.error = Some(stage_failure(stage));
    }

    /// Resolve the race from the one message received: a handle means
    /// the connector won; the empty signal means the timer won, and if
    /// no failure was recorded by then, the attempt timed out.
    pub fn resolve(&mut self, msg: Option<H>)
        ensures
            msg matches Some(h) ==> final(self).channel == Some(h) && final(self).error == old(
                self,
            ).error,
            msg is None ==> final(self).channel is None,
            msg is None && old(self).error is Some ==> final(self).error == old(self).error,
            msg is None && old(self).error is None ==> (final(self).error matches Some(e)
                && e.kind matches ErrorKind::TcpConnectError(m) && m@ == "connect timeout"@),
    {
        match msg {
            Some(h) => {
                self.channel = Some(h);
            },
            None => {
                self.channel = None;
                if self.error.is_none() {
                    self.error = Some(
                        Error { kind: ErrorKind::TcpConnectError("connect timeout".to_owned()) },
                    );
                }
            },
        }
    }

    /// The outcome of a resolved attempt: the handle if one arrived,
    /// else the recorded failure. Exactly one of the two is present
    /// once `resolve` has run.
    pub fn outcome(self) -> (o: Outcome<H>)
        requires
            self.channel is Some || self.error is Some,
        ensures
            self.channel matches Some(h) ==> o == Outcome::Connected(h),
            self.channel is None ==> (o matches Outcome::Failed(e) && Some(e) == self.error),
    {
        match self.channel {
            Some(h) => Outcome::Connected(h),
            None => {
                match self.error {
                    Some(e) => Outcome::Failed(e),
                    None => {
                        proof {
                            assert(false);
                        }
                        Outcome::Failed(
                            Error {
                                kind: ErrorKind::TcpConnectError("connect timeout".to_owned()),
                            },
                        )
                    },
                }
            },
        }
    }
}

/// The `host:port` form handed to the transport dial.
pub fn sock_addr_string(host: &str, port: u16) -> (r: String)
    ensures
        r@ == host@ + ":"@ + spec_dec(port as int),
{
    let mut s = host.to_owned();
    s.append(":");
    let p = u64_to_dec(port as u64);
    s.append(p.as_str());
    s
}

} // verus!
