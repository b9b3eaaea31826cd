//! The pairing handshake.
//!
//! Pairing bootstraps a new device's per-channel sessions over one connected
//! byte stream, using a fixed-length secret shared out of band. For each
//! participating channel in turn: the local session generates a pairing
//! message from the secret, the message is framed and sent, the peer's
//! credential and then an opaque welcome are read back, and the channel
//! commits — registering the peer as a contact, processing the welcome, and
//! persisting session state. A standalone device finally receives its
//! network-join configuration over the setup exchange.
//!
//! The engine below fixes that order. The stream, the secure-session calls
//! and the clock belong to the driver, which performs each action the engine
//! hands out and reports how it went; any failure aborts the whole attempt,
//! and partial per-channel state is left inert rather than rolled back — a
//! retry re-pairs cleanly.
//!
//! Both preconditions are checked before anything touches the network: a
//! secret of the wrong length and a device name already in use among active
//! devices are rejected while the engine is refused, so no connection is ever
//! attempted for them.

use vstd::prelude::*;
use crate::registry::{ChannelId, ChannelLockRegistry};

verus! {

/// The shared out-of-band pairing secret is exactly this many bytes. It is
/// consumed by the sessions' pairing messages and never persisted.
pub const PAIRING_SECRET_LEN: usize = 64;

/// How many channels take part in the handshake rounds.
pub const PAIRING_CHANNEL_COUNT: usize = 4;

/// Why a pairing attempt was refused before any network connection.
#[derive(Clone, Copy, Debug, PartialEq, Eq, Structural)]
pub enum PairError {
    /// The device name is already taken by an active device.
    DuplicateDeviceName,
    /// The secret is not exactly [`PAIRING_SECRET_LEN`] bytes.
    WrongSecretLength,
}

/// The channel the `i`-th handshake round pairs.
pub open spec fn spec_pairing_channel(i: int) -> ChannelId {
    if i == 0 {
        ChannelId::Motion
    } else if i == 1 {
        ChannelId::Livestream
    } else if i == 2 {
        ChannelId::Fcm
    } else {
        ChannelId::Config
    }
}

/// The channel the `i`-th handshake round pairs.
pub fn pairing_channel(i: usize) -> (c: ChannelId)
    requires
        i < PAIRING_CHANNEL_COUNT,
    ensures
        c == spec_pairing_channel(i as int),
{
    if i == 0 {
        ChannelId::Motion
    } else if i == 1 {
        ChannelId::Livestream
    } else if i == 2 {
        ChannelId::Fcm
    } else {
        ChannelId::Config
    }
}

/// What the driver must do next.
#[derive(Clone, Copy, Debug, PartialEq, Eq, Structural)]
pub enum PairAction {
    /// Open the connection to the device.
    Connect,
    /// Have the channel's session produce its pairing message from the
    /// shared secret.
    Generate { channel: ChannelId },
    /// Frame the generated message and write it to the stream.
    SendPairingMsg { channel: ChannelId },
    /// Read one framed message: the peer's credential material, to be
    /// processed against the secret.
    ReceivePeer { channel: ChannelId },
    /// Read one framed message: the opaque welcome payload.
    ReceiveWelcome { channel: ChannelId },
    /// Register the peer as a contact, process the welcome, and persist the
    /// channel's session state.
    Commit { channel: ChannelId },
    /// Deliver the network-join configuration over the setup exchange.
    DeliverConfig,
    /// Pairing completed for every channel.
    Finish,
    /// Pairing is aborted; partial per-channel state stays inert and a retry
    /// re-pairs cleanly.
    Abort,
}

/// How the driver's last action went.
#[derive(Clone, Copy, Debug, PartialEq, Eq, Structural)]
pub enum PairEvent {
    Connected,
    Generated,
    Sent,
    PeerReceived,
    WelcomeReceived,
    Committed,
    ConfigDelivered,
    /// The stream erred, a message was malformed, or a session call failed.
    StepFailed,
}

/// Where the handshake stands; each waiting phase names the round `ch` it
/// belongs to.
#[derive(Clone, Copy, Debug, PartialEq, Eq, Structural)]
pub enum PairPhase {
    Connecting,
    Generating { ch: usize },
    Sending { ch: usize },
    AwaitingPeer { ch: usize },
    AwaitingWelcome { ch: usize },
    Committing { ch: usize },
    Delivering,
    Done,
    Failed,
}

/// Drives one pairing attempt for one device.
#[derive(Debug)]
pub struct PairingEngine {
    pub phase: PairPhase,
    /// A standalone device is handed its network-join configuration once the
    /// channel rounds succeed.
    pub standalone: bool,
}

/// The transition the engine takes: the event answers the phase's
/// outstanding action, and anything out of order or failed aborts.
pub open spec fn spec_pair_step(pre: PairingEngine, event: PairEvent) -> (PairingEngine, PairAction) {
    let failed = (PairingEngine { phase: PairPhase::Failed, ..pre }, PairAction::Abort);
    match (pre.phase, event) {
        (PairPhase::Connecting, PairEvent::Connected) => (
            PairingEngine { phase: PairPhase::Generating { ch: 0 }, ..pre },
            PairAction::Generate { channel: spec_pairing_channel(0) },
        ),
        (PairPhase::Generating { ch }, PairEvent::Generated) => (
            PairingEngine { phase: PairPhase::Sending { ch }, ..pre },
            PairAction::SendPairingMsg { channel: spec_pairing_channel(ch as int) },
        ),
        (PairPhase::Sending { ch }, PairEvent::Sent) => (
            PairingEngine { phase: PairPhase::AwaitingPeer { ch }, ..pre },
            PairAction::ReceivePeer { channel: spec_pairing_channel(ch as int) },
        ),
        (PairPhase::AwaitingPeer { ch }, PairEvent::PeerReceived) => (
            PairingEngine { phase: PairPhase::AwaitingWelcome { ch }, ..pre },
            PairAction::ReceiveWelcome { channel: spec_pairing_channel(ch as int) },
        ),
        (PairPhase::AwaitingWelcome { ch }, PairEvent::WelcomeReceived) => (
            PairingEngine { phase: PairPhase::Committing { ch }, ..pre },
            PairAction::Commit { channel: spec_pairing_channel(ch as int) },
        ),
        (PairPhase::Committing { ch }, PairEvent::Committed) => {
            if ch + 1 < PAIRING_CHANNEL_COUNT {
                (
                    PairingEngine { phase: PairPhase::Generating { ch: (ch + 1) as usize }, ..pre },
                    PairAction::Generate { channel: spec_pairing_channel(ch + 1) },
                )
            } else if pre.standalone {
                (PairingEngine { phase: PairPhase::Delivering, ..pre }, PairAction::DeliverConfig)
            } else {
                (PairingEngine { phase: PairPhase::Done, ..pre }, PairAction::Finish)
            }
        },
        (PairPhase::Delivering, PairEvent::ConfigDelivered) => (
            PairingEngine { phase: PairPhase::Done, ..pre },
            PairAction::Finish,
        ),
        _ => failed,
    }
}


/// The JSON document carrying a standalone device's network-join
/// credentials, as the outside encoder writes it.
pub uninterp spec fn join_credentials_json(ssid: Seq<char>, passphrase: Seq<char>) -> Seq<u8>;

/// Relies on `serde_json::to_vec` on an object of two string fields: the
/// encoding depends on the two strings alone, and an object of strings
/// always encodes.
#[verifier::external_body]
fn encode_join_credentials(ssid: &String, passphrase: &String) -> (r: Vec<u8>)
    ensures
        r@ == join_credentials_json(ssid@, passphrase@),
{
    let mut obj = serde_json::Map::new();
    obj.insert("ssid".to_string(), serde_json::Value::String(ssid.clone()));
    obj.insert("passphrase".to_string(), serde_json::Value::String(passphrase.clone()));
    serde_json::to_vec(&serde_json::Value::Object(obj)).expect("an object of strings encodes")
}

/// The plaintext of the setup exchange's `DeliverConfig` action: the
/// network-join credentials as one JSON document, for the config channel's
/// session to encrypt and the driver to frame and send.
pub fn join_credentials_payload(ssid: &String, passphrase: &String) -> (r: Vec<u8>)
    ensures
        r@ == join_credentials_json(ssid@, passphrase@),
{
    encode_join_credentials(ssid, passphrase)
}

impl PairingEngine {
    /// Every round index the phase carries is in range.
    pub open spec fn wf(self) -> bool {
        match self.phase {
            PairPhase::Generating { ch } => ch < PAIRING_CHANNEL_COUNT,
            PairPhase::Sending { ch } => ch < PAIRING_CHANNEL_COUNT,
            PairPhase::AwaitingPeer { ch } => ch < PAIRING_CHANNEL_COUNT,
            PairPhase::AwaitingWelcome { ch } => ch < PAIRING_CHANNEL_COUNT,
            PairPhase::Committing { ch } => ch < PAIRING_CHANNEL_COUNT,
            _ => true,
        }
    }

    /// Checks both preconditions and refuses the attempt before any network
    /// I/O: a name already in use among active devices (checked first, as a
    /// duplicate identity must not even probe the network), then the
    /// secret's fixed length. Only an engine in its `Connecting` phase can
    /// ever direct a connection, so a refused attempt never touches the
    /// network.
    pub fn start(
        registry: &ChannelLockRegistry,
        device: &String,
        secret: &Vec<u8>,
        standalone: bool,
    ) -> (r: Result<PairingEngine, PairError>)
        ensures
            match r {
                Ok(engine) => {
                    &&& !registry.device_active(device@)
                    &&& secret@.len() == PAIRING_SECRET_LEN
                    &&& engine.phase is Connecting
                    &&& engine.standalone == standalone
                    &&& engine.wf()
                },
                Err(PairError::DuplicateDeviceName) => registry.device_active(device@),
                Err(PairError::WrongSecretLength) => {
                    &&& !registry.device_active(device@)
                    &&& secret@.len() != PAIRING_SECRET_LEN
                },
            },
    {
        if registry.is_device_active(device) {
            return Err(PairError::DuplicateDeviceName);
        }
        if secret.len() != PAIRING_SECRET_LEN {
            return Err(PairError::WrongSecretLength);
        }
        Ok(PairingEngine { phase: PairPhase::Connecting, standalone })
    }

    /// The first action of a fresh engine: open the connection.
    pub fn first_action(&self) -> (a: PairAction)
        requires
            self.phase is Connecting,
        ensures
            a == PairAction::Connect,
    {
        PairAction::Connect
    }

    /// Consumes the outcome of the last action and hands out the next one.
    pub fn step(&mut self, event: PairEvent) -> (action: PairAction)
        requires
            old(self).wf(),
        ensures
            final(self).wf(),
            (*final(self), action) == spec_pair_step(*old(self), event),
    {
        match (self.phase, event) {
            (PairPhase::Connecting, PairEvent::Connected) => {
                self.phase = PairPhase::Generating { ch: 0 };
                PairAction::Generate { channel: pairing_channel(0) }
            },
            (PairPhase::Generating { ch }, PairEvent::Generated) => {
                self.phase = PairPhase::Sending { ch };
                PairAction::SendPairingMsg { channel: pairing_channel(ch) }
            },
            (PairPhase::Sending { ch }, PairEvent::Sent) => {
                self.phase = PairPhase::AwaitingPeer { ch };
                PairAction::ReceivePeer { channel: pairing_channel(ch) }
            },
            (PairPhase::AwaitingPeer { ch }, PairEvent::PeerReceived) => {
                self.phase = PairPhase::AwaitingWelcome { ch };
                PairAction::ReceiveWelcome { channel: pairing_channel(ch) }
            },
            (PairPhase::AwaitingWelcome { ch }, PairEvent::WelcomeReceived) => {
                self.phase = PairPhase::Committing { ch };
                PairAction::Commit { channel: pairing_channel(ch) }
            },
            (PairPhase::Committing { ch }, PairEvent::Committed) => {
                if ch + 1 < PAIRING_CHANNEL_COUNT {
                    self.phase = PairPhase::Generating { ch: ch + 1 };
                    PairAction::Generate { channel: pairing_channel(ch + 1) }
                } else if self.standalone {
                    self.phase = PairPhase::Delivering;
                    PairAction::DeliverConfig
                } else {
                    self.phase = PairPhase::Done;
                    PairAction::Finish
                }
            },
            (PairPhase::Delivering, PairEvent::ConfigDelivered) => {
                self.phase = PairPhase::Done;
                PairAction::Finish
            },
            _ => {
                self.phase = PairPhase::Failed;
                PairAction::Abort
            },
        }
    }
}

} // verus!
