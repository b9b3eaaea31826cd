use secluso_core::pairing::{
    join_credentials_payload, PairAction, PairError, PairEvent, PairPhase, PairingEngine,
    PAIRING_SECRET_LEN,
};
use secluso_core::registry::{ChannelId, ChannelLockRegistry};

fn good_secret() -> Vec<u8> {
    vec![7u8; PAIRING_SECRET_LEN]
}

/// A secret whose length differs from the required fixed length is refused
/// before any network connection: no engine exists to direct one.
#[test]
fn short_secret_refused_before_any_connection() {
    let reg = ChannelLockRegistry::new();
    let cam = "cam1".to_string();
    let secret = vec![7u8; PAIRING_SECRET_LEN - 1];
    let r = PairingEngine::start(&reg, &cam, &secret, false);
    assert_eq!(r.unwrap_err(), PairError::WrongSecretLength);
    let long = vec![7u8; PAIRING_SECRET_LEN + 1];
    let r = PairingEngine::start(&reg, &cam, &long, false);
    assert_eq!(r.unwrap_err(), PairError::WrongSecretLength);
}

/// A device name already present among active devices is refused before any
/// network connection, even with a good secret.
#[test]
fn duplicate_device_name_refused_before_any_connection() {
    let mut reg = ChannelLockRegistry::new();
    let cam = "cam1".to_string();
    let idx = reg.resolve(&cam, ChannelId::Motion);
    reg.set_session_model(idx, Some("group-cam1".to_string()));
    let r = PairingEngine::start(&reg, &cam, &good_secret(), false);
    assert_eq!(r.unwrap_err(), PairError::DuplicateDeviceName);
}

#[test]
fn duplicate_name_outranks_bad_secret() {
    let mut reg = ChannelLockRegistry::new();
    let cam = "cam1".to_string();
    let idx = reg.resolve(&cam, ChannelId::Motion);
    reg.set_session_model(idx, Some("group-cam1".to_string()));
    let r = PairingEngine::start(&reg, &cam, &vec![1u8, 2], false);
    assert_eq!(r.unwrap_err(), PairError::DuplicateDeviceName);
}

fn run_channel(engine: &mut PairingEngine, channel: ChannelId) {
    assert_eq!(engine.step(PairEvent::Generated), PairAction::SendPairingMsg { channel });
    assert_eq!(engine.step(PairEvent::Sent), PairAction::ReceivePeer { channel });
    assert_eq!(engine.step(PairEvent::PeerReceived), PairAction::ReceiveWelcome { channel });
    assert_eq!(engine.step(PairEvent::WelcomeReceived), PairAction::Commit { channel });
}

#[test]
fn handshake_walks_every_channel_in_order() {
    let reg = ChannelLockRegistry::new();
    let cam = "cam1".to_string();
    let mut engine = PairingEngine::start(&reg, &cam, &good_secret(), false).unwrap();
    assert_eq!(engine.first_action(), PairAction::Connect);
    assert_eq!(
        engine.step(PairEvent::Connected),
        PairAction::Generate { channel: ChannelId::Motion }
    );
    run_channel(&mut engine, ChannelId::Motion);
    assert_eq!(
        engine.step(PairEvent::Committed),
        PairAction::Generate { channel: ChannelId::Livestream }
    );
    run_channel(&mut engine, ChannelId::Livestream);
    assert_eq!(
        engine.step(PairEvent::Committed),
        PairAction::Generate { channel: ChannelId::Fcm }
    );
    run_channel(&mut engine, ChannelId::Fcm);
    assert_eq!(
        engine.step(PairEvent::Committed),
        PairAction::Generate { channel: ChannelId::Config }
    );
    run_channel(&mut engine, ChannelId::Config);
    assert_eq!(engine.step(PairEvent::Committed), PairAction::Finish);
    assert_eq!(engine.phase, PairPhase::Done);
}

#[test]
fn standalone_device_gets_its_configuration_last() {
    let reg = ChannelLockRegistry::new();
    let cam = "cam1".to_string();
    let mut engine = PairingEngine::start(&reg, &cam, &good_secret(), true).unwrap();
    engine.step(PairEvent::Connected);
    for channel in [ChannelId::Motion, ChannelId::Livestream, ChannelId::Fcm, ChannelId::Config] {
        run_channel(&mut engine, channel);
        engine.step(PairEvent::Committed);
    }
    assert_eq!(engine.phase, PairPhase::Delivering);
    assert_eq!(engine.step(PairEvent::ConfigDelivered), PairAction::Finish);
    assert_eq!(engine.phase, PairPhase::Done);
}

#[test]
fn any_failure_aborts_the_attempt() {
    let reg = ChannelLockRegistry::new();
    let cam = "cam1".to_string();
    let mut engine = PairingEngine::start(&reg, &cam, &good_secret(), false).unwrap();
    engine.step(PairEvent::Connected);
    assert_eq!(engine.step(PairEvent::StepFailed), PairAction::Abort);
    assert_eq!(engine.phase, PairPhase::Failed);
    // A dead engine answers nothing but Abort.
    assert_eq!(engine.step(PairEvent::Generated), PairAction::Abort);
}

#[test]
fn out_of_order_event_aborts() {
    let reg = ChannelLockRegistry::new();
    let cam = "cam1".to_string();
    let mut engine = PairingEngine::start(&reg, &cam, &good_secret(), false).unwrap();
    assert_eq!(engine.step(PairEvent::Committed), PairAction::Abort);
    assert_eq!(engine.phase, PairPhase::Failed);
}

#[test]
fn join_credentials_encode_as_the_expected_json() {
    let payload = join_credentials_payload(&"home-net".to_string(), &"hunter2".to_string());
    assert_eq!(
        String::from_utf8(payload).unwrap(),
        r#"{"passphrase":"hunter2","ssid":"home-net"}"#
    );
}
