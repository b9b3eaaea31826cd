use secluso_core::registry::{
    AcquireOutcome, ChannelId, ChannelLockRegistry, InitDecision, InitParams,
};

#[test]
fn resolve_creates_one_slot_per_key() {
    let mut reg = ChannelLockRegistry::new();
    let cam = "cam1".to_string();
    let a = reg.resolve(&cam, ChannelId::Motion);
    assert_eq!(reg.slots.len(), 1);
    let b = reg.resolve(&cam, ChannelId::Motion);
    assert_eq!(a, b);
    assert_eq!(reg.slots.len(), 1);
    let c = reg.resolve(&cam, ChannelId::Livestream);
    assert_ne!(a, c);
    assert_eq!(reg.slots.len(), 2);
    let other = "cam2".to_string();
    reg.resolve(&other, ChannelId::Motion);
    assert_eq!(reg.slots.len(), 3);
    // Resolving every key again adds nothing.
    reg.resolve(&cam, ChannelId::Motion);
    reg.resolve(&cam, ChannelId::Livestream);
    reg.resolve(&other, ChannelId::Motion);
    assert_eq!(reg.slots.len(), 3);
}

#[test]
fn held_slot_answers_busy_with_the_holder() {
    let mut reg = ChannelLockRegistry::new();
    let cam = "cam1".to_string();
    let idx = reg.resolve(&cam, ChannelId::Config);
    match reg.acquire(idx, "heartbeat".to_string()) {
        AcquireOutcome::Acquired => {},
        AcquireOutcome::Busy { .. } => panic!("a fresh slot must be free"),
    }
    match reg.acquire(idx, "settings".to_string()) {
        AcquireOutcome::Busy { holder } => assert_eq!(holder, "heartbeat"),
        AcquireOutcome::Acquired => panic!("a held slot must answer busy"),
    }
    reg.release(idx);
    match reg.acquire(idx, "settings".to_string()) {
        AcquireOutcome::Acquired => {},
        AcquireOutcome::Busy { .. } => panic!("a released slot must be free"),
    }
}

#[test]
fn params_are_recorded_and_looked_up() {
    let mut reg = ChannelLockRegistry::new();
    let cam = "cam1".to_string();
    assert!(reg.lookup_params(&cam).is_none());
    reg.record_params(&cam, InitParams { storage_dir: "/data".to_string(), first_time: true });
    let p = reg.lookup_params(&cam).unwrap();
    assert_eq!(p.storage_dir, "/data");
    assert!(p.first_time);
    reg.record_params(&cam, InitParams { storage_dir: "/data".to_string(), first_time: false });
    assert!(!reg.lookup_params(&cam).unwrap().first_time);
    assert_eq!(reg.init_params.len(), 1);
}

#[test]
fn init_decision_follows_slot_and_params() {
    let mut reg = ChannelLockRegistry::new();
    let cam = "cam1".to_string();
    let idx = reg.resolve(&cam, ChannelId::Motion);
    assert!(matches!(reg.init_decision(idx), InitDecision::NoParams));
    reg.record_params(&cam, InitParams { storage_dir: "/d".to_string(), first_time: true });
    match reg.init_decision(idx) {
        InitDecision::Construct { storage_dir, first_time } => {
            assert_eq!(storage_dir, "/d");
            assert!(first_time);
        },
        _ => panic!("expected construction from recorded parameters"),
    }
    reg.set_session_model(idx, None);
    assert!(matches!(reg.init_decision(idx), InitDecision::AlreadyLive));
}

#[test]
fn device_is_active_once_a_channel_has_a_group() {
    let mut reg = ChannelLockRegistry::new();
    let cam = "cam1".to_string();
    let idx = reg.resolve(&cam, ChannelId::Motion);
    assert!(!reg.is_device_active(&cam));
    reg.set_session_model(idx, None);
    assert!(!reg.is_device_active(&cam));
    reg.set_session_model(idx, Some("group-cam1-motion".to_string()));
    assert!(reg.is_device_active(&cam));
}

#[test]
fn remove_device_drops_its_slots_and_params_only() {
    let mut reg = ChannelLockRegistry::new();
    let cam = "cam1".to_string();
    let other = "cam2".to_string();
    reg.resolve(&cam, ChannelId::Motion);
    reg.resolve(&cam, ChannelId::Config);
    let kept = reg.resolve(&other, ChannelId::Motion);
    reg.set_session_model(kept, Some("g2".to_string()));
    reg.record_params(&cam, InitParams { storage_dir: "/a".to_string(), first_time: false });
    reg.record_params(&other, InitParams { storage_dir: "/b".to_string(), first_time: true });
    reg.remove_device(&cam);
    assert_eq!(reg.slots.len(), 1);
    assert_eq!(reg.slots[0].device, "cam2");
    assert!(reg.lookup_params(&cam).is_none());
    assert_eq!(reg.lookup_params(&other).unwrap().storage_dir, "/b");
    assert!(reg.is_device_active(&other));
}

#[test]
fn group_name_follows_the_session_model() {
    let mut reg = ChannelLockRegistry::new();
    let cam = "cam1".to_string();
    assert!(reg.group_name_of(&cam, ChannelId::Motion).is_none());
    let idx = reg.resolve(&cam, ChannelId::Motion);
    assert!(reg.group_name_of(&cam, ChannelId::Motion).is_none());
    reg.set_session_model(idx, None);
    assert!(reg.group_name_of(&cam, ChannelId::Motion).is_none());
    reg.set_session_model(idx, Some("group-m".to_string()));
    assert_eq!(reg.group_name_of(&cam, ChannelId::Motion).unwrap(), "group-m");
    assert!(reg.group_name_of(&cam, ChannelId::Config).is_none());
}
