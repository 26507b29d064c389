use nexus_de::tier::NexusTier;

#[test]
fn test_tier_conversions() {
    assert_eq!(NexusTier::from_u8(1), Some(NexusTier::Minimal));
    assert_eq!(NexusTier::from_u8(2), Some(NexusTier::Core));
    assert_eq!(NexusTier::from_u8(3), Some(NexusTier::Hyper));
    assert_eq!(NexusTier::from_u8(0), None);
    assert_eq!(NexusTier::from_u8(4), None);

    assert_eq!(NexusTier::Minimal.to_u8(), 1);
    assert_eq!(NexusTier::Core.to_u8(), 2);
    assert_eq!(NexusTier::Hyper.to_u8(), 3);
}

#[test]
fn test_tier_features() {
    assert!(!NexusTier::Minimal.has_glass_effects());
    assert!(NexusTier::Core.has_glass_effects());
    assert!(NexusTier::Hyper.has_glass_effects());

    assert!(!NexusTier::Minimal.has_control_center());
    assert!(!NexusTier::Core.has_control_center());
    assert!(NexusTier::Hyper.has_control_center());
}

#[test]
fn tier_id_roundtrip_for_every_tier() {
    for t in [NexusTier::Minimal, NexusTier::Core, NexusTier::Hyper] {
        assert_eq!(NexusTier::from_u8(t.to_u8()), Some(t));
    }
    for v in 0u8..=255 {
        match NexusTier::from_u8(v) {
            Some(t) => assert_eq!(t.to_u8(), v),
            None => assert!(v == 0 || v > 3),
        }
    }
}

#[test]
fn tier_labels() {
    assert_eq!(NexusTier::Minimal.label(), "NEXUS Minimal");
    assert_eq!(NexusTier::Core.label(), "NEXUS Core");
    assert_eq!(NexusTier::Hyper.label(), "NEXUS Hyper");
}

#[test]
fn tier_widgets_follow_glass() {
    assert!(!NexusTier::Minimal.has_widgets());
    assert!(NexusTier::Core.has_widgets());
    assert!(NexusTier::Hyper.has_widgets());
    for t in [NexusTier::Minimal, NexusTier::Core, NexusTier::Hyper] {
        assert_eq!(t.has_widgets(), t.has_glass_effects());
        if t.has_control_center() {
            assert!(t.has_glass_effects());
        }
    }
}

#[test]
fn tier_default_is_core() {
    assert_eq!(NexusTier::default(), NexusTier::Core);
}
