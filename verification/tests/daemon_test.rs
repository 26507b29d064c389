use nexus_de::config::NexusConfig;
use nexus_de::tier::NexusTier;

#[test]
fn test_config_tier_switching() {
    let mut config = NexusConfig::default();
    assert_eq!(config.general.tier, NexusTier::Core);

    config.general.tier = NexusTier::Hyper;
    assert_eq!(config.general.tier, NexusTier::Hyper);
    assert!(config.general.tier.has_glass_effects());
    assert!(config.general.tier.has_control_center());

    config.general.tier = NexusTier::Minimal;
    assert_eq!(config.general.tier, NexusTier::Minimal);
    assert!(!config.general.tier.has_glass_effects());
    assert!(!config.general.tier.has_control_center());
}
