use nexus_de::dbus::{NEXUS_DBUS_INTERFACE, NEXUS_DBUS_PATH, NEXUS_DBUS_SERVICE};

#[test]
fn test_dbus_constants() {
    assert_eq!(NEXUS_DBUS_SERVICE, "org.nexus.DE");
    assert_eq!(NEXUS_DBUS_PATH, "/org/nexus/DE");
    assert_eq!(NEXUS_DBUS_INTERFACE, "org.nexus.DE");
}
