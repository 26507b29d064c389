use vstd::prelude::*;

verus! {

/// D-Bus service name of the daemon.
pub const NEXUS_DBUS_SERVICE: &'static str = "org.nexus.DE";

/// D-Bus object path of the daemon.
pub const NEXUS_DBUS_PATH: &'static str = "/org/nexus/DE";

/// D-Bus interface name of the daemon.
pub const NEXUS_DBUS_INTERFACE: &'static str = "org.nexus.DE";

} // verus!
