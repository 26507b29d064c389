use vstd::prelude::*;

verus! {

/// Operating tiers supported by the NEXUS desktop environment.
#[derive(Debug, Clone, Copy, PartialEq, Eq, Structural, PartialOrd, Ord, Hash)]
pub enum NexusTier {
    /// Low footprint, hardware acceleration, minimal animations.
    Minimal,
    /// Balanced experience, spring physics, launcher, widgets.
    Core,
    /// Maximum fidelity, glassmorphism, live wallpaper, control center.
    Hyper,
}

/// The numeric identifier of a tier: 1, 2 or 3.
pub open spec fn tier_id(t: NexusTier) -> u8 {
    match t {
        NexusTier::Minimal => 1,
        NexusTier::Core => 2,
        NexusTier::Hyper => 3,
    }
}

/// The tier whose identifier is `v`, if any.
pub open spec fn tier_of_id(v: u8) -> Option<NexusTier> {
    if v == 1 {
        Some(NexusTier::Minimal)
    } else if v == 2 {
        Some(NexusTier::Core)
    } else if v == 3 {
        Some(NexusTier::Hyper)
    } else {
        None
    }
}

impl NexusTier {
    /// Convert an integer (1..=3) to a tier.
    pub fn from_u8(val: u8) -> (res: Option<Self>)
        ensures
            res == tier_of_id(val),
            res is Some <==> 1 <= val <= 3,
    {
        match val {
            1 => Some(NexusTier::Minimal),
            2 => Some(NexusTier::Core),
            3 => Some(NexusTier::Hyper),
            _ => None,
        }
    }

    /// The numeric identifier of the tier.
    pub fn to_u8(self) -> (res: u8)
        ensures
            res == tier_id(self),
            1 <= res <= 3,
    {
        match self {
            NexusTier::Minimal => 1,
            NexusTier::Core => 2,
            NexusTier::Hyper => 3,
        }
    }

    /// Human-readable label of the tier.
    pub fn label(self) -> (res: &'static str)
        ensures
            res@ == tier_label(self),
    {
        match self {
            NexusTier::Minimal => "NEXUS Minimal",
            NexusTier::Core => "NEXUS Core",
            NexusTier::Hyper => "NEXUS Hyper",
        }
    }

    /// Whether desktop blur and frosted glass effects are enabled.
    pub fn has_glass_effects(self) -> (res: bool)
        ensures
            res == tier_has_glass(self),
    {
        match self {
            NexusTier::Minimal => false,
            _ => true,
        }
    }

    /// Whether desktop widgets and dynamic hosts are active.
    pub fn has_widgets(self) -> (res: bool)
        ensures
            res == tier_has_widgets(self),
    {
        match self {
            NexusTier::Minimal => false,
            _ => true,
        }
    }

    /// Whether the advanced control center drawer is active.
    pub fn has_control_center(self) -> (res: bool)
        ensures
            res == tier_has_control_center(self),
    {
        match self {
            NexusTier::Hyper => true,
            _ => false,
        }
    }
}

/// Glass effects are on in the Core and Hyper tiers.
pub open spec fn tier_has_glass(t: NexusTier) -> bool {
    t == NexusTier::Core || t == NexusTier::Hyper
}

/// Widgets are on in the Core and Hyper tiers.
pub open spec fn tier_has_widgets(t: NexusTier) -> bool {
    t == NexusTier::Core || t == NexusTier::Hyper
}

/// The control center is on in the Hyper tier only.
pub open spec fn tier_has_control_center(t: NexusTier) -> bool {
    t == NexusTier::Hyper
}

/// The label text of a tier.
pub open spec fn tier_label(t: NexusTier) -> Seq<char> {
    match t {
        NexusTier::Minimal => "NEXUS Minimal"@,
        NexusTier::Core => "NEXUS Core"@,
        NexusTier::Hyper => "NEXUS Hyper"@,
    }
}

impl Default for NexusTier {
    /// The balanced tier is the default.
    fn default() -> (res: Self)
        ensures
            res == NexusTier::Core,
    {
        NexusTier::Core
    }
}

/// Converting a tier to its identifier and back gives the same tier.
pub proof fn lemma_tier_id_roundtrip(t: NexusTier)
    ensures
        tier_of_id(tier_id(t)) == Some(t),
{
}

/// An identifier that names a tier is that tier's identifier.
pub proof fn lemma_tier_of_id_inverse(v: u8)
    ensures
        tier_of_id(v) matches Some(t) ==> tier_id(t) == v,
        tier_of_id(v) is Some <==> 1 <= v <= 3,
{
}

/// Distinct tiers have distinct identifiers and distinct labels.
pub proof fn lemma_tier_id_and_label_injective(a: NexusTier, b: NexusTier)
    requires
        a != b,
    ensures
        tier_id(a) != tier_id(b),
        tier_label(a) != tier_label(b),
{
    reveal_strlit("NEXUS Minimal");
    reveal_strlit("NEXUS Core");
    reveal_strlit("NEXUS Hyper");
    if tier_label(a) == tier_label(b) {
        assert(tier_label(a).len() == tier_label(b).len());
        assert(tier_label(a)[6] == tier_label(b)[6]);
    }
}

/// The features a tier enables only grow with the tier's identifier: a higher tier
/// keeps every feature of a lower one, and the control center implies glass and widgets.
pub proof fn lemma_features_monotone(a: NexusTier, b: NexusTier)
    requires
        tier_id(a) <= tier_id(b),
    ensures
        tier_has_glass(a) ==> tier_has_glass(b),
        tier_has_widgets(a) ==> tier_has_widgets(b),
        tier_has_control_center(a) ==> tier_has_control_center(b),
{
}

/// The control center is only offered where glass effects and widgets are on.
pub proof fn lemma_control_center_implies_other_features(t: NexusTier)
    ensures
        tier_has_control_center(t) ==> tier_has_glass(t) && tier_has_widgets(t),
        tier_has_glass(t) == tier_has_widgets(t),
{
}

} // verus!
