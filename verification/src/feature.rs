//! The catalogue of features, the functions they offer, and the table that
//! maps a feature to the index a device has assigned it.
use std::collections::HashMap;
use vstd::prelude::*;

verus! {

/// A logical capability of a device. The protocol fixes a 16-bit identifier
/// for each; a device assigns each one it supports an 8-bit index of its own.
#[derive(Clone, Copy, Debug, PartialEq, Eq, Hash, Structural)]
pub enum Feature {
    Root,
    FeatureSet,
    FeatureInfo,
    FirmwareInfo,
    DeviceUnitId,
    DeviceNameType,
    BatteryLevelStatus,
    UnifiedBattery,
}

/// A command of one feature. Opcodes are local to the feature: the same
/// number means different things under different features.
#[derive(Clone, Copy, Debug, PartialEq, Eq, Hash, Structural)]
pub enum Function {
    RootGetFeature,
    RootGetProtocolVersion,
    UnifiedBatteryGetCapabilities,
    UnifiedBatteryGetStatus,
}

impl Feature {
    /// The identifier that the protocol fixes for the feature.
    pub open spec fn identifier(self) -> u16 {
        match self {
            Feature::Root => 0x0000,
            Feature::FeatureSet => 0x0001,
            Feature::FeatureInfo => 0x0002,
            Feature::FirmwareInfo => 0x0003,
            Feature::DeviceUnitId => 0x0004,
            Feature::DeviceNameType => 0x0005,
            Feature::BatteryLevelStatus => 0x1000,
            Feature::UnifiedBattery => 0x1004,
        }
    }

    /// Every feature, once, in the order of declaration.
    pub open spec fn catalog() -> Seq<Feature> {
        seq![
            Feature::Root,
            Feature::FeatureSet,
            Feature::FeatureInfo,
            Feature::FirmwareInfo,
            Feature::DeviceUnitId,
            Feature::DeviceNameType,
            Feature::BatteryLevelStatus,
            Feature::UnifiedBattery,
        ]
    }

    /// The place of the feature in [`Feature::catalog`].
    pub open spec fn ordinal(self) -> int {
        match self {
            Feature::Root => 0,
            Feature::FeatureSet => 1,
            Feature::FeatureInfo => 2,
            Feature::FirmwareInfo => 3,
            Feature::DeviceUnitId => 4,
            Feature::DeviceNameType => 5,
            Feature::BatteryLevelStatus => 6,
            Feature::UnifiedBattery => 7,
        }
    }

    /// The feature that follows this one in [`Feature::catalog`], if any.
    pub open spec fn following(self) -> Option<Feature> {
        if self.ordinal() + 1 < Feature::catalog().len() {
            Some(Feature::catalog()[self.ordinal() + 1])
        } else {
            None
        }
    }

    /// The feature's protocol identifier.
    pub fn value(&self) -> (id: u16)
        ensures
            id == self.identifier(),
    {
        match self {
            Feature::Root => 0x0000,
            Feature::FeatureSet => 0x0001,
            Feature::FeatureInfo => 0x0002,
            Feature::FirmwareInfo => 0x0003,
            Feature::DeviceUnitId => 0x0004,
            Feature::DeviceNameType => 0x0005,
            Feature::BatteryLevelStatus => 0x1000,
            Feature::UnifiedBattery => 0x1004,
        }
    }

    /// The catalogue as a vector: every feature, once, `Root` first.
    pub fn all() -> (features: Vec<Feature>)
        ensures
            features@ == Feature::catalog(),
    {
        let features = vec![
            Feature::Root,
            Feature::FeatureSet,
            Feature::FeatureInfo,
            Feature::FirmwareInfo,
            Feature::DeviceUnitId,
            Feature::DeviceNameType,
            Feature::BatteryLevelStatus,
            Feature::UnifiedBattery,
        ];
        assert(features@ =~= Feature::catalog());
        features
    }

    /// The feature after this one in the catalogue; `None` after the last.
    pub fn next(&self) -> (next: Option<Feature>)
        ensures
            next == self.following(),
    {
        match self {
            Feature::Root => Some(Feature::FeatureSet),
            Feature::FeatureSet => Some(Feature::FeatureInfo),
            Feature::FeatureInfo => Some(Feature::FirmwareInfo),
            Feature::FirmwareInfo => Some(Feature::DeviceUnitId),
            Feature::DeviceUnitId => Some(Feature::DeviceNameType),
            Feature::DeviceNameType => Some(Feature::BatteryLevelStatus),
            Feature::BatteryLevelStatus => Some(Feature::UnifiedBattery),
            Feature::UnifiedBattery => None,
        }
    }

    /// No two features share an identifier.
    pub proof fn lemma_identifier_injective(a: Feature, b: Feature)
        requires
            a.identifier() == b.identifier(),
        ensures
            a == b,
    {
    }

    /// The catalogue is total and without repetition: each feature stands in
    /// it at its ordinal and nowhere else.
    pub proof fn lemma_catalog_total(f: Feature)
        ensures
            Feature::catalog().len() == 8,
            0 <= f.ordinal() < 8,
            Feature::catalog()[f.ordinal()] == f,
            forall|i: int|
                0 <= i < 8 && #[trigger] Feature::catalog()[i] == f ==> i == f.ordinal(),
            Feature::catalog()[0] == Feature::Root,
    {
    }
}

impl Function {
    /// The opcode of the function under the feature that owns it.
    pub open spec fn opcode(self) -> u8 {
        match self {
            Function::RootGetFeature => 0x00,
            Function::RootGetProtocolVersion => 0x01,
            Function::UnifiedBatteryGetCapabilities => 0x00,
            Function::UnifiedBatteryGetStatus => 0x01,
        }
    }

    /// The feature whose command this is.
    pub open spec fn owner(self) -> Feature {
        match self {
            Function::RootGetFeature => Feature::Root,
            Function::RootGetProtocolVersion => Feature::Root,
            Function::UnifiedBatteryGetCapabilities => Feature::UnifiedBattery,
            Function::UnifiedBatteryGetStatus => Feature::UnifiedBattery,
        }
    }

    /// The function's opcode.
    pub fn value(&self) -> (opcode: u8)
        ensures
            opcode == self.opcode(),
    {
        match self {
            Function::RootGetFeature => 0x00,
            Function::RootGetProtocolVersion => 0x01,
            Function::UnifiedBatteryGetCapabilities => 0x00,
            Function::UnifiedBatteryGetStatus => 0x01,
        }
    }

    /// The feature that owns the function.
    pub fn feature(&self) -> (feature: Feature)
        ensures
            feature == self.owner(),
    {
        match self {
            Function::RootGetFeature => Feature::Root,
            Function::RootGetProtocolVersion => Feature::Root,
            Function::UnifiedBatteryGetCapabilities => Feature::UnifiedBattery,
            Function::UnifiedBatteryGetStatus => Feature::UnifiedBattery,
        }
    }
}

/// The runtime indices that a device has assigned to features in this
/// session. A feature has at most one entry; a feature without an entry is
/// unresolved or unsupported.
#[derive(Clone, Debug)]
pub struct FeatureIndexTable {
    indices: HashMap<u16, u8>,
}

impl View for FeatureIndexTable {
    type V = Map<Feature, u8>;

    closed spec fn view(&self) -> Map<Feature, u8> {
        Map::new(
            |f: Feature| self.indices@.contains_key(f.identifier()),
            |f: Feature| self.indices@[f.identifier()],
        )
    }
}

impl FeatureIndexTable {
    /// What a lookup of `feature` in a table with contents `table` yields.
    pub open spec fn lookup(table: Map<Feature, u8>, feature: Feature) -> Option<u8> {
        if table.contains_key(feature) {
            Some(table[feature])
        } else {
            None
        }
    }

    /// A table holds at most one index for each feature of the catalogue,
    /// so never more than eight entries.
    pub proof fn lemma_table_bounded(table: Map<Feature, u8>)
        ensures
            table.dom().finite(),
            table.dom().len() <= Feature::catalog().len(),
    {
        let features = Feature::catalog().to_set();
        vstd::seq_lib::seq_to_set_is_finite(Feature::catalog());
        Feature::catalog().lemma_cardinality_of_set();
        assert forall|f: Feature| table.dom().contains(f) implies features.contains(f) by {
            Feature::lemma_catalog_total(f);
        }
        assert(table.dom().subset_of(features));
        vstd::set_lib::lemma_len_subset(table.dom(), features);
    }

    /// A table without entries.
    pub fn new() -> (table: FeatureIndexTable)
        ensures
            table@ == Map::<Feature, u8>::empty(),
    {
        let table = FeatureIndexTable { indices: HashMap::new() };
        assert(table@ =~= Map::<Feature, u8>::empty());
        table
    }

    /// Records `index` for `feature`, in place of any index it had.
    pub fn insert(&mut self, feature: Feature, index: u8)
        ensures
            final(self)@ == old(self)@.insert(feature, index),
    {
        broadcast use vstd::std_specs::hash::group_hash_axioms;

        self.indices.insert(feature.value(), index);
        assert(self@ =~= old(self)@.insert(feature, index));
    }

    /// The index recorded for `feature`, if there is one.
    pub fn get(&self, feature: Feature) -> (index: Option<u8>)
        ensures
            index == Self::lookup(self@, feature),
    {
        broadcast use vstd::std_specs::hash::group_hash_axioms;

        match self.indices.get(&feature.value()) {
            Some(index) => Some(*index),
            None => None,
        }
    }
}

} // verus!
