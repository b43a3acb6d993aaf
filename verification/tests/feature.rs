use hidpp::{Feature, FeatureIndexTable, Function};

#[test]
fn feature_identifiers() {
    assert_eq!(Feature::Root.value(), 0x0000);
    assert_eq!(Feature::FeatureSet.value(), 0x0001);
    assert_eq!(Feature::FeatureInfo.value(), 0x0002);
    assert_eq!(Feature::FirmwareInfo.value(), 0x0003);
    assert_eq!(Feature::DeviceUnitId.value(), 0x0004);
    assert_eq!(Feature::DeviceNameType.value(), 0x0005);
    assert_eq!(Feature::BatteryLevelStatus.value(), 0x1000);
    assert_eq!(Feature::UnifiedBattery.value(), 0x1004);
}

#[test]
fn catalog_lists_every_feature_once() {
    let all = Feature::all();
    assert_eq!(
        all,
        vec![
            Feature::Root,
            Feature::FeatureSet,
            Feature::FeatureInfo,
            Feature::FirmwareInfo,
            Feature::DeviceUnitId,
            Feature::DeviceNameType,
            Feature::BatteryLevelStatus,
            Feature::UnifiedBattery,
        ]
    );
    for (i, a) in all.iter().enumerate() {
        for (j, b) in all.iter().enumerate() {
            assert_eq!(a.value() == b.value(), i == j);
        }
    }
}

#[test]
fn next_walks_the_catalog() {
    let all = Feature::all();
    for i in 0..all.len() {
        assert_eq!(all[i].next(), all.get(i + 1).copied());
    }
    assert_eq!(Feature::Root.next(), Some(Feature::FeatureSet));
    assert_eq!(Feature::UnifiedBattery.next(), None);
}

#[test]
fn function_opcodes_are_local_to_their_feature() {
    assert_eq!(Function::RootGetFeature.value(), 0x00);
    assert_eq!(Function::RootGetProtocolVersion.value(), 0x01);
    assert_eq!(Function::UnifiedBatteryGetCapabilities.value(), 0x00);
    assert_eq!(Function::UnifiedBatteryGetStatus.value(), 0x01);
    assert_eq!(Function::RootGetFeature.feature(), Feature::Root);
    assert_eq!(Function::RootGetProtocolVersion.feature(), Feature::Root);
    assert_eq!(Function::UnifiedBatteryGetCapabilities.feature(), Feature::UnifiedBattery);
    assert_eq!(Function::UnifiedBatteryGetStatus.feature(), Feature::UnifiedBattery);
}

#[test]
fn table_starts_empty() {
    let table = FeatureIndexTable::new();
    for feature in Feature::all() {
        assert_eq!(table.get(feature), None);
    }
}

#[test]
fn table_keeps_one_entry_per_feature() {
    let mut table = FeatureIndexTable::new();
    table.insert(Feature::Root, 0);
    table.insert(Feature::UnifiedBattery, 6);
    assert_eq!(table.get(Feature::Root), Some(0));
    assert_eq!(table.get(Feature::UnifiedBattery), Some(6));
    assert_eq!(table.get(Feature::BatteryLevelStatus), None);
    table.insert(Feature::UnifiedBattery, 9);
    assert_eq!(table.get(Feature::UnifiedBattery), Some(9));
    assert_eq!(table.get(Feature::Root), Some(0));
}
