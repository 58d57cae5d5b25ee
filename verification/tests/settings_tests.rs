use pixel_stream::settings::{
    f64_bits_equal, PixelSettingCategory, PixelSettingField, PixelSettingKind, PixelSettingNumberRange,
    PixelSettingValue, PixelSettingsRegistry,
};

fn s(text: &str) -> String {
    text.to_string()
}

fn audio_category() -> PixelSettingCategory {
    PixelSettingCategory::new(s("audio"), s("Audio"))
        .with_order(2)
        .with_field(PixelSettingField::number(
            s("volume"),
            s("Volume"),
            0.5f64.to_bits(),
            PixelSettingNumberRange::new(0.0f64.to_bits(), 1.0f64.to_bits(), 0.1f64.to_bits()),
        ))
        .with_field(PixelSettingField::boolean(s("mute"), s("Mute"), false))
}

fn ids(registry: &PixelSettingsRegistry) -> Vec<String> {
    registry.categories().iter().map(|c| c.id.clone()).collect()
}

#[test]
fn categories_are_kept_in_id_order() {
    let mut registry = PixelSettingsRegistry::new();
    registry.publish_category(PixelSettingCategory::new(s("video"), s("Video")));
    registry.publish_category(audio_category());
    registry.publish_category(PixelSettingCategory::new(s("Zed"), s("Upper case sorts first")));
    assert_eq!(ids(&registry), vec![s("Zed"), s("audio"), s("video")]);
    assert_eq!(registry.revision(), 3);
}

#[test]
fn publishing_an_existing_id_replaces_it() {
    let mut registry = PixelSettingsRegistry::default();
    registry.publish_category(audio_category());
    registry.publish_category(PixelSettingCategory::new(s("audio"), s("Sound")));
    assert_eq!(ids(&registry), vec![s("audio")]);
    assert_eq!(registry.categories()[0].label, "Sound");
    assert!(registry.categories()[0].fields.is_empty());
    assert_eq!(registry.revision(), 2);
}

#[test]
fn blank_category_ids_are_ignored() {
    let mut registry = PixelSettingsRegistry::new();
    registry.publish_category(PixelSettingCategory::new(s(" \t\u{3000}"), s("Blank")));
    registry.publish_category(PixelSettingCategory::new(s(""), s("Empty")));
    assert!(registry.categories().is_empty());
    assert_eq!(registry.revision(), 0);
}

#[test]
fn removing_counts_only_real_removals() {
    let mut registry = PixelSettingsRegistry::new();
    registry.publish_category(audio_category());
    registry.remove_category("video");
    assert_eq!(registry.revision(), 1);
    registry.remove_category("audio");
    assert_eq!(registry.revision(), 2);
    assert!(registry.categories().is_empty());
}

#[test]
fn set_value_reports_real_changes_once() {
    let mut registry = PixelSettingsRegistry::new();
    registry.publish_category(audio_category());

    let changed = registry.set_value("audio", "mute", PixelSettingValue::Bool(true)).unwrap();
    assert_eq!(changed.category_id, "audio");
    assert_eq!(changed.field_id, "mute");
    assert_eq!(changed.value.as_bool(), Some(true));
    assert_eq!(registry.revision(), 2);
    assert_eq!(registry.categories()[0].fields[1].value.as_bool(), Some(true));

    assert!(registry.set_value("audio", "mute", PixelSettingValue::Bool(true)).is_none());
    assert_eq!(registry.revision(), 2);
    assert!(registry.set_value("audio", "missing", PixelSettingValue::Bool(true)).is_none());
    assert!(registry.set_value("video", "mute", PixelSettingValue::Bool(true)).is_none());
    assert_eq!(registry.revision(), 2);

    let changed = registry.set_value("audio", "volume", PixelSettingValue::Number(0.75f64.to_bits())).unwrap();
    assert_eq!(changed.value.as_number().map(f64::from_bits), Some(0.75));
    assert_eq!(registry.revision(), 3);
}

#[test]
fn numbers_compare_as_floats() {
    assert!(f64_bits_equal(0.0f64.to_bits(), (-0.0f64).to_bits()));
    assert!(f64_bits_equal(1.5f64.to_bits(), 1.5f64.to_bits()));
    assert!(!f64_bits_equal(f64::NAN.to_bits(), f64::NAN.to_bits()));
    assert!(!f64_bits_equal(1.0f64.to_bits(), 2.0f64.to_bits()));
    assert!(f64_bits_equal(f64::INFINITY.to_bits(), f64::INFINITY.to_bits()));

    let mut registry = PixelSettingsRegistry::new();
    registry.publish_category(audio_category());
    assert!(registry.set_value("audio", "volume", PixelSettingValue::Number(f64::NAN.to_bits())).is_some());
    assert!(registry.set_value("audio", "volume", PixelSettingValue::Number(f64::NAN.to_bits())).is_some());
    assert!(!PixelSettingValue::Number(1.0f64.to_bits()).equals(&PixelSettingValue::Bool(true)));
    assert!(PixelSettingValue::Text(s("a")).equals(&PixelSettingValue::Text(s("a"))));
}

#[test]
fn field_builders_and_accessors() {
    let choice = PixelSettingField::choice(s("mode"), s("Mode"), s("fast"), vec![s("fast"), s("slow")])
        .with_help(s("How to run"));
    assert_eq!(choice.value.as_text(), Some("fast"));
    assert_eq!(choice.value.as_number(), None);
    assert_eq!(choice.help.as_deref(), Some("How to run"));
    match &choice.kind {
        PixelSettingKind::Choice(options) => assert_eq!(options, &vec![s("fast"), s("slow")]),
        _ => panic!("a choice field"),
    }
    let text = PixelSettingField::text(s("name"), s("Name"), s("Ada"));
    assert_eq!(text.value.as_text(), Some("Ada"));
    let range = PixelSettingNumberRange::new(1, 2, 3).with_drag_step(4);
    assert_eq!((range.min, range.max, range.step, range.drag_step), (1, 2, 3, 4));
    assert_eq!(audio_category().order, 2);
    assert_eq!(audio_category().fields.len(), 2);
}
