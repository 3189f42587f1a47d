use btern_translator::{
    translates, EnumMap, EnumTranslator, TranslationPreference, TranslationResult, ValueKind,
    ValueRepr, VariableInfo, VariableMeta, VariableType, VariableValue,
};

fn table(entries: &[(&str, &str)]) -> EnumMap {
    let mut m = EnumMap::new();
    for (k, v) in entries {
        m.insert(k.to_string(), v.to_string());
    }
    m
}

fn meta(
    variable_type: Option<VariableType>,
    declared: Option<&str>,
    num_bits: Option<u32>,
    enum_map: EnumMap,
) -> VariableMeta {
    VariableMeta {
        num_bits,
        variable_type,
        variable_type_name: declared.map(|s| s.to_string()),
        enum_map,
    }
}

fn text(s: &str) -> VariableValue {
    VariableValue::String(s.to_string())
}

fn string(label: &str, kind: ValueKind) -> TranslationResult {
    TranslationResult { val: ValueRepr::String(label.to_string()), subfields: vec![], kind }
}

fn states() -> EnumMap {
    table(&[("00", "idle"), ("01", "run"), ("10", "stop")])
}

#[test]
fn enum_translator_name() {
    assert_eq!(EnumTranslator {}.name(), "Enum");
}

#[test]
fn enum_translator_variable_info_is_bits() {
    let m = meta(None, None, None, states());
    assert_eq!(EnumTranslator {}.variable_info(&m), VariableInfo::Bits);
}

#[test]
fn enum_scalar_shows_the_name() {
    let m = meta(Some(VariableType::Enum), Some("state_t"), Some(2), states());
    let t = EnumTranslator {};
    assert_eq!(t.translate(&m, &text("01")), string("run", ValueKind::Normal));
    assert_eq!(t.translate(&m, &VariableValue::BigUint(vec![2])), string("stop", ValueKind::Normal));
    assert_eq!(t.translate(&m, &VariableValue::BigUint(vec![])), string("idle", ValueKind::Normal));
}

#[test]
fn enum_scalar_unknown_value_warns() {
    let m = meta(Some(VariableType::Enum), Some("state_t"), Some(2), states());
    let t = EnumTranslator {};
    assert_eq!(t.translate(&m, &text("11")), string("ERROR (11)", ValueKind::Warn));
    assert_eq!(t.translate(&m, &text("1")), string("ERROR (1)", ValueKind::Warn));
    assert_eq!(t.translate(&m, &VariableValue::BigUint(vec![3])), string("ERROR (11)", ValueKind::Warn));
    let empty = meta(None, None, Some(3), EnumMap::new());
    assert_eq!(t.translate(&empty, &VariableValue::BigUint(vec![1])), string("ERROR (001)", ValueKind::Warn));
}

#[test]
fn enum_array_shows_each_element() {
    let m = meta(Some(VariableType::EnumArray), None, Some(6), states());
    let t = EnumTranslator {};
    assert_eq!(t.translate(&m, &text("100100")), string("stoprunidle", ValueKind::Normal));
    assert_eq!(t.translate(&m, &VariableValue::BigUint(vec![0b01_10])), string("idlerunstop", ValueKind::Normal));
}

#[test]
fn enum_array_marks_unknown_elements() {
    let m = meta(Some(VariableType::EnumArray), None, Some(6), states());
    let t = EnumTranslator {};
    assert_eq!(t.translate(&m, &text("01x110")), string("runERROR(x1)stop", ValueKind::Warn));
    // A trailing partial element is dropped.
    assert_eq!(t.translate(&m, &text("01101")), string("runstop", ValueKind::Normal));
    assert_eq!(t.translate(&m, &text("")), string("", ValueKind::Normal));
}

#[test]
fn enum_array_with_empty_table_uses_single_bytes() {
    let m = meta(Some(VariableType::EnumArray), None, Some(3), EnumMap::new());
    let t = EnumTranslator {};
    assert_eq!(t.translate(&m, &text("01z")), string("ERROR(0)ERROR(1)ERROR(z)", ValueKind::Warn));
}

#[test]
fn enum_translates_only_tables_outside_ternary_types() {
    let t = EnumTranslator {};
    assert_eq!(t.translates(&meta(None, Some("state_t"), None, states())), TranslationPreference::Prefer);
    assert_eq!(t.translates(&meta(None, None, None, states())), TranslationPreference::Prefer);
    assert_eq!(t.translates(&meta(None, Some("state_t"), None, EnumMap::new())), TranslationPreference::No);
    for name in [
        "btern_ulogic",
        "btern_ulogic_vector",
        "btern_logic",
        "btern_logic_vector",
        "kleene",
        "kleene_vector",
    ] {
        assert_eq!(t.translates(&meta(None, Some(name), None, states())), TranslationPreference::No, "{name}");
    }
}

#[test]
fn translators_never_both_prefer() {
    let t = EnumTranslator {};
    for name in ["btern_ulogic", "kleene_vector", "state_t", "std_logic"] {
        let m = meta(None, Some(name), None, states());
        let ternary = translates(m.clone());
        let en = t.translates(&m);
        assert!(!(ternary == TranslationPreference::Prefer && en == TranslationPreference::Prefer), "{name}");
    }
}

#[test]
fn enum_map_get_after_insert() {
    let mut m = EnumMap::new();
    assert!(m.is_empty());
    assert_eq!(m.get("a"), None);
    m.insert("a".to_string(), "one".to_string());
    m.insert("b".to_string(), "two".to_string());
    assert!(!m.is_empty());
    assert_eq!(m.get("a").map(|s| s.as_str()), Some("one"));
    m.insert("a".to_string(), "uno".to_string());
    assert_eq!(m.get("a").map(|s| s.as_str()), Some("uno"));
    assert_eq!(m.get("b").map(|s| s.as_str()), Some("two"));
    assert_eq!(m.get("c"), None);
    assert_eq!(m.first_key_byte_len(), Some(1));
}

#[test]
fn enum_map_first_key_length_counts_bytes() {
    let m = table(&[("é0", "x")]);
    assert_eq!(m.first_key_byte_len(), Some(3));
    assert_eq!(EnumMap::new().first_key_byte_len(), None);
}

#[test]
fn enum_array_cuts_multibyte_keys_by_bytes() {
    let m = meta(Some(VariableType::EnumArray), None, None, table(&[("é", "e"), ("a", "a")]));
    let t = EnumTranslator {};
    // Elements are two bytes wide, the width of the first key.
    assert_eq!(t.translate(&m, &text("éé")), string("ee", ValueKind::Normal));
}

#[test]
fn enum_translation_ignores_table_order() {
    let forward = table(&[("00", "idle"), ("01", "run"), ("10", "stop")]);
    let backward = table(&[("10", "stop"), ("01", "run"), ("00", "idle")]);
    let t = EnumTranslator {};
    for ty in [Some(VariableType::EnumArray), Some(VariableType::Enum), None] {
        let m1 = meta(ty, Some("state_t"), Some(6), forward.clone());
        let m2 = meta(ty, Some("state_t"), Some(6), backward.clone());
        for v in [text("100100"), text("01"), text("01x110"), VariableValue::BigUint(vec![6])] {
            assert_eq!(t.translate(&m1, &v), t.translate(&m2, &v));
        }
        assert_eq!(t.translates(&m1), t.translates(&m2));
    }
}
