use btern_translator::types::{severity, worse_kind};
use btern_translator::bits::to_raw;
use btern_translator::{
    name, translate, translates, variable_info, EnumMap, TranslateParams, TranslationPreference,
    TranslationResult, TriRail, ValueKind, ValueRepr, VariableInfo, VariableMeta, VariableValue,
};

fn meta(declared: Option<&str>, num_bits: Option<u32>) -> VariableMeta {
    VariableMeta {
        num_bits,
        variable_type: None,
        variable_type_name: declared.map(|s| s.to_string()),
        enum_map: EnumMap::new(),
    }
}

fn run(declared: &str, num_bits: Option<u32>, value: VariableValue) -> TranslationResult {
    translate(TranslateParams { variable: meta(Some(declared), num_bits), value })
}

fn text(s: &str) -> VariableValue {
    VariableValue::String(s.to_string())
}

fn trit(rail: TriRail, label: &str, kind: ValueKind) -> TranslationResult {
    TranslationResult { val: ValueRepr::Trit(rail, label.to_string()), subfields: vec![], kind }
}

fn string(label: &str, kind: ValueKind) -> TranslationResult {
    TranslationResult { val: ValueRepr::String(label.to_string()), subfields: vec![], kind }
}

#[test]
fn name_is_balanced_ternary() {
    assert_eq!(name(), "Balanced Ternary");
}

#[test]
fn translates_prefers_exactly_the_ternary_types() {
    for t in [
        "btern_ulogic",
        "btern_logic",
        "btern_ulogic_vector",
        "btern_logic_vector",
        "kleene",
        "kleene_vector",
    ] {
        assert_eq!(translates(meta(Some(t), None)), TranslationPreference::Prefer, "{t}");
    }
    assert_eq!(translates(meta(Some("std_ulogic"), None)), TranslationPreference::No);
    assert_eq!(translates(meta(Some("btern_ulogic_vectorx"), None)), TranslationPreference::No);
    assert_eq!(translates(meta(None, None)), TranslationPreference::No);
}

#[test]
fn variable_info_bool_for_scalars_bits_otherwise() {
    assert_eq!(variable_info(meta(Some("btern_ulogic"), None)), VariableInfo::Bool);
    assert_eq!(variable_info(meta(Some("btern_logic"), None)), VariableInfo::Bool);
    assert_eq!(variable_info(meta(Some("kleene"), None)), VariableInfo::Bool);
    assert_eq!(variable_info(meta(Some("kleene_vector"), None)), VariableInfo::Bits);
    assert_eq!(variable_info(meta(Some("btern_ulogic_vector"), None)), VariableInfo::Bits);
    assert_eq!(variable_info(meta(Some("other"), None)), VariableInfo::Bits);
    assert_eq!(variable_info(meta(None, None)), VariableInfo::Bits);
}

#[test]
fn btern_scalar_follows_the_ordinal_table() {
    let table = [
        ("0000", TriRail::Mid, "U", ValueKind::Undef),
        ("0001", TriRail::Mid, "X", ValueKind::Undef),
        ("0010", TriRail::Low, "-", ValueKind::Normal),
        ("0011", TriRail::Mid, "0", ValueKind::Normal),
        ("0100", TriRail::High, "+", ValueKind::Normal),
        ("0101", TriRail::Mid, "Z", ValueKind::HighImp),
        ("0110", TriRail::Mid, "W", ValueKind::Undef),
        ("0111", TriRail::Low, "L", ValueKind::Weak),
        ("1000", TriRail::Mid, "M", ValueKind::Weak),
        ("1001", TriRail::High, "H", ValueKind::Weak),
        ("1010", TriRail::Mid, "D", ValueKind::DontCare),
        ("1011", TriRail::Mid, "?", ValueKind::Undef),
        ("1111", TriRail::Mid, "?", ValueKind::Undef),
    ];
    for (bits, rail, label, kind) in table {
        assert_eq!(run("btern_ulogic", Some(4), text(bits)), trit(rail, label, kind), "{bits}");
        assert_eq!(run("btern_logic", Some(4), text(bits)), trit(rail, label, kind), "{bits}");
    }
}

#[test]
fn btern_scalar_non_binary_is_undefined() {
    let q = trit(TriRail::Mid, "?", ValueKind::Undef);
    assert_eq!(run("btern_ulogic", Some(4), text("x")), q);
    assert_eq!(run("btern_ulogic", Some(4), text("00z1")), q);
    assert_eq!(run("btern_ulogic", Some(4), text("0é01")), q);
}

#[test]
fn btern_scalar_reads_any_length_of_binary_digits() {
    // Leading zeros do not matter.
    assert_eq!(run("btern_ulogic", Some(4), text("000000100")), trit(TriRail::High, "+", ValueKind::Normal));
    assert_eq!(run("btern_ulogic", Some(4), text("11")), trit(TriRail::Mid, "0", ValueKind::Normal));
    // An empty text, or one above 255, reads as ordinal 0.
    assert_eq!(run("btern_ulogic", Some(4), text("")), trit(TriRail::Mid, "U", ValueKind::Undef));
    assert_eq!(run("btern_ulogic", Some(4), text("100000010")), trit(TriRail::Mid, "U", ValueKind::Undef));
    // 255 still fits, and is past the table.
    assert_eq!(run("btern_ulogic", Some(4), text("11111111")), trit(TriRail::Mid, "?", ValueKind::Undef));
}

#[test]
fn btern_scalar_from_number() {
    assert_eq!(run("btern_ulogic", Some(4), VariableValue::BigUint(vec![4])), trit(TriRail::High, "+", ValueKind::Normal));
    assert_eq!(run("btern_ulogic", Some(4), VariableValue::BigUint(vec![])), trit(TriRail::Mid, "U", ValueKind::Undef));
    assert_eq!(run("btern_ulogic", Some(4), VariableValue::BigUint(vec![9])), trit(TriRail::High, "H", ValueKind::Weak));
    assert_eq!(run("btern_ulogic", Some(4), VariableValue::BigUint(vec![0, 1])), trit(TriRail::Mid, "U", ValueKind::Undef));
}

#[test]
fn btern_vector_concatenates_labels() {
    assert_eq!(run("btern_ulogic_vector", Some(12), text("001000110100")), string("-0+", ValueKind::Normal));
    assert_eq!(run("btern_logic_vector", Some(8), VariableValue::BigUint(vec![0x24])), string("-+", ValueKind::Normal));
    assert_eq!(run("btern_ulogic_vector", Some(0), text("0010")), string("", ValueKind::Normal));
}

#[test]
fn btern_vector_takes_the_worst_kind() {
    assert_eq!(run("btern_ulogic_vector", Some(8), text("01110101")), string("LZ", ValueKind::HighImp));
    assert_eq!(run("btern_ulogic_vector", Some(12), text("101001110100")), string("DL+", ValueKind::Weak));
    assert_eq!(run("btern_ulogic_vector", Some(8), text("00000101")), string("UZ", ValueKind::Undef));
}

#[test]
fn btern_vector_marks_bad_elements() {
    assert_eq!(run("btern_ulogic_vector", Some(8), text("xxxx0100")), string("?+", ValueKind::Undef));
    // Missing elements show "?" too.
    assert_eq!(run("btern_ulogic_vector", Some(12), text("0100")), string("+??", ValueKind::Undef));
    assert_eq!(run("btern_ulogic_vector", Some(8), text("1111")), string("??", ValueKind::Undef));
    // A vector width that is not a multiple of 4 drops the remainder.
    assert_eq!(run("btern_ulogic_vector", Some(6), text("001000")), string("-", ValueKind::Normal));
}

#[test]
fn btern_vector_without_width_is_empty() {
    assert_eq!(run("btern_ulogic_vector", None, text("0010")), string("", ValueKind::Normal));
}

#[test]
fn kleene_scalar_follows_the_ordinal_table() {
    assert_eq!(run("kleene", Some(2), text("00")), trit(TriRail::Low, "false", ValueKind::Normal));
    assert_eq!(run("kleene", Some(2), text("01")), trit(TriRail::Mid, "unk", ValueKind::Warn));
    assert_eq!(run("kleene", Some(2), text("10")), trit(TriRail::High, "true", ValueKind::Normal));
    assert_eq!(run("kleene", Some(2), text("11")), trit(TriRail::Mid, "?", ValueKind::Undef));
    assert_eq!(run("kleene", Some(2), text("u")), trit(TriRail::Mid, "?", ValueKind::Undef));
    assert_eq!(run("kleene", Some(2), VariableValue::BigUint(vec![2])), trit(TriRail::High, "true", ValueKind::Normal));
}

#[test]
fn kleene_vector_concatenates_labels() {
    assert_eq!(run("kleene_vector", Some(6), text("000110")), string("falseunktrue", ValueKind::Normal));
    assert_eq!(run("kleene_vector", Some(6), text("11x0")), string("???", ValueKind::Normal));
    assert_eq!(run("kleene_vector", Some(4), VariableValue::BigUint(vec![1])), string("falseunk", ValueKind::Normal));
}

#[test]
fn unknown_type_shows_question_mark() {
    let r = translate(TranslateParams { variable: meta(Some("std_logic"), Some(1)), value: text("1") });
    assert_eq!(r, string("?", ValueKind::Undef));
    let r = translate(TranslateParams { variable: meta(None, None), value: text("1") });
    assert_eq!(r, string("?", ValueKind::Undef));
}

#[test]
fn numbers_are_zero_padded_binary() {
    assert_eq!(to_raw(VariableValue::BigUint(vec![5]), 8), "00000101");
    assert_eq!(to_raw(VariableValue::BigUint(vec![5]), 2), "101");
    assert_eq!(to_raw(VariableValue::BigUint(vec![]), 0), "0");
    assert_eq!(to_raw(VariableValue::BigUint(vec![0, 1]), 4), format!("1{}", "0".repeat(32)));
    assert_eq!(to_raw(text("abc"), 8), "abc");
}

#[test]
fn worse_kind_prefers_the_more_alarming() {
    assert_eq!(worse_kind(ValueKind::Weak, ValueKind::HighImp), ValueKind::HighImp);
    assert_eq!(worse_kind(ValueKind::HighImp, ValueKind::Weak), ValueKind::HighImp);
    assert_eq!(worse_kind(ValueKind::Undef, ValueKind::Warn), ValueKind::Undef);
    assert_eq!(worse_kind(ValueKind::Normal, ValueKind::DontCare), ValueKind::DontCare);
    // Equal severity keeps the first.
    assert_eq!(worse_kind(ValueKind::Normal, ValueKind::Error), ValueKind::Normal);
    assert_eq!(worse_kind(ValueKind::Error, ValueKind::Normal), ValueKind::Error);
    assert_eq!(severity(ValueKind::Undef), 5);
    assert_eq!(severity(ValueKind::HighImp), 4);
    assert_eq!(severity(ValueKind::Warn), 3);
    assert_eq!(severity(ValueKind::Weak), 2);
    assert_eq!(severity(ValueKind::DontCare), 1);
    assert_eq!(severity(ValueKind::Event), 0);
}

#[test]
fn info_bool_exactly_when_shown_on_a_rail() {
    for t in ["btern_ulogic", "btern_logic", "btern_ulogic_vector", "btern_logic_vector", "kleene", "kleene_vector"] {
        let info = variable_info(meta(Some(t), Some(4)));
        let r = run(t, Some(4), text("0010"));
        let on_rail = matches!(r.val, ValueRepr::Trit(_, _));
        assert_eq!(info == VariableInfo::Bool, on_rail, "{t}");
    }
}

#[test]
fn vector_elements_read_like_scalars() {
    for code in ["0000", "0011", "0101", "0111", "1010", "1100", "01x0"] {
        let scalar = run("btern_ulogic", Some(4), text(code));
        let vector = run("btern_ulogic_vector", Some(4), text(code));
        match (scalar.val, vector.val) {
            (ValueRepr::Trit(_, a), ValueRepr::String(b)) => assert_eq!(a, b, "{code}"),
            _ => panic!("unexpected shapes for {code}"),
        }
        assert_eq!(scalar.kind, vector.kind, "{code}");
    }
}

#[test]
fn btern_vector_element_cutting_a_character_shows_question_mark() {
    assert_eq!(run("btern_ulogic_vector", Some(8), text("000é0")), string("??", ValueKind::Undef));
    assert_eq!(run("btern_ulogic_vector", Some(12), text("0100é000010")), string("+?-", ValueKind::Undef));
}

#[test]
fn btern_vector_of_concatenation_concatenates() {
    let parts = [("0010", 4), ("01110101", 8), ("1010", 4), ("xx00", 4), ("", 0)];
    for (a, pa) in parts {
        for (b, pb) in parts {
            let ra = run("btern_ulogic_vector", Some(pa), text(a));
            let rb = run("btern_ulogic_vector", Some(pb), text(b));
            let whole = run("btern_ulogic_vector", Some(pa + pb), text(&format!("{a}{b}")));
            let (ValueRepr::String(da), ValueRepr::String(db)) = (ra.val, rb.val) else {
                panic!("vector results are text")
            };
            assert_eq!(whole, string(&format!("{da}{db}"), worse_kind(ra.kind, rb.kind)), "{a}+{b}");
        }
    }
}

#[test]
fn kleene_vector_of_concatenation_concatenates() {
    let parts = [("00", 2), ("0110", 4), ("11", 2), ("x1", 2)];
    for (a, pa) in parts {
        for (b, pb) in parts {
            let ra = run("kleene_vector", Some(pa), text(a));
            let rb = run("kleene_vector", Some(pb), text(b));
            let whole = run("kleene_vector", Some(pa + pb), text(&format!("{a}{b}")));
            let (ValueRepr::String(da), ValueRepr::String(db)) = (ra.val, rb.val) else {
                panic!("vector results are text")
            };
            assert_eq!(whole, string(&format!("{da}{db}"), ValueKind::Normal), "{a}+{b}");
        }
    }
}

#[test]
fn number_and_its_binary_text_translate_alike() {
    for n in 0u32..16 {
        let s = to_raw(VariableValue::BigUint(vec![n]), 4);
        assert_eq!(s, format!("{n:04b}"));
        assert_eq!(
            run("btern_ulogic", Some(4), VariableValue::BigUint(vec![n])),
            run("btern_ulogic", Some(4), text(&s)),
            "{n}"
        );
        assert_eq!(
            run("btern_ulogic_vector", Some(8), VariableValue::BigUint(vec![n * 17])),
            run("btern_ulogic_vector", Some(8), text(&format!("{:08b}", n * 17))),
            "{n}"
        );
    }
    for n in 0u32..4 {
        assert_eq!(
            run("kleene", Some(2), VariableValue::BigUint(vec![n])),
            run("kleene", Some(2), text(&format!("{n:02b}"))),
            "{n}"
        );
    }
}

#[test]
fn numbers_pad_to_widths_beyond_u16() {
    let t = btern_translator::bits::biguint_binary_text(&[1], 70000);
    assert_eq!(t.len(), 70000);
    assert!(t[..69999].bytes().all(|b| b == b'0'));
    assert!(t.ends_with('1'));
    let r = run("btern_ulogic_vector", Some(70000), VariableValue::BigUint(vec![4]));
    let ValueRepr::String(s) = r.val else { panic!("vector results are text") };
    assert_eq!(s.len(), 17500);
    assert!(s.ends_with('+'));
    assert_eq!(r.kind, ValueKind::Undef);
}
