//! The balanced-ternary translator: BTERN_ULOGIC / BTERN_LOGIC values, their
//! vectors, and Kleene logic values and vectors, as GHDL encodes them.
//!
//! GHDL writes a BTERN_ULOGIC value as a 4-bit ordinal:
//!
//! | Index | Literal | Rail | Kind     | Meaning          |
//! |-------|---------|------|----------|------------------|
//! | 0     | `U`     | Mid  | Undef    | Uninitialized    |
//! | 1     | `X`     | Mid  | Undef    | Forcing unknown  |
//! | 2     | `-`     | Low  | Normal   | Forcing − (low)  |
//! | 3     | `0`     | Mid  | Normal   | Forcing 0 (zero) |
//! | 4     | `+`     | High | Normal   | Forcing + (high) |
//! | 5     | `Z`     | Mid  | HighImp  | High impedance   |
//! | 6     | `W`     | Mid  | Undef    | Weak unknown     |
//! | 7     | `L`     | Low  | Weak     | Weak −           |
//! | 8     | `M`     | Mid  | Weak     | Weak 0           |
//! | 9     | `H`     | High | Weak     | Weak +           |
//! | 10    | `D`     | Mid  | DontCare | Don't care       |
//!
//! and a KLEENE value as a 2-bit ordinal:
//!
//! | Index | Literal | Rail | Kind   | Meaning           |
//! |-------|---------|------|--------|-------------------|
//! | 0     | `false` | Low  | Normal | Logical false     |
//! | 1     | `unk`   | Mid  | Warn   | Unknown / neither |
//! | 2     | `true`  | High | Normal | Logical true      |
//!
//! Vectors store their elements highest index first, each element in 4 bits
//! (2 for Kleene); the collapsed view shows the literals of all elements
//! concatenated.
use vstd::prelude::*;
use vstd::utf8::*;

use crate::bits::{
    all_bits, binary_ordinal, binary_text, bits_value, digits_value, lemma_binary_text_bytes, raw_bytes,
    read_binary_ordinal, to_raw,
};
use crate::text::{range_all_bits, str_eq};
use crate::types::{
    lemma_worse_kind_associative, lemma_worse_kind_normal_right, opt_text, shown, severity_of,
    worse_kind, worse_kind_of, TranslateParams, TranslationPreference,
    TranslationResult, TriRail, ValueKind, ValueRepr, VariableInfo, VariableMeta, VariableValue,
};

verus! {

/// The declared types that this translator handles.
#[derive(Clone, Copy, Debug, PartialEq, Eq, Structural)]
pub enum TernaryType {
    /// `btern_ulogic` or `btern_logic`.
    BternScalar,
    /// `btern_ulogic_vector` or `btern_logic_vector`.
    BternVector,
    /// `kleene`.
    KleeneScalar,
    /// `kleene_vector`.
    KleeneVector,
}

/// The ternary type that a declared type name stands for, if any.
pub open spec fn ternary_type_of(name: Option<Seq<char>>) -> Option<TernaryType> {
    match name {
        Some(n) => if n == "btern_ulogic"@ || n == "btern_logic"@ {
            Some(TernaryType::BternScalar)
        } else if n == "btern_ulogic_vector"@ || n == "btern_logic_vector"@ {
            Some(TernaryType::BternVector)
        } else if n == "kleene"@ {
            Some(TernaryType::KleeneScalar)
        } else if n == "kleene_vector"@ {
            Some(TernaryType::KleeneVector)
        } else {
            None
        },
        None => None,
    }
}

/// Classifies a declared type name.
pub fn ternary_type(name: &Option<String>) -> (t: Option<TernaryType>)
    ensures
        t == ternary_type_of(opt_text(*name)),
{
    match name {
        Some(n) => {
            let s = n.as_str();
            if str_eq(s, "btern_ulogic") || str_eq(s, "btern_logic") {
                Some(TernaryType::BternScalar)
            } else if str_eq(s, "btern_ulogic_vector") || str_eq(s, "btern_logic_vector") {
                Some(TernaryType::BternVector)
            } else if str_eq(s, "kleene") {
                Some(TernaryType::KleeneScalar)
            } else if str_eq(s, "kleene_vector") {
                Some(TernaryType::KleeneVector)
            } else {
                None
            }
        },
        None => None,
    }
}

/// Rail, label and kind of a BTERN_ULOGIC ordinal; ordinals past the table show "?".
pub open spec fn btern_entry(idx: u8) -> (TriRail, Seq<char>, ValueKind) {
    match idx {
        0 => (TriRail::Mid, "U"@, ValueKind::Undef),
        1 => (TriRail::Mid, "X"@, ValueKind::Undef),
        2 => (TriRail::Low, "-"@, ValueKind::Normal),
        3 => (TriRail::Mid, "0"@, ValueKind::Normal),
        4 => (TriRail::High, "+"@, ValueKind::Normal),
        5 => (TriRail::Mid, "Z"@, ValueKind::HighImp),
        6 => (TriRail::Mid, "W"@, ValueKind::Undef),
        7 => (TriRail::Low, "L"@, ValueKind::Weak),
        8 => (TriRail::Mid, "M"@, ValueKind::Weak),
        9 => (TriRail::High, "H"@, ValueKind::Weak),
        10 => (TriRail::Mid, "D"@, ValueKind::DontCare),
        _ => (TriRail::Mid, "?"@, ValueKind::Undef),
    }
}

/// Rail, label and kind of a KLEENE ordinal; ordinals past the table show "?".
pub open spec fn kleene_entry(idx: u8) -> (TriRail, Seq<char>, ValueKind) {
    match idx {
        0 => (TriRail::Low, "false"@, ValueKind::Normal),
        1 => (TriRail::Mid, "unk"@, ValueKind::Warn),
        2 => (TriRail::High, "true"@, ValueKind::Normal),
        _ => (TriRail::Mid, "?"@, ValueKind::Undef),
    }
}

/// The BTERN_ULOGIC table as a function.
pub open spec fn btern_table() -> spec_fn(u8) -> (TriRail, Seq<char>, ValueKind) {
    |i: u8| btern_entry(i)
}

/// The KLEENE table as a function.
pub open spec fn kleene_table() -> spec_fn(u8) -> (TriRail, Seq<char>, ValueKind) {
    |i: u8| kleene_entry(i)
}

/// Maps a BTERN_ULOGIC ordinal to its rail, label and kind.
fn btern_ordinal(idx: u8) -> (r: (TriRail, &'static str, ValueKind))
    ensures
        r.0 == btern_entry(idx).0,
        r.1@ == btern_entry(idx).1,
        r.2 == btern_entry(idx).2,
{
    match idx {
        0 => (TriRail::Mid, "U", ValueKind::Undef),
        1 => (TriRail::Mid, "X", ValueKind::Undef),
        2 => (TriRail::Low, "-", ValueKind::Normal),
        3 => (TriRail::Mid, "0", ValueKind::Normal),
        4 => (TriRail::High, "+", ValueKind::Normal),
        5 => (TriRail::Mid, "Z", ValueKind::HighImp),
        6 => (TriRail::Mid, "W", ValueKind::Undef),
        7 => (TriRail::Low, "L", ValueKind::Weak),
        8 => (TriRail::Mid, "M", ValueKind::Weak),
        9 => (TriRail::High, "H", ValueKind::Weak),
        10 => (TriRail::Mid, "D", ValueKind::DontCare),
        _ => (TriRail::Mid, "?", ValueKind::Undef),
    }
}

/// Maps a KLEENE ordinal to its rail, label and kind.
fn kleene_ordinal(idx: u8) -> (r: (TriRail, &'static str, ValueKind))
    ensures
        r.0 == kleene_entry(idx).0,
        r.1@ == kleene_entry(idx).1,
        r.2 == kleene_entry(idx).2,
{
    match idx {
        0 => (TriRail::Low, "false", ValueKind::Normal),
        1 => (TriRail::Mid, "unk", ValueKind::Warn),
        2 => (TriRail::High, "true", ValueKind::Normal),
        _ => (TriRail::Mid, "?", ValueKind::Undef),
    }
}

/// What a scalar value shows, given the bytes of its text and the table of
/// its type: the table entry of the ordinal when the text is all binary
/// digits, else "?" on the middle rail as undefined.
pub open spec fn scalar_shown(raw: Seq<u8>, table: spec_fn(u8) -> (TriRail, Seq<char>, ValueKind)) -> (
    Option<TriRail>,
    Seq<char>,
    ValueKind,
) {
    if all_bits(raw) {
        let e = table(binary_ordinal(raw));
        (Some(e.0), e.1, e.2)
    } else {
        (Some(TriRail::Mid), "?"@, ValueKind::Undef)
    }
}

/// The bytes of element `i` of a vector whose elements are `width` bytes wide.
pub open spec fn element_bytes(raw: Seq<u8>, width: int, i: int) -> Seq<u8> {
    raw.subrange(i * width, (i + 1) * width)
}

/// Element `i` is wholly present in the bytes and made of binary digits.
pub open spec fn element_readable(raw: Seq<u8>, width: int, i: int) -> bool {
    (i + 1) * width <= raw.len() && all_bits(element_bytes(raw, width, i))
}

/// Label and kind of element `i` of a vector, read with `table`; an element
/// that is missing or not binary shows "?" as undefined.
pub open spec fn element_shown(
    raw: Seq<u8>,
    width: int,
    table: spec_fn(u8) -> (TriRail, Seq<char>, ValueKind),
    i: int,
) -> (Seq<char>, ValueKind) {
    if element_readable(raw, width, i) {
        let e = table(binary_ordinal(element_bytes(raw, width, i)));
        (e.1, e.2)
    } else {
        ("?"@, ValueKind::Undef)
    }
}

/// The labels of the first `n` elements, concatenated.
pub open spec fn vector_text(
    raw: Seq<u8>,
    width: int,
    table: spec_fn(u8) -> (TriRail, Seq<char>, ValueKind),
    n: nat,
) -> Seq<char>
    decreases n,
{
    if n == 0 {
        Seq::empty()
    } else {
        vector_text(raw, width, table, (n - 1) as nat) + element_shown(raw, width, table, n - 1).0
    }
}

/// The worst kind among the first `n` elements (Normal when there is none).
pub open spec fn vector_kind(
    raw: Seq<u8>,
    width: int,
    table: spec_fn(u8) -> (TriRail, Seq<char>, ValueKind),
    n: nat,
) -> ValueKind
    decreases n,
{
    if n == 0 {
        ValueKind::Normal
    } else {
        worse_kind_of(
            vector_kind(raw, width, table, (n - 1) as nat),
            element_shown(raw, width, table, n - 1).1,
        )
    }
}

/// Cutting element `i` out of the bytes cuts at character boundaries.
pub open spec fn element_cut_ok(raw: Seq<u8>, width: int, i: int) -> bool {
    is_char_boundary(raw, i * width) && is_char_boundary(raw, (i + 1) * width)
}

/// Every element among the first `n` that is wholly present starts and ends
/// at a character boundary of the value's text: only then can the elements
/// be cut out of it. A number's binary text always qualifies.
pub open spec fn elements_cut_ok(value: VariableValue, width: int, n: int) -> bool {
    match value {
        VariableValue::String(s) => forall|i: int|
            0 <= i < n && (i + 1) * width <= encode_utf8(s@).len() ==> #[trigger] element_cut_ok(
                encode_utf8(s@),
                width,
                i,
            ),
        VariableValue::BigUint(_) => true,
    }
}

/// What a BTERN_(U)LOGIC value shows.
pub open spec fn btern_scalar_shown(value: VariableValue) -> (Option<TriRail>, Seq<char>, ValueKind) {
    scalar_shown(raw_bytes(value, 4), btern_table())
}

/// What a KLEENE value shows.
pub open spec fn kleene_scalar_shown(value: VariableValue) -> (Option<TriRail>, Seq<char>, ValueKind) {
    scalar_shown(raw_bytes(value, 2), kleene_table())
}

/// What a BTERN_(U)LOGIC_VECTOR of `num_bits` bits shows: the labels of its
/// `num_bits / 4` elements as text, coloured by the worst element.
pub open spec fn btern_vector_shown(value: VariableValue, num_bits: u32) -> (
    Option<TriRail>,
    Seq<char>,
    ValueKind,
) {
    let raw = raw_bytes(value, num_bits as nat);
    let n = (num_bits / 4) as nat;
    (
        None,
        vector_text(raw, 4, btern_table(), n),
        vector_kind(raw, 4, btern_table(), n),
    )
}

/// What a KLEENE_VECTOR of `num_bits` bits shows: the labels of its
/// `num_bits / 2` elements as text, as a normal value.
pub open spec fn kleene_vector_shown(value: VariableValue, num_bits: u32) -> (
    Option<TriRail>,
    Seq<char>,
    ValueKind,
) {
    let raw = raw_bytes(value, num_bits as nat);
    (None, vector_text(raw, 2, kleene_table(), (num_bits / 2) as nat), ValueKind::Normal)
}

fn translate_btern(value: VariableValue) -> (r: TranslationResult)
    ensures
        shown(r) == btern_scalar_shown(value),
        r.subfields@.len() == 0,
{
    let ghost rb = raw_bytes(value, 4);
    let raw = to_raw(value, 4);
    let bytes = raw.as_str().as_bytes();
    assert(bytes@ == rb);
    assert(bytes@.subrange(0, bytes@.len() as int) =~= bytes@);
    if !range_all_bits(bytes, 0, bytes.len()) {
        return TranslationResult {
            subfields: Vec::new(),
            val: ValueRepr::Trit(TriRail::Mid, "?".to_owned()),
            kind: ValueKind::Undef,
        };
    }
    let idx = read_binary_ordinal(bytes, 0, bytes.len());
    let (rail, label, kind) = btern_ordinal(idx);
    TranslationResult { subfields: Vec::new(), val: ValueRepr::Trit(rail, label.to_owned()), kind }
}

fn translate_kleene(value: VariableValue) -> (r: TranslationResult)
    ensures
        shown(r) == kleene_scalar_shown(value),
        r.subfields@.len() == 0,
{
    let ghost rb = raw_bytes(value, 2);
    let raw = to_raw(value, 2);
    let bytes = raw.as_str().as_bytes();
    assert(bytes@ == rb);
    assert(bytes@.subrange(0, bytes@.len() as int) =~= bytes@);
    if !range_all_bits(bytes, 0, bytes.len()) {
        return TranslationResult {
            subfields: Vec::new(),
            val: ValueRepr::Trit(TriRail::Mid, "?".to_owned()),
            kind: ValueKind::Undef,
        };
    }
    let idx = read_binary_ordinal(bytes, 0, bytes.len());
    let (rail, label, kind) = kleene_ordinal(idx);
    TranslationResult { subfields: Vec::new(), val: ValueRepr::Trit(rail, label.to_owned()), kind }
}

fn translate_btern_vector(value: VariableValue, num_bits: u32) -> (r: TranslationResult)
    ensures
        shown(r) == btern_vector_shown(value, num_bits),
        r.subfields@.len() == 0,
{
    let ghost rb = raw_bytes(value, num_bits as nat);
    let ghost table = btern_table();
    let raw = to_raw(value, num_bits);
    let bytes = raw.as_str().as_bytes();
    assert(bytes@ == rb);
    let n: usize = (num_bits / 4) as usize;
    let mut display = String::new();
    let mut worst = ValueKind::Normal;
    let mut i: usize = 0;
    while i < n
        invariant
            i <= n,
            n == num_bits / 4,
            bytes@ == rb,
            table == btern_table(),
            display@ == vector_text(rb, 4, table, i as nat),
            worst == vector_kind(rb, 4, table, i as nat),
        decreases n - i,
    {
        let start = i * 4;
        let end = start + 4;
        if end <= bytes.len() && range_all_bits(bytes, start, end) {
            let idx = read_binary_ordinal(bytes, start, end);
            let (_, label, kind) = btern_ordinal(idx);
            display.append(label);
            worst = worse_kind(worst, kind);
        } else {
            display.append("?");
            worst = ValueKind::Undef;
        }
        i = i + 1;
    }
    TranslationResult { subfields: Vec::new(), val: ValueRepr::String(display), kind: worst }
}

fn translate_kleene_vector(value: VariableValue, num_bits: u32) -> (r: TranslationResult)
    requires
        elements_cut_ok(value, 2, (num_bits / 2) as int),
    ensures
        shown(r) == kleene_vector_shown(value, num_bits),
        r.subfields@.len() == 0,
{
    let ghost rb = raw_bytes(value, num_bits as nat);
    let ghost table = kleene_table();
    let raw = to_raw(value, num_bits);
    let bytes = raw.as_str().as_bytes();
    assert(bytes@ == rb);
    let n: usize = (num_bits / 2) as usize;
    let mut labels = String::new();
    let mut i: usize = 0;
    while i < n
        invariant
            i <= n,
            n == num_bits / 2,
            bytes@ == rb,
            table == kleene_table(),
            labels@ == vector_text(rb, 2, table, i as nat),
        decreases n - i,
    {
        let start = i * 2;
        let end = start + 2;
        if end <= bytes.len() && range_all_bits(bytes, start, end) {
            let idx = read_binary_ordinal(bytes, start, end);
            let (_, label, _) = kleene_ordinal(idx);
            labels.append(label);
        } else {
            labels.append("?");
        }
        i = i + 1;
    }
    TranslationResult { subfields: Vec::new(), val: ValueRepr::String(labels), kind: ValueKind::Normal }
}

/// The width in bits of a variable, 0 when it has none.
pub open spec fn num_bits_or_zero(variable: VariableMeta) -> u32 {
    match variable.num_bits {
        Some(b) => b,
        None => 0,
    }
}

/// How eager this translator is for a variable: it prefers exactly the ternary types.
pub open spec fn preference_of(variable: VariableMeta) -> TranslationPreference {
    if ternary_type_of(opt_text(variable.variable_type_name)) is Some {
        TranslationPreference::Prefer
    } else {
        TranslationPreference::No
    }
}

/// The shape of a variable's values: a single value for the scalar types, bits otherwise.
pub open spec fn info_of(variable: VariableMeta) -> VariableInfo {
    match ternary_type_of(opt_text(variable.variable_type_name)) {
        Some(TernaryType::BternScalar) | Some(TernaryType::KleeneScalar) => VariableInfo::Bool,
        _ => VariableInfo::Bits,
    }
}

/// What a value of a variable shows; a variable of another type shows "?" as undefined text.
pub open spec fn translation_shown(variable: VariableMeta, value: VariableValue) -> (
    Option<TriRail>,
    Seq<char>,
    ValueKind,
) {
    match ternary_type_of(opt_text(variable.variable_type_name)) {
        Some(TernaryType::BternVector) => btern_vector_shown(value, num_bits_or_zero(variable)),
        Some(TernaryType::KleeneVector) => kleene_vector_shown(value, num_bits_or_zero(variable)),
        Some(TernaryType::KleeneScalar) => kleene_scalar_shown(value),
        Some(TernaryType::BternScalar) => btern_scalar_shown(value),
        None => (None, "?"@, ValueKind::Undef),
    }
}

/// A value of a Kleene vector can be cut into its elements. (A BTERN vector
/// element that is not binary, even one cutting a character, shows "?".)
pub open spec fn translation_defined(variable: VariableMeta, value: VariableValue) -> bool {
    let nb = num_bits_or_zero(variable);
    match ternary_type_of(opt_text(variable.variable_type_name)) {
        Some(TernaryType::KleeneVector) => elements_cut_ok(value, 2, (nb / 2) as int),
        _ => true,
    }
}

/// The name of this translator.
pub fn name() -> (n: String)
    ensures
        n@ == "Balanced Ternary"@,
{
    "Balanced Ternary".to_owned()
}

/// Whether this translator wants to handle a variable.
pub fn translates(variable: VariableMeta) -> (p: TranslationPreference)
    ensures
        p == preference_of(variable),
{
    match ternary_type(&variable.variable_type_name) {
        Some(_) => TranslationPreference::Prefer,
        None => TranslationPreference::No,
    }
}

/// The shape of the values this translator produces for a variable.
pub fn variable_info(variable: VariableMeta) -> (i: VariableInfo)
    ensures
        i == info_of(variable),
{
    match ternary_type(&variable.variable_type_name) {
        Some(TernaryType::BternScalar) | Some(TernaryType::KleeneScalar) => VariableInfo::Bool,
        _ => VariableInfo::Bits,
    }
}

/// Translates one value of a variable.
pub fn translate(params: TranslateParams) -> (r: TranslationResult)
    requires
        translation_defined(params.variable, params.value),
    ensures
        shown(r) == translation_shown(params.variable, params.value),
        r.subfields@.len() == 0,
{
    let TranslateParams { variable, value } = params;
    match ternary_type(&variable.variable_type_name) {
        Some(TernaryType::BternVector) => {
            let num_bits = match variable.num_bits {
                Some(b) => b,
                None => 0,
            };
            translate_btern_vector(value, num_bits)
        },
        Some(TernaryType::KleeneVector) => {
            let num_bits = match variable.num_bits {
                Some(b) => b,
                None => 0,
            };
            translate_kleene_vector(value, num_bits)
        },
        Some(TernaryType::KleeneScalar) => translate_kleene(value),
        Some(TernaryType::BternScalar) => translate_btern(value),
        None => TranslationResult { subfields: Vec::new(), val: ValueRepr::String("?".to_owned()), kind: ValueKind::Undef },
    }
}

/// A collapsed vector is coloured by its worst element: its kind is at least
/// as severe as the kind of every element, and it is Normal or the kind of
/// one of the elements.
pub proof fn law_vector_kind_is_worst_element(
    raw: Seq<u8>,
    width: int,
    table: spec_fn(u8) -> (TriRail, Seq<char>, ValueKind),
    n: nat,
)
    ensures
        forall|i: int|
            0 <= i < n ==> severity_of(vector_kind(raw, width, table, n)) >= severity_of(
                #[trigger] element_shown(raw, width, table, i).1,
            ),
        vector_kind(raw, width, table, n) == ValueKind::Normal || exists|i: int|
            0 <= i < n && vector_kind(raw, width, table, n) == #[trigger] element_shown(
                raw,
                width,
                table,
                i,
            ).1,
    decreases n,
{
    if n > 0 {
        law_vector_kind_is_worst_element(raw, width, table, (n - 1) as nat);
        let prev = vector_kind(raw, width, table, (n - 1) as nat);
        let last = element_shown(raw, width, table, n - 1).1;
        if prev != ValueKind::Normal && vector_kind(raw, width, table, n) == prev {
            let j = choose|j: int|
                0 <= j < n - 1 && prev == #[trigger] element_shown(raw, width, table, j).1;
            assert(0 <= j < n && vector_kind(raw, width, table, n) == element_shown(
                raw,
                width,
                table,
                j,
            ).1);
        }
        if vector_kind(raw, width, table, n) == last {
            assert(vector_kind(raw, width, table, n) == element_shown(raw, width, table, n - 1).1);
        }
    }
}

/// Every BTERN_ULOGIC label is a single character.
proof fn lemma_btern_labels_are_single(idx: u8)
    ensures
        btern_entry(idx).1.len() == 1,
{
    reveal_strlit("U");
    reveal_strlit("X");
    reveal_strlit("-");
    reveal_strlit("0");
    reveal_strlit("+");
    reveal_strlit("Z");
    reveal_strlit("W");
    reveal_strlit("L");
    reveal_strlit("M");
    reveal_strlit("H");
    reveal_strlit("D");
    reveal_strlit("?");
}

/// The collapsed view of a BTERN vector has one character per element, and
/// character `i` is the label of element `i`.
pub proof fn law_btern_vector_one_char_per_element(raw: Seq<u8>, n: nat)
    ensures
        vector_text(raw, 4, btern_table(), n).len() == n,
        forall|i: int|
            0 <= i < n ==> vector_text(raw, 4, btern_table(), n)[i] == (#[trigger] element_shown(
                raw,
                4,
                btern_table(),
                i,
            ).0)[0],
    decreases n,
{
    reveal_strlit("?");
    if n > 0 {
        let table = btern_table();
        law_btern_vector_one_char_per_element(raw, (n - 1) as nat);
        let e = element_shown(raw, 4, table, n - 1);
        if element_readable(raw, 4, n - 1) {
            lemma_btern_labels_are_single(binary_ordinal(element_bytes(raw, 4, n - 1)));
        }
        assert(e.0.len() == 1);
        let prev = vector_text(raw, 4, table, (n - 1) as nat);
        assert forall|i: int| 0 <= i < n implies vector_text(raw, 4, table, n)[i] == (
        #[trigger] element_shown(raw, 4, table, i).0)[0] by {
            if i < n - 1 {
                assert(vector_text(raw, 4, table, n)[i] == prev[i]);
            }
        }
    }
}

/// This translator says a variable's values are single values exactly when
/// it shows them on a rail, for every type it prefers; a variable it does not
/// prefer shows "?" as undefined text.
pub proof fn law_info_matches_translation(variable: VariableMeta, value: VariableValue)
    ensures
        preference_of(variable) == TranslationPreference::Prefer ==> (info_of(variable)
            == VariableInfo::Bool <==> translation_shown(variable, value).0 is Some),
        preference_of(variable) == TranslationPreference::No ==> translation_shown(variable, value)
            == (None::<TriRail>, "?"@, ValueKind::Undef),
{
}

/// Each element of a collapsed vector shows the label and kind that the
/// same code shows on its own as a scalar of the element's type.
pub proof fn law_vector_element_reads_like_scalar(
    raw: Seq<u8>,
    width: int,
    table: spec_fn(u8) -> (TriRail, Seq<char>, ValueKind),
    i: int,
)
    requires
        0 <= i,
        (i + 1) * width <= raw.len(),
    ensures
        element_shown(raw, width, table, i).0 == scalar_shown(element_bytes(raw, width, i), table).1,
        element_shown(raw, width, table, i).1 == scalar_shown(element_bytes(raw, width, i), table).2,
{
}

/// Offsets of element `i` of `width` bytes, measured from the start and from
/// after the first `p` elements.
proof fn lemma_element_offsets(width: int, p: int, i: int)
    by (nonlinear_arith)
    requires
        width > 0,
        p >= 0,
        i >= 0,
    ensures
        width * p == p * width,
        (i + 1) * width == i * width + width,
        0 <= i * width,
        i < p ==> (i + 1) * width <= p * width,
        i >= p ==> i * width == p * width + (i - p) * width,
        i >= p ==> (i - p + 1) * width == (i - p) * width + width,
        i >= p ==> 0 <= (i - p) * width,
{
}

/// Where the elements of `a + b` come from, when `a` holds exactly `p` elements.
proof fn lemma_concat_element(
    a: Seq<u8>,
    b: Seq<u8>,
    width: int,
    table: spec_fn(u8) -> (TriRail, Seq<char>, ValueKind),
    p: nat,
    i: int,
)
    requires
        width > 0,
        a.len() == width * p,
        0 <= i,
    ensures
        i < p ==> element_shown(a + b, width, table, i) == element_shown(a, width, table, i),
        i >= p ==> element_shown(a + b, width, table, i) == element_shown(b, width, table, i - p),
{
    let ab = a + b;
    lemma_element_offsets(width, p as int, i);
    assert(ab.len() == a.len() + b.len());
    let lo = i * width;
    let hi = (i + 1) * width;
    if i < p {
        assert(0 <= lo <= hi <= a.len());
        assert(element_bytes(ab, width, i) == ab.subrange(lo, hi));
        assert(element_bytes(a, width, i) == a.subrange(lo, hi));
        assert(ab.subrange(lo, hi) =~= a.subrange(lo, hi));
        assert(element_readable(ab, width, i) == element_readable(a, width, i));
    } else {
        let j = i - p;
        let jlo = j * width;
        let jhi = (j + 1) * width;
        assert(lo == a.len() + jlo);
        assert(hi == a.len() + jhi);
        assert(0 <= jlo <= jhi);
        assert((hi <= ab.len()) == (jhi <= b.len()));
        if jhi <= b.len() {
            assert(element_bytes(ab, width, i) == ab.subrange(lo, hi));
            assert(element_bytes(b, width, j) == b.subrange(jlo, jhi));
            assert(ab.subrange(lo, hi) =~= b.subrange(jlo, jhi));
        }
        assert(element_readable(ab, width, i) == element_readable(b, width, j));
    }
}

/// The first `n <= p` elements of `a + b` are those of `a`.
proof fn lemma_concat_prefix(
    a: Seq<u8>,
    b: Seq<u8>,
    width: int,
    table: spec_fn(u8) -> (TriRail, Seq<char>, ValueKind),
    p: nat,
    n: nat,
)
    requires
        width > 0,
        a.len() == width * p,
        n <= p,
    ensures
        vector_text(a + b, width, table, n) == vector_text(a, width, table, n),
        vector_kind(a + b, width, table, n) == vector_kind(a, width, table, n),
    decreases n,
{
    if n > 0 {
        lemma_concat_prefix(a, b, width, table, p, (n - 1) as nat);
        lemma_concat_element(a, b, width, table, p, n - 1);
    }
}

/// Translating a concatenation gives the concatenation of the translations:
/// when `a` holds exactly `p` elements, the first `p + q` elements of `a + b`
/// show the text of `a`'s `p` elements followed by that of `b`'s first `q`,
/// and the worse of their two kinds.
pub proof fn law_vector_concat(
    a: Seq<u8>,
    b: Seq<u8>,
    width: int,
    table: spec_fn(u8) -> (TriRail, Seq<char>, ValueKind),
    p: nat,
    q: nat,
)
    requires
        width > 0,
        a.len() == width * p,
    ensures
        vector_text(a + b, width, table, p + q) == vector_text(a, width, table, p) + vector_text(
            b,
            width,
            table,
            q,
        ),
        vector_kind(a + b, width, table, p + q) == worse_kind_of(
            vector_kind(a, width, table, p),
            vector_kind(b, width, table, q),
        ),
    decreases q,
{
    if q == 0 {
        lemma_concat_prefix(a, b, width, table, p, p);
        assert(vector_text(a, width, table, p) + Seq::<char>::empty() =~= vector_text(
            a,
            width,
            table,
            p,
        ));
        lemma_worse_kind_normal_right(vector_kind(a, width, table, p));
    } else {
        law_vector_concat(a, b, width, table, p, (q - 1) as nat);
        lemma_concat_element(a, b, width, table, p, p + q - 1);
        let ta = vector_text(a, width, table, p);
        let tb = vector_text(b, width, table, (q - 1) as nat);
        let e = element_shown(b, width, table, q - 1);
        assert(vector_text(a + b, width, table, p + q) == (ta + tb) + e.0);
        assert((ta + tb) + e.0 =~= ta + (tb + e.0));
        lemma_worse_kind_associative(
            vector_kind(a, width, table, p),
            vector_kind(b, width, table, (q - 1) as nat),
            e.1,
        );
    }
}

/// The UTF-8 bytes of a concatenation are the concatenated bytes.
pub proof fn lemma_encode_utf8_concat(x: Seq<char>, y: Seq<char>)
    ensures
        encode_utf8(x + y) == encode_utf8(x) + encode_utf8(y),
    decreases x.len(),
{
    if x.len() == 0 {
        assert(x + y =~= y);
        assert(encode_utf8(x) + encode_utf8(y) =~= encode_utf8(y));
    } else {
        lemma_encode_utf8_concat(x.drop_first(), y);
        assert((x + y).drop_first() =~= x.drop_first() + y);
        assert((x + y)[0] == x[0]);
        let h = encode_scalar(x[0] as u32);
        assert(h + (encode_utf8(x.drop_first()) + encode_utf8(y)) =~= (h + encode_utf8(
            x.drop_first(),
        )) + encode_utf8(y));
    }
}

/// A BTERN vector whose text is the text of `sa` followed by that of `sb`,
/// `sa` holding exactly `p` elements, shows the labels of `sa`'s elements
/// followed by those of `sb`'s, with the worse of their two kinds.
pub proof fn law_btern_vector_concat(sa: String, sb: String, s: String, p: u32, q: u32)
    requires
        s@ == sa@ + sb@,
        encode_utf8(sa@).len() == 4 * p,
        4 * (p + q) <= u32::MAX,
    ensures
        btern_vector_shown(VariableValue::String(s), (4 * (p + q)) as u32).1 == btern_vector_shown(
            VariableValue::String(sa),
            (4 * p) as u32,
        ).1 + btern_vector_shown(VariableValue::String(sb), (4 * q) as u32).1,
        btern_vector_shown(VariableValue::String(s), (4 * (p + q)) as u32).2 == worse_kind_of(
            btern_vector_shown(VariableValue::String(sa), (4 * p) as u32).2,
            btern_vector_shown(VariableValue::String(sb), (4 * q) as u32).2,
        ),
{
    lemma_encode_utf8_concat(sa@, sb@);
    law_vector_concat(encode_utf8(sa@), encode_utf8(sb@), 4, btern_table(), p as nat, q as nat);
}

/// A Kleene vector whose text is the text of `sa` followed by that of `sb`,
/// `sa` holding exactly `p` elements, shows the labels of `sa`'s elements
/// followed by those of `sb`'s, and is always Normal.
pub proof fn law_kleene_vector_concat(sa: String, sb: String, s: String, p: u32, q: u32)
    requires
        s@ == sa@ + sb@,
        encode_utf8(sa@).len() == 2 * p,
        2 * (p + q) <= u32::MAX,
    ensures
        kleene_vector_shown(VariableValue::String(s), (2 * (p + q)) as u32).1 == kleene_vector_shown(
            VariableValue::String(sa),
            (2 * p) as u32,
        ).1 + kleene_vector_shown(VariableValue::String(sb), (2 * q) as u32).1,
        kleene_vector_shown(VariableValue::String(s), (2 * (p + q)) as u32).2 == ValueKind::Normal,
{
    lemma_encode_utf8_concat(sa@, sb@);
    law_vector_concat(encode_utf8(sa@), encode_utf8(sb@), 2, kleene_table(), p as nat, q as nat);
}

/// The width of the binary text a number value is read as, for each ternary type.
pub open spec fn ternary_text_width(variable: VariableMeta) -> nat {
    match ternary_type_of(opt_text(variable.variable_type_name)) {
        Some(TernaryType::BternScalar) => 4,
        Some(TernaryType::KleeneScalar) => 2,
        _ => num_bits_or_zero(variable) as nat,
    }
}

/// A number and its zero-padded binary text translate alike: for every
/// variable, the number whose digits are `d` shows what the string `s` shows
/// when `s` is that number's binary text at the variable's width.
pub proof fn law_number_reads_as_its_binary_text(variable: VariableMeta, d: Vec<u32>, s: String)
    requires
        s@ == binary_text(digits_value(d@), ternary_text_width(variable)),
    ensures
        translation_shown(variable, VariableValue::BigUint(d)) == translation_shown(
            variable,
            VariableValue::String(s),
        ),
        translation_defined(variable, VariableValue::String(s)),
{
    let nb = num_bits_or_zero(variable);
    if ternary_type_of(opt_text(variable.variable_type_name)) == Some(TernaryType::KleeneVector) {
        lemma_binary_text_bytes(digits_value(d@), nb as nat);
    }
}

/// Whether a declared type name is one of the six that this translator takes.
pub open spec fn is_ternary_name(n: Option<Seq<char>>) -> bool {
    ||| n == Some("btern_ulogic"@)
    ||| n == Some("btern_logic"@)
    ||| n == Some("btern_ulogic_vector"@)
    ||| n == Some("btern_logic_vector"@)
    ||| n == Some("kleene"@)
    ||| n == Some("kleene_vector"@)
}

/// The ternary translator takes exactly the six names `btern_ulogic`,
/// `btern_logic`, `btern_ulogic_vector`, `btern_logic_vector`, `kleene` and
/// `kleene_vector`: it prefers them and nothing else, gives single values
/// for the three scalar names only, reads each name with its own table and
/// shape, and shows "?" as undefined text for any other name.
pub proof fn law_ternary_names(variable: VariableMeta, value: VariableValue)
    ensures
        preference_of(variable) == TranslationPreference::Prefer <==> is_ternary_name(
            opt_text(variable.variable_type_name),
        ),
        preference_of(variable) == TranslationPreference::No <==> !is_ternary_name(
            opt_text(variable.variable_type_name),
        ),
        info_of(variable) == VariableInfo::Bool <==> (opt_text(variable.variable_type_name)
            == Some("btern_ulogic"@) || opt_text(variable.variable_type_name) == Some(
            "btern_logic"@,
        ) || opt_text(variable.variable_type_name) == Some("kleene"@)),
        opt_text(variable.variable_type_name) == Some("btern_ulogic"@) || opt_text(
            variable.variable_type_name,
        ) == Some("btern_logic"@) ==> translation_shown(variable, value) == btern_scalar_shown(
            value,
        ),
        opt_text(variable.variable_type_name) == Some("btern_ulogic_vector"@) || opt_text(
            variable.variable_type_name,
        ) == Some("btern_logic_vector"@) ==> translation_shown(variable, value)
            == btern_vector_shown(value, num_bits_or_zero(variable)),
        opt_text(variable.variable_type_name) == Some("kleene"@) ==> translation_shown(
            variable,
            value,
        ) == kleene_scalar_shown(value),
        opt_text(variable.variable_type_name) == Some("kleene_vector"@) ==> translation_shown(
            variable,
            value,
        ) == kleene_vector_shown(value, num_bits_or_zero(variable)),
        !is_ternary_name(opt_text(variable.variable_type_name)) ==> translation_shown(
            variable,
            value,
        ) == (None::<TriRail>, "?"@, ValueKind::Undef),
{
    broadcast use vstd::string::group_string_axioms;

    reveal_strlit("btern_ulogic");
    reveal_strlit("btern_logic");
    reveal_strlit("btern_ulogic_vector");
    reveal_strlit("btern_logic_vector");
    reveal_strlit("kleene");
    reveal_strlit("kleene_vector");
    // The six names have six different lengths, so no two are equal.
    assert("btern_ulogic"@.len() == 12);
    assert("btern_logic"@.len() == 11);
    assert("btern_ulogic_vector"@.len() == 19);
    assert("btern_logic_vector"@.len() == 18);
    assert("kleene"@.len() == 6);
    assert("kleene_vector"@.len() == 13);
}

/// No BTERN or KLEENE table entry is an error or an event.
proof fn lemma_table_kinds(i: u8)
    ensures
        btern_entry(i).2 != ValueKind::Error && btern_entry(i).2 != ValueKind::Event,
        btern_entry(i).2 != ValueKind::Warn,
        kleene_entry(i).2 != ValueKind::Error && kleene_entry(i).2 != ValueKind::Event,
{
}

/// A BTERN_(U)LOGIC value reads its text as a binary ordinal, as GHDL's
/// encoding table says: 0 `U`, 1 `X`, 2 `-`, 3 `0`, 4 `+`, 5 `Z`, 6 `W`,
/// 7 `L`, 8 `M`, 9 `H`, 10 `D`; ordinals 11 to 255 show `?` as undefined; an
/// empty text or one above 255 reads as 0; a text that is not all binary
/// digits shows `?` as undefined. `-`, `L` lie on the low rail, `+`, `H` on
/// the high rail, the others on the middle rail.
pub proof fn law_btern_scalar_table(value: VariableValue)
    ensures
        ({
            let raw = raw_bytes(value, 4);
            let v = bits_value(raw);
            let r = btern_scalar_shown(value);
            let read = all_bits(raw) && raw.len() > 0 && v <= 255;
            &&& !all_bits(raw) ==> r == (Some(TriRail::Mid), "?"@, ValueKind::Undef)
            &&& all_bits(raw) && (raw.len() == 0 || v > 255) ==> r == (
                Some(TriRail::Mid),
                "U"@,
                ValueKind::Undef,
            )
            &&& read && v == 0 ==> r == (Some(TriRail::Mid), "U"@, ValueKind::Undef)
            &&& read && v == 1 ==> r == (Some(TriRail::Mid), "X"@, ValueKind::Undef)
            &&& read && v == 2 ==> r == (Some(TriRail::Low), "-"@, ValueKind::Normal)
            &&& read && v == 3 ==> r == (Some(TriRail::Mid), "0"@, ValueKind::Normal)
            &&& read && v == 4 ==> r == (Some(TriRail::High), "+"@, ValueKind::Normal)
            &&& read && v == 5 ==> r == (Some(TriRail::Mid), "Z"@, ValueKind::HighImp)
            &&& read && v == 6 ==> r == (Some(TriRail::Mid), "W"@, ValueKind::Undef)
            &&& read && v == 7 ==> r == (Some(TriRail::Low), "L"@, ValueKind::Weak)
            &&& read && v == 8 ==> r == (Some(TriRail::Mid), "M"@, ValueKind::Weak)
            &&& read && v == 9 ==> r == (Some(TriRail::High), "H"@, ValueKind::Weak)
            &&& read && v == 10 ==> r == (Some(TriRail::Mid), "D"@, ValueKind::DontCare)
            &&& read && v >= 11 ==> r == (Some(TriRail::Mid), "?"@, ValueKind::Undef)
        }),
{
}

/// A KLEENE value reads its text as a binary ordinal, as its encoding table
/// says: 0 `false` on the low rail, 1 `unk` on the middle rail as a warning,
/// 2 `true` on the high rail; ordinals 3 to 255 show `?` as undefined; an
/// empty text or one above 255 reads as 0; a text that is not all binary
/// digits shows `?` as undefined.
pub proof fn law_kleene_scalar_table(value: VariableValue)
    ensures
        ({
            let raw = raw_bytes(value, 2);
            let v = bits_value(raw);
            let r = kleene_scalar_shown(value);
            let read = all_bits(raw) && raw.len() > 0 && v <= 255;
            &&& !all_bits(raw) ==> r == (Some(TriRail::Mid), "?"@, ValueKind::Undef)
            &&& all_bits(raw) && (raw.len() == 0 || v > 255) ==> r == (
                Some(TriRail::Low),
                "false"@,
                ValueKind::Normal,
            )
            &&& read && v == 0 ==> r == (Some(TriRail::Low), "false"@, ValueKind::Normal)
            &&& read && v == 1 ==> r == (Some(TriRail::Mid), "unk"@, ValueKind::Warn)
            &&& read && v == 2 ==> r == (Some(TriRail::High), "true"@, ValueKind::Normal)
            &&& read && v >= 3 ==> r == (Some(TriRail::Mid), "?"@, ValueKind::Undef)
        }),
{
}

/// A BTERN vector of one element shows, as text, the label and the kind that
/// the same four bytes show as a BTERN scalar; when its text is shorter than
/// four bytes the element is missing and shows "?" as undefined; a vector of
/// fewer than four bits has no element and shows empty normal text.
pub proof fn law_btern_vector_element_is_scalar(e: String, num_bits: u32)
    ensures
        encode_utf8(e@).len() == 4 ==> btern_vector_shown(VariableValue::String(e), 4) == (
            None::<TriRail>,
            btern_scalar_shown(VariableValue::String(e)).1,
            btern_scalar_shown(VariableValue::String(e)).2,
        ),
        encode_utf8(e@).len() < 4 ==> btern_vector_shown(VariableValue::String(e), 4) == (
            None::<TriRail>,
            "?"@,
            ValueKind::Undef,
        ),
        num_bits < 4 ==> btern_vector_shown(VariableValue::String(e), num_bits) == (
            None::<TriRail>,
            Seq::<char>::empty(),
            ValueKind::Normal,
        ),
{
    let raw = encode_utf8(e@);
    assert(vector_text(raw, 4, btern_table(), 0) =~= Seq::<char>::empty());
    assert(Seq::<char>::empty() + element_shown(raw, 4, btern_table(), 0).0 =~= element_shown(
        raw,
        4,
        btern_table(),
        0,
    ).0);
    if raw.len() == 4 {
        assert(element_bytes(raw, 4, 0) =~= raw);
        lemma_table_kinds(binary_ordinal(raw));
        let k = element_shown(raw, 4, btern_table(), 0).1;
        assert(k == scalar_shown(raw, btern_table()).2);
        assert(k != ValueKind::Error && k != ValueKind::Event);
        assert(vector_kind(raw, 4, btern_table(), 0) == ValueKind::Normal);
        assert(vector_kind(raw, 4, btern_table(), 1) == worse_kind_of(ValueKind::Normal, k));
        assert(vector_text(raw, 4, btern_table(), 1) == element_shown(raw, 4, btern_table(), 0).0);
    }
}

/// A Kleene vector of one element shows, as normal text, the label that the
/// same two bytes show as a KLEENE scalar; when its text is shorter than two
/// bytes the element is missing and shows "?"; a vector of fewer than two
/// bits has no element and shows empty text.
pub proof fn law_kleene_vector_element_is_scalar(e: String, num_bits: u32)
    ensures
        encode_utf8(e@).len() == 2 ==> kleene_vector_shown(VariableValue::String(e), 2) == (
            None::<TriRail>,
            kleene_scalar_shown(VariableValue::String(e)).1,
            ValueKind::Normal,
        ),
        encode_utf8(e@).len() < 2 ==> kleene_vector_shown(VariableValue::String(e), 2) == (
            None::<TriRail>,
            "?"@,
            ValueKind::Normal,
        ),
        num_bits < 2 ==> kleene_vector_shown(VariableValue::String(e), num_bits) == (
            None::<TriRail>,
            Seq::<char>::empty(),
            ValueKind::Normal,
        ),
{
    let raw = encode_utf8(e@);
    assert(vector_text(raw, 2, kleene_table(), 0) =~= Seq::<char>::empty());
    assert(Seq::<char>::empty() + element_shown(raw, 2, kleene_table(), 0).0 =~= element_shown(
        raw,
        2,
        kleene_table(),
        0,
    ).0);
    if raw.len() == 2 {
        assert(element_bytes(raw, 2, 0) =~= raw);
    }
}

} // verus!
