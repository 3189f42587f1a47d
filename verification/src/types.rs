//! Plain data types that translators consume and produce.
use vstd::prelude::*;

use crate::enum_map::EnumMap;

verus! {

/// How a translated value should be presented (and coloured) by the viewer.
#[derive(Clone, Copy, Debug, PartialEq, Eq, Structural)]
pub enum ValueKind {
    Normal,
    Undef,
    HighImp,
    Warn,
    DontCare,
    Weak,
    Error,
    Event,
}

/// Which rail a single balanced-ternary value is drawn on.
#[derive(Clone, Copy, Debug, PartialEq, Eq, Structural)]
pub enum TriRail {
    Low,
    Mid,
    High,
}

/// The shown representation of a translated value.
#[derive(Clone, Debug, PartialEq, Eq)]
pub enum ValueRepr {
    /// Free text, used for collapsed vectors and enum names.
    String(String),
    /// A single ternary value drawn on a rail, with its label.
    Trit(TriRail, String),
}

/// The outcome of translating one value.
#[derive(Debug, PartialEq, Eq)]
pub struct TranslationResult {
    pub val: ValueRepr,
    /// Named parts of the value, shown below it.
    pub subfields: Vec<SubFieldTranslationResult>,
    pub kind: ValueKind,
}

/// A named part of a translated value.
#[derive(Debug, PartialEq, Eq)]
pub struct SubFieldTranslationResult {
    pub name: String,
    pub result: TranslationResult,
}

/// How eager a translator is to handle a variable.
#[derive(Clone, Copy, Debug, PartialEq, Eq, Structural)]
pub enum TranslationPreference {
    Prefer,
    Yes,
    No,
}

/// The shape of the values a translator produces for a variable.
#[derive(Clone, Copy, Debug, PartialEq, Eq, Structural)]
pub enum VariableInfo {
    Bits,
    Bool,
}

/// A raw waveform value: either a number, given by its base-2^32 digits
/// (least significant digit first), or a string of value characters.
#[derive(Clone, Debug, PartialEq, Eq)]
pub enum VariableValue {
    BigUint(Vec<u32>),
    String(String),
}

/// The declared kind of a waveform variable.
#[derive(Clone, Copy, Debug, PartialEq, Eq, Structural)]
pub enum VariableType {
    Bit,
    BitVector,
    StdLogic,
    StdLogicVector,
    StdULogic,
    StdULogicVector,
    Enum,
    /// A combined signal made of equally wide enum elements.
    EnumArray,
    Other,
}

/// What a translator knows of a variable.
#[derive(Clone, Debug)]
pub struct VariableMeta {
    /// The width of the variable in bits, when it has one.
    pub num_bits: Option<u32>,
    pub variable_type: Option<VariableType>,
    /// The name of the variable's declared type, such as `btern_ulogic`.
    pub variable_type_name: Option<String>,
    /// The names of the encoded values, for enumerations.
    pub enum_map: EnumMap,
}

/// A variable together with one of its values, to be translated.
#[derive(Clone, Debug)]
pub struct TranslateParams {
    pub variable: VariableMeta,
    pub value: VariableValue,
}

/// What a result shows: the rail of a single ternary value (none for text),
/// the text, and the kind.
pub open spec fn shown(r: TranslationResult) -> (Option<TriRail>, Seq<char>, ValueKind) {
    match r.val {
        ValueRepr::String(s) => (None, s@, r.kind),
        ValueRepr::Trit(rail, s) => (Some(rail), s@, r.kind),
    }
}

/// The text of an optional string.
pub open spec fn opt_text(s: Option<String>) -> Option<Seq<char>> {
    match s {
        Some(t) => Some(t@),
        None => None,
    }
}

/// How severe a kind is when several values are shown as one: higher is more alarming.
pub open spec fn severity_of(k: ValueKind) -> u8 {
    match k {
        ValueKind::Undef => 5,
        ValueKind::HighImp => 4,
        ValueKind::Warn => 3,
        ValueKind::Weak => 2,
        ValueKind::DontCare => 1,
        _ => 0,
    }
}

pub fn severity(k: ValueKind) -> (s: u8)
    ensures
        s == severity_of(k),
{
    match k {
        ValueKind::Undef => 5,
        ValueKind::HighImp => 4,
        ValueKind::Warn => 3,
        ValueKind::Weak => 2,
        ValueKind::DontCare => 1,
        _ => 0,
    }
}

/// The more alarming of two kinds; on a tie, the first one.
pub open spec fn worse_kind_of(a: ValueKind, b: ValueKind) -> ValueKind {
    if severity_of(a) >= severity_of(b) {
        a
    } else {
        b
    }
}

pub fn worse_kind(a: ValueKind, b: ValueKind) -> (k: ValueKind)
    ensures
        k == worse_kind_of(a, b),
{
    if severity(a) >= severity(b) {
        a
    } else {
        b
    }
}

/// The severity of the worse of two kinds is the larger of their severities,
/// and the result is one of the two.
pub proof fn lemma_worse_kind_is_max(a: ValueKind, b: ValueKind)
    ensures
        severity_of(worse_kind_of(a, b)) >= severity_of(a),
        severity_of(worse_kind_of(a, b)) >= severity_of(b),
        worse_kind_of(a, b) == a || worse_kind_of(a, b) == b,
{
}

/// Choosing the worse kind does not depend on the order of its arguments,
/// up to kinds of equal severity.
pub proof fn lemma_worse_kind_symmetric(a: ValueKind, b: ValueKind)
    ensures
        severity_of(worse_kind_of(a, b)) == severity_of(worse_kind_of(b, a)),
        severity_of(a) != severity_of(b) ==> worse_kind_of(a, b) == worse_kind_of(b, a),
{
}

/// Kinds from most to least alarming: undefined, high impedance, warning,
/// weak, don't care, and then normal, error and event alike.
pub proof fn law_severity_order()
    ensures
        severity_of(ValueKind::Undef) > severity_of(ValueKind::HighImp),
        severity_of(ValueKind::HighImp) > severity_of(ValueKind::Warn),
        severity_of(ValueKind::Warn) > severity_of(ValueKind::Weak),
        severity_of(ValueKind::Weak) > severity_of(ValueKind::DontCare),
        severity_of(ValueKind::DontCare) > severity_of(ValueKind::Normal),
        severity_of(ValueKind::Normal) == severity_of(ValueKind::Error),
        severity_of(ValueKind::Normal) == severity_of(ValueKind::Event),
{
}

/// Choosing the worse of three kinds does not depend on how they are grouped.
pub proof fn lemma_worse_kind_associative(x: ValueKind, y: ValueKind, z: ValueKind)
    ensures
        worse_kind_of(worse_kind_of(x, y), z) == worse_kind_of(x, worse_kind_of(y, z)),
{
}

/// Normal is neutral on the right: it never replaces a kind.
pub proof fn lemma_worse_kind_normal_right(x: ValueKind)
    ensures
        worse_kind_of(x, ValueKind::Normal) == x,
{
}

/// Undefined is the most alarming kind: once it is reached it is never replaced.
pub proof fn lemma_undef_absorbs(k: ValueKind)
    ensures
        worse_kind_of(ValueKind::Undef, k) == ValueKind::Undef,
        severity_of(worse_kind_of(k, ValueKind::Undef)) == severity_of(ValueKind::Undef),
{
}

} // verus!
