//! Translators from raw waveform values to displayed values: balanced-ternary
//! and Kleene logic signals, and enumerations described by a table of names.
pub mod types;
pub mod bits;
pub mod text;
pub mod enum_map;
pub mod ternary;
pub mod enum_translator;

pub use enum_map::EnumMap;
pub use enum_translator::EnumTranslator;
pub use ternary::{name, translate, translates, variable_info};
pub use types::{
    SubFieldTranslationResult, TranslateParams, TranslationPreference, TranslationResult, TriRail,
    ValueKind, ValueRepr, VariableInfo, VariableMeta, VariableType, VariableValue,
};
