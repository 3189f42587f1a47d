# btern_translator

Waveform value translators for the Surfer viewer, verified with Verus.

- `src/ternary.rs`: the balanced-ternary translator (BTERN_ULOGIC, BTERN_LOGIC,
  their vectors, KLEENE and KLEENE_VECTOR as GHDL encodes them).
- `src/enum_translator.rs`: the enum translator, which names values through the
  table that a variable carries, element by element for enum arrays.
- `src/enum_map.rs`: that table, modelled as a map from key text to name text.
  Surfer keeps it in a `HashMap<String, String>`. vstd specifies `HashMap`
  only for keys that obey its key model, which it establishes for integers
  and `bool`, not for `String`; a `String` key would have to be assumed to
  obey it, and this crate writes no `assume` (its one trusted item is the
  num-bigint formatting call in `src/bits.rs`). So the table is a list of
  (key, name) entries whose view is a `Map`: a later entry for a key replaces
  the earlier ones, and lookup scans from the end. Where Surfer takes the
  width of enum-array elements from `keys().next()`, in hash order, the table
  takes its first key; the app fills the table in the `HashMap`'s walk order,
  so both pick the same key, and the translation of a table whose keys share
  one length does not depend on the order in any case.
- `src/bits.rs`: reading binary digits as ordinals and writing numbers as
  zero-padded binary text: num-bigint writes the digits, and the padding is
  verified here, for any width.
- `src/text.rs`, `src/types.rs`: string helpers and the shared data types.
- `app/lib.rs`: the Extism plugin exports and the `Translator` impl, which
  convert Surfer's types to the library's and back.
