//! The enum translator: shows a value by the name that the variable's enum
//! table gives its encoding, and shows a combined enum array element by element.
use vstd::prelude::*;
use vstd::string::StringSliceAdditionalSpecFns;
use vstd::utf8::*;

use crate::bits::{biguint_binary_text, digits_value, lemma_binary_text_bytes, raw_text};
use crate::ternary::{
    is_ternary_name, element_bytes, element_cut_ok, elements_cut_ok, num_bits_or_zero, preference_of, ternary_type,
    ternary_type_of,
};
use crate::types::{
    opt_text, shown, TranslationPreference, TranslationResult, TriRail, ValueKind, ValueRepr,
    VariableInfo, VariableMeta, VariableType, VariableValue,
};

verus! {

/// Translates values of enumerations through the table of names they carry.
pub struct EnumTranslator {}

/// The characters of element `i` of the bytes, elements being `width` bytes wide.
pub open spec fn chunk_text(bytes: Seq<u8>, width: int, i: int) -> Seq<char> {
    decode_utf8(element_bytes(bytes, width, i))
}

/// What one element of an enum array shows: its name, or `ERROR(<element>)`.
pub open spec fn enum_piece(map: Map<Seq<char>, Seq<char>>, chunk: Seq<char>) -> Seq<char> {
    if map.contains_key(chunk) {
        map[chunk]
    } else {
        "ERROR("@ + chunk + ")"@
    }
}

/// What the first `n` elements of an enum array show, concatenated.
pub open spec fn enum_array_text(
    map: Map<Seq<char>, Seq<char>>,
    bytes: Seq<u8>,
    width: int,
    n: nat,
) -> Seq<char>
    decreases n,
{
    if n == 0 {
        Seq::empty()
    } else {
        enum_array_text(map, bytes, width, (n - 1) as nat) + enum_piece(
            map,
            chunk_text(bytes, width, n - 1),
        )
    }
}

/// Every one of the first `n` elements of an enum array has a name.
pub open spec fn enum_array_all_named(
    map: Map<Seq<char>, Seq<char>>,
    bytes: Seq<u8>,
    width: int,
    n: nat,
) -> bool {
    forall|i: int| 0 <= i < n ==> map.contains_key(#[trigger] chunk_text(bytes, width, i))
}

/// The width in bytes of the elements of an enum array: that of the first
/// key met in the table, or 1 for an empty table.
pub open spec fn enum_element_width(meta: VariableMeta) -> int {
    match meta.enum_map.first_key() {
        Some(k) => encode_utf8(k).len() as int,
        None => 1,
    }
}

/// The text of a value: a string as it is, a number in binary zero-padded to the variable's width.
pub open spec fn enum_value_text(meta: VariableMeta, value: VariableValue) -> Seq<char> {
    raw_text(value, num_bits_or_zero(meta) as nat)
}

/// The number of elements of an enum array value: its byte length over the element width.
pub open spec fn enum_element_count(meta: VariableMeta, value: VariableValue) -> nat {
    (encode_utf8(enum_value_text(meta, value)).len() as int / enum_element_width(meta)) as nat
}

/// What the enum translator shows for a value of a variable.
///
/// An enum array shows the name of each element, `ERROR(<element>)` for an
/// element without one, and warns when any element has none. Any other value
/// shows its name, or warns with `ERROR (<value>)`.
pub open spec fn enum_translation_shown(meta: VariableMeta, value: VariableValue) -> (
    Option<TriRail>,
    Seq<char>,
    ValueKind,
) {
    let text = enum_value_text(meta, value);
    let map = meta.enum_map@;
    if meta.variable_type == Some(VariableType::EnumArray) {
        let bytes = encode_utf8(text);
        let w = enum_element_width(meta);
        let n = enum_element_count(meta, value);
        (
            None,
            enum_array_text(map, bytes, w, n),
            if enum_array_all_named(map, bytes, w, n) {
                ValueKind::Normal
            } else {
                ValueKind::Warn
            },
        )
    } else if map.contains_key(text) {
        (None, map[text], ValueKind::Normal)
    } else {
        (None, "ERROR ("@ + text + ")"@, ValueKind::Warn)
    }
}

/// The enum translator can handle the value: a number needs the variable's
/// width, and an enum array needs elements at least one byte wide that can
/// be cut out of the value's text at character boundaries.
pub open spec fn enum_translation_defined(meta: VariableMeta, value: VariableValue) -> bool {
    &&& value is BigUint ==> meta.num_bits is Some
    &&& meta.variable_type == Some(VariableType::EnumArray) ==> {
        &&& enum_element_width(meta) > 0
        &&& elements_cut_ok(value, enum_element_width(meta), enum_element_count(meta, value) as int)
    }
}

/// How eager the enum translator is for a variable: it prefers variables
/// that carry an enum table, except the ternary types, which the ternary
/// translator handles.
pub open spec fn enum_preference_of(meta: VariableMeta) -> TranslationPreference {
    if meta.enum_map@.dom() =~= Set::empty() || ternary_type_of(opt_text(meta.variable_type_name))
        is Some {
        TranslationPreference::No
    } else {
        TranslationPreference::Prefer
    }
}

/// Bounds of element `i` among `n == len / w` elements of `w` bytes.
proof fn lemma_element_bounds(i: int, n: int, w: int, len: int)
    requires
        0 <= i < n,
        w > 0,
        len >= 0,
        n == len / w,
    ensures
        0 <= i * w,
        (i + 1) * w == i * w + w,
        i * w + w <= len,
{
    assert((i + 1) * w == i * w + w) by (nonlinear_arith);
    assert(0 <= i * w) by (nonlinear_arith)
        requires
            i >= 0,
            w > 0,
    ;
    assert((i + 1) * w <= n * w) by (nonlinear_arith)
        requires
            i + 1 <= n,
            w > 0,
    ;
    assert(n * w <= len) by (nonlinear_arith)
        requires
            n == len / w,
            w > 0,
            len >= 0,
    ;
}

/// A string whose bytes are `bytes` can be cut between `start` and `end`
/// when both are character boundaries.
proof fn lemma_inner_boundary(bytes: Seq<u8>, start: int, end: int)
    requires
        valid_utf8(bytes),
        0 <= start < end <= bytes.len(),
        is_char_boundary(bytes, start),
        is_char_boundary(bytes, end),
    ensures
        valid_utf8(bytes.subrange(0, end)),
        is_char_boundary(bytes.subrange(0, end), start),
{
    valid_utf8_split(bytes, end);
    let head = bytes.subrange(0, end);
    is_char_boundary_iff_not_is_continuation_byte(head, start);
    is_char_boundary_iff_not_is_continuation_byte(bytes, start);
    assert(head[start] == bytes[start]);
}

impl EnumTranslator {
    /// The name of this translator.
    pub fn name(&self) -> (n: String)
        ensures
            n@ == "Enum"@,
    {
        "Enum".to_owned()
    }

    /// Translates one value of a variable through its enum table.
    pub fn translate(&self, meta: &VariableMeta, value: &VariableValue) -> (r: TranslationResult)
        requires
            enum_translation_defined(*meta, *value),
        ensures
            shown(r) == enum_translation_shown(*meta, *value),
        r.subfields@.len() == 0,
    {
        broadcast use encode_utf8_valid_utf8, encode_utf8_decode_utf8;

        let ghost text = enum_value_text(*meta, *value);
        let str_value: String = match value {
            VariableValue::BigUint(d) => {
                let width = match meta.num_bits {
                    Some(b) => b,
                    None => 0,
                };
                biguint_binary_text(d.as_slice(), width as usize)
            },
            VariableValue::String(s) => s.clone(),
        };
        assert(str_value@ == text);
        let ghost map = meta.enum_map@;
        let is_array = match meta.variable_type {
            Some(VariableType::EnumArray) => true,
            _ => false,
        };
        if is_array {
            let bits_per_element: usize = match meta.enum_map.first_key_byte_len() {
                Some(l) => l,
                None => 1,
            };
            let s = str_value.as_str();
            let bytes = s.as_bytes();
            let ghost w = bits_per_element as int;
            let ghost len = bytes@.len() as int;
            let n = bytes.len() / bits_per_element;
            assert(bytes@ == encode_utf8(text));
            assert(n == enum_element_count(*meta, *value));
            proof {
                if let VariableValue::BigUint(d) = value {
                    let nb = num_bits_or_zero(*meta) as nat;
                    lemma_binary_text_bytes(digits_value(d@), nb);
                    assert forall|i: int| 0 <= i < n && (i + 1) * w <= len implies #[trigger] element_cut_ok(
                        bytes@,
                        w,
                        i,
                    ) by {
                        lemma_element_bounds(i, n as int, w, len);
                        assert(is_char_boundary(bytes@, i * w));
                        assert(is_char_boundary(bytes@, (i + 1) * w));
                    }
                }
            }
            let mut result = String::new();
            let mut any_error = false;
            let mut start: usize = 0;
            let mut i: usize = 0;
            while i < n
                invariant
                    i <= n,
                    w == bits_per_element,
                    w > 0,
                    len == bytes@.len(),
                    len == bytes.len(),
                    n == len / w,
                    start == i * w,
                    bytes@ == encode_utf8(s@),
                    s@ == text,
                    map == meta.enum_map@,
                    forall|k: int|
                        0 <= k < n && (k + 1) * w <= len ==> #[trigger] element_cut_ok(
                            bytes@,
                            w,
                            k,
                        ),
                    result@ == enum_array_text(map, bytes@, w, i as nat),
                    any_error == !enum_array_all_named(map, bytes@, w, i as nat),
                decreases n - i,
            {
                proof {
                    lemma_element_bounds(i as int, n as int, w, len);
                }
                let end = start + bits_per_element;
                assert(element_cut_ok(bytes@, w, i as int));
                proof {
                    encode_utf8_valid_utf8(s@);
                    lemma_inner_boundary(bytes@, start as int, end as int);
                }
                let (head, _) = s.split_at(end);
                let (_, chunk) = head.split_at(start);
                assert(chunk.spec_bytes() =~= element_bytes(bytes@, w, i as int));
                proof {
                    encode_utf8_decode_utf8(chunk@);
                }
                assert(chunk@ == chunk_text(bytes@, w, i as int));
                let ghost before = any_error;
                match meta.enum_map.get(chunk) {
                    Some(name) => {
                        result.append(name.as_str());
                    },
                    None => {
                        result.append("ERROR(");
                        result.append(chunk);
                        result.append(")");
                        any_error = true;
                    },
                }
                proof {
                    assert forall|k: int| 0 <= k < i + 1 implies map.contains_key(
                        #[trigger] chunk_text(bytes@, w, k),
                    ) || any_error by {
                        if k < i && !any_error {
                            assert(map.contains_key(chunk_text(bytes@, w, k)));
                        }
                    }
                    if before {
                        let k = choose|k: int|
                            0 <= k < i && !map.contains_key(#[trigger] chunk_text(bytes@, w, k));
                        assert(!map.contains_key(chunk_text(bytes@, w, k)));
                    }
                    if any_error && !before {
                        assert(!map.contains_key(chunk_text(bytes@, w, i as int)));
                    }
                }
                start = end;
                i = i + 1;
            }
            let kind = if any_error {
                ValueKind::Warn
            } else {
                ValueKind::Normal
            };
            return TranslationResult { subfields: Vec::new(), val: ValueRepr::String(result), kind };
        }
        match meta.enum_map.get(str_value.as_str()) {
            Some(name) => TranslationResult {
                subfields: Vec::new(),
                val: ValueRepr::String(name.clone()),
                kind: ValueKind::Normal,
            },
            None => {
                let mut message = "ERROR (".to_owned();
                message.append(str_value.as_str());
                message.append(")");
                TranslationResult { subfields: Vec::new(), val: ValueRepr::String(message), kind: ValueKind::Warn }
            },
        }
    }

    /// The shape of the values this translator produces: always bits.
    pub fn variable_info(&self, _variable: &VariableMeta) -> (i: VariableInfo)
        ensures
            i == VariableInfo::Bits,
    {
        VariableInfo::Bits
    }

    /// Whether this translator wants to handle a variable.
    pub fn translates(&self, variable: &VariableMeta) -> (p: TranslationPreference)
        ensures
            p == enum_preference_of(*variable),
    {
        let excluded = ternary_type(&variable.variable_type_name).is_some();
        if variable.enum_map.is_empty() || excluded {
            TranslationPreference::No
        } else {
            TranslationPreference::Prefer
        }
    }
}

/// The enum translator and the ternary translator never both claim a
/// variable: whatever the ternary translator prefers, the enum translator declines.
pub proof fn law_translators_do_not_overlap(meta: VariableMeta)
    ensures
        preference_of(meta) == TranslationPreference::Prefer ==> enum_preference_of(meta)
            == TranslationPreference::No,
{
}

/// The enum translation does not depend on the order in which the table was
/// filled: two variables that agree on everything but the order of their
/// tables' entries, whose tables map the same keys to the same names and
/// whose keys all have the same byte length, translate every value alike
/// and admit the same values.
pub proof fn law_enum_translation_ignores_table_order(
    meta1: VariableMeta,
    meta2: VariableMeta,
    value: VariableValue,
    key_len: nat,
)
    requires
        meta1.num_bits == meta2.num_bits,
        meta1.variable_type == meta2.variable_type,
        opt_text(meta1.variable_type_name) == opt_text(meta2.variable_type_name),
        meta1.enum_map@ == meta2.enum_map@,
        forall|k: Seq<char>| #[trigger]
            meta1.enum_map@.contains_key(k) ==> encode_utf8(k).len() == key_len,
    ensures
        enum_translation_shown(meta1, value) == enum_translation_shown(meta2, value),
        enum_translation_defined(meta1, value) == enum_translation_defined(meta2, value),
        enum_preference_of(meta1) == enum_preference_of(meta2),
{
    meta1.enum_map.lemma_first_key();
    meta2.enum_map.lemma_first_key();
    assert(enum_element_width(meta1) == enum_element_width(meta2));
}

/// The enum translator prefers every variable that carries a non-empty enum
/// table and whose declared type name is none of the six ternary names,
/// whatever its variable type; it declines a variable with an empty table or
/// a ternary name.
pub proof fn law_enum_preference(meta: VariableMeta)
    ensures
        (exists|k: Seq<char>| meta.enum_map@.contains_key(k)) && !is_ternary_name(
            opt_text(meta.variable_type_name),
        ) ==> enum_preference_of(meta) == TranslationPreference::Prefer,
        !(exists|k: Seq<char>| meta.enum_map@.contains_key(k)) || is_ternary_name(
            opt_text(meta.variable_type_name),
        ) ==> enum_preference_of(meta) == TranslationPreference::No,
{
    if exists|k: Seq<char>| meta.enum_map@.contains_key(k) {
        let k = choose|k: Seq<char>| meta.enum_map@.contains_key(k);
        assert(meta.enum_map@.dom().contains(k));
        assert(!Set::<Seq<char>>::empty().contains(k));
        assert(!(meta.enum_map@.dom() =~= Set::empty()));
    } else {
        assert(meta.enum_map@.dom() =~= Set::empty());
    }
}

/// Any variable that is not an enum array, whatever its variable type, shows
/// the name its table gives the text of its value as a normal value, and
/// warns with `ERROR (<text>)` when the table has no such key.
pub proof fn law_enum_scalar_lookup(meta: VariableMeta, value: VariableValue)
    requires
        meta.variable_type != Some(VariableType::EnumArray),
    ensures
        meta.enum_map@.contains_key(raw_text(value, num_bits_or_zero(meta) as nat))
            ==> enum_translation_shown(meta, value) == (
            None::<TriRail>,
            meta.enum_map@[raw_text(value, num_bits_or_zero(meta) as nat)],
            ValueKind::Normal,
        ),
        !meta.enum_map@.contains_key(raw_text(value, num_bits_or_zero(meta) as nat))
            ==> enum_translation_shown(meta, value) == (
            None::<TriRail>,
            "ERROR ("@ + raw_text(value, num_bits_or_zero(meta) as nat) + ")"@,
            ValueKind::Warn,
        ),
{
}

/// The byte width of an enum array's elements: that of the table's first
/// key, or 1 for an empty table.
pub open spec fn first_key_width(meta: VariableMeta) -> int {
    match meta.enum_map.first_key() {
        Some(k) => encode_utf8(k).len() as int,
        None => 1,
    }
}

/// An enum array is shown as text, and warns exactly when one of its
/// elements, the first up to the last whole one, has no name in the table;
/// otherwise it is normal.
pub proof fn law_enum_array_warns_on_unnamed_element(meta: VariableMeta, value: VariableValue)
    requires
        meta.variable_type == Some(VariableType::EnumArray),
        first_key_width(meta) > 0,
    ensures
        ({
            let bytes = encode_utf8(raw_text(value, num_bits_or_zero(meta) as nat));
            let w = first_key_width(meta);
            let n = bytes.len() as int / w;
            let r = enum_translation_shown(meta, value);
            &&& r.0 is None
            &&& r.2 == ValueKind::Warn <==> exists|i: int|
                0 <= i < n && !meta.enum_map@.contains_key(#[trigger] chunk_text(bytes, w, i))
            &&& r.2 == ValueKind::Normal <==> forall|i: int|
                0 <= i < n ==> meta.enum_map@.contains_key(#[trigger] chunk_text(bytes, w, i))
        }),
{
}

/// An enum array holding a single whole element shows that element's name
/// as a normal value, or `ERROR(<element>)` as a warning when it has none.
pub proof fn law_enum_array_single_element(meta: VariableMeta, value: VariableValue)
    requires
        meta.variable_type == Some(VariableType::EnumArray),
        first_key_width(meta) > 0,
        ({
            let len = encode_utf8(raw_text(value, num_bits_or_zero(meta) as nat)).len();
            first_key_width(meta) <= len < 2 * first_key_width(meta)
        }),
    ensures
        ({
            let bytes = encode_utf8(raw_text(value, num_bits_or_zero(meta) as nat));
            let c = decode_utf8(bytes.subrange(0, first_key_width(meta)));
            let map = meta.enum_map@;
            &&& map.contains_key(c) ==> enum_translation_shown(meta, value) == (
                None::<TriRail>,
                map[c],
                ValueKind::Normal,
            )
            &&& !map.contains_key(c) ==> enum_translation_shown(meta, value) == (
                None::<TriRail>,
                "ERROR("@ + c + ")"@,
                ValueKind::Warn,
            )
        }),
{
    let bytes = encode_utf8(raw_text(value, num_bits_or_zero(meta) as nat));
    let w = first_key_width(meta);
    let map = meta.enum_map@;
    assert(bytes.len() as int / w == 1) by (nonlinear_arith)
        requires
            w > 0,
            w <= bytes.len() < 2 * w,
    ;
    assert(chunk_text(bytes, w, 0) == decode_utf8(bytes.subrange(0, w)));
    assert(enum_array_text(map, bytes, w, 0) =~= Seq::<char>::empty());
    let piece = enum_piece(map, chunk_text(bytes, w, 0));
    assert(Seq::<char>::empty() + piece =~= piece);
    assert(enum_array_text(map, bytes, w, 1) == piece);
}

/// Where the elements of `a + b` come from, when `a` holds exactly `p` elements of `w` bytes.
proof fn lemma_concat_chunk(a: Seq<u8>, b: Seq<u8>, w: int, p: int, i: int)
    requires
        w > 0,
        p >= 0,
        a.len() == w * p,
        0 <= i,
    ensures
        i < p ==> chunk_text(a + b, w, i) == chunk_text(a, w, i),
        i >= p && (i - p + 1) * w <= b.len() ==> chunk_text(a + b, w, i) == chunk_text(b, w, i - p),
{
    let ab = a + b;
    assert((i + 1) * w == i * w + w && 0 <= i * w && w * p == p * w) by (nonlinear_arith)
        requires
            i >= 0,
            w > 0,
    ;
    if i < p {
        assert((i + 1) * w <= p * w) by (nonlinear_arith)
            requires
                i + 1 <= p,
                w > 0,
        ;
        assert(element_bytes(ab, w, i) =~= element_bytes(a, w, i));
    } else {
        let j = i - p;
        assert(i * w == p * w + j * w && (j + 1) * w == j * w + w && 0 <= j * w) by (
        nonlinear_arith)
            requires
                j == i - p,
                j >= 0,
                w > 0,
        ;
        if (j + 1) * w <= b.len() {
            assert(element_bytes(ab, w, i) =~= element_bytes(b, w, j));
        }
    }
}

/// The first `n <= p` elements of `a + b` are those of `a`.
proof fn lemma_enum_concat_prefix(
    map: Map<Seq<char>, Seq<char>>,
    a: Seq<u8>,
    b: Seq<u8>,
    w: int,
    p: nat,
    n: nat,
)
    requires
        w > 0,
        a.len() == w * p,
        n <= p,
    ensures
        enum_array_text(map, a + b, w, n) == enum_array_text(map, a, w, n),
        enum_array_all_named(map, a + b, w, n) == enum_array_all_named(map, a, w, n),
    decreases n,
{
    if n > 0 {
        lemma_enum_concat_prefix(map, a, b, w, p, (n - 1) as nat);
        lemma_concat_chunk(a, b, w, p as int, n - 1);
    }
    assert forall|i: int| 0 <= i < n implies chunk_text(a + b, w, i) == chunk_text(a, w, i) by {
        lemma_concat_chunk(a, b, w, p as int, i);
    }
}

/// Element-wise form of the enum array concatenation.
proof fn lemma_enum_concat(
    map: Map<Seq<char>, Seq<char>>,
    a: Seq<u8>,
    b: Seq<u8>,
    w: int,
    p: nat,
    q: nat,
)
    requires
        w > 0,
        a.len() == w * p,
        q * w <= b.len(),
    ensures
        enum_array_text(map, a + b, w, p + q) == enum_array_text(map, a, w, p) + enum_array_text(
            map,
            b,
            w,
            q,
        ),
        enum_array_all_named(map, a + b, w, p + q) == (enum_array_all_named(map, a, w, p)
            && enum_array_all_named(map, b, w, q)),
    decreases q,
{
    if q == 0 {
        lemma_enum_concat_prefix(map, a, b, w, p, p);
        assert(enum_array_text(map, a, w, p) + Seq::<char>::empty() =~= enum_array_text(
            map,
            a,
            w,
            p,
        ));
    } else {
        assert((q - 1) * w <= q * w) by (nonlinear_arith)
            requires
                q >= 1,
                w > 0,
        ;
        assert(q * w == (q - 1) * w + w) by (nonlinear_arith);
        lemma_enum_concat(map, a, b, w, p, (q - 1) as nat);
        lemma_concat_chunk(a, b, w, p as int, p + q - 1);
        let ta = enum_array_text(map, a, w, p);
        let tb = enum_array_text(map, b, w, (q - 1) as nat);
        let e = enum_piece(map, chunk_text(b, w, q - 1));
        assert((ta + tb) + e =~= ta + (tb + e));
        assert forall|i: int| 0 <= i < p + q implies (map.contains_key(
            #[trigger] chunk_text(a + b, w, i),
        ) == if i < p {
            map.contains_key(chunk_text(a, w, i))
        } else {
            map.contains_key(chunk_text(b, w, i - p))
        }) by {
            assert((i - p + 1) * w <= q * w) by (nonlinear_arith)
                requires
                    i < p + q,
                    w > 0,
            ;
            lemma_concat_chunk(a, b, w, p as int, i);
        }
        if enum_array_all_named(map, a, w, p) && enum_array_all_named(map, b, w, q) {
            assert forall|i: int| 0 <= i < p + q implies map.contains_key(
                #[trigger] chunk_text(a + b, w, i),
            ) by {
                if i >= p {
                    assert(map.contains_key(chunk_text(b, w, i - p)));
                }
            }
        }
        if enum_array_all_named(map, a + b, w, p + q) {
            assert forall|j: int| 0 <= j < q implies map.contains_key(
                #[trigger] chunk_text(b, w, j),
            ) by {
                assert(map.contains_key(chunk_text(a + b, w, j + p)));
            }
            assert forall|j: int| 0 <= j < p implies map.contains_key(
                #[trigger] chunk_text(a, w, j),
            ) by {
                assert(map.contains_key(chunk_text(a + b, w, j)));
            }
        }
    }
}

/// An enum array whose text is the text of `sa` followed by that of `sb`,
/// `sa` holding a whole number of elements, shows what `sa` shows followed
/// by what `sb` shows, and warns exactly when one of the two warns.
pub proof fn law_enum_array_concat(meta: VariableMeta, sa: String, sb: String, s: String)
    requires
        meta.variable_type == Some(VariableType::EnumArray),
        first_key_width(meta) > 0,
        s@ == sa@ + sb@,
        encode_utf8(sa@).len() as int % first_key_width(meta) == 0,
    ensures
        enum_translation_shown(meta, VariableValue::String(s)).1 == enum_translation_shown(
            meta,
            VariableValue::String(sa),
        ).1 + enum_translation_shown(meta, VariableValue::String(sb)).1,
        enum_translation_shown(meta, VariableValue::String(s)).2 == ValueKind::Warn <==> (
        enum_translation_shown(meta, VariableValue::String(sa)).2 == ValueKind::Warn
            || enum_translation_shown(meta, VariableValue::String(sb)).2 == ValueKind::Warn),
{
    let w = first_key_width(meta);
    let a = encode_utf8(sa@);
    let b = encode_utf8(sb@);
    crate::ternary::lemma_encode_utf8_concat(sa@, sb@);
    let la = a.len() as int;
    let lb = b.len() as int;
    let p = la / w;
    let q = lb / w;
    vstd::arithmetic::div_mod::lemma_fundamental_div_mod(la, w);
    vstd::arithmetic::div_mod::lemma_fundamental_div_mod(lb, w);
    assert(la == w * p && p >= 0 && q >= 0 && q * w <= lb && (la + lb) / w == p + q) by (
    nonlinear_arith)
        requires
            w > 0,
            la >= 0,
            lb >= 0,
            la % w == 0,
            p == la / w,
            q == lb / w,
            la == w * (la / w) + la % w,
            lb == w * (lb / w) + lb % w,
            0 <= lb % w < w,
    ;
    lemma_enum_concat(meta.enum_map@, a, b, w, p as nat, q as nat);
}

} // verus!
