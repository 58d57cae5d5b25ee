//! Generic runtime settings that a host application exposes: categories of
//! fields, each a number, a switch, a text or a choice, kept in a registry
//! ordered by category id, which counts every change in its revision.
//!
//! A number is held as the bit pattern of its `f64` (`f64::to_bits`); two
//! numbers are equal as `f64` values are: never when either is NaN, and
//! positive and negative zero are equal.

use vstd::prelude::*;
use vstd::string::{StringExecFns, StringSliceAdditionalSpecFns};
use vstd::utf8::encode_utf8;
use crate::bytes_order::{
    bytes_less, bytes_lt, lemma_bytes_lt_asymmetric, lemma_bytes_lt_irreflexive, lemma_bytes_lt_total,
    lemma_bytes_lt_transitive,
};
use crate::custom_host::next_rev;
use crate::palette_config::{is_blank, is_blank_spec};
use crate::text::{bytes_eq, str_eq};

verus! {

/// The bit pattern is a NaN: all exponent bits set and a nonzero mantissa.
pub open spec fn f64_bits_is_nan(bits: u64) -> bool {
    (bits as int / 0x10_0000_0000_0000) % 0x800 == 0x7FF && bits as int % 0x10_0000_0000_0000 != 0
}

/// Two bit patterns hold equal `f64` values.
pub open spec fn f64_bits_eq(a: u64, b: u64) -> bool {
    &&& !f64_bits_is_nan(a)
    &&& !f64_bits_is_nan(b)
    &&& (a == b || (a as int % 0x8000_0000_0000_0000 == 0 && b as int % 0x8000_0000_0000_0000 == 0))
}

/// Whether two `f64` bit patterns hold equal values.
pub fn f64_bits_equal(a: u64, b: u64) -> (r: bool)
    ensures
        r == f64_bits_eq(a, b),
{
    let a_nan = (a / 0x10_0000_0000_0000) % 0x800 == 0x7FF && a % 0x10_0000_0000_0000 != 0;
    let b_nan = (b / 0x10_0000_0000_0000) % 0x800 == 0x7FF && b % 0x10_0000_0000_0000 != 0;
    !a_nan && !b_nan && (a == b || (a % 0x8000_0000_0000_0000 == 0 && b % 0x8000_0000_0000_0000 == 0))
}

/// Editor limits of a number; each is an `f64` bit pattern.
#[derive(Clone, Copy, Debug, PartialEq, Eq, Structural)]
pub struct PixelSettingNumberRange {
    pub min: u64,
    pub max: u64,
    pub step: u64,
    pub drag_step: u64,
}

impl PixelSettingNumberRange {
    /// Limits from `min` to `max` in steps of `step`, dragging by `step` too.
    pub fn new(min: u64, max: u64, step: u64) -> (r: Self)
        ensures
            r == (PixelSettingNumberRange { min, max, step, drag_step: step }),
    {
        PixelSettingNumberRange { min, max, step, drag_step: step }
    }

    /// The same limits, dragging by `drag_step`.
    pub fn with_drag_step(self, drag_step: u64) -> (r: Self)
        ensures
            r == (PixelSettingNumberRange { drag_step, ..self }),
    {
        PixelSettingNumberRange { drag_step, ..self }
    }
}

/// The value of a field.
#[derive(Debug)]
pub enum PixelSettingValue {
    /// An `f64`, by its bit pattern.
    Number(u64),
    Bool(bool),
    Text(String),
}

impl Clone for PixelSettingValue {
    fn clone(&self) -> (r: Self)
        ensures
            r == *self,
    {
        match self {
            PixelSettingValue::Number(v) => PixelSettingValue::Number(*v),
            PixelSettingValue::Bool(v) => PixelSettingValue::Bool(*v),
            PixelSettingValue::Text(v) => PixelSettingValue::Text(v.clone()),
        }
    }
}

/// Two values are equal: numbers as `f64`, switches as booleans, texts
/// character by character; values of different sorts never.
pub open spec fn value_eq(a: PixelSettingValue, b: PixelSettingValue) -> bool {
    match (a, b) {
        (PixelSettingValue::Number(x), PixelSettingValue::Number(y)) => f64_bits_eq(x, y),
        (PixelSettingValue::Bool(x), PixelSettingValue::Bool(y)) => x == y,
        (PixelSettingValue::Text(x), PixelSettingValue::Text(y)) => x@ == y@,
        _ => false,
    }
}

impl PixelSettingValue {
    /// Whether the two values are equal.
    pub fn equals(&self, other: &PixelSettingValue) -> (r: bool)
        ensures
            r == value_eq(*self, *other),
    {
        match (self, other) {
            (PixelSettingValue::Number(x), PixelSettingValue::Number(y)) => f64_bits_equal(*x, *y),
            (PixelSettingValue::Bool(x), PixelSettingValue::Bool(y)) => *x == *y,
            (PixelSettingValue::Text(x), PixelSettingValue::Text(y)) => str_eq(x.as_str(), y.as_str()),
            _ => false,
        }
    }

    /// The number, if the value is one.
    pub fn as_number(&self) -> (r: Option<u64>)
        ensures
            r == match *self {
                PixelSettingValue::Number(v) => Some(v),
                _ => None::<u64>,
            },
    {
        match self {
            PixelSettingValue::Number(v) => Some(*v),
            _ => None,
        }
    }

    /// The switch, if the value is one.
    pub fn as_bool(&self) -> (r: Option<bool>)
        ensures
            r == match *self {
                PixelSettingValue::Bool(v) => Some(v),
                _ => None::<bool>,
            },
    {
        match self {
            PixelSettingValue::Bool(v) => Some(*v),
            _ => None,
        }
    }

    /// The text, if the value is one.
    pub fn as_text(&self) -> (r: Option<&str>)
        ensures
            match *self {
                PixelSettingValue::Text(v) => r is Some && r->0@ == v@,
                _ => r is None,
            },
    {
        match self {
            PixelSettingValue::Text(v) => Some(v.as_str()),
            _ => None,
        }
    }
}

/// How the editor presents a field.
#[derive(Debug)]
pub enum PixelSettingKind {
    Number(PixelSettingNumberRange),
    Bool,
    Text,
    Choice(Vec<String>),
}

/// What a field's kind holds.
pub enum KindView {
    Number(PixelSettingNumberRange),
    Bool,
    Text,
    Choice(Seq<String>),
}

impl View for PixelSettingKind {
    type V = KindView;

    open spec fn view(&self) -> KindView {
        match self {
            PixelSettingKind::Number(r) => KindView::Number(*r),
            PixelSettingKind::Bool => KindView::Bool,
            PixelSettingKind::Text => KindView::Text,
            PixelSettingKind::Choice(o) => KindView::Choice(o@),
        }
    }
}

fn clone_strings(v: &Vec<String>) -> (r: Vec<String>)
    ensures
        r@ == v@,
{
    let mut r: Vec<String> = Vec::new();
    let mut k: usize = 0;
    while k < v.len()
        invariant
            k <= v@.len(),
            r@ == v@.take(k as int),
        decreases v@.len() - k,
    {
        r.push(v[k].clone());
        assert(r@ =~= v@.take(k + 1));
        k = k + 1;
    }
    assert(v@.take(v@.len() as int) =~= v@);
    r
}

impl Clone for PixelSettingKind {
    fn clone(&self) -> (r: Self)
        ensures
            r@ == self@,
    {
        match self {
            PixelSettingKind::Number(range) => PixelSettingKind::Number(*range),
            PixelSettingKind::Bool => PixelSettingKind::Bool,
            PixelSettingKind::Text => PixelSettingKind::Text,
            PixelSettingKind::Choice(options) => PixelSettingKind::Choice(clone_strings(options)),
        }
    }
}

/// One setting.
#[derive(Debug)]
pub struct PixelSettingField {
    pub id: String,
    pub label: String,
    pub value: PixelSettingValue,
    pub kind: PixelSettingKind,
    pub help: Option<String>,
}

/// What a field holds.
pub struct FieldView {
    pub id: String,
    pub label: String,
    pub value: PixelSettingValue,
    pub kind: KindView,
    pub help: Option<String>,
}

impl View for PixelSettingField {
    type V = FieldView;

    open spec fn view(&self) -> FieldView {
        FieldView { id: self.id, label: self.label, value: self.value, kind: self.kind@, help: self.help }
    }
}

impl Clone for PixelSettingField {
    fn clone(&self) -> (r: Self)
        ensures
            r@ == self@,
    {
        PixelSettingField {
            id: self.id.clone(),
            label: self.label.clone(),
            value: self.value.clone(),
            kind: self.kind.clone(),
            help: match &self.help {
                Some(h) => Some(h.clone()),
                None => None,
            },
        }
    }
}

impl PixelSettingField {
    /// A number field.
    pub fn number(id: String, label: String, value: u64, range: PixelSettingNumberRange) -> (f: Self)
        ensures
            f@ == (FieldView {
                id,
                label,
                value: PixelSettingValue::Number(value),
                kind: KindView::Number(range),
                help: None,
            }),
    {
        PixelSettingField {
            id,
            label,
            value: PixelSettingValue::Number(value),
            kind: PixelSettingKind::Number(range),
            help: None,
        }
    }

    /// A switch.
    pub fn boolean(id: String, label: String, value: bool) -> (f: Self)
        ensures
            f@ == (FieldView { id, label, value: PixelSettingValue::Bool(value), kind: KindView::Bool, help: None }),
    {
        PixelSettingField { id, label, value: PixelSettingValue::Bool(value), kind: PixelSettingKind::Bool, help: None }
    }

    /// A text field.
    pub fn text(id: String, label: String, value: String) -> (f: Self)
        ensures
            f@ == (FieldView { id, label, value: PixelSettingValue::Text(value), kind: KindView::Text, help: None }),
    {
        PixelSettingField { id, label, value: PixelSettingValue::Text(value), kind: PixelSettingKind::Text, help: None }
    }

    /// A choice among `options`, set to `value`.
    pub fn choice(id: String, label: String, value: String, options: Vec<String>) -> (f: Self)
        ensures
            f@ == (FieldView {
                id,
                label,
                value: PixelSettingValue::Text(value),
                kind: KindView::Choice(options@),
                help: None,
            }),
    {
        PixelSettingField {
            id,
            label,
            value: PixelSettingValue::Text(value),
            kind: PixelSettingKind::Choice(options),
            help: None,
        }
    }

    /// The field with a help text.
    pub fn with_help(self, help: String) -> (f: Self)
        ensures
            f@ == (FieldView { help: Some(help), ..self@ }),
    {
        PixelSettingField { help: Some(help), ..self }
    }
}

/// A group of settings.
#[derive(Debug)]
pub struct PixelSettingCategory {
    pub id: String,
    pub label: String,
    pub order: i32,
    pub fields: Vec<PixelSettingField>,
}

/// What a category holds.
pub struct CategoryView {
    pub id: String,
    pub label: String,
    pub order: i32,
    pub fields: Seq<FieldView>,
}

impl View for PixelSettingCategory {
    type V = CategoryView;

    open spec fn view(&self) -> CategoryView {
        CategoryView {
            id: self.id,
            label: self.label,
            order: self.order,
            fields: self.fields@.map_values(|f: PixelSettingField| f@),
        }
    }
}

impl Clone for PixelSettingCategory {
    fn clone(&self) -> (r: Self)
        ensures
            r@ == self@,
    {
        let mut fields: Vec<PixelSettingField> = Vec::new();
        let mut k: usize = 0;
        while k < self.fields.len()
            invariant
                k <= self.fields@.len(),
                fields@.len() == k,
                forall|j: int| 0 <= j < k ==> #[trigger] fields@[j]@ == self.fields@[j]@,
            decreases self.fields@.len() - k,
        {
            fields.push(self.fields[k].clone());
            k = k + 1;
        }
        let r = PixelSettingCategory { id: self.id.clone(), label: self.label.clone(), order: self.order, fields };
        assert(r@.fields =~= self@.fields);
        r
    }
}

impl PixelSettingCategory {
    /// An empty category at order 0.
    pub fn new(id: String, label: String) -> (c: Self)
        ensures
            c@ == (CategoryView { id, label, order: 0, fields: Seq::empty() }),
    {
        let c = PixelSettingCategory { id, label, order: 0, fields: Vec::new() };
        assert(c@.fields =~= Seq::<FieldView>::empty());
        c
    }

    /// The category at `order`.
    pub fn with_order(self, order: i32) -> (c: Self)
        ensures
            c@ == (CategoryView { order, ..self@ }),
    {
        PixelSettingCategory { order, ..self }
    }

    /// The category with `field` added last.
    pub fn with_field(self, field: PixelSettingField) -> (c: Self)
        ensures
            c@ == (CategoryView { fields: self@.fields.push(field@), ..self@ }),
    {
        let mut c = self;
        let ghost before = c@;
        c.fields.push(field);
        assert(c@.fields =~= before.fields.push(field@));
        c
    }
}

/// A value changed through the editor.
#[derive(Debug)]
pub struct PixelSettingChanged {
    pub category_id: String,
    pub field_id: String,
    pub value: PixelSettingValue,
}

/// The key a category is filed under: its id's UTF-8 bytes.
#[verifier::opaque]
pub open spec fn category_key(c: CategoryView) -> Seq<u8> {
    encode_utf8(c.id@)
}

/// Categories in strictly increasing key order (so no two share an id).
pub open spec fn categories_sorted(s: Seq<CategoryView>) -> bool {
    forall|i: int, j: int| 0 <= i < j < s.len() ==> bytes_lt(category_key(s[i]), category_key(s[j]))
}

/// The category at position `i`: the name under which statements about
/// every position of a result are used.
pub open spec fn entry(s: Seq<CategoryView>, i: int) -> CategoryView {
    s[i]
}

/// `after` holds what `before` holds, except that `c` is filed under its
/// key, in place of any category filed there.
pub open spec fn filed(before: Seq<CategoryView>, after: Seq<CategoryView>, c: CategoryView) -> bool {
    &&& categories_sorted(after)
    &&& exists|i: int| 0 <= i < after.len() && after[i] == c
    &&& forall|i: int|
        #![trigger entry(after, i)]
        0 <= i < after.len() && category_key(entry(after, i)) != category_key(c) ==> exists|j: int|
            #![trigger before[j]]
            0 <= j < before.len() && before[j] == entry(after, i)
    &&& forall|j: int|
        #![trigger entry(before, j)]
        0 <= j < before.len() && category_key(entry(before, j)) != category_key(c) ==> exists|i: int|
            #![trigger after[i]]
            0 <= i < after.len() && after[i] == entry(before, j)
}

/// `after` holds what `before` holds, less any category filed under `key`.
pub open spec fn unfiled(before: Seq<CategoryView>, after: Seq<CategoryView>, key: Seq<u8>) -> bool {
    &&& categories_sorted(after)
    &&& forall|i: int|
        #![trigger entry(after, i)]
        0 <= i < after.len() ==> category_key(entry(after, i)) != key && exists|j: int|
            #![trigger before[j]]
            0 <= j < before.len() && before[j] == entry(after, i)
    &&& forall|j: int|
        #![trigger entry(before, j)]
        0 <= j < before.len() && category_key(entry(before, j)) != key ==> exists|i: int|
            #![trigger after[i]]
            0 <= i < after.len() && after[i] == entry(before, j)
}

/// Some category is filed under `key`.
pub open spec fn has_key(s: Seq<CategoryView>, key: Seq<u8>) -> bool {
    exists|j: int| 0 <= j < s.len() && category_key(s[j]) == key
}

/// The index of the first category from `k` on with id `id`.
pub open spec fn category_index_from(s: Seq<CategoryView>, id: Seq<char>, k: int) -> Option<int>
    decreases s.len() - k,
{
    if k < 0 || k >= s.len() {
        None
    } else if s[k].id@ == id {
        Some(k)
    } else {
        category_index_from(s, id, k + 1)
    }
}

/// The index of the first field from `k` on with id `id`.
pub open spec fn field_index_from(s: Seq<FieldView>, id: Seq<char>, k: int) -> Option<int>
    decreases s.len() - k,
{
    if k < 0 || k >= s.len() {
        None
    } else if s[k].id@ == id {
        Some(k)
    } else {
        field_index_from(s, id, k + 1)
    }
}

/// `input[j]` is the last category of `input` filed under its key, among
/// the first `n`.
pub open spec fn last_of_key(input: Seq<CategoryView>, j: int, n: int) -> bool {
    forall|j2: int| j < j2 < n ==> category_key(#[trigger] input[j2]) != category_key(input[j])
}

/// `r[i]` is the last of the first `n` of `input` filed under its key.
pub open spec fn from_last_of_key(input: Seq<CategoryView>, n: int, r: Seq<CategoryView>, i: int) -> bool {
    exists|j: int| #![trigger last_of_key(input, j, n)] 0 <= j < n && input[j] == r[i] && last_of_key(input, j, n)
}

/// `input[j]` is among `r`.
pub open spec fn kept_in(input: Seq<CategoryView>, r: Seq<CategoryView>, j: int) -> bool {
    exists|i: int| #![trigger r[i]] 0 <= i < r.len() && r[i] == input[j]
}

/// `r` holds, in key order, the last category of each key among the first
/// `n` of `input`.
pub open spec fn last_of_each_key(input: Seq<CategoryView>, n: int, r: Seq<CategoryView>) -> bool {
    &&& categories_sorted(r)
    &&& forall|i: int| 0 <= i < r.len() ==> #[trigger] from_last_of_key(input, n, r, i)
    &&& forall|j: int| 0 <= j < n && last_of_key(input, j, n) ==> #[trigger] kept_in(input, r, j)
}

proof fn lemma_step_sound(input: Seq<CategoryView>, kk: int, before: Seq<CategoryView>, after: Seq<CategoryView>, cv: CategoryView, i: int)
    requires
        0 <= kk < input.len(),
        input[kk] == cv,
        last_of_each_key(input, kk, before),
        filed(before, after, cv),
        0 <= i < after.len(),
    ensures
        from_last_of_key(input, kk + 1, after, i),
{
    if category_key(entry(after, i)) == category_key(cv) {
        let i0 = choose|i0: int| 0 <= i0 < after.len() && after[i0] == cv;
        if i != i0 {
            lemma_sorted_distinct(after, i, i0);
        }
        assert(input[kk] == entry(after, i) && last_of_key(input, kk, kk + 1));
    } else {
        let j0 = choose|j0: int| 0 <= j0 < before.len() && before[j0] == entry(after, i);
        assert(entry(before, j0) == entry(after, i));
        assert(from_last_of_key(input, kk, before, j0));
        let j = choose|j: int| 0 <= j < kk && input[j] == before[j0] && last_of_key(input, j, kk);
        assert(category_key(input[kk]) != category_key(input[j]));
        assert(last_of_key(input, j, kk + 1));
    }
}

proof fn lemma_step_complete(input: Seq<CategoryView>, kk: int, before: Seq<CategoryView>, after: Seq<CategoryView>, cv: CategoryView, j: int)
    requires
        0 <= kk < input.len(),
        input[kk] == cv,
        last_of_each_key(input, kk, before),
        filed(before, after, cv),
        0 <= j < kk + 1,
        last_of_key(input, j, kk + 1),
    ensures
        kept_in(input, after, j),
{
    if j < kk {
        assert(category_key(input[kk]) != category_key(input[j]));
        assert(last_of_key(input, j, kk));
        assert(kept_in(input, before, j));
        let i0 = choose|i0: int| 0 <= i0 < before.len() && before[i0] == input[j];
        assert(category_key(entry(before, i0)) != category_key(cv));
        let i1 = choose|i1: int| 0 <= i1 < after.len() && after[i1] == entry(before, i0);
        assert(after[i1] == input[j]);
    } else {
        let i0 = choose|i0: int| 0 <= i0 < after.len() && after[i0] == cv;
        assert(after[i0] == input[j]);
    }
}

proof fn lemma_file_step(input: Seq<CategoryView>, kk: int, before: Seq<CategoryView>, after: Seq<CategoryView>, cv: CategoryView)
    requires
        0 <= kk < input.len(),
        input[kk] == cv,
        last_of_each_key(input, kk, before),
        filed(before, after, cv),
    ensures
        last_of_each_key(input, kk + 1, after),
{
    assert forall|i: int| 0 <= i < after.len() implies #[trigger] from_last_of_key(input, kk + 1, after, i) by {
        lemma_step_sound(input, kk, before, after, cv, i);
    }
    assert forall|j: int| 0 <= j < kk + 1 && last_of_key(input, j, kk + 1) implies #[trigger] kept_in(input, after, j) by {
        lemma_step_complete(input, kk, before, after, cv, j);
    }
    assert(categories_sorted(after));
}

/// What the registry holds.
pub struct RegistryView {
    /// The categories in key order.
    pub categories: Seq<CategoryView>,
    pub revision: u64,
}

/// The registry after setting field `field_id` of category `category_id` to
/// `value`: unchanged when either is missing or the field already holds an
/// equal value; otherwise the first such field of the category holds
/// `value` and the revision moves on.
pub open spec fn after_set_value(
    m: RegistryView,
    category_id: Seq<char>,
    field_id: Seq<char>,
    value: PixelSettingValue,
) -> Option<RegistryView> {
    match category_index_from(m.categories, category_id, 0) {
        None => None,
        Some(ci) => {
            let c = m.categories[ci];
            match field_index_from(c.fields, field_id, 0) {
                None => None,
                Some(fi) => if value_eq(c.fields[fi].value, value) {
                    None
                } else {
                    let f = FieldView { value, ..c.fields[fi] };
                    Some(
                        RegistryView {
                            categories: m.categories.update(ci, CategoryView { fields: c.fields.update(fi, f), ..c }),
                            revision: next_rev(m.revision),
                        },
                    )
                },
            }
        },
    }
}

/// The settings a host application exposes.
#[derive(Debug)]
pub struct PixelSettingsRegistry {
    categories: Vec<PixelSettingCategory>,
    revision: u64,
}

impl View for PixelSettingsRegistry {
    type V = RegistryView;

    closed spec fn view(&self) -> RegistryView {
        RegistryView { categories: self.categories@.map_values(|c: PixelSettingCategory| c@), revision: self.revision }
    }
}

fn category_key_bytes(c: &PixelSettingCategory) -> (b: &[u8])
    ensures
        b@ == category_key(c@),
{
    proof {
        reveal(category_key);
    }
    c.id.as_str().as_bytes()
}

proof fn lemma_sorted_distinct(s: Seq<CategoryView>, i: int, j: int)
    requires
        categories_sorted(s),
        0 <= i < s.len(),
        0 <= j < s.len(),
        i != j,
    ensures
        category_key(s[i]) != category_key(s[j]),
{
    if i < j {
        lemma_bytes_lt_irreflexive(category_key(s[i]));
    } else {
        lemma_bytes_lt_irreflexive(category_key(s[j]));
    }
}

impl PixelSettingsRegistry {
    #[verifier::type_invariant]
    closed spec fn sorted_by_id(&self) -> bool {
        categories_sorted(self@.categories)
    }

    /// An empty registry at revision 0.
    pub fn new() -> (r: Self)
        ensures
            r@.categories == Seq::<CategoryView>::empty(),
            r@.revision == 0,
    {
        let r = PixelSettingsRegistry { categories: Vec::new(), revision: 0 };
        assert(r@.categories =~= Seq::<CategoryView>::empty());
        r
    }

    /// The categories, in order of id.
    pub fn categories(&self) -> (r: &[PixelSettingCategory])
        ensures
            r@.map_values(|c: PixelSettingCategory| c@) == self@.categories,
            categories_sorted(self@.categories),
    {
        proof {
            use_type_invariant(self);
        }
        self.categories.as_slice()
    }

    /// How many changes the registry has seen, wrapping.
    pub fn revision(&self) -> (r: u64)
        ensures
            r == self@.revision,
    {
        self.revision
    }

    /// Files `category` under its id, in place of any category filed there.
    fn file_category(&mut self, category: PixelSettingCategory)
        ensures
            filed(old(self)@.categories, final(self)@.categories, category@),
            final(self)@.revision == old(self)@.revision,
    {
        proof {
            use_type_invariant(&*self);
        }
        let ghost s = self@.categories;
        let ghost c = category@;
        let n = self.categories.len();
        let mut i: usize = 0;
        while i < n && bytes_less(category_key_bytes(&self.categories[i]), category_key_bytes(&category))
            invariant
                i <= n,
                n == self.categories@.len(),
                s == self@.categories,
                c == category@,
                categories_sorted(s),
                forall|j: int| 0 <= j < i ==> bytes_lt(#[trigger] category_key(s[j]), category_key(c)),
            decreases n - i,
        {
            i = i + 1;
        }
        let replace = i < n && bytes_eq(category_key_bytes(&self.categories[i]), category_key_bytes(&category));
        proof {
            // Every category from `i` on sorts after `c`, or has its key (at `i` only).
            assert forall|j: int| i <= j < n && !(replace && j == i) implies bytes_lt(
                category_key(c),
                #[trigger] category_key(s[j]),
            ) by {
                let k = i as int;
                lemma_bytes_lt_total(category_key(s[k]), category_key(c));
                if replace {
                    assert(category_key(s[k]) == category_key(c));
                    assert(bytes_lt(category_key(s[k]), category_key(s[j])));
                } else if j > k {
                    lemma_bytes_lt_transitive(category_key(c), category_key(s[k]), category_key(s[j]));
                }
            }
        }
        let mut categories: Vec<PixelSettingCategory> = Vec::new();
        std::mem::swap(&mut categories, &mut self.categories);
        if replace {
            categories.set(i, category);
        } else {
            categories.insert(i, category);
        }
        let ghost t = categories@.map_values(|x: PixelSettingCategory| x@);
        proof {
            if replace {
                assert(t =~= s.update(i as int, c));
            } else {
                assert(t =~= s.insert(i as int, c));
            }
            assert(t[i as int] == c);
            assert forall|a: int, b: int| 0 <= a < b < t.len() implies bytes_lt(category_key(t[a]), category_key(t[b])) by {
                if replace {
                    if a == i && b > i {
                    } else if b == i {
                    } else {
                    }
                } else {
                    if b < i {
                    } else if b == i {
                    } else if a == i {
                        assert(t[b] == s[b - 1]);
                    } else if a < i {
                        assert(t[b] == s[b - 1]);
                        lemma_bytes_lt_transitive(category_key(s[a]), category_key(c), category_key(s[b - 1]));
                    } else {
                        assert(t[a] == s[a - 1] && t[b] == s[b - 1]);
                    }
                }
            }
            assert forall|x: int| #![trigger entry(t, x)] 0 <= x < t.len() && category_key(entry(t, x)) != category_key(c) implies exists|j: int|
                #![trigger s[j]]
                0 <= j < s.len() && s[j] == entry(t, x) by {
                if replace {
                    assert(s[x] == t[x]);
                } else if x < i {
                    assert(s[x] == t[x]);
                } else {
                    assert(s[x - 1] == t[x]);
                }
            }
            assert forall|j: int| #![trigger entry(s, j)] 0 <= j < s.len() && category_key(entry(s, j)) != category_key(c) implies exists|x: int|
                #![trigger t[x]]
                0 <= x < t.len() && t[x] == entry(s, j) by {
                if replace {
                    assert(t[j] == s[j]);
                } else if j < i {
                    assert(t[j] == s[j]);
                } else {
                    assert(t[j + 1] == s[j]);
                }
            }
        }
        self.categories = categories;
    }

    /// A registry holding, for each id, the last of `categories` with that
    /// id, at revision `revision` (as a saved registry is read back).
    pub fn from_parts(categories: Vec<PixelSettingCategory>, revision: u64) -> (r: Self)
        ensures
            last_of_each_key(
                categories@.map_values(|c: PixelSettingCategory| c@),
                categories@.len() as int,
                r@.categories,
            ),
            r@.revision == revision,
    {
        let ghost input = categories@.map_values(|c: PixelSettingCategory| c@);
        let mut r = PixelSettingsRegistry::new();
        let mut categories = categories;
        let mut rest: Vec<PixelSettingCategory> = Vec::new();
        // Taken from the back, the categories come out in reverse; turn them round first.
        while categories.len() > 0
            invariant
                rest@.len() + categories@.len() == input.len(),
                forall|j: int| 0 <= j < categories@.len() ==> #[trigger] categories@[j]@ == input[j],
                forall|j: int| 0 <= j < rest@.len() ==> #[trigger] rest@[j]@ == input[input.len() - 1 - j],
            decreases categories@.len(),
        {
            let c = categories.pop().unwrap();
            rest.push(c);
        }
        let n = rest.len();
        let mut k: usize = 0;
        assert(r@.categories =~= Seq::<CategoryView>::empty());
        while k < n
            invariant
                k <= n,
                n == input.len(),
                rest@.len() == n - k,
                forall|j: int| 0 <= j < rest@.len() ==> #[trigger] rest@[j]@ == input[n - 1 - j],
                last_of_each_key(input, k as int, r@.categories),
            decreases n - k,
        {
            let c = rest.pop().unwrap();
            let ghost before = r@.categories;
            let ghost cv = c@;
            assert(cv == input[k as int]);
            r.file_category(c);
            proof {
                lemma_file_step(input, k as int, before, r@.categories, cv);
            }
            k = k + 1;
        }
        r.revision = revision;
        r
    }

    /// Publishes `category` under its id, replacing any category with that
    /// id, and counts the change; a category whose id is blank is ignored.
    pub fn publish_category(&mut self, category: PixelSettingCategory)
        ensures
            is_blank_spec(encode_utf8(category@.id@)) ==> final(self)@ == old(self)@,
            !is_blank_spec(encode_utf8(category@.id@)) ==> {
                &&& filed(old(self)@.categories, final(self)@.categories, category@)
                &&& final(self)@.revision == next_rev(old(self)@.revision)
            },
    {
        if is_blank(category.id.as_str()) {
            return;
        }
        proof {
            use_type_invariant(&*self);
        }
        self.revision = self.revision.wrapping_add(1);
        self.file_category(category);
    }

    /// Removes the category with id `id`, counting the change if there was one.
    pub fn remove_category(&mut self, id: &str)
        ensures
            unfiled(old(self)@.categories, final(self)@.categories, id.spec_bytes()),
            final(self)@.revision == if has_key(old(self)@.categories, id.spec_bytes()) {
                next_rev(old(self)@.revision)
            } else {
                old(self)@.revision
            },
    {
        proof {
            use_type_invariant(&*self);
        }
        let ghost s = self@.categories;
        let key = id.as_bytes();
        let n = self.categories.len();
        let mut i: usize = 0;
        while i < n && !bytes_eq(category_key_bytes(&self.categories[i]), key)
            invariant
                i <= n,
                n == self.categories@.len(),
                s == self@.categories,
                key@ == id.spec_bytes(),
                forall|j: int| 0 <= j < i ==> category_key(#[trigger] s[j]) != key@,
            decreases n - i,
        {
            i = i + 1;
        }
        if i == n {
            assert(!has_key(s, key@));
            assert forall|j: int| #![trigger entry(s, j)] 0 <= j < s.len() implies category_key(entry(s, j)) != key@ && exists|x: int|
                #![trigger s[x]]
                0 <= x < s.len() && s[x] == entry(s, j) by {
                assert(s[j] == entry(s, j));
            }
            return;
        }
        proof {
            assert(category_key(s[i as int]) == key@);
        }
        let mut categories: Vec<PixelSettingCategory> = Vec::new();
        std::mem::swap(&mut categories, &mut self.categories);
        categories.remove(i);
        let ghost t = categories@.map_values(|x: PixelSettingCategory| x@);
        proof {
            assert(t =~= s.remove(i as int));
            assert forall|a: int, b: int| 0 <= a < b < t.len() implies bytes_lt(category_key(t[a]), category_key(t[b])) by {
                if b < i {
                } else if a < i {
                    assert(t[b] == s[b + 1]);
                } else {
                    assert(t[a] == s[a + 1] && t[b] == s[b + 1]);
                }
            }
            assert forall|x: int| #![trigger entry(t, x)] 0 <= x < t.len() implies category_key(entry(t, x)) != key@ && exists|j: int|
                #![trigger s[j]]
                0 <= j < s.len() && s[j] == entry(t, x) by {
                if x < i {
                    assert(s[x] == t[x]);
                } else {
                    assert(s[x + 1] == t[x]);
                    lemma_sorted_distinct(s, i as int, x + 1);
                }
            }
            assert forall|j: int| #![trigger entry(s, j)] 0 <= j < s.len() && category_key(entry(s, j)) != key@ implies exists|x: int|
                #![trigger t[x]]
                0 <= x < t.len() && t[x] == entry(s, j) by {
                if j < i {
                    assert(t[j] == s[j]);
                } else {
                    assert(t[j - 1] == s[j]);
                }
            }
        }
        self.categories = categories;
        self.revision = self.revision.wrapping_add(1);
    }

    /// Sets field `field_id` of category `category_id` to `value` and
    /// reports the change; nothing changes, and nothing is reported, when
    /// either is missing or the field already holds an equal value.
    pub fn set_value(&mut self, category_id: &str, field_id: &str, value: PixelSettingValue) -> (r: Option<
        PixelSettingChanged,
    >)
        ensures
            match after_set_value(old(self)@, category_id@, field_id@, value) {
                None => r is None && final(self)@ == old(self)@,
                Some(m) => final(self)@ == m && r is Some && r->0.category_id@ == category_id@
                    && r->0.field_id@ == field_id@ && r->0.value == value,
            },
    {
        proof {
            use_type_invariant(&*self);
        }
        let ghost m = self@;
        let n = self.categories.len();
        let mut ci: usize = 0;
        while ci < n && !str_eq(self.categories[ci].id.as_str(), category_id)
            invariant
                ci <= n,
                n == self.categories@.len(),
                m == self@,
                category_index_from(m.categories, category_id@, 0) == category_index_from(
                    m.categories,
                    category_id@,
                    ci as int,
                ),
            decreases n - ci,
        {
            ci = ci + 1;
        }
        if ci == n {
            return None;
        }
        let nf = self.categories[ci].fields.len();
        let ghost c = m.categories[ci as int];
        let mut fi: usize = 0;
        while fi < nf && !str_eq(self.categories[ci].fields[fi].id.as_str(), field_id)
            invariant
                fi <= nf,
                ci < n,
                n == self.categories@.len(),
                nf == c.fields.len(),
                m == self@,
                c == m.categories[ci as int],
                field_index_from(c.fields, field_id@, 0) == field_index_from(c.fields, field_id@, fi as int),
            decreases nf - fi,
        {
            fi = fi + 1;
        }
        if fi == nf {
            return None;
        }
        if self.categories[ci].fields[fi].value.equals(&value) {
            return None;
        }
        let mut categories: Vec<PixelSettingCategory> = Vec::new();
        std::mem::swap(&mut categories, &mut self.categories);
        let mut category = categories.remove(ci);
        let mut fields: Vec<PixelSettingField> = Vec::new();
        std::mem::swap(&mut fields, &mut category.fields);
        let mut field = fields.remove(fi);
        field.value = value.clone();
        fields.insert(fi, field);
        category.fields = fields;
        categories.insert(ci, category);
        let ghost t = categories@.map_values(|x: PixelSettingCategory| x@);
        proof {
            let f = FieldView { value, ..c.fields[fi as int] };
            let c2 = CategoryView { fields: c.fields.update(fi as int, f), ..c };
            assert(category@.fields =~= c.fields.update(fi as int, f));
            assert(t =~= m.categories.update(ci as int, c2));
            assert forall|a: int, b: int| 0 <= a < b < t.len() implies bytes_lt(category_key(t[a]), category_key(t[b])) by {
                reveal(category_key);
                assert(category_key(t[a]) == category_key(m.categories[a]));
                assert(category_key(t[b]) == category_key(m.categories[b]));
            }
        }
        self.categories = categories;
        self.revision = self.revision.wrapping_add(1);
        Some(PixelSettingChanged { category_id: String::from_str(category_id), field_id: String::from_str(field_id), value })
    }
}

impl Default for PixelSettingsRegistry {
    fn default() -> (r: Self)
        ensures
            r@.categories == Seq::<CategoryView>::empty(),
            r@.revision == 0,
    {
        PixelSettingsRegistry::new()
    }
}

proof fn lemma_category_index_same_ids(s: Seq<CategoryView>, t: Seq<CategoryView>, id: Seq<char>, k: int)
    requires
        s.len() == t.len(),
        forall|i: int| 0 <= i < s.len() ==> #[trigger] s[i].id == t[i].id,
    ensures
        category_index_from(s, id, k) == category_index_from(t, id, k),
    decreases s.len() - k,
{
    if 0 <= k < s.len() {
        lemma_category_index_same_ids(s, t, id, k + 1);
    }
}

proof fn lemma_field_index_same_ids(s: Seq<FieldView>, t: Seq<FieldView>, id: Seq<char>, k: int)
    requires
        s.len() == t.len(),
        forall|i: int| 0 <= i < s.len() ==> #[trigger] s[i].id == t[i].id,
    ensures
        field_index_from(s, id, k) == field_index_from(t, id, k),
    decreases s.len() - k,
{
    if 0 <= k < s.len() {
        lemma_field_index_same_ids(s, t, id, k + 1);
    }
}

proof fn lemma_index_found(s: Seq<CategoryView>, id: Seq<char>, k: int)
    requires
        category_index_from(s, id, k) is Some,
    ensures
        0 <= category_index_from(s, id, k)->0 < s.len(),
        s[category_index_from(s, id, k)->0].id@ == id,
    decreases s.len() - k,
{
    if 0 <= k < s.len() && s[k].id@ != id {
        lemma_index_found(s, id, k + 1);
    }
}

proof fn lemma_field_index_found(s: Seq<FieldView>, id: Seq<char>, k: int)
    requires
        field_index_from(s, id, k) is Some,
    ensures
        0 <= field_index_from(s, id, k)->0 < s.len(),
        s[field_index_from(s, id, k)->0].id@ == id,
    decreases s.len() - k,
{
    if 0 <= k < s.len() && s[k].id@ != id {
        lemma_field_index_found(s, id, k + 1);
    }
}

/// Setting a field to a value it was just set to changes nothing and is not
/// reported again (for any value but a NaN, which equals nothing).
pub proof fn lemma_set_value_twice_reports_once(
    m: RegistryView,
    category_id: Seq<char>,
    field_id: Seq<char>,
    value: PixelSettingValue,
)
    requires
        after_set_value(m, category_id, field_id, value) is Some,
        !(value matches PixelSettingValue::Number(x) && f64_bits_is_nan(x)),
    ensures
        after_set_value(after_set_value(m, category_id, field_id, value)->0, category_id, field_id, value) is None,
{
    let ci = category_index_from(m.categories, category_id, 0)->0;
    lemma_index_found(m.categories, category_id, 0);
    let c = m.categories[ci];
    let fi = field_index_from(c.fields, field_id, 0)->0;
    lemma_field_index_found(c.fields, field_id, 0);
    let m2 = after_set_value(m, category_id, field_id, value)->0;
    let f = FieldView { value, ..c.fields[fi] };
    let c2 = CategoryView { fields: c.fields.update(fi, f), ..c };
    assert(m2.categories == m.categories.update(ci, c2));
    assert forall|i: int| 0 <= i < m.categories.len() implies #[trigger] m.categories[i].id == m2.categories[i].id by {}
    lemma_category_index_same_ids(m.categories, m2.categories, category_id, 0);
    assert forall|i: int| 0 <= i < c.fields.len() implies #[trigger] c.fields[i].id == c2.fields[i].id by {}
    lemma_field_index_same_ids(c.fields, c2.fields, field_id, 0);
    assert(m2.categories[ci] == c2);
    assert(c2.fields[fi].value == value);
}


proof fn lemma_first_category(s: Seq<CategoryView>, id: Seq<char>, k: int, ci: int)
    requires
        0 <= k <= ci < s.len(),
        s[ci].id@ == id,
        forall|j: int| k <= j < ci ==> s[j].id@ != id,
    ensures
        category_index_from(s, id, k) == Some(ci),
    decreases ci - k,
{
    if k < ci {
        lemma_first_category(s, id, k + 1, ci);
    }
}

proof fn lemma_first_field(s: Seq<FieldView>, id: Seq<char>, k: int, fi: int)
    requires
        0 <= k <= fi < s.len(),
        s[fi].id@ == id,
        forall|j: int| k <= j < fi ==> s[j].id@ != id,
    ensures
        field_index_from(s, id, k) == Some(fi),
    decreases fi - k,
{
    if k < fi {
        lemma_first_field(s, id, k + 1, fi);
    }
}

/// Setting a text field: a text other than the one stored is stored and
/// reported, with the revision moved on; the text already stored changes
/// nothing. Texts are compared by their characters.
pub proof fn lemma_set_text_value(
    m: RegistryView,
    category_id: Seq<char>,
    field_id: Seq<char>,
    ci: int,
    fi: int,
    stored: String,
    text: String,
)
    requires
        0 <= ci < m.categories.len(),
        m.categories[ci].id@ == category_id,
        forall|j: int| 0 <= j < ci ==> m.categories[j].id@ != category_id,
        0 <= fi < m.categories[ci].fields.len(),
        m.categories[ci].fields[fi].id@ == field_id,
        forall|j: int| 0 <= j < fi ==> m.categories[ci].fields[j].id@ != field_id,
        m.categories[ci].fields[fi].value == PixelSettingValue::Text(stored),
    ensures
        stored@ != text@ ==> {
            let after = after_set_value(m, category_id, field_id, PixelSettingValue::Text(text));
            &&& after is Some
            &&& after->0.categories[ci].fields[fi].value == PixelSettingValue::Text(text)
            &&& after->0.revision == next_rev(m.revision)
        },
        stored@ == text@ ==> after_set_value(m, category_id, field_id, PixelSettingValue::Text(text)) is None,
{
    lemma_first_category(m.categories, category_id, 0, ci);
    lemma_first_field(m.categories[ci].fields, field_id, 0, fi);
}

} // verus!
