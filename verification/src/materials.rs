//! Materials as the expense calculation reads them from the database.

use vstd::prelude::*;
use crate::excel_parser::material::opt_view;
use crate::text::{to_chars, eq_chars};
use crate::vba::{distinct_keys, key_index, lemma_key_index_bounds};

verus! {

/// The value of a property as stored in JSON.
#[derive(Debug)]
pub enum PropertyValue {
    /// A string.
    Text(String),
    /// A number, in the notation JSON gives it.
    Number(String),
    Bool(bool),
    Null,
    /// An array or an object, as JSON text.
    Other(String),
}

/// The text of a property value: strings and numbers as they are, `true`
/// and `false`, the empty text for null, JSON text for the rest.
pub open spec fn value_text(v: PropertyValue) -> Seq<char> {
    match v {
        PropertyValue::Text(s) => s@,
        PropertyValue::Number(s) => s@,
        PropertyValue::Bool(b) => if b {
            "true"@
        } else {
            "false"@
        },
        PropertyValue::Null => seq![],
        PropertyValue::Other(s) => s@,
    }
}

/// The text of a property value.
pub fn value_to_text(v: &PropertyValue) -> (r: String)
    ensures
        r@ == value_text(*v),
{
    match v {
        PropertyValue::Text(s) => s.clone(),
        PropertyValue::Number(s) => s.clone(),
        PropertyValue::Bool(b) => if *b {
            String::from_str("true")
        } else {
            String::from_str("false")
        },
        PropertyValue::Null => String::new(),
        PropertyValue::Other(s) => s.clone(),
    }
}

/// Whether `a` comes before `b` in the order of strings (by code point,
/// a prefix first).
pub open spec fn text_less(a: Seq<char>, b: Seq<char>) -> bool
    decreases a.len(),
{
    if b.len() == 0 {
        false
    } else if a.len() == 0 {
        true
    } else if a[0] != b[0] {
        a[0] < b[0]
    } else {
        text_less(a.drop_first(), b.drop_first())
    }
}

/// Whether `a` comes before `b` in the order of strings.
fn less_chars(a: &Vec<char>, b: &Vec<char>) -> (r: bool)
    ensures
        r == text_less(a@, b@),
{
    let mut i: usize = 0;
    assert(a@.skip(0) == a@ && b@.skip(0) == b@);
    while i < a.len() && i < b.len() && a[i] == b[i]
        invariant
            i <= a.len(),
            i <= b.len(),
            text_less(a@, b@) == text_less(a@.skip(i as int), b@.skip(i as int)),
        decreases a.len() - i,
    {
        assert(a@.skip(i as int).drop_first() == a@.skip(i + 1));
        assert(b@.skip(i as int).drop_first() == b@.skip(i + 1));
        i += 1;
    }
    if i == b.len() {
        false
    } else if i == a.len() {
        true
    } else {
        assert(a@.skip(i as int)[0] == a@[i as int]);
        assert(b@.skip(i as int)[0] == b@[i as int]);
        a[i] < b[i]
    }
}

/// Where `k` goes in `s`, ordered by key: before the first key not less
/// than `k`.
pub open spec fn tree_pos(s: Seq<(Seq<char>, Seq<char>)>, k: Seq<char>) -> int
    decreases s.len(),
{
    if s.len() == 0 {
        0
    } else if !text_less(s[0].0, k) {
        0
    } else {
        1 + tree_pos(s.drop_first(), k)
    }
}

/// `s`, ordered by key, with `(k, v)` put in: the value replaced when `k`
/// is a key, the pair inserted in its place otherwise.
pub open spec fn tree_insert(s: Seq<(Seq<char>, Seq<char>)>, k: Seq<char>, v: Seq<char>) -> Seq<
    (Seq<char>, Seq<char>),
> {
    let i = tree_pos(s, k);
    if i < s.len() && s[i].0 == k {
        s.update(i, (k, v))
    } else {
        s.insert(i, (k, v))
    }
}

/// The properties, values as text, ordered by key (a `BTreeMap` built in
/// their order).
pub open spec fn tree_of(props: Seq<(Seq<char>, PropertyValue)>) -> Seq<(Seq<char>, Seq<char>)>
    decreases props.len(),
{
    if props.len() == 0 {
        seq![]
    } else {
        tree_insert(tree_of(props.drop_last()), props.last().0, value_text(props.last().1))
    }
}

proof fn lemma_tree_pos_bounds(s: Seq<(Seq<char>, Seq<char>)>, k: Seq<char>)
    ensures
        0 <= tree_pos(s, k) <= s.len(),
        forall|j: int| 0 <= j < tree_pos(s, k) ==> text_less(s[j].0, k),
        tree_pos(s, k) < s.len() ==> !text_less(s[tree_pos(s, k)].0, k),
    decreases s.len(),
{
    if s.len() > 0 && text_less(s[0].0, k) {
        lemma_tree_pos_bounds(s.drop_first(), k);
        assert forall|j: int| 0 <= j < tree_pos(s, k) implies text_less(s[j].0, k) by {
            if j > 0 {
                assert(s[j] == s.drop_first()[j - 1]);
            }
        }
    }
}

/// The views of key-and-text pairs.
pub open spec fn text_pairs(v: Seq<(String, String)>) -> Seq<(Seq<char>, Seq<char>)> {
    v.map_values(|e: (String, String)| (e.0@, e.1@))
}

/// The views of the keys of properties.
pub open spec fn property_pairs(v: Seq<(String, PropertyValue)>) -> Seq<(Seq<char>, PropertyValue)> {
    v.map_values(|e: (String, PropertyValue)| (e.0@, e.1))
}

/// A material, a category or a group, with its properties.
#[derive(Debug)]
pub struct Material {
    pub material_group_code_1c: Option<String>,
    pub material_category_code_1c: Option<String>,
    pub code_1c: String,
    pub name: String,
    pub unit: Option<String>,
    pub object_name: Option<String>,
    /// The properties as stored, in their order.
    pub properties: Option<Vec<(String, PropertyValue)>>,
    /// The properties as text ordered by key, once computed.
    pub properties_tree_map: Option<Vec<(String, String)>>,
}

impl Material {
    /// The ordered properties once computed.
    pub open spec fn cached_tree(&self) -> Option<Seq<(Seq<char>, Seq<char>)>> {
        match self.properties_tree_map {
            Some(t) => Some(text_pairs(t@)),
            None => None,
        }
    }

    /// A material with these fields and nothing computed yet.
    pub fn new(
        material_group_code_1c: Option<String>,
        material_category_code_1c: Option<String>,
        code_1c: String,
        name: String,
        unit: Option<String>,
        object_name: Option<String>,
        properties: Option<Vec<(String, PropertyValue)>>,
    ) -> (r: Self)
        ensures
            r.material_group_code_1c == material_group_code_1c,
            r.material_category_code_1c == material_category_code_1c,
            r.code_1c == code_1c,
            r.name == name,
            r.unit == unit,
            r.object_name == object_name,
            r.properties == properties,
            r.cached_tree() is None,
    {
        Material {
            material_group_code_1c,
            material_category_code_1c,
            code_1c,
            name,
            unit,
            object_name,
            properties,
            properties_tree_map: None,
        }
    }

    /// Whether this is a material: it has a group and a category.
    pub fn is_material(&self) -> (r: bool)
        ensures
            r == (self.material_group_code_1c is Some && self.material_category_code_1c is Some),
    {
        self.material_group_code_1c.is_some() && self.material_category_code_1c.is_some()
    }

    /// Whether this is a category: it has a group and no category.
    pub fn is_category(&self) -> (r: bool)
        ensures
            r == (self.material_group_code_1c is Some && self.material_category_code_1c is None),
    {
        self.material_group_code_1c.is_some() && self.material_category_code_1c.is_none()
    }

    /// Whether this is a group: it has neither a group nor a category.
    pub fn is_group(&self) -> (r: bool)
        ensures
            r == (self.material_group_code_1c is None && self.material_category_code_1c is None),
    {
        self.material_group_code_1c.is_none() && self.material_category_code_1c.is_none()
    }

    /// The properties as text, ordered by key; computed once and kept.
    /// `None` when the material has no properties.
    pub fn set_properties_map(&mut self) -> (r: Option<Vec<(String, String)>>)
        ensures
            final(self).properties == old(self).properties,
            old(self).cached_tree() matches Some(t) ==> r matches Some(v) && text_pairs(v@) == t
                && final(self).cached_tree() == old(self).cached_tree(),
            old(self).cached_tree() is None ==> match old(self).properties {
                Some(p) => r matches Some(v) && text_pairs(v@) == tree_of(property_pairs(p@))
                    && final(self).cached_tree() == Some(text_pairs(v@)),
                None => r is None && final(self).cached_tree() is None,
            },
    {
        if let Some(t) = &self.properties_tree_map {
            return Some(clone_pairs(t));
        }
        match &self.properties {
            Some(props) => {
                let tree = build_tree(props);
                self.properties_tree_map = Some(clone_pairs(&tree));
                Some(tree)
            },
            None => None,
        }
    }
}

/// A copy of the pairs.
fn clone_pairs(v: &Vec<(String, String)>) -> (r: Vec<(String, String)>)
    ensures
        text_pairs(r@) == text_pairs(v@),
{
    let mut r: Vec<(String, String)> = Vec::new();
    let mut i: usize = 0;
    while i < v.len()
        invariant
            i <= v@.len(),
            text_pairs(r@) == text_pairs(v@).take(i as int),
        decreases v@.len() - i,
    {
        let ghost before = r@;
        r.push((v[i].0.clone(), v[i].1.clone()));
        assert(text_pairs(r@) == text_pairs(before).push(text_pairs(v@)[i as int]));
        assert(text_pairs(v@).take(i + 1) == text_pairs(v@).take(i as int).push(text_pairs(v@)[i as int]));
        i += 1;
    }
    assert(text_pairs(v@).take(v@.len() as int) == text_pairs(v@));
    r
}

/// The properties as text, ordered by key.
fn build_tree(props: &Vec<(String, PropertyValue)>) -> (r: Vec<(String, String)>)
    ensures
        text_pairs(r@) == tree_of(property_pairs(props@)),
{
    let mut tree: Vec<(String, String)> = Vec::new();
    let mut i: usize = 0;
    while i < props.len()
        invariant
            i <= props@.len(),
            text_pairs(tree@) == tree_of(property_pairs(props@).take(i as int)),
        decreases props@.len() - i,
    {
        let ghost s = text_pairs(tree@);
        let ghost pp = property_pairs(props@).take(i + 1);
        assert(pp.drop_last() == property_pairs(props@).take(i as int));
        let key = to_chars(props[i].0.as_str());
        let text = value_to_text(&props[i].1);
        let mut j: usize = 0;
        proof {
            lemma_tree_pos_bounds(s, key@);
            assert(s.skip(0) == s);
        }
        while j < tree.len() && less_chars(&to_chars(tree[j].0.as_str()), &key)
            invariant
                j <= tree@.len(),
                s == text_pairs(tree@),
                forall|m: int| 0 <= m < j ==> text_less(s[m].0, key@),
                tree_pos(s, key@) == j + tree_pos(s.skip(j as int), key@),
            decreases tree@.len() - j,
        {
            assert(s.skip(j as int).drop_first() == s.skip(j + 1));
            j += 1;
        }
        proof {
            if j < tree@.len() {
                assert(s.skip(j as int)[0] == s[j as int]);
            }
        }
        assert(tree_pos(s, key@) == j);
        let same = j < tree.len() && eq_chars(&to_chars(tree[j].0.as_str()), &key);
        if same {
            let ghost before = tree@;
            tree.set(j, (props[i].0.clone(), text));
            assert(text_pairs(tree@) == text_pairs(before).update(j as int, (key@, value_text(props@[i as int].1))));
        } else {
            let ghost before = tree@;
            tree.insert(j, (props[i].0.clone(), text));
            assert(text_pairs(tree@) == text_pairs(before).insert(j as int, (key@, value_text(props@[i as int].1))));
        }
        i += 1;
    }
    assert(property_pairs(props@).take(props@.len() as int) == property_pairs(props@));
    tree
}


proof fn lemma_text_less_irreflexive(a: Seq<char>)
    ensures
        !text_less(a, a),
    decreases a.len(),
{
    if a.len() > 0 {
        lemma_text_less_irreflexive(a.drop_first());
    }
}

proof fn lemma_text_less_transitive(a: Seq<char>, b: Seq<char>, c: Seq<char>)
    requires
        text_less(a, b),
        text_less(b, c),
    ensures
        text_less(a, c),
    decreases a.len(),
{
    if a.len() > 0 && b.len() > 0 && c.len() > 0 && a[0] == b[0] && b[0] == c[0] {
        lemma_text_less_transitive(a.drop_first(), b.drop_first(), c.drop_first());
    }
}

proof fn lemma_text_less_total(a: Seq<char>, b: Seq<char>)
    requires
        a != b,
    ensures
        text_less(a, b) || text_less(b, a),
    decreases a.len(),
{
    if a.len() > 0 && b.len() > 0 && a[0] == b[0] {
        assert(a.drop_first() != b.drop_first()) by {
            if a.drop_first() == b.drop_first() {
                assert(a == seq![a[0]] + a.drop_first());
                assert(b == seq![b[0]] + b.drop_first());
            }
        }
        lemma_text_less_total(a.drop_first(), b.drop_first());
    } else if a.len() == 0 && b.len() == 0 {
        assert(a =~= b);
    }
}

/// Whether the keys of `s` increase strictly.
pub open spec fn keys_increase(s: Seq<(Seq<char>, Seq<char>)>) -> bool {
    forall|i: int, j: int| 0 <= i < j < s.len() ==> text_less(#[trigger] s[i].0, #[trigger] s[j].0)
}

proof fn lemma_tree_insert_sorted(s: Seq<(Seq<char>, Seq<char>)>, k: Seq<char>, v: Seq<char>)
    requires
        keys_increase(s),
    ensures
        keys_increase(tree_insert(s, k, v)),
{
    lemma_tree_pos_bounds(s, k);
    let p = tree_pos(s, k);
    let r = tree_insert(s, k, v);
    if p < s.len() && s[p].0 == k {
        assert forall|i: int, j: int| 0 <= i < j < r.len() implies text_less(#[trigger] r[i].0, #[trigger] r[j].0) by {
            assert(r[i].0 == s[i].0 && r[j].0 == s[j].0);
        }
    } else {
        if p < s.len() {
            lemma_text_less_total(s[p].0, k);
        }
        assert forall|i: int, j: int| 0 <= i < j < r.len() implies text_less(#[trigger] r[i].0, #[trigger] r[j].0) by {
            if j < p {
                assert(r[i] == s[i] && r[j] == s[j]);
            } else if j == p {
                assert(r[i] == s[i] && r[j].0 == k);
            } else if i < p {
                assert(r[i] == s[i] && r[j] == s[j - 1]);
                lemma_text_less_transitive(s[i].0, k, s[p].0);
                if j - 1 > p {
                    lemma_text_less_transitive(s[i].0, s[p].0, s[j - 1].0);
                }
            } else if i == p {
                assert(r[i].0 == k && r[j] == s[j - 1]);
                if j - 1 > p {
                    lemma_text_less_transitive(k, s[p].0, s[j - 1].0);
                }
            } else {
                assert(r[i] == s[i - 1] && r[j] == s[j - 1]);
            }
        }
    }
}

/// The properties as text come ordered by key, each key once: the order of
/// a `BTreeMap`.
pub proof fn law_tree_keys_increase(props: Seq<(Seq<char>, PropertyValue)>)
    ensures
        keys_increase(tree_of(props)),
    decreases props.len(),
{
    if props.len() > 0 {
        law_tree_keys_increase(props.drop_last());
        lemma_tree_insert_sorted(tree_of(props.drop_last()), props.last().0, value_text(props.last().1));
    }
}

/// Whether `m` is a material with properties; then its category.
pub open spec fn lookup_category(m: Material) -> Option<Seq<char>> {
    if m.material_group_code_1c is Some && m.properties is Some {
        match m.material_category_code_1c {
            Some(c) => Some(c@),
            None => None,
        }
    } else {
        None
    }
}

/// The materials with properties among the first `n` of `ms`, grouped by
/// category: each category with the places of its materials, categories in
/// the order in which they first came, materials in their order.
pub open spec fn lookup_spec(ms: Seq<Material>, n: int) -> Seq<(Seq<char>, Seq<int>)>
    decreases n,
{
    if n <= 0 {
        seq![]
    } else {
        let p = lookup_spec(ms, n - 1);
        match lookup_category(ms[n - 1]) {
            Some(c) => {
                let k = key_index(p, c);
                if k < p.len() {
                    p.update(k, (c, p[k].1.push(n - 1)))
                } else {
                    p.push((c, seq![n - 1]))
                }
            },
            None => p,
        }
    }
}

/// The groups as views.
pub open spec fn groups_view(v: Seq<(String, Vec<usize>)>) -> Seq<(Seq<char>, Seq<int>)> {
    v.map_values(|g: (String, Vec<usize>)| (g.0@, g.1@.map_values(|i: usize| i as int)))
}

/// The materials with properties grouped by category, so that a material
/// can be looked up by the properties of the materials of the category a
/// specification names: each category with the places of its materials in
/// `materials`.
pub fn get_materials_lookup(materials: &Vec<Material>) -> (r: Vec<(String, Vec<usize>)>)
    ensures
        groups_view(r@) == lookup_spec(materials@, materials@.len() as int),
{
    let mut r: Vec<(String, Vec<usize>)> = Vec::new();
    let mut i: usize = 0;
    while i < materials.len()
        invariant
            i <= materials@.len(),
            groups_view(r@) == lookup_spec(materials@, i as int),
        decreases materials.len() - i,
    {
        let m = &materials[i];
        if m.is_material() && m.properties.is_some() {
            let c = match &m.material_category_code_1c {
                Some(c) => c,
                None => {
                    assert(false);
                    return r;
                },
            };
            let ghost p = groups_view(r@);
            proof {
                lemma_key_index_bounds(p, c@);
            }
            let mut k: usize = 0;
            while k < r.len()
                invariant
                    k <= r@.len(),
                    p == groups_view(r@),
                    forall|j: int| 0 <= j < k ==> p[j].0 != c@,
                ensures
                    k <= r@.len(),
                    p == groups_view(r@),
                    forall|j: int| 0 <= j < k ==> p[j].0 != c@,
                    k < r@.len() ==> p[k as int].0 == c@,
                decreases r.len() - k,
            {
                if r[k].0 == *c {
                    break;
                }
                k += 1;
            }
            if k < r.len() {
                assert(p[k as int].0 == c@);
                assert(key_index(p, c@) == k) by {
                    let ki = key_index(p, c@);
                    if ki < k {
                        assert(p[ki].0 != c@);
                    }
                }
                let ghost old_r = r@;
                let mut g = r[k].1.clone();
                g.push(i);
                let ghost gv = g@;
                r.set(k, (c.clone(), g));
                assert(groups_view(r@) == p.update(k as int, (c@, p[k as int].1.push(i as int)))) by {
                    assert(groups_view(r@)[k as int].1 =~= p[k as int].1.push(i as int));
                    assert forall|j: int| 0 <= j < r@.len() && j != k implies #[trigger] groups_view(r@)[j]
                        == p[j] by {
                        assert(r@[j] == old_r[j]);
                    }
                }
            } else {
                assert(key_index(p, c@) == p.len()) by {
                    let ki = key_index(p, c@);
                    if ki < p.len() {
                        assert(p[ki].0 != c@);
                    }
                }
                let mut g: Vec<usize> = Vec::new();
                g.push(i);
                let ghost old_r = r@;
                r.push((c.clone(), g));
                assert(groups_view(r@) == p.push((c@, seq![i as int]))) by {
                    assert(groups_view(r@)[p.len() as int].1 =~= seq![i as int]);
                    assert forall|j: int| 0 <= j < p.len() implies #[trigger] groups_view(r@)[j] == p[j] by {
                        assert(r@[j] == old_r[j]);
                    }
                }
            }
        }
        i += 1;
    }
    r
}

/// Whether the places in `s` increase.
pub open spec fn increasing(s: Seq<int>) -> bool {
    forall|a: int, b: int| 0 <= a < b < s.len() ==> #[trigger] s[a] < #[trigger] s[b]
}

/// What grouping the first `n` materials keeps: the categories are
/// distinct, the places in each group increase and are of materials with
/// properties of that category.
pub open spec fn lookup_sound(ms: Seq<Material>, n: int, g: Seq<(Seq<char>, Seq<int>)>) -> bool {
    &&& distinct_keys(g)
    &&& forall|k: int|
        0 <= k < g.len() ==> {
            &&& increasing(#[trigger] g[k].1)
            &&& g[k].1.len() > 0
            &&& forall|t: int|
                0 <= t < g[k].1.len() ==> 0 <= #[trigger] g[k].1[t] < n && lookup_category(ms[g[k].1[t]])
                    == Some(g[k].0)
        }
}

proof fn lemma_lookup_sound(ms: Seq<Material>, n: int)
    requires
        n <= ms.len(),
    ensures
        lookup_sound(ms, n, lookup_spec(ms, n)),
    decreases n,
{
    if n > 0 {
        lemma_lookup_sound(ms, n - 1);
        let p = lookup_spec(ms, n - 1);
        match lookup_category(ms[n - 1]) {
            Some(c) => {
                lemma_key_index_bounds(p, c);
                let k = key_index(p, c);
                let g = lookup_spec(ms, n);
                if k < p.len() {
                    assert(g == p.update(k, (c, p[k].1.push(n - 1))));
                    assert forall|a: int, b: int| 0 <= a < b < g.len() implies #[trigger] g[a].0
                        != #[trigger] g[b].0 by {
                        assert(p[a].0 != p[b].0);
                    }
                    assert forall|j: int| 0 <= j < g.len() implies {
                        &&& increasing(#[trigger] g[j].1)
                        &&& g[j].1.len() > 0
                        &&& forall|t: int|
                            0 <= t < g[j].1.len() ==> 0 <= #[trigger] g[j].1[t] < n && lookup_category(
                                ms[g[j].1[t]],
                            ) == Some(g[j].0)
                    } by {
                        if j == k {
                            let s = p[k].1;
                            assert(increasing(s));
                            assert forall|a: int, b: int| 0 <= a < b < g[j].1.len() implies #[trigger] g[j].1[a]
                                < #[trigger] g[j].1[b] by {
                                if b == s.len() {
                                    assert(s[a] < n - 1);
                                }
                            }
                        }
                    }
                } else {
                    assert(g == p.push((c, seq![n - 1])));
                    assert forall|a: int, b: int| 0 <= a < b < g.len() implies #[trigger] g[a].0
                        != #[trigger] g[b].0 by {
                        if b == p.len() {
                            assert(p[a].0 != c);
                        }
                    }
                    assert forall|j: int| 0 <= j < g.len() implies {
                        &&& increasing(#[trigger] g[j].1)
                        &&& g[j].1.len() > 0
                        &&& forall|t: int|
                            0 <= t < g[j].1.len() ==> 0 <= #[trigger] g[j].1[t] < n && lookup_category(
                                ms[g[j].1[t]],
                            ) == Some(g[j].0)
                    } by {
                        if j < p.len() {
                            assert(g[j] == p[j]);
                        }
                    }
                }
            },
            None => {},
        }
    }
}

proof fn lemma_lookup_complete(ms: Seq<Material>, n: int, i: int)
    requires
        0 <= i < n <= ms.len(),
        lookup_category(ms[i]) is Some,
    ensures
        key_index(lookup_spec(ms, n), lookup_category(ms[i])->0) < lookup_spec(ms, n).len(),
        lookup_spec(ms, n)[key_index(lookup_spec(ms, n), lookup_category(ms[i])->0)].1.contains(i),
    decreases n,
{
    let p = lookup_spec(ms, n - 1);
    let g = lookup_spec(ms, n);
    let ci = lookup_category(ms[i])->0;
    lemma_key_index_bounds(g, ci);
    lemma_key_index_bounds(p, ci);
    if i < n - 1 {
        lemma_lookup_complete(ms, n - 1, i);
        let ki = key_index(p, ci);
        match lookup_category(ms[n - 1]) {
            Some(c) => {
                lemma_key_index_bounds(p, c);
                let k = key_index(p, c);
                if k < p.len() {
                    assert(g[ki].0 == ci);
                    assert(key_index(g, ci) == ki) by {
                        let kg = key_index(g, ci);
                        if kg < ki {
                            assert(g[kg].0 == p[kg].0);
                        }
                    }
                    if ki == k {
                        assert(g[k].1 == p[k].1.push(n - 1));
                        assert(p[k].1.contains(i));
                        let t = choose|t: int| 0 <= t < p[k].1.len() && p[k].1[t] == i;
                        assert(g[k].1[t] == i);
                    }
                } else {
                    assert(g[ki] == p[ki]);
                    assert(key_index(g, ci) == ki) by {
                        let kg = key_index(g, ci);
                        if kg < ki {
                            assert(g[kg].0 == p[kg].0);
                        }
                    }
                }
            },
            None => {},
        }
    } else {
        let k = key_index(p, ci);
        if k < p.len() {
            assert(g[k].0 == ci);
            assert(key_index(g, ci) == k) by {
                let kg = key_index(g, ci);
                if kg < k {
                    assert(g[kg].0 == p[kg].0);
                }
            }
            assert(g[k].1[p[k].1.len() as int] == i);
        } else {
            assert(g[p.len() as int].0 == ci);
            assert(key_index(g, ci) == p.len()) by {
                let kg = key_index(g, ci);
                if kg < p.len() {
                    assert(g[kg].0 == p[kg].0);
                }
            }
            assert(g[p.len() as int].1[0] == i);
        }
    }
}

/// Grouping materials by category keeps each category once; each group
/// lists, in order, materials with properties of that category; and every
/// material with properties is in the group of its category.
pub proof fn law_lookup_groups(ms: Seq<Material>)
    ensures
        lookup_sound(ms, ms.len() as int, lookup_spec(ms, ms.len() as int)),
        forall|i: int|
            0 <= i < ms.len() && (#[trigger] lookup_category(ms[i])) is Some ==> {
                let g = lookup_spec(ms, ms.len() as int);
                let k = key_index(g, lookup_category(ms[i])->0);
                k < g.len() && g[k].1.contains(i)
            },
{
    lemma_lookup_sound(ms, ms.len() as int);
    assert forall|i: int| 0 <= i < ms.len() && (#[trigger] lookup_category(ms[i])) is Some implies {
        let g = lookup_spec(ms, ms.len() as int);
        let k = key_index(g, lookup_category(ms[i])->0);
        k < g.len() && g[k].1.contains(i)
    } by {
        lemma_lookup_complete(ms, ms.len() as int, i);
    }
}

} // verus!
