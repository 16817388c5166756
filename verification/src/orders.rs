//! Lines of orders and the names of averaged products.

use vstd::prelude::*;
use crate::text::{contains_chars, contains_spec, to_chars};

verus! {

/// The prefix of the code of a client's averaged mattress.
pub const CLIENT_AVERAGE_MATTRESS_PREFIX: &'static str = "CMID_";

/// The prefix of the code of a client's averaged accessory.
pub const CLIENT_AVERAGE_ACCESSORY_PREFIX: &'static str = "CAID_";

/// The prefix of the name of an averaged mattress.
pub const AVERAGE_M_PREFIX: &'static str = "AVGM_";

/// The prefix of the name of an averaged accessory.
pub const AVERAGE_A_PREFIX: &'static str = "AVGA_";

/// A line of an order: a model in some size and amount.
#[derive(Debug)]
pub struct OrderLine {
    pub id: i64,
    pub model_code_1c: String,
    pub size: String,
    pub width: i16,
    pub length: i16,
    pub height: i16,
    pub amount: i32,
    pub specification: Option<String>,
}

impl OrderLine {
    /// Whether the line is a client's averaged product: its model code
    /// holds `CMID_` or `CAID_`.
    pub fn is_average(&self) -> (r: bool)
        ensures
            r == (contains_spec(self.model_code_1c@, CLIENT_AVERAGE_MATTRESS_PREFIX@) || contains_spec(
                self.model_code_1c@,
                CLIENT_AVERAGE_ACCESSORY_PREFIX@,
            )),
    {
        let code = to_chars(self.model_code_1c.as_str());
        contains_chars(&code, &to_chars(CLIENT_AVERAGE_MATTRESS_PREFIX)) || contains_chars(
            &code,
            &to_chars(CLIENT_AVERAGE_ACCESSORY_PREFIX),
        )
    }
}

/// Whether a model name is that of an averaged product: it holds `AVGM_`
/// or `AVGA_`.
pub fn is_average_model_name(model_name: &String) -> (r: bool)
    ensures
        r == (contains_spec(model_name@, AVERAGE_M_PREFIX@) || contains_spec(
            model_name@,
            AVERAGE_A_PREFIX@,
        )),
{
    let name = to_chars(model_name.as_str());
    contains_chars(&name, &to_chars(AVERAGE_M_PREFIX)) || contains_chars(
        &name,
        &to_chars(AVERAGE_A_PREFIX),
    )
}

/// The places among the first `n` rows whose order is `k`, in order.
pub open spec fn rows_of(ids: Seq<i64>, k: i64, n: int) -> Seq<int>
    decreases n,
{
    if n <= 0 {
        seq![]
    } else if ids[n - 1] == k {
        rows_of(ids, k, n - 1).push(n - 1)
    } else {
        rows_of(ids, k, n - 1)
    }
}

/// The groups as numbers and places.
pub open spec fn order_groups_view(v: Seq<(i64, Vec<usize>)>) -> Seq<(i64, Seq<int>)> {
    v.map_values(|g: (i64, Vec<usize>)| (g.0, g.1@.map_values(|i: usize| i as int)))
}

/// Whether `g` groups the first `n` rows by order: the orders increase,
/// are those of the rows, and each comes with the places of its rows.
pub open spec fn grouped_by_order(ids: Seq<i64>, n: int, g: Seq<(i64, Seq<int>)>) -> bool {
    &&& forall|a: int, b: int| 0 <= a < b < g.len() ==> #[trigger] g[a].0 < #[trigger] g[b].0
    &&& forall|x: i64| (exists|a: int| 0 <= a < g.len() && #[trigger] g[a].0 == x) <==> ids.take(n).contains(x)
    &&& forall|a: int| 0 <= a < g.len() ==> (#[trigger] g[a]).1 == rows_of(ids, g[a].0, n)
}

/// The rows of orders grouped by order, as a map ordered by key gives
/// them: each order, in increasing order, with the places of its rows in
/// `order_ids` (the order of each row), in order.
pub fn group_rows_by_order(order_ids: &Vec<i64>) -> (r: Vec<(i64, Vec<usize>)>)
    ensures
        grouped_by_order(order_ids@, order_ids@.len() as int, order_groups_view(r@)),
{
    let ghost ids = order_ids@;
    let mut r: Vec<(i64, Vec<usize>)> = Vec::new();
    let mut i: usize = 0;
    proof {
        assert(ids.take(0) =~= seq![]);
    }
    while i < order_ids.len()
        invariant
            i <= ids.len(),
            ids == order_ids@,
            grouped_by_order(ids, i as int, order_groups_view(r@)),
        decreases order_ids.len() - i,
    {
        let x = order_ids[i];
        let ghost v = order_groups_view(r@);
        let mut p: usize = 0;
        while p < r.len() && r[p].0 < x
            invariant
                p <= r@.len(),
                v == order_groups_view(r@),
                forall|q: int| 0 <= q < p ==> v[q].0 < x,
            decreases r.len() - p,
        {
            p += 1;
        }
        assert(ids.take(i + 1) == ids.take(i as int).push(x));
        if p < r.len() && r[p].0 == x {
            let mut g = r[p].1.clone();
            g.push(i);
            let ghost old_r = r@;
            r.set(p, (x, g));
            proof {
                let w = order_groups_view(r@);
                assert(w[p as int].1 =~= v[p as int].1.push(i as int));
                assert forall|a: int| 0 <= a < w.len() && a != p implies #[trigger] w[a] == v[a] by {
                    assert(r@[a] == old_r[a]);
                }
                assert forall|a: int, b: int| 0 <= a < b < w.len() implies #[trigger] w[a].0 < #[trigger] w[b].0 by {
                    assert(v[a].0 < v[b].0);
                }
                assert forall|y: i64| (exists|a: int| 0 <= a < w.len() && #[trigger] w[a].0 == y) <==> #[trigger] ids.take(i + 1).contains(y) by {
                    if exists|a: int| 0 <= a < w.len() && #[trigger] w[a].0 == y {
                        let a = choose|a: int| 0 <= a < w.len() && #[trigger] w[a].0 == y;
                        assert(v[a].0 == y);
                        if y != x {
                            assert(ids.take(i as int).contains(y));
                            let j = choose|j: int| 0 <= j < i && #[trigger] ids.take(i as int)[j] == y;
                            assert(ids.take(i + 1)[j] == y);
                        } else {
                            assert(ids.take(i + 1)[i as int] == y);
                        }
                    }
                    if ids.take(i + 1).contains(y) {
                        let j = choose|j: int| 0 <= j < i + 1 && #[trigger] ids.take(i + 1)[j] == y;
                        if j < i {
                            assert(ids.take(i as int)[j] == y);
                            assert(ids.take(i as int).contains(y));
                            let a = choose|a: int| 0 <= a < v.len() && #[trigger] v[a].0 == y;
                            assert(w[a].0 == y);
                        } else {
                            assert(w[p as int].0 == y);
                        }
                    }
                }
                assert forall|a: int| 0 <= a < w.len() implies (#[trigger] w[a]).1 == rows_of(
                    ids,
                    w[a].0,
                    i + 1,
                ) by {
                    assert(v[a].1 == rows_of(ids, v[a].0, i as int));
                }
            }
        } else {
            let mut g: Vec<usize> = Vec::new();
            g.push(i);
            let ghost old_r = r@;
            r.insert(p, (x, g));
            proof {
                let w = order_groups_view(r@);
                assert(w =~= v.insert(p as int, (x, seq![i as int]))) by {
                    assert forall|a: int| 0 <= a < w.len() implies #[trigger] w[a] == v.insert(
                        p as int,
                        (x, seq![i as int]),
                    )[a] by {
                        if a < p {
                            assert(r@[a] == old_r[a]);
                        } else if a == p {
                            assert(w[a].1 =~= seq![i as int]);
                        } else {
                            assert(r@[a] == old_r[a - 1]);
                        }
                    }
                }
                assert(!ids.take(i as int).contains(x)) by {
                    if ids.take(i as int).contains(x) {
                        let a = choose|a: int| 0 <= a < v.len() && #[trigger] v[a].0 == x;
                        if a < p {
                        } else {
                            assert(v[p as int].0 <= v[a].0);
                        }
                    }
                }
                assert(rows_of(ids, x, i as int) =~= seq![]) by {
                    lemma_rows_of_absent(ids, x, i as int);
                }
                assert forall|a: int, b: int| 0 <= a < b < w.len() implies #[trigger] w[a].0 < #[trigger] w[b].0 by {
                    if b < p {
                    } else if b == p {
                    } else if a < p {
                        assert(v[a].0 < v[b - 1].0 || a == b - 1);
                    } else if a == p {
                        assert(v[p as int].0 <= v[b - 1].0);
                    } else {
                        assert(v[a - 1].0 < v[b - 1].0);
                    }
                }
                assert forall|y: i64| (exists|a: int| 0 <= a < w.len() && #[trigger] w[a].0 == y) <==> #[trigger] ids.take(i + 1).contains(y) by {
                    if exists|a: int| 0 <= a < w.len() && #[trigger] w[a].0 == y {
                        let a = choose|a: int| 0 <= a < w.len() && #[trigger] w[a].0 == y;
                        if a == p {
                            assert(ids.take(i + 1)[i as int] == y);
                        } else {
                            let b = if a < p { a } else { a - 1 };
                            assert(v[b].0 == y);
                            assert(ids.take(i as int).contains(y));
                            let j = choose|j: int| 0 <= j < i && #[trigger] ids.take(i as int)[j] == y;
                            assert(ids.take(i + 1)[j] == y);
                        }
                    }
                    if ids.take(i + 1).contains(y) {
                        let j = choose|j: int| 0 <= j < i + 1 && #[trigger] ids.take(i + 1)[j] == y;
                        if j < i {
                            assert(ids.take(i as int)[j] == y);
                            assert(ids.take(i as int).contains(y));
                            let a = choose|a: int| 0 <= a < v.len() && #[trigger] v[a].0 == y;
                            if a < p {
                                assert(w[a].0 == y);
                            } else {
                                assert(w[a + 1].0 == y);
                            }
                        } else {
                            assert(w[p as int].0 == y);
                        }
                    }
                }
                assert forall|a: int| 0 <= a < w.len() implies (#[trigger] w[a]).1 == rows_of(
                    ids,
                    w[a].0,
                    i + 1,
                ) by {
                    if a < p {
                        assert(v[a].1 == rows_of(ids, v[a].0, i as int));
                    } else if a > p {
                        assert(v[a - 1].1 == rows_of(ids, v[a - 1].0, i as int));
                    }
                }
            }
        }
        i += 1;
    }
    proof {
        assert(ids.take(ids.len() as int) =~= ids);
    }
    r
}

/// No row among the first `n` has an order that none of them has.
proof fn lemma_rows_of_absent(ids: Seq<i64>, k: i64, n: int)
    requires
        0 <= n <= ids.len(),
        !ids.take(n).contains(k),
    ensures
        rows_of(ids, k, n) == Seq::<int>::empty(),
    decreases n,
{
    if n > 0 {
        assert(ids.take(n - 1) =~= ids.take(n).take(n - 1));
        assert(!ids.take(n - 1).contains(k)) by {
            if ids.take(n - 1).contains(k) {
                let j = choose|j: int| 0 <= j < n - 1 && #[trigger] ids.take(n - 1)[j] == k;
                assert(ids.take(n)[j] == k);
            }
        }
        assert(ids.take(n)[n - 1] != k);
        lemma_rows_of_absent(ids, k, n - 1);
    }
}

/// The name of the procedure that selects a cover: a model whose own
/// specification has a line computed by it is made with its cover.
pub const COVER_SELECTION: &'static str = "ПодборЧехла";

/// Whether the `i`-th procedure name selects a cover.
pub open spec fn selects_cover(names: Seq<Option<String>>, i: int) -> bool {
    match names[i] {
        Some(n) => contains_spec(n@, COVER_SELECTION@),
        None => false,
    }
}

/// Whether the lines of a specification, given by the names of their
/// procedures, call for the cover's specification too: one of the names
/// holds `ПодборЧехла`.
pub fn needs_cover(procedure_names: &Vec<Option<String>>) -> (r: bool)
    ensures
        r == exists|i: int| 0 <= i < procedure_names@.len() && #[trigger] selects_cover(procedure_names@, i),
{
    let pattern = to_chars(COVER_SELECTION);
    let mut i: usize = 0;
    while i < procedure_names.len()
        invariant
            i <= procedure_names@.len(),
            pattern@ == COVER_SELECTION@,
            forall|k: int| 0 <= k < i ==> !#[trigger] selects_cover(procedure_names@, k),
        decreases procedure_names.len() - i,
    {
        if let Some(n) = &procedure_names[i] {
            if contains_chars(&to_chars(n.as_str()), &pattern) {
                assert(selects_cover(procedure_names@, i as int));
                return true;
            }
        }
        i += 1;
    }
    false
}

/// Whether `o` is the code `c`.
pub open spec fn is_code(o: Option<String>, c: Seq<char>) -> bool {
    match o {
        Some(x) => x@ == c,
        None => false,
    }
}

/// Whether `c` is one of the codes given.
pub open spec fn code_given(codes: Seq<Option<String>>, c: Seq<char>) -> bool {
    exists|i: int| 0 <= i < codes.len() && is_code(#[trigger] codes[i], c)
}

/// The procedures that the lines of specifications name, each code once,
/// in the order in which they first come.
pub fn procedure_codes(codes: &Vec<Option<String>>) -> (r: Vec<String>)
    ensures
        forall|a: int, b: int| 0 <= a < b < r@.len() ==> r@[a]@ != r@[b]@,
        forall|k: int| 0 <= k < r@.len() ==> code_given(codes@, #[trigger] r@[k]@),
        forall|c: Seq<char>| code_given(codes@, c) ==> exists|k: int| 0 <= k < r@.len() && #[trigger] r@[k]@ == c,
{
    let mut r: Vec<String> = Vec::new();
    let mut i: usize = 0;
    while i < codes.len()
        invariant
            i <= codes@.len(),
            forall|a: int, b: int| 0 <= a < b < r@.len() ==> r@[a]@ != r@[b]@,
            forall|k: int| 0 <= k < r@.len() ==> code_given(codes@, #[trigger] r@[k]@),
            forall|c: Seq<char>|
                code_given(codes@.take(i as int), c) ==> exists|k: int| 0 <= k < r@.len() && #[trigger] r@[k]@ == c,
        decreases codes.len() - i,
    {
        let ghost before = r@;
        if let Some(c) = &codes[i] {
            assert(code_given(codes@, c@)) by {
                assert(is_code(codes@[i as int], c@));
            }
            let mut k: usize = 0;
            while k < r.len()
                invariant
                    k <= r@.len(),
                    forall|j: int| 0 <= j < k ==> r@[j]@ != c@,
                ensures
                    k <= r@.len(),
                    forall|j: int| 0 <= j < k ==> r@[j]@ != c@,
                    k < r@.len() ==> r@[k as int]@ == c@,
                decreases r.len() - k,
            {
                if r[k] == *c {
                    break;
                }
                k += 1;
            }
            let found = k < r.len();
            if !found {
                r.push(c.clone());
                assert forall|a: int, b: int| 0 <= a < b < r@.len() implies r@[a]@ != r@[b]@ by {
                    if b == before.len() {
                        assert(r@[a] == before[a]);
                    } else {
                        assert(r@[a] == before[a] && r@[b] == before[b]);
                    }
                }
                assert forall|k2: int| 0 <= k2 < r@.len() implies code_given(codes@, #[trigger] r@[k2]@) by {
                    if k2 < before.len() {
                        assert(r@[k2] == before[k2]);
                    }
                }
            }
        }
        proof {
            assert forall|c2: Seq<char>| #[trigger] code_given(codes@.take(i + 1), c2) implies exists|k2: int|
                0 <= k2 < r@.len() && #[trigger] r@[k2]@ == c2 by {
                let j = choose|j: int| 0 <= j < i + 1 && is_code(#[trigger] codes@.take(i + 1)[j], c2);
                if j < i {
                    assert(codes@.take(i as int)[j] == codes@.take(i + 1)[j]);
                    assert(code_given(codes@.take(i as int), c2));
                    let k2 = choose|k2: int| 0 <= k2 < before.len() && #[trigger] before[k2]@ == c2;
                    assert(r@[k2] == before[k2]);
                } else {
                    assert(codes@.take(i + 1)[j] == codes@[i as int]);
                    if r@.len() > before.len() {
                        assert(r@[before.len() as int]@ == c2);
                    } else {
                        let k2 = choose|k2: int| 0 <= k2 < r@.len() && r@[k2]@ == c2;
                        assert(r@[k2]@ == c2);
                    }
                }
            }
        }
        i += 1;
    }
    assert(codes@.take(codes@.len() as int) =~= codes@);
    r
}

} // verus!
