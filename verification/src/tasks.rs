//! Cutting tasks: the parts to cut for the lines of orders.

use vstd::prelude::*;
use rust_decimal::Decimal;
use crate::text::{eq_chars, to_chars};

verus! {

/// A line of a cutting task: the size and number of the parts to cut.
#[derive(Debug)]
pub struct CuttingTaskLine {
    pub id: i64,
    pub cut_length: i32,
    pub cut_width: i32,
    pub cut_detail_amount: i32,
    /// The kind of part (see the names below).
    pub detail: Option<String>,
    pub angle: Option<String>,
}

impl CuttingTaskLine {
    /// A panel: the top and bottom covers are the same.
    pub const PANEL_NAME: &'static str = "panel";
    /// The top panel.
    pub const PANEL_UP_NAME: &'static str = "panel_up";
    /// The bottom panel.
    pub const PANEL_DOWN_NAME: &'static str = "panel_down";
    /// A side.
    pub const SIDE_NAME: &'static str = "side";
}

impl Clone for CuttingTaskLine {
    fn clone(&self) -> (r: Self)
        ensures
            r == *self,
    {
        CuttingTaskLine {
            id: self.id,
            cut_length: self.cut_length,
            cut_width: self.cut_width,
            cut_detail_amount: self.cut_detail_amount,
            detail: self.detail.clone(),
            angle: self.angle.clone(),
        }
    }
}

/// A cutting task and its lines.
#[derive(Debug)]
pub struct CuttingTask {
    pub id: i64,
    pub cutting_task_lines: Vec<CuttingTaskLine>,
}

/// The procedures and sizes of a model that its cutting lines need.
#[derive(Debug)]
pub struct Model {
    /// The procedure that computes the top panel; 0 when there is none.
    pub cover_up_proc_id: i64,
    /// The procedure that computes the bottom panel; 0 when there is none.
    pub cover_down_proc_id: i64,
    /// The procedure that computes the side; 0 when there is none.
    pub side_proc_id: i64,
    pub name: String,
    pub angle: Option<String>,
    /// The height of the mattress, m.
    pub base_height: Option<Decimal>,
    /// The height of the cover, m.
    pub cover_height: Option<Decimal>,
}

/// The part of a cover that a cutting line cuts.
#[derive(Debug, Clone, Copy, PartialEq, Eq, Structural)]
pub enum Detail {
    /// A top panel (a panel, when both are the same).
    PanelUp,
    /// A bottom panel.
    PanelDown,
    /// A side.
    Side,
}

/// The part named `s`, if it is one.
pub open spec fn detail_spec(s: Seq<char>) -> Option<Detail> {
    if s == CuttingTaskLine::PANEL_NAME@ || s == CuttingTaskLine::PANEL_UP_NAME@ {
        Some(Detail::PanelUp)
    } else if s == CuttingTaskLine::PANEL_DOWN_NAME@ {
        Some(Detail::PanelDown)
    } else if s == CuttingTaskLine::SIDE_NAME@ {
        Some(Detail::Side)
    } else {
        None
    }
}

impl CuttingTaskLine {
    /// The part this line cuts, when its detail names one.
    pub fn detail_kind(&self) -> (r: Option<Detail>)
        ensures
            r == match self.detail {
                Some(d) => detail_spec(d@),
                None => None,
            },
    {
        match &self.detail {
            Some(d) => {
                let t = to_chars(d.as_str());
                if eq_chars(&t, &to_chars(CuttingTaskLine::PANEL_NAME)) || eq_chars(
                    &t,
                    &to_chars(CuttingTaskLine::PANEL_UP_NAME),
                ) {
                    Some(Detail::PanelUp)
                } else if eq_chars(&t, &to_chars(CuttingTaskLine::PANEL_DOWN_NAME)) {
                    Some(Detail::PanelDown)
                } else if eq_chars(&t, &to_chars(CuttingTaskLine::SIDE_NAME)) {
                    Some(Detail::Side)
                } else {
                    None
                }
            },
            None => None,
        }
    }
}

/// The procedure of `m` for the part `d`, 0 when it has none.
pub open spec fn procedure_id_spec(m: Model, d: Detail) -> i64 {
    match d {
        Detail::PanelUp => m.cover_up_proc_id,
        Detail::PanelDown => m.cover_down_proc_id,
        Detail::Side => m.side_proc_id,
    }
}

impl Model {
    /// The procedure that computes the part `d` of this model; `None` when
    /// the model has none (its id is 0).
    pub fn procedure_for(&self, d: Detail) -> (r: Option<i64>)
        ensures
            r == if procedure_id_spec(*self, d) != 0 {
                Some(procedure_id_spec(*self, d))
            } else {
                None
            },
    {
        let id = match d {
            Detail::PanelUp => self.cover_up_proc_id,
            Detail::PanelDown => self.cover_down_proc_id,
            Detail::Side => self.side_proc_id,
        };
        if id != 0 {
            Some(id)
        } else {
            None
        }
    }
}

/// The names of the outputs that give the width and the length of the part.
pub open spec fn output_names_spec(d: Detail) -> (Seq<char>, Seq<char>) {
    match d {
        Detail::Side => ("[Боковина].[Ширина]"@, "[Боковина].[Длина]"@),
        _ => ("[Крышка].[Ширина]"@, "[Крышка].[Длина]"@),
    }
}

/// The names of the outputs of the procedure that give the width and the
/// length of the part `d`.
pub fn output_names(d: Detail) -> (r: (&'static str, &'static str))
    ensures
        (r.0@, r.1@) == output_names_spec(d),
{
    match d {
        Detail::Side => ("[Боковина].[Ширина]", "[Боковина].[Длина]"),
        _ => ("[Крышка].[Ширина]", "[Крышка].[Длина]"),
    }
}

/// Whether the cut part takes the angle of the model: panels do, sides
/// have none.
pub fn keeps_angle(d: Detail) -> (r: bool)
    ensures
        r == (d != Detail::Side),
{
    match d {
        Detail::Side => false,
        _ => true,
    }
}

/// The procedures of the models: each id of each part, 0 included, once,
/// in the order in which they first come.
pub fn procedure_ids(models: &Vec<Model>) -> (r: Vec<i64>)
    ensures
        forall|a: int, b: int| 0 <= a < b < r@.len() ==> r@[a] != r@[b],
        forall|x: i64|
            r@.contains(x) <==> exists|i: int|
                0 <= i < models@.len() && (x == models@[i].cover_up_proc_id || x
                    == models@[i].cover_down_proc_id || x == models@[i].side_proc_id),
{
    let mut r: Vec<i64> = Vec::new();
    let mut i: usize = 0;
    while i < models.len()
        invariant
            i <= models@.len(),
            forall|a: int, b: int| 0 <= a < b < r@.len() ==> r@[a] != r@[b],
            forall|x: i64|
                r@.contains(x) <==> exists|j: int|
                    0 <= j < i && (x == models@[j].cover_up_proc_id || x
                        == models@[j].cover_down_proc_id || x == models@[j].side_proc_id),
        decreases models.len() - i,
    {
        let m = &models[i];
        push_new(&mut r, m.cover_up_proc_id);
        push_new(&mut r, m.cover_down_proc_id);
        push_new(&mut r, m.side_proc_id);
        proof {
            assert forall|x: i64| r@.contains(x) <==> exists|j: int|
                0 <= j < i + 1 && (x == models@[j].cover_up_proc_id || x
                    == models@[j].cover_down_proc_id || x == models@[j].side_proc_id) by {
                if exists|j: int|
                    0 <= j < i + 1 && (x == models@[j].cover_up_proc_id || x
                        == models@[j].cover_down_proc_id || x == models@[j].side_proc_id) {
                    let j = choose|j: int|
                        0 <= j < i + 1 && (x == models@[j].cover_up_proc_id || x
                            == models@[j].cover_down_proc_id || x == models@[j].side_proc_id);
                    if j < i {
                        assert(exists|j2: int|
                            0 <= j2 < i && (x == models@[j2].cover_up_proc_id || x
                                == models@[j2].cover_down_proc_id || x == models@[j2].side_proc_id));
                    }
                }
            }
        }
        i += 1;
    }
    r
}

/// Adds `x` at the end unless it is there.
fn push_new(r: &mut Vec<i64>, x: i64)
    requires
        forall|a: int, b: int| 0 <= a < b < old(r)@.len() ==> old(r)@[a] != old(r)@[b],
    ensures
        forall|a: int, b: int| 0 <= a < b < final(r)@.len() ==> final(r)@[a] != final(r)@[b],
        forall|y: i64| final(r)@.contains(y) <==> (old(r)@.contains(y) || y == x),
{
    let mut k: usize = 0;
    while k < r.len()
        invariant
            k <= r@.len(),
            r@ == old(r)@,
            forall|a: int, b: int| 0 <= a < b < old(r)@.len() ==> old(r)@[a] != old(r)@[b],
            forall|j: int| 0 <= j < k ==> r@[j] != x,
        decreases r.len() - k,
    {
        if r[k] == x {
            assert(r@[k as int] == x);
            return;
        }
        k += 1;
    }
    let ghost before = r@;
    r.push(x);
    assert forall|y: i64| r@.contains(y) <==> (before.contains(y) || y == x) by {
        if before.contains(y) {
            let j = choose|j: int| 0 <= j < before.len() && before[j] == y;
            assert(r@[j] == y);
        }
        if r@.contains(y) && y != x {
            let j = choose|j: int| 0 <= j < r@.len() && r@[j] == y;
            assert(j < before.len());
            assert(before[j] == y);
        }
        if y == x {
            assert(r@[before.len() as int] == x);
        }
    }
}

/// The outputs that size a part: the width and the length of `[Крышка]`
/// for panels, of `[Боковина]` for sides; panels take the model's angle,
/// sides none.
pub proof fn law_part_outputs(d: Detail)
    ensures
        d != Detail::Side ==> output_names_spec(d) == ("[Крышка].[Ширина]"@, "[Крышка].[Длина]"@),
        d == Detail::Side ==> output_names_spec(d) == ("[Боковина].[Ширина]"@, "[Боковина].[Длина]"@),
{
}

} // verus!
