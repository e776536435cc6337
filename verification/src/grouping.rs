//! Grouping a flat list of per-controller bindings into one list per
//! controller kind, keeping both the kinds' first-appearance order and
//! each kind's binding order.

use crate::controller::ControllerKind;
use crate::keyed;
use vstd::prelude::*;

verus! {

/// `acc` with `e` appended to the group for `k`, creating the group at
/// the end when `k` has none yet.
pub open spec fn group_append<E>(
    acc: Seq<(ControllerKind, Seq<E>)>,
    k: ControllerKind,
    e: E,
) -> Seq<(ControllerKind, Seq<E>)> {
    let i = keyed::find_from(acc, 0, k);
    if i >= 0 {
        acc.update(i, (k, acc[i].1.push(e)))
    } else {
        acc.push((k, seq![e]))
    }
}

/// The pairs at and after `i` folded into `acc`, one group per kind.
pub open spec fn group_from<E>(
    acc: Seq<(ControllerKind, Seq<E>)>,
    s: Seq<(ControllerKind, E)>,
    i: int,
) -> Seq<(ControllerKind, Seq<E>)>
    decreases s.len() - i,
{
    if i < 0 || i >= s.len() {
        acc
    } else {
        group_from(group_append(acc, s[i].0, s[i].1), s, i + 1)
    }
}

/// The bindings grouped by controller kind: kinds in first-appearance
/// order, each kind's bindings in list order.
pub open spec fn group_by_kind<E>(s: Seq<(ControllerKind, E)>) -> Seq<(ControllerKind, Seq<E>)> {
    group_from(Seq::empty(), s, 0)
}

} // verus!
