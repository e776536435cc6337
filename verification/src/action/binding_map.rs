use crate::action;
use crate::action::SourceBehavior;
use crate::action::SourceModel;
use crate::controller::ControllerKind;
use crate::grouping::group_by_kind;
use crate::grouping::group_from;
use crate::keyed;
use vstd::prelude::*;

verus! {

/// The bindings one action has per controller kind.
pub type BindingList = Vec<(ControllerKind, Vec<SourceBehavior>)>;

/// A mapping from actions, by id, to their per-controller source
/// bindings.
#[derive(Debug)]
pub struct BindingMap {
    /// The bound actions, each id at most once.
    pub entries: Vec<(action::Id, BindingList)>,
}

/// The model of one action's per-controller bindings.
pub open spec fn binding_list_model(l: BindingList) -> Seq<(ControllerKind, Seq<SourceModel>)> {
    l@.map_values(
        |g: (ControllerKind, Vec<SourceBehavior>)|
            (g.0, g.1@.map_values(|b: SourceBehavior| b@)),
    )
}

impl View for BindingMap {
    type V = Seq<(action::Id, Seq<(ControllerKind, Seq<SourceModel>)>)>;

    open spec fn view(&self) -> Seq<(action::Id, Seq<(ControllerKind, Seq<SourceModel>)>)> {
        self.entries@.map_values(
            |p: (action::Id, BindingList)| (p.0, binding_list_model(p.1)),
        )
    }
}

impl Default for BindingMap {
    /// A map binding nothing.
    fn default() -> (r: Self)
        ensures
            r@ == Seq::<(action::Id, Seq<(ControllerKind, Seq<SourceModel>)>)>::empty(),
    {
        let r = BindingMap { entries: Vec::new() };
        proof {
            assert(r@ =~= Seq::<(action::Id, Seq<(ControllerKind, Seq<SourceModel>)>)>::empty());
        }
        r
    }
}

/// The index of the group for the kind, or the number of groups.
fn group_find(out: &BindingList, kind: ControllerKind) -> (r: usize)
    ensures
        ({
            let f = keyed::find_from(binding_list_model(*out), 0, kind);
            if f >= 0 {
                r as int == f
            } else {
                r as int == out@.len()
            }
        }),
{
    let ghost acc = binding_list_model(*out);
    let n = out.len();
    let mut g: usize = 0;
    while g < n
        invariant
            g <= n,
            n == out@.len(),
            acc == binding_list_model(*out),
            acc.len() == n,
            keyed::find_from(acc, 0, kind) == keyed::find_from(acc, g as int, kind),
        decreases n - g,
    {
        if out[g].0 == kind {
            return g;
        }
        g = g + 1;
    }
    n
}

/// Group a flat list of per-controller source bindings by kind.
fn group_bindings(bindings: Vec<(ControllerKind, SourceBehavior)>) -> (r: BindingList)
    ensures
        binding_list_model(r) == group_by_kind(
            bindings@.map_values(|p: (ControllerKind, SourceBehavior)| (p.0, p.1@)),
        ),
{
    let ghost flat = bindings@.map_values(|p: (ControllerKind, SourceBehavior)| (p.0, p.1@));
    let mut bindings = bindings;
    let mut out: BindingList = Vec::new();
    let n = bindings.len();
    let mut i: usize = 0;
    proof {
        assert(binding_list_model(out) =~= Seq::<(ControllerKind, Seq<SourceModel>)>::empty());
    }
    while i < n
        invariant
            i <= n,
            n == flat.len(),
            bindings@.len() == n - i,
            bindings@.map_values(|p: (ControllerKind, SourceBehavior)| (p.0, p.1@))
                == flat.subrange(i as int, n as int),
            group_by_kind(flat) == group_from(binding_list_model(out), flat, i as int),
        decreases n - i,
    {
        let ghost braw = bindings@;
        let (kind, behavior) = bindings.remove(0);
        proof {
            assert(bindings@ == braw.remove(0));
            assert((kind, behavior) == braw[0]);
            assert(braw.map_values(|p: (ControllerKind, SourceBehavior)| (p.0, p.1@))[0] == (
            kind,
            behavior@,
            ));
            assert(kind == flat[i as int].0 && behavior@ == flat[i as int].1);
            assert forall|j: int| 0 <= j < bindings@.len() implies (
            #[trigger] bindings@[j].0,
            bindings@[j].1@,
            ) == flat[i + 1 + j] by {
                assert(braw.map_values(|p: (ControllerKind, SourceBehavior)| (p.0, p.1@))[j + 1]
                    == flat.subrange(i as int, n as int)[j + 1]);
            }
            assert(bindings@.map_values(|p: (ControllerKind, SourceBehavior)| (p.0, p.1@))
                =~= flat.subrange(i + 1, n as int));
        }
        let ghost acc = binding_list_model(out);
        let g = group_find(&out, kind);
        proof {
            keyed::lemma_find_lookup(acc, 0, kind);
        }
        if g < out.len() {
            let elem = vstd::std_specs::vec::vec_index_mut(&mut out, g);
            elem.1.push(behavior);
            proof {
                assert(binding_list_model(out) =~~= acc.update(
                    g as int,
                    (kind, acc[g as int].1.push(flat[i as int].1)),
                ));
            }
        } else {
            let mut group: Vec<SourceBehavior> = Vec::new();
            group.push(behavior);
            out.push((kind, group));
            proof {
                assert(binding_list_model(out) =~~= acc.push((kind, seq![flat[i as int].1])));
            }
        }
        proof {
            assert(binding_list_model(out) == crate::grouping::group_append(
                acc,
                kind,
                flat[i as int].1,
            ));
            assert(group_from(acc, flat, i as int) == group_from(
                binding_list_model(out),
                flat,
                i + 1,
            ));
        }
        i = i + 1;
    }
    out
}

impl BindingMap {
    /// Bind a list of per-controller source bindings to an action by
    /// its id, grouped by controller kind; binding an already bound id
    /// replaces its bindings, last write wins.
    pub fn bind(self, action: action::Id, bindings: Vec<(ControllerKind, SourceBehavior)>) -> (r:
        Self)
        ensures
            r@ == keyed::str_upsert(
                self@,
                action,
                group_by_kind(
                    bindings@.map_values(|p: (ControllerKind, SourceBehavior)| (p.0, p.1@)),
                ),
            ),
    {
        let ghost vorig = self@;
        let ghost grouped = group_by_kind(
            bindings@.map_values(|p: (ControllerKind, SourceBehavior)| (p.0, p.1@)),
        );
        let list = group_bindings(bindings);
        let mut entries = self.entries;
        let ghost orig = entries@;
        let n = entries.len();
        let mut i: usize = 0;
        while i < n
            invariant
                i <= n,
                n == entries@.len(),
                entries@ == orig,
                self@ == vorig,
                binding_list_model(list) == grouped,
                grouped == group_by_kind(
                    bindings@.map_values(|p: (ControllerKind, SourceBehavior)| (p.0, p.1@)),
                ),
                vorig == orig.map_values(
                    |p: (action::Id, BindingList)| (p.0, binding_list_model(p.1)),
                ),
                keyed::str_find_from(vorig, 0, action@) == keyed::str_find_from(
                    vorig,
                    i as int,
                    action@,
                ),
            decreases n - i,
        {
            if entries[i].0 == action {
                proof {
                    assert(keyed::str_find_from(vorig, i as int, action@) == i as int);
                }
                let elem = vstd::std_specs::vec::vec_index_mut(&mut entries, i);
                *elem = (action, list);
                let r = BindingMap { entries };
                proof {
                    assert(r@ =~= vorig.update(i as int, (action, grouped)));
                }
                return r;
            }
            i = i + 1;
        }
        entries.push((action, list));
        let r = BindingMap { entries };
        proof {
            assert(r@ =~= vorig.push((action, grouped)));
        }
        r
    }
}

} // verus!
