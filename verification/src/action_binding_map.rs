use crate::action;
use crate::binding::Binding;
use crate::controller::ControllerKind;
use crate::grouping::group_by_kind;
use crate::grouping::group_from;
use crate::keyed;
use vstd::prelude::*;

verus! {

/// The raw inputs one action has per controller kind.
pub type BindingList = Vec<(ControllerKind, Vec<Binding>)>;

/// A mapping from actions, by id, to their per-controller raw inputs.
#[derive(Debug)]
pub struct ActionBindingMap {
    /// The bound actions, each id at most once.
    pub entries: Vec<(action::Id, BindingList)>,
}

/// The model of one action's per-controller raw inputs.
pub open spec fn raw_binding_list_model(l: BindingList) -> Seq<(ControllerKind, Seq<Binding>)> {
    l@.map_values(|g: (ControllerKind, Vec<Binding>)| (g.0, g.1@))
}

impl View for ActionBindingMap {
    type V = Seq<(action::Id, Seq<(ControllerKind, Seq<Binding>)>)>;

    open spec fn view(&self) -> Seq<(action::Id, Seq<(ControllerKind, Seq<Binding>)>)> {
        self.entries@.map_values(
            |p: (action::Id, BindingList)| (p.0, raw_binding_list_model(p.1)),
        )
    }
}

impl Default for ActionBindingMap {
    /// A map binding nothing.
    fn default() -> (r: Self)
        ensures
            r@ == Seq::<(action::Id, Seq<(ControllerKind, Seq<Binding>)>)>::empty(),
    {
        let r = ActionBindingMap { entries: Vec::new() };
        proof {
            assert(r@ =~= Seq::<(action::Id, Seq<(ControllerKind, Seq<Binding>)>)>::empty());
        }
        r
    }
}

/// The index of the group for the kind, or the number of groups.
fn raw_group_find(out: &BindingList, kind: ControllerKind) -> (r: usize)
    ensures
        ({
            let f = keyed::find_from(raw_binding_list_model(*out), 0, kind);
            if f >= 0 {
                r as int == f
            } else {
                r as int == out@.len()
            }
        }),
{
    let ghost acc = raw_binding_list_model(*out);
    let n = out.len();
    let mut g: usize = 0;
    while g < n
        invariant
            g <= n,
            n == out@.len(),
            acc == raw_binding_list_model(*out),
            acc.len() == n,
            keyed::find_from(acc, 0, kind) == keyed::find_from(acc, g as int, kind),
        decreases n - g,
    {
        if out[g].0 == kind {
            return g;
        }
        g = g + 1;
    }
    n
}

/// Group a flat list of per-controller raw inputs by kind.
fn raw_group_bindings(bindings: &Vec<(ControllerKind, Binding)>) -> (r: BindingList)
    ensures
        raw_binding_list_model(r) == group_by_kind(bindings@),
{
    let ghost flat = bindings@;
    let mut out: BindingList = Vec::new();
    let n = bindings.len();
    let mut i: usize = 0;
    proof {
        assert(raw_binding_list_model(out) =~= Seq::<(ControllerKind, Seq<Binding>)>::empty());
    }
    while i < n
        invariant
            i <= n,
            n == flat.len(),
            bindings@ == flat,
            group_by_kind(flat) == group_from(raw_binding_list_model(out), flat, i as int),
        decreases n - i,
    {
        let (kind, binding) = bindings[i];
        let ghost acc = raw_binding_list_model(out);
        let g = raw_group_find(&out, kind);
        proof {
            keyed::lemma_find_lookup(acc, 0, kind);
        }
        if g < out.len() {
            let elem = vstd::std_specs::vec::vec_index_mut(&mut out, g);
            elem.1.push(binding);
            proof {
                assert(raw_binding_list_model(out) =~~= acc.update(
                    g as int,
                    (kind, acc[g as int].1.push(binding)),
                ));
            }
        } else {
            let mut group: Vec<Binding> = Vec::new();
            group.push(binding);
            out.push((kind, group));
            proof {
                assert(raw_binding_list_model(out) =~~= acc.push((kind, seq![binding])));
            }
        }
        proof {
            assert(raw_binding_list_model(out) == crate::grouping::group_append(
                acc,
                kind,
                flat[i as int].1,
            ));
            assert(group_from(acc, flat, i as int) == group_from(
                raw_binding_list_model(out),
                flat,
                i + 1,
            ));
        }
        i = i + 1;
    }
    out
}

impl ActionBindingMap {
    /// Bind a list of per-controller raw inputs to an action by its id,
    /// grouped by controller kind; binding an already bound id replaces
    /// its bindings, last write wins.
    pub fn bind(self, action: action::Id, bindings: &Vec<(ControllerKind, Binding)>) -> (r: Self)
        ensures
            r@ == keyed::str_upsert(self@, action, group_by_kind(bindings@)),
    {
        let ghost vorig = self@;
        let ghost grouped = group_by_kind(bindings@);
        let list = raw_group_bindings(bindings);
        let mut entries = self.entries;
        let ghost orig = entries@;
        let n = entries.len();
        let mut i: usize = 0;
        while i < n
            invariant
                i <= n,
                n == entries@.len(),
                entries@ == orig,
                self@ == vorig,
                raw_binding_list_model(list) == grouped,
                grouped == group_by_kind(bindings@),
                vorig == orig.map_values(
                    |p: (action::Id, BindingList)| (p.0, raw_binding_list_model(p.1)),
                ),
                keyed::str_find_from(vorig, 0, action@) == keyed::str_find_from(
                    vorig,
                    i as int,
                    action@,
                ),
            decreases n - i,
        {
            if entries[i].0 == action {
                proof {
                    assert(keyed::str_find_from(vorig, i as int, action@) == i as int);
                }
                let elem = vstd::std_specs::vec::vec_index_mut(&mut entries, i);
                *elem = (action, list);
                let r = ActionBindingMap { entries };
                proof {
                    assert(r@ =~= vorig.update(i as int, (action, grouped)));
                }
                return r;
            }
            i = i + 1;
        }
        entries.push((action, list));
        let r = ActionBindingMap { entries };
        proof {
            assert(r@ =~= vorig.push((action, grouped)));
        }
        r
    }
}

} // verus!
