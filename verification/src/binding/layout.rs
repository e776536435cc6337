use crate::action;
use crate::action::BindingModel;
use crate::binding::ActionMap;
use crate::keyed;
use vstd::prelude::*;

verus! {

/// An identifier for a way device inputs are mapped to actions; the
/// default layout is `None`.
pub type LayoutId = Option<String>;

/// An identifier for an action set; the default set is `None`.
pub type ActionSetId = Option<String>;

/// The mathematical model of an [`ActionSet`]: its per-layout maps.
pub type ActionSetModel = Seq<(LayoutId, Seq<(action::Id, BindingModel)>)>;

/// A collection of bindings per layout which can be enabled or disabled
/// for a user in bulk.
#[derive(Debug)]
pub struct ActionSet {
    /// The per-layout action maps, each layout at most once.
    pub entries: Vec<(LayoutId, ActionMap)>,
}

impl View for ActionSet {
    type V = ActionSetModel;

    open spec fn view(&self) -> ActionSetModel {
        self.entries@.map_values(|p: (LayoutId, ActionMap)| (p.0, p.1@))
    }
}

impl Default for ActionSet {
    /// A set with no layouts.
    fn default() -> (r: Self)
        ensures
            r@ == Seq::<(LayoutId, Seq<(action::Id, BindingModel)>)>::empty(),
    {
        let r = ActionSet { entries: Vec::new() };
        proof {
            assert(r@ =~= Seq::<(LayoutId, Seq<(action::Id, BindingModel)>)>::empty());
        }
        r
    }
}

impl ActionSet {
    /// Associate a layout with a map of actions to device bindings;
    /// an already present layout's map is replaced, last write wins.
    pub fn with(self, layout: LayoutId, map: ActionMap) -> (r: Self)
        ensures
            r@ == keyed::oname_upsert(self@, layout, map@),
    {
        let ghost vorig = self@;
        let mut entries = self.entries;
        let ghost orig = entries@;
        let n = entries.len();
        let mut i: usize = 0;
        while i < n
            invariant
                i <= n,
                n == entries@.len(),
                entries@ == orig,
                self@ == vorig,
                vorig == orig.map_values(|p: (LayoutId, ActionMap)| (p.0, p.1@)),
                keyed::oname_find_from(vorig, 0, keyed::oname_view(layout))
                    == keyed::oname_find_from(vorig, i as int, keyed::oname_view(layout)),
            decreases n - i,
        {
            if keyed::oname_eq(&entries[i].0, &layout) {
                proof {
                    assert(keyed::oname_find_from(vorig, i as int, keyed::oname_view(layout))
                        == i as int);
                }
                let elem = vstd::std_specs::vec::vec_index_mut(&mut entries, i);
                *elem = (layout, map);
                let r = ActionSet { entries };
                proof {
                    assert(r@ =~= vorig.update(i as int, (layout, map@)));
                }
                return r;
            }
            i = i + 1;
        }
        entries.push((layout, map));
        let r = ActionSet { entries };
        proof {
            assert(r@ =~= vorig.push((layout, map@)));
        }
        r
    }

    /// The action map for the given layout, when it has one.
    pub fn get(&self, layout: &LayoutId) -> (r: Option<&ActionMap>)
        ensures
            match r {
                Some(m) => keyed::oname_lookup(self@, keyed::oname_view(*layout)) == Some(m@),
                None => keyed::oname_lookup(self@, keyed::oname_view(*layout)) is None,
            },
    {
        let n = self.entries.len();
        let mut i: usize = 0;
        while i < n
            invariant
                i <= n,
                n == self.entries@.len(),
                keyed::oname_lookup(self@, keyed::oname_view(*layout)) == keyed::oname_lookup_from(
                    self@,
                    i as int,
                    keyed::oname_view(*layout),
                ),
                self@ == self.entries@.map_values(|p: (LayoutId, ActionMap)| (p.0, p.1@)),
            decreases n - i,
        {
            if keyed::oname_eq(&self.entries[i].0, layout) {
                return Some(&self.entries[i].1);
            }
            i = i + 1;
        }
        None
    }
}

impl Clone for ActionSet {
    /// A set with the same per-layout maps.
    fn clone(&self) -> (r: Self)
        ensures
            r@ == self@,
    {
        let n = self.entries.len();
        let mut out: Vec<(LayoutId, ActionMap)> = Vec::new();
        let mut i: usize = 0;
        while i < n
            invariant
                i <= n,
                n == self.entries@.len(),
                out@.len() == i,
                forall|q: int|
                    0 <= q < i ==> (#[trigger] out@[q]).0 == self.entries@[q].0 && out@[q].1@
                        == self.entries@[q].1@,
            decreases n - i,
        {
            out.push((keyed::oname_clone(&self.entries[i].0), self.entries[i].1.clone()));
            i = i + 1;
        }
        let r = ActionSet { entries: out };
        proof {
            assert(r@ =~= self@);
        }
        r
    }
}

} // verus!
