use crate::action;
use crate::action::BehaviorBinding;
use crate::action::BindingModel;
use crate::keyed;
use vstd::prelude::*;

verus! {

/// A mapping from actions, by id, to the binding tree each evaluates.
#[derive(Debug)]
pub struct ActionMap {
    /// The bound actions, in binding order, each id at most once.
    pub entries: Vec<(action::Id, BehaviorBinding)>,
}

impl View for ActionMap {
    type V = Seq<(action::Id, BindingModel)>;

    open spec fn view(&self) -> Seq<(action::Id, BindingModel)> {
        self.entries@.map_values(|p: (action::Id, BehaviorBinding)| (p.0, p.1@))
    }
}

impl Default for ActionMap {
    /// A map binding nothing.
    fn default() -> (r: Self)
        ensures
            r@ == Seq::<(action::Id, BindingModel)>::empty(),
    {
        let r = ActionMap { entries: Vec::new() };
        proof {
            assert(r@ =~= Seq::<(action::Id, BindingModel)>::empty());
        }
        r
    }
}

impl ActionMap {
    /// Bind a binding tree to an action by its id; binding an already
    /// bound id replaces that binding, last write wins.
    pub fn bind(self, action: action::Id, binding: BehaviorBinding) -> (r: Self)
        ensures
            r@ == keyed::str_upsert(self@, action, binding@),
    {
        let ghost vorig = self@;
        let mut entries = self.entries;
        let ghost orig = entries@;
        let n = entries.len();
        let mut i: usize = 0;
        while i < n
            invariant
                i <= n,
                n == entries@.len(),
                entries@ == orig,
                self@ == vorig,
                vorig == orig.map_values(|p: (action::Id, BehaviorBinding)| (p.0, p.1@)),
                keyed::str_find_from(vorig, 0, action@) == keyed::str_find_from(
                    vorig,
                    i as int,
                    action@,
                ),
            decreases n - i,
        {
            if entries[i].0 == action {
                proof {
                    assert(keyed::str_find_from(vorig, i as int, action@) == i as int);
                }
                let elem = vstd::std_specs::vec::vec_index_mut(&mut entries, i);
                *elem = (action, binding);
                let r = ActionMap { entries };
                proof {
                    assert(r@ =~= vorig.update(i as int, (action, binding@)));
                }
                return r;
            }
            i = i + 1;
        }
        entries.push((action, binding));
        let r = ActionMap { entries };
        proof {
            assert(r@ =~= vorig.push((action, binding@)));
        }
        r
    }
}

impl Clone for ActionMap {
    /// A map with the same bindings.
    fn clone(&self) -> (r: Self)
        ensures
            r@ == self@,
    {
        let n = self.entries.len();
        let mut out: Vec<(action::Id, BehaviorBinding)> = Vec::new();
        let mut i: usize = 0;
        while i < n
            invariant
                i <= n,
                n == self.entries@.len(),
                out@.len() == i,
                forall|q: int|
                    0 <= q < i ==> (#[trigger] out@[q]).0 == self.entries@[q].0 && out@[q].1@
                        == self.entries@[q].1@,
            decreases n - i,
        {
            out.push((self.entries[i].0.clone(), self.entries[i].1.clone()));
            i = i + 1;
        }
        let r = ActionMap { entries: out };
        proof {
            assert(r@ =~= self@);
        }
        r
    }
}

} // verus!
