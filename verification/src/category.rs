use crate::action::BindingMap;
use crate::keyed;
use vstd::prelude::*;

verus! {

/// An identifier for a control-scheme layout in the per-category
/// configuration.
pub type Layout = String;

/// An identifier for a category of bindings.
pub type CategoryId = String;

/// A group of binding maps, one per layout.
#[derive(Debug)]
pub struct Category {
    /// The per-layout binding maps, each layout at most once.
    pub entries: Vec<(Option<Layout>, BindingMap)>,
}

impl View for Category {
    type V = Seq<(Option<Layout>, <BindingMap as View>::V)>;

    open spec fn view(&self) -> Seq<(Option<Layout>, <BindingMap as View>::V)> {
        self.entries@.map_values(|p: (Option<Layout>, BindingMap)| (p.0, p.1@))
    }
}

impl Default for Category {
    /// A category with no layouts.
    fn default() -> (r: Self)
        ensures
            r@ == Seq::<(Option<Layout>, <BindingMap as View>::V)>::empty(),
    {
        let r = Category { entries: Vec::new() };
        proof {
            assert(r@ =~= Seq::<(Option<Layout>, <BindingMap as View>::V)>::empty());
        }
        r
    }
}

impl Category {
    /// Associate a layout with a binding map; an already present
    /// layout's map is replaced, last write wins.
    pub fn with(self, layout: Option<Layout>, map: BindingMap) -> (r: Self)
        ensures
            r@ == keyed::oname_upsert(self@, layout, map@),
    {
        let ghost vorig = self@;
        let mut entries = self.entries;
        let ghost orig = entries@;
        let n = entries.len();
        let mut i: usize = 0;
        while i < n
            invariant
                i <= n,
                n == entries@.len(),
                entries@ == orig,
                self@ == vorig,
                vorig == orig.map_values(|p: (Option<Layout>, BindingMap)| (p.0, p.1@)),
                keyed::oname_find_from(vorig, 0, keyed::oname_view(layout))
                    == keyed::oname_find_from(vorig, i as int, keyed::oname_view(layout)),
            decreases n - i,
        {
            if keyed::oname_eq(&entries[i].0, &layout) {
                proof {
                    assert(keyed::oname_find_from(vorig, i as int, keyed::oname_view(layout))
                        == i as int);
                }
                let elem = vstd::std_specs::vec::vec_index_mut(&mut entries, i);
                *elem = (layout, map);
                let r = Category { entries };
                proof {
                    assert(r@ =~= vorig.update(i as int, (layout, map@)));
                }
                return r;
            }
            i = i + 1;
        }
        entries.push((layout, map));
        let r = Category { entries };
        proof {
            assert(r@ =~= vorig.push((layout, map@)));
        }
        r
    }

    /// The binding map for the given layout, when it has one.
    pub fn get(&self, layout: &Option<Layout>) -> (r: Option<&BindingMap>)
        ensures
            match r {
                Some(m) => keyed::oname_lookup(self@, keyed::oname_view(*layout)) == Some(m@),
                None => keyed::oname_lookup(self@, keyed::oname_view(*layout)) is None,
            },
    {
        let n = self.entries.len();
        let mut i: usize = 0;
        while i < n
            invariant
                i <= n,
                n == self.entries@.len(),
                keyed::oname_lookup(self@, keyed::oname_view(*layout)) == keyed::oname_lookup_from(
                    self@,
                    i as int,
                    keyed::oname_view(*layout),
                ),
                self@ == self.entries@.map_values(
                    |p: (Option<Layout>, BindingMap)| (p.0, p.1@),
                ),
            decreases n - i,
        {
            if keyed::oname_eq(&self.entries[i].0, layout) {
                return Some(&self.entries[i].1);
            }
            i = i + 1;
        }
        None
    }
}

} // verus!
