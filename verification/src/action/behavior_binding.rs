//! The binding tree: source leaves, containers that combine sibling
//! values through behaviors, and selectors that dispatch on the device
//! kind of the current event. Evaluating the tree against one input
//! event yields a single scalar and updates the values the leaves
//! remember.

use crate::action::behavior::Behavior;
use crate::action::behavior::Kind;
use crate::binding::Source;
use crate::device;
use crate::keyed;
use crate::math::Scalar;
use vstd::prelude::*;

verus! {

/// A tree combining one or more sources and behaviors into a single
/// scalar-producing expression.
#[derive(Debug)]
pub enum BehaviorBinding {
    /// A leaf bound to exactly one physical source.
    Source(SourceBehavior),
    /// Combines its children's outputs, optionally folding or mapping
    /// them with its own behaviors.
    Container(Vec<BehaviorBinding>, Vec<Behavior>),
    /// Dispatches to the child registered for the device kind that
    /// generated the current event.
    Select(Vec<(device::Kind, BehaviorBinding)>),
}

/// A leaf of the binding tree: one physical source, the behaviors
/// applied to each of its samples, and the transient values the leaf
/// remembers between events.
#[derive(Debug)]
pub struct SourceBehavior {
    /// The physical source this leaf listens to.
    pub source: Source,
    /// The map behaviors applied, in order, to each sample.
    pub behaviors: Vec<Behavior>,
    /// The last value this leaf produced.
    pub latest_value: Scalar,
    /// When this leaf last mapped a sample, in milliseconds.
    pub last_time: u64,
}

/// The mathematical model of a [`SourceBehavior`] leaf.
pub struct SourceModel {
    pub source: Source,
    pub behaviors: Seq<Behavior>,
    pub latest_value: Scalar,
    pub last_time: u64,
}

/// The mathematical model of a [`BehaviorBinding`] tree.
pub enum BindingModel {
    Source(SourceModel),
    Container(Seq<BindingModel>, Seq<Behavior>),
    Select(Seq<(device::Kind, BindingModel)>),
}

impl View for SourceBehavior {
    type V = SourceModel;

    open spec fn view(&self) -> SourceModel {
        SourceModel {
            source: self.source,
            behaviors: self.behaviors@,
            latest_value: self.latest_value,
            last_time: self.last_time,
        }
    }
}

/// The model of a binding tree.
pub open spec fn bb_view(b: BehaviorBinding) -> BindingModel
    decreases b, 0int,
{
    match b {
        BehaviorBinding::Source(sb) => BindingModel::Source(sb@),
        BehaviorBinding::Container(children, behaviors) => BindingModel::Container(
            bb_views(children@, 0),
            behaviors@,
        ),
        BehaviorBinding::Select(entries) => BindingModel::Select(bb_select_views(entries@, 0)),
    }
}

/// The models of the trees at or after index `k`.
pub open spec fn bb_views(s: Seq<BehaviorBinding>, k: int) -> Seq<BindingModel>
    decreases s, s.len() - k + 1,
{
    if k < 0 || k >= s.len() {
        Seq::empty()
    } else {
        seq![bb_view(s[k])] + bb_views(s, k + 1)
    }
}

/// The models of the keyed trees at or after index `k`.
pub open spec fn bb_select_views(s: Seq<(device::Kind, BehaviorBinding)>, k: int) -> Seq<
    (device::Kind, BindingModel),
>
    decreases s, s.len() - k + 1,
{
    if k < 0 || k >= s.len() {
        Seq::empty()
    } else {
        seq![(s[k].0, bb_view(s[k].1))] + bb_select_views(s, k + 1)
    }
}

impl View for BehaviorBinding {
    type V = BindingModel;

    open spec fn view(&self) -> BindingModel {
        bb_view(*self)
    }
}

/// The models of a suffix index like the full sequence shifted.
pub proof fn lemma_bb_views_index(s: Seq<BehaviorBinding>, k: int, i: int)
    requires
        0 <= k <= i < s.len(),
    ensures
        bb_views(s, k).len() == s.len() - k,
        bb_views(s, k)[i - k] == bb_view(s[i]),
    decreases i - k,
{
    if k < i {
        lemma_bb_views_index(s, k + 1, i);
    } else {
        lemma_bb_views_len(s, k + 1);
    }
}

/// The number of models matches the number of trees at or after `k`.
pub proof fn lemma_bb_views_len(s: Seq<BehaviorBinding>, k: int)
    requires
        0 <= k <= s.len(),
    ensures
        bb_views(s, k).len() == s.len() - k,
    decreases s.len() - k,
{
    if k < s.len() {
        lemma_bb_views_len(s, k + 1);
    }
}

/// The number of keyed models matches the number of keyed trees at or
/// after `k`.
pub proof fn lemma_bb_select_views_len(s: Seq<(device::Kind, BehaviorBinding)>, k: int)
    requires
        0 <= k <= s.len(),
    ensures
        bb_select_views(s, k).len() == s.len() - k,
    decreases s.len() - k,
{
    if k < s.len() {
        lemma_bb_select_views_len(s, k + 1);
    }
}

/// The keyed models match the keyed trees at or after `k`, pointwise.
pub proof fn lemma_bb_select_views_index(s: Seq<(device::Kind, BehaviorBinding)>, k: int, i: int)
    requires
        0 <= k <= i < s.len(),
    ensures
        bb_select_views(s, k).len() == s.len() - k,
        bb_select_views(s, k)[i - k] == (s[i].0, bb_view(s[i].1)),
    decreases i - k,
{
    if k < i {
        lemma_bb_select_views_index(s, k + 1, i);
    } else {
        lemma_bb_select_views_len(s, k + 1);
    }
}

impl SourceBehavior {
    /// The same leaf with the behavior appended.
    pub fn with_behavior(self, behavior: Behavior) -> (r: Self)
        ensures
            r@.source == self@.source,
            r@.behaviors == self@.behaviors.push(behavior),
            r@.latest_value == self@.latest_value,
            r@.last_time == self@.last_time,
    {
        let mut s = self;
        s.add_behavior(behavior);
        s
    }

    /// Append a behavior to this leaf.
    pub fn add_behavior(&mut self, behavior: Behavior)
        ensures
            final(self)@.source == old(self)@.source,
            final(self)@.behaviors == old(self)@.behaviors.push(behavior),
            final(self)@.latest_value == old(self)@.latest_value,
            final(self)@.last_time == old(self)@.last_time,
    {
        self.behaviors.push(behavior);
    }
}

impl SourceBehavior {
    /// A fresh leaf for the source: no behaviors, resting at zero.
    pub fn new(source: Source) -> (r: Self)
        ensures
            r@ == (SourceModel {
                source,
                behaviors: Seq::<Behavior>::empty(),
                latest_value: 0,
                last_time: 0,
            }),
    {
        let r = SourceBehavior { source, behaviors: Vec::new(), latest_value: 0, last_time: 0 };
        proof {
            assert(r@.behaviors =~= Seq::<Behavior>::empty());
        }
        r
    }
}

impl BehaviorBinding {
    /// A tree of one fresh leaf for the source.
    pub fn from_source(source: Source) -> (r: Self)
        ensures
            r@ == BindingModel::Source(
                SourceModel {
                    source,
                    behaviors: Seq::<Behavior>::empty(),
                    latest_value: 0,
                    last_time: 0,
                },
            ),
    {
        BehaviorBinding::Source(SourceBehavior::new(source))
    }
}

impl BehaviorBinding {
    /// A selector over the given per-device-kind sub-bindings.
    pub fn select(options: Vec<(device::Kind, BehaviorBinding)>) -> (r: Self)
        ensures
            r@ == BindingModel::Select(bb_select_views(options@, 0)),
    {
        BehaviorBinding::Select(options)
    }

    /// Whether this node is a leaf bound to exactly the given source.
    pub open spec fn is_directly_applicable_spec(self, source: Source) -> bool {
        self matches BehaviorBinding::Source(sb) && sb.source == source
    }

    /// Whether this node is a leaf bound to exactly the given source.
    pub fn is_directly_applicable(&self, source: Source) -> (r: bool)
        ensures
            r == self.is_directly_applicable_spec(source),
    {
        if let BehaviorBinding::Source(binding) = &self {
            return binding.source == source;
        }
        false
    }

    /// The same tree with the behavior appended: onto the container's
    /// own list, or onto the leaf. Selectors carry no behaviors.
    pub fn with_behavior(self, behavior: Behavior) -> (r: Self)
        requires
            !(self is Select),
        ensures
            match self {
                BehaviorBinding::Container(children, behaviors) => r matches
                    BehaviorBinding::Container(c2, b2) && c2@ == children@ && b2@ == behaviors@.push(
                    behavior,
                ),
                BehaviorBinding::Source(sb) => r matches BehaviorBinding::Source(sb2)
                    && sb2@.source == sb@.source && sb2@.behaviors == sb@.behaviors.push(behavior)
                    && sb2@.latest_value == sb@.latest_value && sb2@.last_time == sb@.last_time,
                _ => false,
            },
    {
        match self {
            BehaviorBinding::Container(children, mut behaviors) => {
                behaviors.push(behavior);
                BehaviorBinding::Container(children, behaviors)
            },
            BehaviorBinding::Source(src_behavior) => BehaviorBinding::Source(
                src_behavior.with_behavior(behavior),
            ),
            BehaviorBinding::Select(entries) => BehaviorBinding::Select(entries),
        }
    }

    /// The same container with the sub-binding appended to its children.
    pub fn with_binding(self, binding: BehaviorBinding) -> (r: Self)
        requires
            self is Container,
        ensures
            match self {
                BehaviorBinding::Container(children, behaviors) => r matches
                    BehaviorBinding::Container(c2, b2) && c2@ == children@.push(binding) && b2@
                    == behaviors@,
                _ => false,
            },
    {
        match self {
            BehaviorBinding::Container(mut children, behaviors) => {
                children.push(binding);
                BehaviorBinding::Container(children, behaviors)
            },
            other => other,
        }
    }
}

} // verus!

// Evaluation: what one input event turns the tree into, and the scalar
// it yields. The specification mirrors the tree walk: a leaf whose
// source matches threads the raw value through its map behaviors; a
// selector forwards to the child for the event's device kind; a
// container evaluates every child in order and either reports the
// directly applicable child's value or runs its own behaviors over the
// collected vector.

verus! {

/// The raw value threaded through the map behaviors at and after `j`,
/// in list order; `prev` and `dt_ms` are the leaf's previous output and
/// the milliseconds since it last mapped.
pub open spec fn maps_chain_spec(
    behaviors: Seq<Behavior>,
    j: int,
    source: Source,
    cur: int,
    prev: int,
    dt_ms: int,
    screen_size: (int, int),
) -> int
    decreases behaviors.len() - j,
{
    if j < 0 || j >= behaviors.len() {
        cur
    } else {
        maps_chain_spec(
            behaviors,
            j + 1,
            source,
            behaviors[j].map_spec(source, cur, prev, dt_ms, screen_size),
            prev,
            dt_ms,
            screen_size,
        )
    }
}

/// The milliseconds elapsed from `last_time` to `time`, never negative.
pub open spec fn elapsed_spec(time: int, last_time: int) -> int {
    if time >= last_time {
        time - last_time
    } else {
        0
    }
}

/// What one event does to a leaf: when the event's source is the leaf's,
/// the raw value runs through the leaf's map behaviors (each seeing the
/// leaf's previous output and the time since its last sample) and the
/// result is remembered and returned; any other event leaves the leaf
/// unchanged and re-reads its remembered value.
pub open spec fn source_process_spec(
    m: SourceModel,
    source: Source,
    value: int,
    time: int,
    screen_size: (int, int),
) -> (SourceModel, int) {
    if m.source == source {
        let out = maps_chain_spec(
            m.behaviors,
            0,
            source,
            value,
            m.latest_value as int,
            elapsed_spec(time, m.last_time as int),
            screen_size,
        );
        (
            SourceModel {
                source: m.source,
                behaviors: m.behaviors,
                latest_value: out as i64,
                last_time: time as u64,
            },
            out,
        )
    } else {
        (m, m.latest_value as int)
    }
}

/// Whether this node is a leaf bound to exactly the given source.
pub open spec fn directly_applicable_model(m: BindingModel, source: Source) -> bool {
    m matches BindingModel::Source(sm) && sm.source == source
}

/// What one event does to a whole tree, and the scalar it yields.
pub open spec fn process_model(
    m: BindingModel,
    source: Source,
    value: int,
    time: int,
    screen_size: (int, int),
) -> (BindingModel, int)
    decreases m, 0int,
{
    match m {
        BindingModel::Source(sm) => {
            let (sm2, v) = source_process_spec(sm, source, value, time, screen_size);
            (BindingModel::Source(sm2), v)
        },
        BindingModel::Select(entries) => {
            let i = keyed::find_from(entries, 0, source.device_kind_spec());
            if 0 <= i < entries.len() {
                let (nb, v) = process_model(entries[i].1, source, value, time, screen_size);
                (BindingModel::Select(entries.update(i, (entries[i].0, nb))), v)
            } else {
                (m, 0)
            }
        },
        BindingModel::Container(children, behaviors) => {
            let (new_children, vals, direct) = container_children_spec(
                children,
                0,
                source,
                value,
                time,
                screen_size,
                behaviors.len() == 0,
            );
            if behaviors.len() == 0 {
                (BindingModel::Container(new_children, behaviors), direct)
            } else {
                let folded = container_behaviors_spec(behaviors, 0, vals, source, screen_size);
                (
                    BindingModel::Container(new_children, behaviors),
                    if folded.len() > 0 {
                        folded[0]
                    } else {
                        0
                    },
                )
            }
        },
    }
}

/// Evaluate the children at and after `k` in order against the same
/// event: their updated models, the scalar each yielded, and the
/// running value, which a directly applicable child replaces when the
/// container tracks one (it has no behaviors of its own).
pub open spec fn container_children_spec(
    children: Seq<BindingModel>,
    k: int,
    source: Source,
    value: int,
    time: int,
    screen_size: (int, int),
    track_direct: bool,
) -> (Seq<BindingModel>, Seq<int>, int)
    decreases children, children.len() - k + 1,
{
    if k < 0 || k >= children.len() {
        (Seq::empty(), Seq::empty(), value)
    } else {
        let (nb, v) = process_model(children[k], source, value, time, screen_size);
        let value2 = if track_direct && directly_applicable_model(children[k], source) {
            v
        } else {
            value
        };
        let (rest_b, rest_v, fin) = container_children_spec(
            children,
            k + 1,
            source,
            value2,
            time,
            screen_size,
            track_direct,
        );
        (seq![nb] + rest_b, seq![v] + rest_v, fin)
    }
}

/// Run a container's behaviors, in list order, over the vector of its
/// children's values: an elementwise behavior maps every element (each
/// element is its own previous value and no time passes at container
/// level); a fold collapses the vector to that single result.
pub open spec fn container_behaviors_spec(
    behaviors: Seq<Behavior>,
    j: int,
    vals: Seq<int>,
    source: Source,
    screen_size: (int, int),
) -> Seq<int>
    decreases behaviors.len() - j,
{
    if j < 0 || j >= behaviors.len() {
        vals
    } else {
        let b = behaviors[j];
        let vals2 = if b.kind_spec() is Fold {
            seq![b.fold_spec(vals)]
        } else {
            vals.map_values(|v: int| b.map_spec(source, v, v, 0, screen_size))
        };
        container_behaviors_spec(behaviors, j + 1, vals2, source, screen_size)
    }
}

/// Every physical source the tree references, leaves first in
/// declaration order; a source bound twice appears twice.
pub open spec fn sources_model(m: BindingModel) -> Seq<Source>
    decreases m, 0int,
{
    match m {
        BindingModel::Source(sm) => seq![sm.source],
        BindingModel::Container(children, _) => sources_children_model(children, 0),
        BindingModel::Select(entries) => sources_select_model(entries, 0),
    }
}

/// The sources of the children at and after `k`, concatenated.
pub open spec fn sources_children_model(children: Seq<BindingModel>, k: int) -> Seq<Source>
    decreases children, children.len() - k + 1,
{
    if k < 0 || k >= children.len() {
        Seq::empty()
    } else {
        sources_model(children[k]) + sources_children_model(children, k + 1)
    }
}

/// The sources of the keyed sub-bindings at and after `k`, concatenated.
pub open spec fn sources_select_model(
    entries: Seq<(device::Kind, BindingModel)>,
    k: int,
) -> Seq<Source>
    decreases entries, entries.len() - k + 1,
{
    if k < 0 || k >= entries.len() {
        Seq::empty()
    } else {
        sources_model(entries[k].1) + sources_select_model(entries, k + 1)
    }
}

} // verus!

verus! {

impl SourceBehavior {
    /// Evaluate one event against this leaf: a matching source updates
    /// the remembered value through the map behaviors; any other source
    /// re-reads the remembered value.
    pub fn process(
        &mut self,
        source: Source,
        value: Scalar,
        time: u64,
        screen_size: (u64, u64),
    ) -> (r: Scalar)
        ensures
            (final(self)@, r as int) == source_process_spec(
                old(self)@,
                source,
                value as int,
                time as int,
                (screen_size.0 as int, screen_size.1 as int),
            ),
    {
        if self.source == source {
            let prev = self.latest_value;
            let dt: u64 = if time >= self.last_time {
                time - self.last_time
            } else {
                0
            };
            let n = self.behaviors.len();
            let mut cur = value;
            let mut j: usize = 0;
            while j < n
                invariant
                    j <= n,
                    n == self.behaviors@.len(),
                    maps_chain_spec(
                        self.behaviors@,
                        0,
                        source,
                        value as int,
                        prev as int,
                        dt as int,
                        (screen_size.0 as int, screen_size.1 as int),
                    ) == maps_chain_spec(
                        self.behaviors@,
                        j as int,
                        source,
                        cur as int,
                        prev as int,
                        dt as int,
                        (screen_size.0 as int, screen_size.1 as int),
                    ),
                decreases n - j,
            {
                let b = self.behaviors[j];
                let next = b.map(source, cur, prev, dt, screen_size);
                proof {

                    assert(maps_chain_spec(
                        self.behaviors@,
                        j as int,
                        source,
                        cur as int,
                        prev as int,
                        dt as int,
                        (screen_size.0 as int, screen_size.1 as int),
                    ) == maps_chain_spec(
                        self.behaviors@,
                        j + 1,
                        source,
                        next as int,
                        prev as int,
                        dt as int,
                        (screen_size.0 as int, screen_size.1 as int),
                    ));
                }
                cur = next;
                j = j + 1;
            }
            self.latest_value = cur;
            self.last_time = time;
            cur
        } else {
            self.latest_value
        }
    }
}

} // verus!

verus! {

/// Taking the models of a sequence with one more tree appends that
/// tree's model.
pub proof fn lemma_bb_views_push(s: Seq<BehaviorBinding>, x: BehaviorBinding, k: int)
    requires
        0 <= k <= s.len(),
    ensures
        bb_views(s.push(x), k) == bb_views(s, k) + seq![bb_view(x)],
    decreases s.len() - k,
{
    if k == s.len() {
        assert(s.push(x)[k] == x);
        assert(bb_views(s.push(x), k + 1) =~= Seq::<BindingModel>::empty());
        assert(bb_views(s.push(x), k) =~= seq![bb_view(x)]);
        assert(bb_views(s, k) + seq![bb_view(x)] =~= seq![bb_view(x)]);
    } else {
        lemma_bb_views_push(s, x, k + 1);
        assert(s.push(x)[k] == s[k]);
        assert(bb_views(s.push(x), k) =~= bb_views(s, k) + seq![bb_view(x)]);
    }
}

/// Updating one keyed tree updates exactly its model.
pub proof fn lemma_bb_select_views_update(
    s: Seq<(device::Kind, BehaviorBinding)>,
    i: int,
    p: (device::Kind, BehaviorBinding),
    k: int,
)
    requires
        0 <= k <= s.len(),
        0 <= i < s.len(),
    ensures
        bb_select_views(s.update(i, p), k) == if k <= i {
            bb_select_views(s, k).update(i - k, (p.0, bb_view(p.1)))
        } else {
            bb_select_views(s, k)
        },
    decreases s.len() - k,
{
    lemma_bb_select_views_len(s, k);
    if k < s.len() {
        lemma_bb_select_views_update(s, i, p, k + 1);
        lemma_bb_select_views_len(s.update(i, p), k);
        lemma_bb_select_views_len(s, k + 1);
        if k <= i {
            assert(bb_select_views(s.update(i, p), k) =~= bb_select_views(s, k).update(
                i - k,
                (p.0, bb_view(p.1)),
            ));
        } else {
            assert(bb_select_views(s.update(i, p), k) =~= bb_select_views(s, k));
        }
    }
}

/// Evaluating a tree never changes which node it is, nor the source a
/// leaf is bound to.
pub proof fn lemma_process_preserves_applicable(
    m: BindingModel,
    source: Source,
    event_source: Source,
    value: int,
    time: int,
    screen_size: (int, int),
)
    ensures
        directly_applicable_model(
            process_model(m, event_source, value, time, screen_size).0,
            source,
        ) == directly_applicable_model(m, source),
{
}

impl BehaviorBinding {
    /// The index of the sub-binding registered for the device kind, or
    /// the number of entries when none is.
    fn select_find(entries: &Vec<(device::Kind, BehaviorBinding)>, kind: device::Kind) -> (r: usize)
        ensures
            ({
                let f = keyed::find_from(bb_select_views(entries@, 0), 0, kind);
                if f >= 0 {
                    r as int == f
                } else {
                    r as int == entries@.len()
                }
            }),
    {
        let n = entries.len();
        let mut i: usize = 0;
        while i < n
            invariant
                i <= n,
                n == entries@.len(),
                keyed::find_from(bb_select_views(entries@, 0), 0, kind) == keyed::find_from(
                    bb_select_views(entries@, 0),
                    i as int,
                    kind,
                ),
            decreases n - i,
        {
            proof {
                lemma_bb_select_views_index(entries@, 0, i as int);
            }
            if entries[i].0 == kind {
                return i;
            }
            i = i + 1;
        }
        proof {
            lemma_bb_select_views_len(entries@, 0);
        }
        n
    }

    /// Evaluate one input event against the tree: the updated tree and
    /// the scalar the event yields, exactly as [`process_model`] says.
    pub fn process(
        self,
        source: Source,
        value: Scalar,
        time: u64,
        screen_size: (u64, u64),
    ) -> (r: (Self, Scalar))
        ensures
            (r.0@, r.1 as int) == process_model(
                self@,
                source,
                value as int,
                time as int,
                (screen_size.0 as int, screen_size.1 as int),
            ),
        decreases self,
    {
        match self {
            BehaviorBinding::Source(mut sb) => {
                let v = sb.process(source, value, time, screen_size);
                (BehaviorBinding::Source(sb), v)
            },
            BehaviorBinding::Select(mut entries) => {
                let ghost orig = entries@;
                let kind = source.device_kind();
                let i = Self::select_find(&entries, kind);
                if i < entries.len() {
                    let (k, sub) = entries.remove(i);
                    proof {
                        assert(sub == self->Select_0@[i as int].1);
                        assert(decreases_to!(self => self->Select_0@[i as int].1));
                    }
                    let (sub2, v) = sub.process(source, value, time, screen_size);
                    entries.insert(i, (k, sub2));
                    proof {
                        assert(entries@ =~= orig.update(i as int, (k, sub2)));
                        lemma_bb_select_views_update(orig, i as int, (k, sub2), 0);
                        lemma_bb_select_views_index(orig, 0, i as int);
                    }
                    (BehaviorBinding::Select(entries), v)
                } else {
                    proof {
                        lemma_bb_select_views_len(orig, 0);
                    }
                    (BehaviorBinding::Select(entries), 0)
                }
            },
            BehaviorBinding::Container(children, behaviors) => {
                let ghost si = (screen_size.0 as int, screen_size.1 as int);
                let ghost orig = children@;
                let ghost mc = bb_views(orig, 0);
                let track_direct = behaviors.len() == 0;
                let n = children.len();
                let mut rest = children;
                let mut done: Vec<BehaviorBinding> = Vec::new();
                let mut vals: Vec<Scalar> = Vec::new();
                let mut value_cur = value;
                let mut k: usize = 0;
                proof {
                    lemma_bb_views_len(orig, 0);
                    assert(rest@ =~= orig.subrange(k as int, n as int));
                    assert(bb_views(done@, 0) =~= Seq::<BindingModel>::empty());
                    assert(vals@.map_values(|v: Scalar| v as int) =~= Seq::<int>::empty());
                }
                while k < n
                    invariant
                        k <= n,
                        n == orig.len(),
                        mc == bb_views(orig, 0),
                        mc.len() == n,
                        done@.len() == k,
                        vals@.len() == k,
                        rest@ == orig.subrange(k as int, n as int),
                        self is Container,
                        self->Container_0@ == orig,
                        track_direct == (behaviors@.len() == 0),
                        container_children_spec(
                            mc,
                            0,
                            source,
                            value as int,
                            time as int,
                            (screen_size.0 as int, screen_size.1 as int),
                            track_direct,
                        ) == ({
                            let t = container_children_spec(
                                mc,
                                k as int,
                                source,
                                value_cur as int,
                                time as int,
                                (screen_size.0 as int, screen_size.1 as int),
                                track_direct,
                            );
                            (
                                bb_views(done@, 0) + t.0,
                                vals@.map_values(|v: Scalar| v as int) + t.1,
                                t.2,
                            )
                        }),
                    decreases n - k,
                {
                    let child = rest.remove(0);
                    proof {
                        assert(child == self->Container_0@[k as int]);
                        assert(decreases_to!(self => self->Container_0@[k as int]));
                        lemma_bb_views_index(orig, 0, k as int);
                    }
                    let (child2, v) = child.process(source, value_cur, time, screen_size);
                    let applicable = child2.is_directly_applicable(source);
                    proof {
                        lemma_process_preserves_applicable(
                            mc[k as int],
                            source,
                            source,
                            value_cur as int,
                            time as int,
                            (screen_size.0 as int, screen_size.1 as int),
                        );
                        assert(applicable == directly_applicable_model(mc[k as int], source));
                    }
                    let ghost done_before = done@;
                    let ghost vals_before = vals@;
                    let ghost value_before = value_cur;
                    done.push(child2);
                    vals.push(v);
                    if track_direct && applicable {
                        value_cur = v;
                    }
                    proof {
                        lemma_bb_views_push(done_before, child2, 0);
                        assert(rest@ =~= orig.subrange(k + 1, n as int));
                        assert(vals@.map_values(|x: Scalar| x as int) =~= vals_before.map_values(
                            |x: Scalar| x as int,
                        ).push(v as int));
                        let t_old = container_children_spec(
                            mc,
                            k as int,
                            source,
                            value_before as int,
                            time as int,
                            (screen_size.0 as int, screen_size.1 as int),
                            track_direct,
                        );
                        let t_new = container_children_spec(
                            mc,
                            k + 1,
                            source,
                            value_cur as int,
                            time as int,
                            (screen_size.0 as int, screen_size.1 as int),
                            track_direct,
                        );
                        assert(t_old.0 =~= seq![bb_view(child2)] + t_new.0);
                        assert(t_old.1 =~= seq![v as int] + t_new.1);
                        assert(bb_views(done_before, 0) + t_old.0 =~= bb_views(done@, 0)
                            + t_new.0);
                        assert(vals_before.map_values(|x: Scalar| x as int) + t_old.1
                            =~= vals@.map_values(|x: Scalar| x as int) + t_new.1);
                    }
                    k = k + 1;
                }
                proof {
                    let t_end = container_children_spec(
                        mc,
                        n as int,
                        source,
                        value_cur as int,
                        time as int,
                        (screen_size.0 as int, screen_size.1 as int),
                        track_direct,
                    );
                    assert(bb_views(done@, 0) + t_end.0 =~= bb_views(done@, 0));
                    assert(vals@.map_values(|v: Scalar| v as int) + t_end.1 =~= vals@.map_values(
                        |v: Scalar| v as int,
                    ));
                }
                if track_direct {
                    (BehaviorBinding::Container(done, behaviors), value_cur)
                } else {
                    let ghost vals0 = vals@.map_values(|v: Scalar| v as int);
                    let m = behaviors.len();
                    let mut j: usize = 0;
                    while j < m
                        invariant
                            j <= m,
                            m == behaviors@.len(),
                            container_behaviors_spec(
                                behaviors@,
                                0,
                                vals0,
                                source,
                                (screen_size.0 as int, screen_size.1 as int),
                            ) == container_behaviors_spec(
                                behaviors@,
                                j as int,
                                vals@.map_values(|v: Scalar| v as int),
                                source,
                                (screen_size.0 as int, screen_size.1 as int),
                            ),
                        decreases m - j,
                    {
                        let b = behaviors[j];
                        let ghost vals_in = vals@.map_values(|v: Scalar| v as int);
                        match b.kind() {
                            Kind::Fold => {
                                let folded = b.fold(&vals);
                                let mut singleton: Vec<Scalar> = Vec::new();
                                singleton.push(folded);
                                vals = singleton;
                                proof {
                                    assert(vals@.map_values(|v: Scalar| v as int)
                                        =~= seq![b.fold_spec(vals_in)]);
                                }
                            },
                            Kind::Elementwise => {
                                let len = vals.len();
                                let mut i: usize = 0;
                                while i < len
                                    invariant
                                        i <= len,
                                        len == vals@.len(),
                                        vals_in.len() == len,
                                        forall|q: int|
                                            i <= q < len ==> (#[trigger] vals@[q]) as int
                                                == vals_in[q],
                                        forall|q: int|
                                            0 <= q < i ==> (#[trigger] vals@[q]) as int
                                                == b.map_spec(
                                                source,
                                                vals_in[q],
                                                vals_in[q],
                                                0,
                                                (screen_size.0 as int, screen_size.1 as int),
                                            ),
                                    decreases len - i,
                                {
                                    let cur = vals[i];
                                    let w = b.map(source, cur, cur, 0, screen_size);
                                    let elem = vstd::std_specs::vec::vec_index_mut(&mut vals, i);
                                    *elem = w;
                                    i = i + 1;
                                }
                                proof {
                                    assert(vals@.map_values(|v: Scalar| v as int)
                                        =~= vals_in.map_values(
                                        |v: int|
                                            b.map_spec(
                                                source,
                                                v,
                                                v,
                                                0,
                                                (screen_size.0 as int, screen_size.1 as int),
                                            ),
                                    ));
                                }
                            },
                        }
                        j = j + 1;
                    }
                    let out: Scalar = if vals.len() > 0 {
                        vals[0]
                    } else {
                        0
                    };
                    (BehaviorBinding::Container(done, behaviors), out)
                }
            },
        }
    }
}

} // verus!

verus! {

/// Copy a vector of behaviors element by element.
fn copy_behaviors(v: &Vec<Behavior>) -> (r: Vec<Behavior>)
    ensures
        r@ == v@,
{
    let n = v.len();
    let mut out: Vec<Behavior> = Vec::new();
    let mut i: usize = 0;
    while i < n
        invariant
            i <= n,
            n == v@.len(),
            out@ == v@.subrange(0, i as int),
        decreases n - i,
    {
        out.push(v[i]);
        proof {
            assert(out@ =~= v@.subrange(0, i + 1));
        }
        i = i + 1;
    }
    proof {
        assert(v@.subrange(0, n as int) =~= v@);
    }
    out
}

impl Clone for SourceBehavior {
    /// A leaf with the same model: same source, behaviors, and
    /// remembered values.
    fn clone(&self) -> (r: Self)
        ensures
            r@ == self@,
    {
        SourceBehavior {
            source: self.source,
            behaviors: copy_behaviors(&self.behaviors),
            latest_value: self.latest_value,
            last_time: self.last_time,
        }
    }
}

impl Clone for BehaviorBinding {
    /// A tree with the same model.
    fn clone(&self) -> (r: Self)
        ensures
            r@ == self@,
        decreases self,
    {
        match self {
            BehaviorBinding::Source(sb) => BehaviorBinding::Source(sb.clone()),
            BehaviorBinding::Container(children, behaviors) => {
                let n = children.len();
                let mut out: Vec<BehaviorBinding> = Vec::new();
                let mut k: usize = 0;
                proof {
                    lemma_bb_views_len(children@, 0);
                    assert(bb_views(out@, 0) =~= Seq::<BindingModel>::empty());
                    assert(bb_views(children@, 0).subrange(0, 0) =~= Seq::<BindingModel>::empty());
                }
                while k < n
                    invariant
                        k <= n,
                        n == children@.len(),
                        out@.len() == k,
                        self is Container,
                        self->Container_0@ == children@,
                        bb_views(out@, 0) == bb_views(children@, 0).subrange(0, k as int),
                        bb_views(children@, 0).len() == n,
                    decreases n - k,
                {
                    proof {
                        assert(decreases_to!(self => self->Container_0@[k as int]));
                        lemma_bb_views_index(children@, 0, k as int);
                    }
                    let ghost out_before = out@;
                    let c = children[k].clone();
                    out.push(c);
                    proof {
                        lemma_bb_views_push(out_before, c, 0);
                        assert(bb_views(out@, 0) =~= bb_views(children@, 0).subrange(0, k + 1));
                    }
                    k = k + 1;
                }
                proof {
                    assert(bb_views(children@, 0).subrange(0, n as int) =~= bb_views(
                        children@,
                        0,
                    ));
                }
                BehaviorBinding::Container(out, copy_behaviors(behaviors))
            },
            BehaviorBinding::Select(entries) => {
                let n = entries.len();
                let mut out: Vec<(device::Kind, BehaviorBinding)> = Vec::new();
                let mut k: usize = 0;
                proof {
                    lemma_bb_select_views_len(entries@, 0);
                    assert(bb_select_views(out@, 0) =~= Seq::<(device::Kind, BindingModel)>::empty());
                    assert(bb_select_views(entries@, 0).subrange(0, 0) =~= Seq::<
                        (device::Kind, BindingModel),
                    >::empty());
                }
                while k < n
                    invariant
                        k <= n,
                        n == entries@.len(),
                        out@.len() == k,
                        self is Select,
                        self->Select_0@ == entries@,
                        bb_select_views(out@, 0) == bb_select_views(entries@, 0).subrange(
                            0,
                            k as int,
                        ),
                        bb_select_views(entries@, 0).len() == n,
                    decreases n - k,
                {
                    proof {
                        assert(decreases_to!(self => self->Select_0@[k as int].1));
                        lemma_bb_select_views_index(entries@, 0, k as int);
                    }
                    let ghost out_before = out@;
                    let key = entries[k].0;
                    let c = entries[k].1.clone();
                    out.push((key, c));
                    proof {
                        lemma_bb_select_views_push(out_before, (key, c), 0);
                        assert(bb_select_views(out@, 0) =~= bb_select_views(entries@, 0).subrange(
                            0,
                            k + 1,
                        ));
                    }
                    k = k + 1;
                }
                proof {
                    assert(bb_select_views(entries@, 0).subrange(0, n as int) =~= bb_select_views(
                        entries@,
                        0,
                    ));
                }
                BehaviorBinding::Select(out)
            },
        }
    }
}

/// Taking the keyed models of a sequence with one more entry appends
/// that entry's keyed model.
pub proof fn lemma_bb_select_views_push(
    s: Seq<(device::Kind, BehaviorBinding)>,
    x: (device::Kind, BehaviorBinding),
    k: int,
)
    requires
        0 <= k <= s.len(),
    ensures
        bb_select_views(s.push(x), k) == bb_select_views(s, k) + seq![(x.0, bb_view(x.1))],
    decreases s.len() - k,
{
    if k == s.len() {
        assert(s.push(x)[k] == x);
        assert(bb_select_views(s.push(x), k + 1) =~= Seq::<(device::Kind, BindingModel)>::empty());
        assert(bb_select_views(s.push(x), k) =~= seq![(x.0, bb_view(x.1))]);
        assert(bb_select_views(s, k) + seq![(x.0, bb_view(x.1))] =~= seq![(x.0, bb_view(x.1))]);
    } else {
        lemma_bb_select_views_push(s, x, k + 1);
        assert(s.push(x)[k] == s[k]);
        assert(bb_select_views(s.push(x), k) =~= bb_select_views(s, k) + seq![
            (x.0, bb_view(x.1)),
        ]);
    }
}

impl BehaviorBinding {
    /// Every physical source this tree references, in declaration order.
    pub fn sources(&self) -> (r: Vec<Source>)
        ensures
            r@ == sources_model(self@),
        decreases self,
    {
        match self {
            BehaviorBinding::Source(sb) => {
                let mut out: Vec<Source> = Vec::new();
                out.push(sb.source);
                proof {
                    assert(out@ =~= seq![sb.source]);
                }
                out
            },
            BehaviorBinding::Container(children, _) => {
                let n = children.len();
                let mut out: Vec<Source> = Vec::new();
                let mut k: usize = 0;
                proof {
                    lemma_bb_views_len(children@, 0);
                    assert(out@ =~= Seq::<Source>::empty());
                }
                while k < n
                    invariant
                        k <= n,
                        n == children@.len(),
                        self is Container,
                        self->Container_0@ == children@,
                        sources_children_model(bb_views(children@, 0), 0) == out@
                            + sources_children_model(bb_views(children@, 0), k as int),
                        bb_views(children@, 0).len() == n,
                    decreases n - k,
                {
                    proof {
                        assert(decreases_to!(self => self->Container_0@[k as int]));
                        lemma_bb_views_index(children@, 0, k as int);
                    }
                    let mut cs = children[k].sources();
                    out.append(&mut cs);
                    proof {
                        assert(sources_children_model(bb_views(children@, 0), 0) =~= out@
                            + sources_children_model(bb_views(children@, 0), k + 1));
                    }
                    k = k + 1;
                }
                proof {
                    assert(out@ + sources_children_model(bb_views(children@, 0), n as int)
                        =~= out@);
                }
                out
            },
            BehaviorBinding::Select(entries) => {
                let n = entries.len();
                let mut out: Vec<Source> = Vec::new();
                let mut k: usize = 0;
                proof {
                    lemma_bb_select_views_len(entries@, 0);
                    assert(out@ =~= Seq::<Source>::empty());
                }
                while k < n
                    invariant
                        k <= n,
                        n == entries@.len(),
                        self is Select,
                        self->Select_0@ == entries@,
                        sources_select_model(bb_select_views(entries@, 0), 0) == out@
                            + sources_select_model(bb_select_views(entries@, 0), k as int),
                        bb_select_views(entries@, 0).len() == n,
                    decreases n - k,
                {
                    proof {
                        assert(decreases_to!(self => self->Select_0@[k as int].1));
                        lemma_bb_select_views_index(entries@, 0, k as int);
                    }
                    let mut cs = entries[k].1.sources();
                    out.append(&mut cs);
                    proof {
                        assert(sources_select_model(bb_select_views(entries@, 0), 0) =~= out@
                            + sources_select_model(bb_select_views(entries@, 0), k + 1));
                    }
                    k = k + 1;
                }
                proof {
                    assert(out@ + sources_select_model(bb_select_views(entries@, 0), n as int)
                        =~= out@);
                }
                out
            },
        }
    }
}

} // verus!
