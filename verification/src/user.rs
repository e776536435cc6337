//! A logical user: the devices assigned to it feed its input queue, and
//! its enabled action sets determine which actions its events drive.
//! Enabling, disabling, and layout changes rebuild the cached mapping
//! from physical sources to per-action state.

use crate::action;
use crate::action::State;
use crate::action::StateModel;
use crate::action::process_event_spec;
use crate::action::sources_model;
use crate::action::update_spec;
use crate::binding;
use crate::binding::ActionMap;
use crate::binding::ActionSet;
use crate::binding::ActionSetId;
use crate::binding::ActionSetModel;
use crate::binding::LayoutId;
use crate::event;
use crate::event::InputReceiver;
use crate::event::InputSender;
use crate::keyed;
use crate::math::Scalar;
use crate::system::Config;
use crate::system::ConfigModel;
use crate::system::Consts;
use vstd::prelude::*;

verus! {

/// How many queued events one [`User::update`] call drains at most; the
/// rest stay queued for the next frame. This bounds the work one frame
/// can be asked to do.
pub const MAX_EVENTS_PER_UPDATE: usize = 4096;

/// Identifies one binding within a user's cache: the action set and
/// layout it came from, and the physical sources its tree references.
#[derive(Debug)]
pub struct BindingStateKey {
    pub set_id: ActionSetId,
    pub layout: LayoutId,
    pub sources: Vec<binding::Source>,
}

/// The mathematical model of a [`BindingStateKey`].
#[verifier::ext_equal]
pub struct KeyModel {
    pub set_id: ActionSetId,
    pub layout: LayoutId,
    pub sources: Seq<binding::Source>,
}

impl View for BindingStateKey {
    type V = KeyModel;

    open spec fn view(&self) -> KeyModel {
        KeyModel { set_id: self.set_id, layout: self.layout, sources: self.sources@ }
    }
}

/// Whether two binding keys name the same binding: same set and layout
/// by text, and the same sources.
pub open spec fn key_model_eq(a: KeyModel, b: KeyModel) -> bool {
    keyed::oname_view(a.set_id) == keyed::oname_view(b.set_id) && keyed::oname_view(a.layout)
        == keyed::oname_view(b.layout) && a.sources == b.sources
}

impl BindingStateKey {
    /// Whether this key's binding listens to the given source.
    pub fn contains(&self, source: binding::Source) -> (r: bool)
        ensures
            r == self@.sources.contains(source),
    {
        let n = self.sources.len();
        let mut i: usize = 0;
        while i < n
            invariant
                i <= n,
                n == self.sources@.len(),
                forall|j: int| 0 <= j < i ==> #[trigger] self.sources@[j] != source,
            decreases n - i,
        {
            if self.sources[i] == source {
                return true;
            }
            i = i + 1;
        }
        false
    }
}

/// Whether two source lists are equal.
fn sources_eq(a: &Vec<binding::Source>, b: &Vec<binding::Source>) -> (r: bool)
    ensures
        r == (a@ == b@),
{
    if a.len() != b.len() {
        proof {
            assert(a@.len() != b@.len());
        }
        return false;
    }
    let n = a.len();
    let mut i: usize = 0;
    while i < n
        invariant
            i <= n,
            n == a@.len(),
            n == b@.len(),
            forall|j: int| 0 <= j < i ==> #[trigger] a@[j] == b@[j],
        decreases n - i,
    {
        if !(a[i] == b[i]) {
            return false;
        }
        i = i + 1;
    }
    proof {
        assert(a@ =~= b@);
    }
    true
}

/// Whether the two keys name the same binding.
fn key_matches(a: &BindingStateKey, b: &BindingStateKey) -> (r: bool)
    ensures
        r == key_model_eq(a@, b@),
{
    keyed::oname_eq(&a.set_id, &b.set_id) && keyed::oname_eq(&a.layout, &b.layout) && sources_eq(
        &a.sources,
        &b.sources,
    )
}

/// Index of the first bound entry at or after `i` whose key names the
/// same binding; -1 when none.
pub open spec fn key_find_from(s: Seq<(KeyModel, action::Id)>, i: int, key: KeyModel) -> int
    decreases s.len() - i,
{
    if i < 0 || i >= s.len() {
        -1
    } else if key_model_eq(s[i].0, key) {
        i
    } else {
        key_find_from(s, i + 1, key)
    }
}

/// `s` with `(key, aid)`: replacing the first entry naming the same
/// binding, else appended.
pub open spec fn key_upsert(s: Seq<(KeyModel, action::Id)>, key: KeyModel, aid: action::Id) -> Seq<
    (KeyModel, action::Id),
> {
    let i = key_find_from(s, 0, key);
    if i >= 0 {
        s.update(i, (key, aid))
    } else {
        s.push((key, aid))
    }
}

/// Whether an id with this text is in the list.
pub open spec fn id_in(s: Seq<action::Id>, k: Seq<char>) -> bool {
    exists|i: int| 0 <= i < s.len() && s[i]@ == k
}

/// A fresh action state owning the given binding tree.
pub open spec fn fresh_state(behaviors: action::BindingModel) -> StateModel {
    StateModel {
        behaviors,
        prev_frame_active: false,
        active: false,
        changed_this_frame: false,
        value: 0,
        modified_at: 0,
        last_update_time: 0,
    }
}

/// The mathematical model of a [`User`].
#[verifier::ext_equal]
pub struct UserModel {
    pub config: ConfigModel,
    pub consts: Consts,
    pub name: Seq<char>,
    pub active_layout: LayoutId,
    pub enabled_action_sets: Seq<(ActionSetId, ActionSetModel)>,
    pub bound_actions: Seq<(KeyModel, action::Id)>,
    pub action_states: Seq<(action::Id, StateModel)>,
    pub ticking_states: Seq<action::Id>,
}

/// A logical user: its configuration handle, screen constants, binding
/// caches, per-action state, and the queue its devices' events arrive
/// on.
#[derive(Debug)]
pub struct User {
    /// This user's copy of the published configuration.
    pub config: Config,
    /// The screen constants used by screen-relative behaviors.
    pub consts: Consts,
    /// The user's display name.
    pub name: String,
    /// The layout bindings are resolved against.
    pub active_layout: LayoutId,
    /// The action sets currently enabled for this user.
    pub enabled_action_sets: Vec<(ActionSetId, ActionSet)>,
    /// The cached mapping from binding keys to the actions they drive.
    pub bound_actions: Vec<(BindingStateKey, action::Id)>,
    /// The live state of each bound action.
    pub action_states: Vec<(action::Id, State)>,
    /// The actions whose state is ticked every frame.
    pub ticking_states: Vec<action::Id>,
    /// The receiving half of this user's input queue.
    pub input_receiver: InputReceiver,
    /// The sending half of this user's input queue.
    pub input_sender: InputSender,
}

impl View for User {
    type V = UserModel;

    open spec fn view(&self) -> UserModel {
        UserModel {
            config: self.config@,
            consts: self.consts,
            name: self.name@,
            active_layout: self.active_layout,
            enabled_action_sets: self.enabled_action_sets@.map_values(
                |p: (ActionSetId, ActionSet)| (p.0, p.1@),
            ),
            bound_actions: self.bound_actions@.map_values(
                |p: (BindingStateKey, action::Id)| (p.0@, p.1),
            ),
            action_states: self.action_states@.map_values(
                |p: (action::Id, State)| (p.0, p.1@),
            ),
            ticking_states: self.ticking_states@,
        }
    }
}

/// Adding the bindings of one action map, from entry `k` on: each entry
/// records its binding key, creates a fresh action state owning a copy
/// of the binding tree, and marks the action as ticking.
pub open spec fn add_entries_spec(
    u: UserModel,
    set_id: ActionSetId,
    entries: Seq<(action::Id, action::BindingModel)>,
    k: int,
) -> UserModel
    decreases entries.len() - k,
{
    if k < 0 || k >= entries.len() {
        u
    } else {
        let (aid, bm) = entries[k];
        let key = KeyModel { set_id, layout: u.active_layout, sources: sources_model(bm) };
        let u2 = UserModel {
            bound_actions: key_upsert(u.bound_actions, key, aid),
            action_states: keyed::str_upsert(u.action_states, aid, fresh_state(bm)),
            ticking_states: if id_in(u.ticking_states, aid@) {
                u.ticking_states
            } else {
                u.ticking_states.push(aid)
            },
            ..u
        };
        add_entries_spec(u2, set_id, entries, k + 1)
    }
}

/// Adding the action states of one enabled set: every binding its map
/// provides for the active layout is installed; a set that is not
/// enabled, or has no map for the active layout, adds nothing.
pub open spec fn add_states_spec(u: UserModel, set_id: ActionSetId) -> UserModel {
    match keyed::oname_lookup(u.enabled_action_sets, keyed::oname_view(set_id)) {
        None => u,
        Some(set_model) => match keyed::oname_lookup(
            set_model,
            keyed::oname_view(u.active_layout),
        ) {
            None => u,
            Some(entries) => add_entries_spec(u, set_id, entries, 0),
        },
    }
}

/// The ids of the actions bound through the given set, from entry `i`
/// on.
pub open spec fn bound_ids_of_set(
    s: Seq<(KeyModel, action::Id)>,
    i: int,
    set_id: Option<Seq<char>>,
) -> Seq<action::Id>
    decreases s.len() - i,
{
    if i < 0 || i >= s.len() {
        Seq::empty()
    } else if keyed::oname_view(s[i].0.set_id) == set_id {
        seq![s[i].1] + bound_ids_of_set(s, i + 1, set_id)
    } else {
        bound_ids_of_set(s, i + 1, set_id)
    }
}

/// The bound entries not belonging to the given set, from entry `i` on.
pub open spec fn bound_without_set(
    s: Seq<(KeyModel, action::Id)>,
    i: int,
    set_id: Option<Seq<char>>,
) -> Seq<(KeyModel, action::Id)>
    decreases s.len() - i,
{
    if i < 0 || i >= s.len() {
        Seq::empty()
    } else if keyed::oname_view(s[i].0.set_id) == set_id {
        bound_without_set(s, i + 1, set_id)
    } else {
        seq![s[i]] + bound_without_set(s, i + 1, set_id)
    }
}

/// The action states whose id is not in the removed list, from `i` on.
pub open spec fn states_without(
    s: Seq<(action::Id, StateModel)>,
    i: int,
    removed: Seq<action::Id>,
) -> Seq<(action::Id, StateModel)>
    decreases s.len() - i,
{
    if i < 0 || i >= s.len() {
        Seq::empty()
    } else if id_in(removed, s[i].0@) {
        states_without(s, i + 1, removed)
    } else {
        seq![s[i]] + states_without(s, i + 1, removed)
    }
}

/// The ticking ids not in the removed list, from `i` on.
pub open spec fn ticking_without(
    s: Seq<action::Id>,
    i: int,
    removed: Seq<action::Id>,
) -> Seq<action::Id>
    decreases s.len() - i,
{
    if i < 0 || i >= s.len() {
        Seq::empty()
    } else if id_in(removed, s[i]@) {
        ticking_without(s, i + 1, removed)
    } else {
        seq![s[i]] + ticking_without(s, i + 1, removed)
    }
}

/// Removing the action states of one set: exactly the bound entries
/// recorded under that set id leave the cache, and every action id they
/// bound loses its state and its ticking mark.
pub open spec fn remove_states_spec(u: UserModel, set_id: Option<Seq<char>>) -> UserModel {
    let removed = bound_ids_of_set(u.bound_actions, 0, set_id);
    UserModel {
        bound_actions: bound_without_set(u.bound_actions, 0, set_id),
        action_states: states_without(u.action_states, 0, removed),
        ticking_states: ticking_without(u.ticking_states, 0, removed),
        ..u
    }
}

/// What enabling an action set does: a set the configuration knows is
/// recorded as enabled and its bindings for the active layout are
/// installed; an unknown id changes nothing.
pub open spec fn enable_set_spec(u: UserModel, id: ActionSetId) -> UserModel {
    match keyed::oname_lookup(u.config.action_sets, keyed::oname_view(id)) {
        None => u,
        Some(set_model) => {
            let u2 = UserModel {
                enabled_action_sets: keyed::oname_upsert(u.enabled_action_sets, id, set_model),
                ..u
            };
            add_states_spec(u2, id)
        },
    }
}

/// What disabling an action set does: the set leaves the enabled list
/// and exactly its bindings and states leave the caches.
pub open spec fn disable_set_spec(u: UserModel, id: ActionSetId) -> UserModel {
    let u2 = UserModel {
        enabled_action_sets: keyed::oname_remove_key(
            u.enabled_action_sets,
            keyed::oname_view(id),
        ),
        ..u
    };
    remove_states_spec(u2, keyed::oname_view(id))
}

/// Rebuilding the binding caches for the enabled sets at or after `k`,
/// in order.
pub open spec fn rebuild_sets_spec(
    u: UserModel,
    sets: Seq<(ActionSetId, ActionSetModel)>,
    k: int,
) -> UserModel
    decreases sets.len() - k,
{
    if k < 0 || k >= sets.len() {
        u
    } else {
        rebuild_sets_spec(add_states_spec(u, sets[k].0), sets, k + 1)
    }
}

/// What setting the layout does: the binding caches are cleared and
/// rebuilt from every enabled set against the new layout.
pub open spec fn set_layout_spec(u: UserModel, layout: LayoutId) -> UserModel {
    let u2 = UserModel {
        active_layout: layout,
        bound_actions: Seq::empty(),
        action_states: Seq::empty(),
        ticking_states: Seq::empty(),
        ..u
    };
    rebuild_sets_spec(u2, u2.enabled_action_sets, 0)
}

/// The action states with the state for the id (by text) replaced.
pub open spec fn state_update(
    s: Seq<(action::Id, StateModel)>,
    k: Seq<char>,
    v: StateModel,
) -> Seq<(action::Id, StateModel)> {
    let i = keyed::str_find_from(s, 0, k);
    if i >= 0 {
        s.update(i, (s[i].0, v))
    } else {
        s
    }
}

/// Delivering one event to the bound actions at or after `k`: every
/// binding whose sources include the event's source runs the event
/// through its action's state machine, in cache order.
pub open spec fn deliver_event_spec(
    u: UserModel,
    bound: Seq<(KeyModel, action::Id)>,
    k: int,
    source: binding::Source,
    state: event::State,
    time: int,
) -> UserModel
    decreases bound.len() - k,
{
    if k < 0 || k >= bound.len() {
        u
    } else {
        let (key, aid) = bound[k];
        let u2 = if key.sources.contains(source) {
            match keyed::str_lookup(u.action_states, aid@) {
                Some(sm) => UserModel {
                    action_states: state_update(
                        u.action_states,
                        aid@,
                        process_event_spec(
                            sm,
                            source,
                            state,
                            time,
                            (u.consts.screen_width as int, u.consts.screen_height as int),
                        ),
                    ),
                    ..u
                },
                None => u,
            }
        } else {
            u
        };
        deliver_event_spec(u2, bound, k + 1, source, state, time)
    }
}

/// What processing one event does: it is delivered to every bound
/// action listening to its source.
pub open spec fn process_event_user_spec(
    u: UserModel,
    source: binding::Source,
    state: event::State,
    time: int,
) -> UserModel {
    deliver_event_spec(u, u.bound_actions, 0, source, state, time)
}

/// Ticking the actions named by the ids at or after `k`, in order.
pub open spec fn tick_states_spec(
    u: UserModel,
    ticking: Seq<action::Id>,
    k: int,
    time: int,
) -> UserModel
    decreases ticking.len() - k,
{
    if k < 0 || k >= ticking.len() {
        u
    } else {
        let u2 = match keyed::str_lookup(u.action_states, ticking[k]@) {
            Some(sm) => UserModel {
                action_states: state_update(u.action_states, ticking[k]@, update_spec(sm, time)),
                ..u
            },
            None => u,
        };
        tick_states_spec(u2, ticking, k + 1, time)
    }
}

} // verus!

verus! {

/// Whether the two state lists hold the same action ids, in order.
pub open spec fn same_state_ids(a: Seq<(action::Id, StateModel)>, b: Seq<(action::Id, StateModel)>) -> bool {
    a.len() == b.len() && forall|i: int| 0 <= i < a.len() ==> (#[trigger] a[i]).0 == b[i].0
}

/// Whether the entry at `q` is the first one carrying its id's text:
/// the one a lookup by that id reaches.
pub open spec fn first_of_its_id(s: Seq<(action::Id, StateModel)>, q: int) -> bool {
    q == keyed::str_find_from(s, 0, s[q].0@)
}

/// Two state lists with the same ids find every text at the same index.
pub proof fn lemma_find_same_ids(
    a: Seq<(action::Id, StateModel)>,
    b: Seq<(action::Id, StateModel)>,
    i: int,
    k: Seq<char>,
)
    requires
        same_state_ids(a, b),
        0 <= i <= a.len(),
    ensures
        keyed::str_find_from(a, i, k) == keyed::str_find_from(b, i, k),
    decreases a.len() - i,
{
    if i < a.len() {
        lemma_find_same_ids(a, b, i + 1, k);
    }
}

/// Delivering an event touches only the action states, and only their
/// values: every other part of the user, and every state's id, stays.
pub proof fn lemma_deliver_preserves_shape(
    u: UserModel,
    bound: Seq<(KeyModel, action::Id)>,
    k: int,
    source: binding::Source,
    state: event::State,
    time: int,
)
    ensures
        ({
            let r = deliver_event_spec(u, bound, k, source, state, time);
            r.config == u.config && r.consts == u.consts && r.name == u.name && r.active_layout
                == u.active_layout && r.enabled_action_sets == u.enabled_action_sets
                && r.bound_actions == u.bound_actions && r.ticking_states == u.ticking_states
                && same_state_ids(u.action_states, r.action_states)
        }),
    decreases bound.len() - k,
{
    if 0 <= k < bound.len() {
        let (key, aid) = bound[k];
        let u2 = if key.sources.contains(source) {
            match keyed::str_lookup(u.action_states, aid@) {
                Some(sm) => UserModel {
                    action_states: state_update(
                        u.action_states,
                        aid@,
                        process_event_spec(
                            sm,
                            source,
                            state,
                            time,
                            (u.consts.screen_width as int, u.consts.screen_height as int),
                        ),
                    ),
                    ..u
                },
                None => u,
            }
        } else {
            u
        };
        assert(same_state_ids(u.action_states, u2.action_states)) by {
            keyed::lemma_str_find_lookup(u.action_states, 0, aid@);
        }
        lemma_deliver_preserves_shape(u2, bound, k + 1, source, state, time);
    }
}

/// The index of the state for the id's text, or the number of states.
fn find_state(states: &Vec<(action::Id, State)>, id: &String) -> (r: usize)
    ensures
        ({
            let model = states@.map_values(|p: (action::Id, State)| (p.0, p.1@));
            let f = keyed::str_find_from(model, 0, id@);
            if f >= 0 {
                r as int == f
            } else {
                r as int == states@.len()
            }
        }),
{
    let ghost model = states@.map_values(|p: (action::Id, State)| (p.0, p.1@));
    let n = states.len();
    let mut i: usize = 0;
    while i < n
        invariant
            i <= n,
            n == states@.len(),
            model == states@.map_values(|p: (action::Id, State)| (p.0, p.1@)),
            keyed::str_find_from(model, 0, id@) == keyed::str_find_from(model, i as int, id@),
        decreases n - i,
    {
        if states[i].0 == *id {
            return i;
        }
        i = i + 1;
    }
    n
}

/// Record a binding key for its action id, replacing an entry naming
/// the same binding.
fn upsert_bound(
    bound: &mut Vec<(BindingStateKey, action::Id)>,
    key: BindingStateKey,
    aid: action::Id,
)
    ensures
        final(bound)@.map_values(|p: (BindingStateKey, action::Id)| (p.0@, p.1)) == key_upsert(
            old(bound)@.map_values(|p: (BindingStateKey, action::Id)| (p.0@, p.1)),
            key@,
            aid,
        ),
{
    let ghost model = bound@.map_values(|p: (BindingStateKey, action::Id)| (p.0@, p.1));
    let n = bound.len();
    let mut i: usize = 0;
    while i < n
        invariant
            i <= n,
            n == bound@.len(),
            bound@ == old(bound)@,
            model == bound@.map_values(|p: (BindingStateKey, action::Id)| (p.0@, p.1)),
            key_find_from(model, 0, key@) == key_find_from(model, i as int, key@),
        decreases n - i,
    {
        if key_matches(&bound[i].0, &key) {
            proof {
                assert(key_find_from(model, i as int, key@) == i as int);
            }
            let elem = vstd::std_specs::vec::vec_index_mut(bound, i);
            *elem = (key, aid);
            proof {
                assert(final(bound)@.map_values(|p: (BindingStateKey, action::Id)| (p.0@, p.1))
                    =~= model.update(i as int, (key@, aid)));
            }
            return ;
        }
        i = i + 1;
    }
    bound.push((key, aid));
    proof {
        assert(final(bound)@.map_values(|p: (BindingStateKey, action::Id)| (p.0@, p.1))
            =~= model.push((key@, aid)));
    }
}

/// Install a fresh state for the action id, replacing an existing one.
fn upsert_state(states: &mut Vec<(action::Id, State)>, aid: action::Id, st: State)
    ensures
        final(states)@.map_values(|p: (action::Id, State)| (p.0, p.1@)) == keyed::str_upsert(
            old(states)@.map_values(|p: (action::Id, State)| (p.0, p.1@)),
            aid,
            st@,
        ),
{
    let ghost model = states@.map_values(|p: (action::Id, State)| (p.0, p.1@));
    let n = states.len();
    let mut i: usize = 0;
    while i < n
        invariant
            i <= n,
            n == states@.len(),
            states@ == old(states)@,
            model == states@.map_values(|p: (action::Id, State)| (p.0, p.1@)),
            keyed::str_find_from(model, 0, aid@) == keyed::str_find_from(model, i as int, aid@),
        decreases n - i,
    {
        if states[i].0 == aid {
            proof {
                assert(keyed::str_find_from(model, i as int, aid@) == i as int);
            }
            let elem = vstd::std_specs::vec::vec_index_mut(states, i);
            *elem = (aid, st);
            proof {
                assert(final(states)@.map_values(|p: (action::Id, State)| (p.0, p.1@))
                    =~= model.update(i as int, (aid, st@)));
            }
            return ;
        }
        i = i + 1;
    }
    states.push((aid, st));
    proof {
        assert(final(states)@.map_values(|p: (action::Id, State)| (p.0, p.1@)) =~= model.push(
            (aid, st@),
        ));
    }
}

/// Mark the action as ticking, once.
fn mark_ticking(ticking: &mut Vec<action::Id>, aid: action::Id)
    ensures
        final(ticking)@ == if id_in(old(ticking)@, aid@) {
            old(ticking)@
        } else {
            old(ticking)@.push(aid)
        },
{
    let n = ticking.len();
    let mut i: usize = 0;
    while i < n
        invariant
            i <= n,
            n == ticking@.len(),
            ticking@ == old(ticking)@,
            forall|j: int| 0 <= j < i ==> (#[trigger] ticking@[j])@ != aid@,
        decreases n - i,
    {
        if ticking[i] == aid {
            return ;
        }
        i = i + 1;
    }
    ticking.push(aid);
}

/// Whether an id with this text is in the list.
fn ids_contain(ids: &Vec<action::Id>, aid: &String) -> (r: bool)
    ensures
        r == id_in(ids@, aid@),
{
    let n = ids.len();
    let mut i: usize = 0;
    while i < n
        invariant
            i <= n,
            n == ids@.len(),
            forall|j: int| 0 <= j < i ==> (#[trigger] ids@[j])@ != aid@,
        decreases n - i,
    {
        if ids[i] == *aid {
            return true;
        }
        i = i + 1;
    }
    false
}

} // verus!

verus! {

impl User {
    /// A fresh user with the given name: the default configuration and
    /// constants, the default layout, nothing enabled, nothing bound,
    /// and a fresh unbounded input queue.
    pub fn new(name: String) -> (r: Self)
        ensures
            r@.config.actions == Seq::<(action::Id, crate::source::Kind)>::empty(),
            r@.config.layouts == Seq::<LayoutId>::empty(),
            r@.config.action_sets == Seq::<(ActionSetId, ActionSetModel)>::empty(),
            r@.consts == (Consts { screen_width: 0, screen_height: 0, scale_factor: crate::math::SCALE as u64 }),
            r@.name == name@,
            r@.active_layout == None::<String>,
            r@.enabled_action_sets == Seq::<(ActionSetId, ActionSetModel)>::empty(),
            r@.bound_actions == Seq::<(KeyModel, action::Id)>::empty(),
            r@.action_states == Seq::<(action::Id, StateModel)>::empty(),
            r@.ticking_states == Seq::<action::Id>::empty(),
    {
        let (input_sender, input_receiver) = event::input_channel();
        let r = User {
            config: Config::default(),
            consts: Consts::default(),
            name,
            active_layout: None,
            enabled_action_sets: Vec::new(),
            bound_actions: Vec::new(),
            action_states: Vec::new(),
            ticking_states: Vec::new(),
            input_receiver,
            input_sender,
        };
        proof {
            assert(r@.enabled_action_sets =~= Seq::<(ActionSetId, ActionSetModel)>::empty());
            assert(r@.bound_actions =~= Seq::<(KeyModel, action::Id)>::empty());
            assert(r@.action_states =~= Seq::<(action::Id, StateModel)>::empty());
        }
        r
    }

    /// The same user reading the given configuration.
    pub fn with_config(self, config: Config) -> (r: Self)
        ensures
            r@ == (UserModel { config: config@, ..self@ }),
    {
        let r = User {
            config,
            consts: self.consts,
            name: self.name,
            active_layout: self.active_layout,
            enabled_action_sets: self.enabled_action_sets,
            bound_actions: self.bound_actions,
            action_states: self.action_states,
            ticking_states: self.ticking_states,
            input_receiver: self.input_receiver,
            input_sender: self.input_sender,
        };
        proof {
            assert(r@ =~= (UserModel { config: config@, ..self@ }));
        }
        r
    }

    /// The same user normalizing against the given screen constants.
    pub fn with_consts(self, consts: Consts) -> (r: Self)
        ensures
            r@ == (UserModel { consts, ..self@ }),
    {
        let r = User {
            config: self.config,
            consts,
            name: self.name,
            active_layout: self.active_layout,
            enabled_action_sets: self.enabled_action_sets,
            bound_actions: self.bound_actions,
            action_states: self.action_states,
            ticking_states: self.ticking_states,
            input_receiver: self.input_receiver,
            input_sender: self.input_sender,
        };
        proof {
            assert(r@ =~= (UserModel { consts, ..self@ }));
        }
        r
    }

    /// Replace the screen constants, after a window event changed them.
    pub fn set_consts(&mut self, consts: Consts)
        ensures
            final(self)@ == (UserModel { consts, ..old(self)@ }),
    {
        self.consts = consts;
        proof {
            assert(final(self)@ =~= (UserModel { consts, ..old(self)@ }));
        }
    }

    /// The user's display name.
    pub fn name(&self) -> (r: &String)
        ensures
            r@ == self@.name,
    {
        &self.name
    }

    /// The sending half of this user's input queue: the registry holds
    /// a copy per assigned device.
    pub fn input_sender(&self) -> (r: &InputSender)
        ensures
            *r == self.input_sender,
    {
        &self.input_sender
    }

    /// Install the bindings one enabled set provides for the active
    /// layout, exactly as [`add_states_spec`] says.
    fn add_action_states(&mut self, set_id: &ActionSetId)
        ensures
            final(self)@ == add_states_spec(old(self)@, *set_id),
    {
        let ghost u0 = self@;
        // find the enabled set
        let n = self.enabled_action_sets.len();
        let mut i: usize = 0;
        while i < n
            invariant
                i <= n,
                n == self.enabled_action_sets@.len(),
                self@ == u0,
                u0 == old(self)@,
                keyed::oname_lookup(u0.enabled_action_sets, keyed::oname_view(*set_id))
                    == keyed::oname_lookup_from(
                    u0.enabled_action_sets,
                    i as int,
                    keyed::oname_view(*set_id),
                ),
            decreases n - i,
        {
            if keyed::oname_eq(&self.enabled_action_sets[i].0, set_id) {
                proof {
                    assert(keyed::oname_lookup(
                        u0.enabled_action_sets,
                        keyed::oname_view(*set_id),
                    ) == Some(u0.enabled_action_sets[i as int].1));
                }
                let map_opt: Option<ActionMap> = match self.enabled_action_sets[i].1.get(
                    &self.active_layout,
                ) {
                    Some(m) => Some(m.clone()),
                    None => None,
                };
                match map_opt {
                    None => {
                        proof {
                            assert(add_states_spec(u0, *set_id) == u0);
                        }
                        return ;
                    },
                    Some(map) => {
                        let ghost entries = map@;
                        proof {
                            assert(add_states_spec(u0, *set_id) == add_entries_spec(
                                u0,
                                *set_id,
                                entries,
                                0,
                            ));
                        }
                        let en = map.entries.len();
                        let mut k: usize = 0;
                        while k < en
                            invariant
                                k <= en,
                                en == map.entries@.len(),
                                entries == map@,
                                entries.len() == en,
                                self@.active_layout == u0.active_layout,
                                u0 == old(self)@,
                                add_states_spec(u0, *set_id) == add_entries_spec(
                                    u0,
                                    *set_id,
                                    entries,
                                    0,
                                ),
                                add_entries_spec(u0, *set_id, entries, 0) == add_entries_spec(
                                    self@,
                                    *set_id,
                                    entries,
                                    k as int,
                                ),
                            decreases en - k,
                        {
                            let ghost before = self@;
                            let aid = map.entries[k].0.clone();
                            let bnd = map.entries[k].1.clone();
                            let srcs = bnd.sources();
                            let key = BindingStateKey {
                                set_id: keyed::oname_clone(set_id),
                                layout: keyed::oname_clone(&self.active_layout),
                                sources: srcs,
                            };
                            let st = State::new(bnd);
                            upsert_bound(&mut self.bound_actions, key, aid.clone());
                            mark_ticking(&mut self.ticking_states, aid.clone());
                            upsert_state(&mut self.action_states, aid, st);
                            proof {
                                let (said, sbm) = entries[k as int];
                                let skey = KeyModel {
                                    set_id: *set_id,
                                    layout: before.active_layout,
                                    sources: sources_model(sbm),
                                };
                                assert(self@ =~= (UserModel {
                                    bound_actions: key_upsert(before.bound_actions, skey, said),
                                    action_states: keyed::str_upsert(
                                        before.action_states,
                                        said,
                                        fresh_state(sbm),
                                    ),
                                    ticking_states: if id_in(before.ticking_states, said@) {
                                        before.ticking_states
                                    } else {
                                        before.ticking_states.push(said)
                                    },
                                    ..before
                                }));
                            }
                            k = k + 1;
                        }
                        return ;
                    },
                }
            }
            i = i + 1;
        }
    }

    /// Sets the layout of a user. If not called, every user starts with
    /// the default layout. The binding caches are cleared and rebuilt
    /// from every enabled action set against the new layout.
    pub fn set_layout(&mut self, layout: LayoutId)
        ensures
            final(self)@ == set_layout_spec(old(self)@, layout),
    {
        self.active_layout = layout;
        self.bound_actions.clear();
        self.action_states.clear();
        self.ticking_states.clear();
        let ghost u2 = self@;
        proof {
            assert(u2.bound_actions =~= Seq::<(KeyModel, action::Id)>::empty());
            assert(u2.action_states =~= Seq::<(action::Id, StateModel)>::empty());
        }
        let n = self.enabled_action_sets.len();
        let mut ids: Vec<ActionSetId> = Vec::new();
        let mut i: usize = 0;
        while i < n
            invariant
                i <= n,
                n == self.enabled_action_sets@.len(),
                self@ == u2,
                ids@.len() == i,
                forall|j: int|
                    0 <= j < i ==> #[trigger] ids@[j] == u2.enabled_action_sets[j].0,
            decreases n - i,
        {
            ids.push(keyed::oname_clone(&self.enabled_action_sets[i].0));
            i = i + 1;
        }
        let mut k: usize = 0;
        while k < n
            invariant
                k <= n,
                n == u2.enabled_action_sets.len(),
                ids@.len() == n,
                forall|j: int|
                    0 <= j < n ==> #[trigger] ids@[j] == u2.enabled_action_sets[j].0,
                rebuild_sets_spec(u2, u2.enabled_action_sets, 0) == rebuild_sets_spec(
                    self@,
                    u2.enabled_action_sets,
                    k as int,
                ),
            decreases n - k,
        {
            let id = keyed::oname_clone(&ids[k]);
            self.add_action_states(&id);
            k = k + 1;
        }
    }

    /// Enable an action set the configuration provides: the user then
    /// receives input events for the actions in the set until the set
    /// is disabled. An id the configuration does not know is a no-op.
    pub fn enable_action_set(&mut self, id: ActionSetId)
        ensures
            final(self)@ == enable_set_spec(old(self)@, id),
    {
        let set_opt: Option<ActionSet> = match self.config.get_action_set(&id) {
            Some(s) => Some(s.clone()),
            None => None,
        };
        match set_opt {
            None => {},
            Some(set) => {
                let ghost u0 = self@;
                let ghost raw0 = self.enabled_action_sets@;
                let ghost set_model = set@;
                // record the set as enabled, replacing an earlier copy
                let n = self.enabled_action_sets.len();
                let mut i: usize = 0;
                while i < n
                    invariant
                        i <= n,
                        n == self.enabled_action_sets@.len(),
                        self@ == u0,
                        u0 == old(self)@,
                        self.enabled_action_sets@ == raw0,
                        set_model == set@,
                        keyed::oname_lookup(
                            u0.config.action_sets,
                            keyed::oname_view(id),
                        ) == Some(set_model),
                        keyed::oname_find_from(u0.enabled_action_sets, 0, keyed::oname_view(id))
                            == keyed::oname_find_from(
                            u0.enabled_action_sets,
                            i as int,
                            keyed::oname_view(id),
                        ),
                    decreases n - i,
                {
                    if keyed::oname_eq(&self.enabled_action_sets[i].0, &id) {
                        proof {
                            assert(keyed::oname_find_from(
                                u0.enabled_action_sets,
                                i as int,
                                keyed::oname_view(id),
                            ) == i as int);
                        }
                        let new_id = keyed::oname_clone(&id);
                        let elem = vstd::std_specs::vec::vec_index_mut(
                            &mut self.enabled_action_sets,
                            i,
                        );
                        *elem = (new_id, set);
                        proof {
                            assert(self.enabled_action_sets@ == raw0.update(
                                i as int,
                                self.enabled_action_sets@[i as int],
                            ));
                            assert(self@.enabled_action_sets =~= keyed::oname_upsert(
                                u0.enabled_action_sets,
                                id,
                                set_model,
                            ));
                            assert(self@ =~= (UserModel {
                                enabled_action_sets: keyed::oname_upsert(
                                    u0.enabled_action_sets,
                                    id,
                                    set_model,
                                ),
                                ..u0
                            }));
                        }
                        self.add_action_states(&id);
                        return ;
                    }
                    i = i + 1;
                }
                self.enabled_action_sets.push((keyed::oname_clone(&id), set));
                proof {
                    assert(self@.enabled_action_sets =~= keyed::oname_upsert(
                        u0.enabled_action_sets,
                        id,
                        set_model,
                    ));
                    assert(self@ =~= (UserModel {
                        enabled_action_sets: keyed::oname_upsert(
                            u0.enabled_action_sets,
                            id,
                            set_model,
                        ),
                        ..u0
                    }));
                }
                self.add_action_states(&id);
            },
        }
    }
}

} // verus!

verus! {

impl User {
    /// Remove the binding entries recorded under the set, and the state
    /// and ticking mark of every action id they bound, exactly as
    /// [`remove_states_spec`] says.
    fn remove_action_states(&mut self, set_id: &ActionSetId)
        ensures
            final(self)@ == remove_states_spec(old(self)@, keyed::oname_view(*set_id)),
    {
        let ghost u0 = self@;
        let ghost sid = keyed::oname_view(*set_id);
        // partition the bound entries, collecting the removed ids
        let mut old_bound: Vec<(BindingStateKey, action::Id)> = Vec::new();
        core::mem::swap(&mut old_bound, &mut self.bound_actions);
        let ghost braw = old_bound@;
        let ghost bmodel = braw.map_values(|p: (BindingStateKey, action::Id)| (p.0@, p.1));
        let ghost raws0 = self.action_states@;
        let ghost rawt0 = self.ticking_states@;
        let mut removed: Vec<action::Id> = Vec::new();
        let n = old_bound.len();
        let mut i: usize = 0;
        proof {
            assert(bmodel == u0.bound_actions);
        }
        while i < n
            invariant
                i <= n,
                n == braw.len(),
                sid == keyed::oname_view(*set_id),
                u0 == old(self)@,
                self.action_states@ == raws0,
                self.ticking_states@ == rawt0,
                self@.config == u0.config,
                self@.consts == u0.consts,
                self@.name == u0.name,
                self@.active_layout == u0.active_layout,
                self@.enabled_action_sets == u0.enabled_action_sets,
                old_bound@ == braw.subrange(i as int, n as int),
                bmodel == braw.map_values(|p: (BindingStateKey, action::Id)| (p.0@, p.1)),
                bmodel.len() == n,
                bound_ids_of_set(bmodel, 0, sid) == removed@ + bound_ids_of_set(
                    bmodel,
                    i as int,
                    sid,
                ),
                bound_without_set(bmodel, 0, sid) == self.bound_actions@.map_values(
                    |p: (BindingStateKey, action::Id)| (p.0@, p.1),
                ) + bound_without_set(bmodel, i as int, sid),
            decreases n - i,
        {
            let (key, aid) = old_bound.remove(0);
            proof {
                assert(key@ == bmodel[i as int].0 && aid == bmodel[i as int].1);
                assert(old_bound@ =~= braw.subrange(i + 1, n as int));
            }
            if keyed::oname_eq(&key.set_id, set_id) {
                removed.push(aid);
                proof {
                    assert(bound_ids_of_set(bmodel, 0, sid) =~= removed@ + bound_ids_of_set(
                        bmodel,
                        i + 1,
                        sid,
                    ));
                }
            } else {
                let ghost kept_before = self.bound_actions@.map_values(
                    |p: (BindingStateKey, action::Id)| (p.0@, p.1),
                );
                self.bound_actions.push((key, aid));
                proof {
                    assert(self.bound_actions@.map_values(
                        |p: (BindingStateKey, action::Id)| (p.0@, p.1),
                    ) =~= kept_before.push((bmodel[i as int].0, bmodel[i as int].1)));
                    assert(bound_without_set(bmodel, 0, sid) =~= self.bound_actions@.map_values(
                        |p: (BindingStateKey, action::Id)| (p.0@, p.1),
                    ) + bound_without_set(bmodel, i + 1, sid));
                }
            }
            i = i + 1;
        }
        proof {
            assert(bound_ids_of_set(bmodel, 0, sid) =~= removed@);
            assert(bound_without_set(bmodel, 0, sid) =~= self.bound_actions@.map_values(
                |p: (BindingStateKey, action::Id)| (p.0@, p.1),
            ));
        }
        // drop the states of the removed ids
        let mut old_states: Vec<(action::Id, State)> = Vec::new();
        core::mem::swap(&mut old_states, &mut self.action_states);
        let ghost sraw = old_states@;
        proof {
            assert(sraw == raws0);
        }
        let ghost smodel = sraw.map_values(|p: (action::Id, State)| (p.0, p.1@));
        let sn = old_states.len();
        let mut j: usize = 0;
        proof {
            assert(smodel == u0.action_states);
        }
        while j < sn
            invariant
                j <= sn,
                sn == sraw.len(),
                sid == keyed::oname_view(*set_id),
                u0 == old(self)@,
                self.ticking_states@ == rawt0,
                self@.config == u0.config,
                self@.consts == u0.consts,
                self@.name == u0.name,
                self@.active_layout == u0.active_layout,
                self@.enabled_action_sets == u0.enabled_action_sets,
                self@.bound_actions == bound_without_set(bmodel, 0, sid),
                bmodel == u0.bound_actions,
                old_states@ == sraw.subrange(j as int, sn as int),
                smodel == sraw.map_values(|p: (action::Id, State)| (p.0, p.1@)),
                smodel.len() == sn,
                removed@ == bound_ids_of_set(bmodel, 0, sid),
                states_without(smodel, 0, removed@) == self.action_states@.map_values(
                    |p: (action::Id, State)| (p.0, p.1@),
                ) + states_without(smodel, j as int, removed@),
            decreases sn - j,
        {
            let (aid, st) = old_states.remove(0);
            proof {
                assert(aid == smodel[j as int].0 && st@ == smodel[j as int].1);
                assert(old_states@ =~= sraw.subrange(j + 1, sn as int));
            }
            if !ids_contain(&removed, &aid) {
                let ghost kept_before = self.action_states@.map_values(
                    |p: (action::Id, State)| (p.0, p.1@),
                );
                self.action_states.push((aid, st));
                proof {
                    assert(self.action_states@.map_values(|p: (action::Id, State)| (p.0, p.1@))
                        =~= kept_before.push((smodel[j as int].0, smodel[j as int].1)));
                    assert(states_without(smodel, 0, removed@)
                        =~= self.action_states@.map_values(
                        |p: (action::Id, State)| (p.0, p.1@),
                    ) + states_without(smodel, j + 1, removed@));
                }
            }
            j = j + 1;
        }
        proof {
            assert(states_without(smodel, 0, removed@) =~= self.action_states@.map_values(
                |p: (action::Id, State)| (p.0, p.1@),
            ));
        }
        // drop the ticking marks of the removed ids
        let mut old_ticking: Vec<action::Id> = Vec::new();
        core::mem::swap(&mut old_ticking, &mut self.ticking_states);
        let ghost traw = old_ticking@;
        proof {
            assert(traw == rawt0);
        }
        let tn = old_ticking.len();
        let mut t: usize = 0;
        proof {
            assert(traw == u0.ticking_states);
        }
        while t < tn
            invariant
                t <= tn,
                tn == traw.len(),
                sid == keyed::oname_view(*set_id),
                u0 == old(self)@,
                self@.config == u0.config,
                self@.consts == u0.consts,
                self@.name == u0.name,
                self@.active_layout == u0.active_layout,
                self@.enabled_action_sets == u0.enabled_action_sets,
                self@.bound_actions == bound_without_set(bmodel, 0, sid),
                self@.action_states == states_without(u0.action_states, 0, removed@),
                bmodel == u0.bound_actions,
                old_ticking@ == traw.subrange(t as int, tn as int),
                removed@ == bound_ids_of_set(bmodel, 0, sid),
                ticking_without(traw, 0, removed@) == self.ticking_states@ + ticking_without(
                    traw,
                    t as int,
                    removed@,
                ),
            decreases tn - t,
        {
            let aid = old_ticking.remove(0);
            proof {
                assert(aid == traw[t as int]);
                assert(old_ticking@ =~= traw.subrange(t + 1, tn as int));
            }
            if !ids_contain(&removed, &aid) {
                self.ticking_states.push(aid);
                proof {
                    assert(ticking_without(traw, 0, removed@) =~= self.ticking_states@
                        + ticking_without(traw, t + 1, removed@));
                }
            }
            t = t + 1;
        }
        proof {
            assert(ticking_without(traw, 0, removed@) =~= self.ticking_states@);
            assert(final(self)@ =~= remove_states_spec(u0, sid));
        }
    }

    /// Disable an action set: the set leaves the enabled list, and
    /// exactly its actions' state and bindings are removed; every other
    /// enabled set's actions keep their state.
    pub fn disable_action_set(&mut self, id: ActionSetId)
        ensures
            final(self)@ == disable_set_spec(old(self)@, id),
    {
        let ghost u0 = self@;
        let ghost raw0 = self.enabled_action_sets@;
        let mut old_enabled: Vec<(ActionSetId, ActionSet)> = Vec::new();
        core::mem::swap(&mut old_enabled, &mut self.enabled_action_sets);
        let ghost emodel = raw0.map_values(|p: (ActionSetId, ActionSet)| (p.0, p.1@));
        let n = old_enabled.len();
        let mut i: usize = 0;
        proof {
            assert(emodel == u0.enabled_action_sets);
        }
        while i < n
            invariant
                i <= n,
                n == raw0.len(),
                u0 == old(self)@,
                self@.config == u0.config,
                self@.consts == u0.consts,
                self@.name == u0.name,
                self@.active_layout == u0.active_layout,
                self@.bound_actions == u0.bound_actions,
                self@.action_states == u0.action_states,
                self@.ticking_states == u0.ticking_states,
                old_enabled@ == raw0.subrange(i as int, n as int),
                emodel == raw0.map_values(|p: (ActionSetId, ActionSet)| (p.0, p.1@)),
                emodel.len() == n,
                keyed::oname_remove_key(emodel, keyed::oname_view(id))
                    == self.enabled_action_sets@.map_values(
                    |p: (ActionSetId, ActionSet)| (p.0, p.1@),
                ) + keyed::oname_remove_key_from(emodel, i as int, keyed::oname_view(id)),
            decreases n - i,
        {
            let (sid, set) = old_enabled.remove(0);
            proof {
                assert(sid == emodel[i as int].0 && set@ == emodel[i as int].1);
                assert(old_enabled@ =~= raw0.subrange(i + 1, n as int));
            }
            if !keyed::oname_eq(&sid, &id) {
                let ghost kept_before = self.enabled_action_sets@.map_values(
                    |p: (ActionSetId, ActionSet)| (p.0, p.1@),
                );
                self.enabled_action_sets.push((sid, set));
                proof {
                    assert(self.enabled_action_sets@.map_values(
                        |p: (ActionSetId, ActionSet)| (p.0, p.1@),
                    ) =~= kept_before.push((emodel[i as int].0, emodel[i as int].1)));
                    assert(keyed::oname_remove_key(emodel, keyed::oname_view(id))
                        =~= self.enabled_action_sets@.map_values(
                        |p: (ActionSetId, ActionSet)| (p.0, p.1@),
                    ) + keyed::oname_remove_key_from(emodel, i + 1, keyed::oname_view(id)));
                }
            }
            i = i + 1;
        }
        proof {
            assert(keyed::oname_remove_key(emodel, keyed::oname_view(id))
                =~= self.enabled_action_sets@.map_values(
                |p: (ActionSetId, ActionSet)| (p.0, p.1@),
            ));
            assert(self@ =~= (UserModel {
                enabled_action_sets: keyed::oname_remove_key(
                    u0.enabled_action_sets,
                    keyed::oname_view(id),
                ),
                ..u0
            }));
        }
        self.remove_action_states(&id);
    }
}

} // verus!

verus! {

impl User {
    /// Deliver one input event to every bound action listening to its
    /// source, exactly as [`process_event_user_spec`] says.
    pub fn process_event(&mut self, source: binding::Source, state: event::State, time: u64)
        ensures
            final(self)@ == process_event_user_spec(old(self)@, source, state, time as int),
    {
        let ghost u0 = self@;
        let ghost bound = u0.bound_actions;
        let screen = (self.consts.screen_width, self.consts.screen_height);
        let n = self.bound_actions.len();
        let mut i: usize = 0;
        while i < n
            invariant
                i <= n,
                n == self.bound_actions@.len(),
                u0 == old(self)@,
                screen == (u0.consts.screen_width, u0.consts.screen_height),
                self@.config == u0.config,
                self@.consts == u0.consts,
                self@.name == u0.name,
                self@.active_layout == u0.active_layout,
                self@.enabled_action_sets == u0.enabled_action_sets,
                self@.bound_actions == bound,
                self@.ticking_states == u0.ticking_states,
                bound == u0.bound_actions,
                deliver_event_spec(u0, bound, 0, source, state, time as int)
                    == deliver_event_spec(self@, bound, i as int, source, state, time as int),
            decreases n - i,
        {
            let ghost before = self@;
            let listening = self.bound_actions[i].0.contains(source);
            if listening {
                let idx = find_state(&self.action_states, &self.bound_actions[i].1);
                proof {
                    keyed::lemma_str_find_lookup(before.action_states, 0, bound[i as int].1@);
                }
                if idx < self.action_states.len() {
                    let elem = vstd::std_specs::vec::vec_index_mut(&mut self.action_states, idx);
                    elem.1.process_event(source, state, time, screen);
                    proof {
                        let aid = bound[i as int].1;
                        let sm = keyed::str_lookup(before.action_states, aid@)->0;
                        assert(self@.action_states =~= state_update(
                            before.action_states,
                            aid@,
                            process_event_spec(
                                sm,
                                source,
                                state,
                                time as int,
                                (
                                    before.consts.screen_width as int,
                                    before.consts.screen_height as int,
                                ),
                            ),
                        ));
                        assert(self@ =~= (UserModel {
                            action_states: state_update(
                                before.action_states,
                                aid@,
                                process_event_spec(
                                    sm,
                                    source,
                                    state,
                                    time as int,
                                    (
                                        before.consts.screen_width as int,
                                        before.consts.screen_height as int,
                                    ),
                                ),
                            ),
                            ..before
                        }));
                    }
                }
            }
            i = i + 1;
        }
    }

    /// Whether any action state requires the per-frame tick.
    pub fn requires_updates(&self) -> (r: bool)
        ensures
            r == (self@.ticking_states.len() > 0),
    {
        self.ticking_states.len() > 0
    }

    /// The once-per-frame tick: drain the queued input events in
    /// arrival order (up to [`MAX_EVENTS_PER_UPDATE`] of them), then
    /// advance the edge detection of every ticking action. What arrives
    /// on the queue depends on the senders, so the contract pins the
    /// rest: the final state is the tick of some drained intermediate
    /// with the same caches and action ids, and every ticking action's
    /// state carries the tick's marks.
    pub fn update(&mut self, time: u64)
        ensures
            final(self)@.config == old(self)@.config,
            final(self)@.consts == old(self)@.consts,
            final(self)@.name == old(self)@.name,
            final(self)@.active_layout == old(self)@.active_layout,
            final(self)@.enabled_action_sets == old(self)@.enabled_action_sets,
            final(self)@.bound_actions == old(self)@.bound_actions,
            final(self)@.ticking_states == old(self)@.ticking_states,
            same_state_ids(old(self)@.action_states, final(self)@.action_states),
            exists|mid: UserModel|
                #[trigger] same_state_ids(mid.action_states, old(self)@.action_states)
                    && mid.ticking_states == old(self)@.ticking_states && final(self)@
                    == tick_states_spec(mid, mid.ticking_states, 0, time as int),
            forall|i: int|
                0 <= i < final(self)@.action_states.len() && first_of_its_id(
                    final(self)@.action_states,
                    i,
                ) && id_in(
                    final(self)@.ticking_states,
                    (#[trigger] final(self)@.action_states[i]).0@,
                ) ==> ticked(final(self)@.action_states[i].1, time as int),
    {
        let ghost u0 = self@;
        let mut drained: usize = 0;
        let mut open = true;
        while open && drained < MAX_EVENTS_PER_UPDATE
            invariant
                u0 == old(self)@,
                self@.config == u0.config,
                self@.consts == u0.consts,
                self@.name == u0.name,
                self@.active_layout == u0.active_layout,
                self@.enabled_action_sets == u0.enabled_action_sets,
                self@.bound_actions == u0.bound_actions,
                self@.ticking_states == u0.ticking_states,
                same_state_ids(u0.action_states, self@.action_states),
            decreases MAX_EVENTS_PER_UPDATE - drained + if open {
                1int
            } else {
                0int
            },
        {
            match event::recv_input(&self.input_receiver) {
                Some((source, state)) => {
                    let ghost before = self@;
                    self.process_event(source, state, time);
                    proof {
                        lemma_deliver_preserves_shape(
                            before,
                            before.bound_actions,
                            0,
                            source,
                            state,
                            time as int,
                        );
                    }
                    drained = drained + 1;
                },
                None => {
                    open = false;
                },
            }
        }
        let ghost mid = self@;
        self.tick_actions(time);
        proof {
            lemma_tick_states_props(mid, mid.ticking_states, 0, time as int);
            assert(same_state_ids(mid.action_states, u0.action_states));
        }
    }

    /// The live state of the action with the given id, when the user
    /// has it bound.
    pub fn get_action(&self, id: &String) -> (r: Option<&State>)
        ensures
            match r {
                Some(st) => keyed::str_lookup(self@.action_states, id@) == Some(st@),
                None => keyed::str_lookup(self@.action_states, id@) is None,
            },
    {
        let idx = find_state(&self.action_states, id);
        proof {
            keyed::lemma_str_find_lookup(self@.action_states, 0, id@);
        }
        if idx < self.action_states.len() {
            Some(&self.action_states[idx].1)
        } else {
            None
        }
    }

    /// Read and reset the action's value, for one-shot consumption:
    /// the value it held, and zero from now on.
    pub fn take_action_value(&mut self, id: &String) -> (r: Option<Scalar>)
        ensures
            match keyed::str_lookup(old(self)@.action_states, id@) {
                Some(sm) => r matches Some(v) && v as int == sm.value && final(self)@ == (UserModel {
                    action_states: state_update(
                        old(self)@.action_states,
                        id@,
                        StateModel { value: 0, ..sm },
                    ),
                    ..old(self)@
                }),
                None => r is None && final(self)@ == old(self)@,
            },
    {
        let ghost u0 = self@;
        let idx = find_state(&self.action_states, id);
        proof {
            keyed::lemma_str_find_lookup(u0.action_states, 0, id@);
        }
        if idx < self.action_states.len() {
            let elem = vstd::std_specs::vec::vec_index_mut(&mut self.action_states, idx);
            let v = elem.1.take_value();
            proof {
                assert(final(self)@ =~= (UserModel {
                    action_states: state_update(
                        u0.action_states,
                        id@,
                        StateModel { value: 0, ..keyed::str_lookup(u0.action_states, id@)->0 },
                    ),
                    ..u0
                }));
            }
            Some(v)
        } else {
            None
        }
    }
}

} // verus!

verus! {

/// Looking up an id that the removal does not name sees through the
/// removal.
proof fn lemma_states_without_lookup(
    s: Seq<(action::Id, StateModel)>,
    i: int,
    removed: Seq<action::Id>,
    k: Seq<char>,
)
    requires
        0 <= i <= s.len(),
        !id_in(removed, k),
    ensures
        keyed::str_lookup(states_without(s, i, removed), k) == keyed::str_lookup_from(s, i, k),
    decreases s.len() - i,
{
    if i < s.len() {
        lemma_states_without_lookup(s, i + 1, removed, k);
        if id_in(removed, s[i].0@) {
            assert(s[i].0@ != k);
        } else {
            keyed::lemma_str_lookup_first_rest(states_without(s, i + 1, removed), s[i], k);
        }
    }
}

/// Nothing recorded under the removed set survives the filter.
proof fn lemma_bound_without_clean(
    s: Seq<(KeyModel, action::Id)>,
    i: int,
    sid: Option<Seq<char>>,
)
    requires
        0 <= i <= s.len(),
    ensures
        forall|j: int|
            0 <= j < bound_without_set(s, i, sid).len() ==> keyed::oname_view(
                (#[trigger] bound_without_set(s, i, sid)[j]).0.set_id,
            ) != sid,
    decreases s.len() - i,
{
    if i < s.len() {
        lemma_bound_without_clean(s, i + 1, sid);
        if keyed::oname_view(s[i].0.set_id) != sid {
            let cat = seq![s[i]] + bound_without_set(s, i + 1, sid);
            assert(cat[0] == s[i]);
            assert(forall|j: int|
                1 <= j < cat.len() ==> #[trigger] cat[j] == bound_without_set(s, i + 1, sid)[j
                    - 1]);
        }
    }
}

/// Every entry of another set survives the filter.
proof fn lemma_bound_without_keeps(
    s: Seq<(KeyModel, action::Id)>,
    i: int,
    sid: Option<Seq<char>>,
    j: int,
)
    requires
        0 <= i <= j < s.len(),
        keyed::oname_view(s[j].0.set_id) != sid,
    ensures
        bound_without_set(s, i, sid).contains(s[j]),
    decreases s.len() - i,
{
    if i < j {
        lemma_bound_without_keeps(s, i + 1, sid, j);
        if keyed::oname_view(s[i].0.set_id) != sid {
            let rest = bound_without_set(s, i + 1, sid);
            let cat = seq![s[i]] + rest;
            let q = choose|q: int| 0 <= q < rest.len() && rest[q] == s[j];
            assert(cat[q + 1] == s[j]);
        }
    } else {
        let rest = bound_without_set(s, i + 1, sid);
        let cat = seq![s[i]] + rest;
        assert(cat[0] == s[i]);
    }
}

/// Disabling an action set removes exactly its bindings: nothing of the
/// set remains, every other set's entries survive, and the state of any
/// action the set did not bind reads exactly as before.
pub proof fn lemma_disable_removes_exactly_its_set(u: UserModel, id: ActionSetId, k: Seq<char>)
    requires
        !id_in(bound_ids_of_set(u.bound_actions, 0, keyed::oname_view(id)), k),
    ensures
        keyed::str_lookup(disable_set_spec(u, id).action_states, k) == keyed::str_lookup(
            u.action_states,
            k,
        ),
        forall|j: int|
            0 <= j < disable_set_spec(u, id).bound_actions.len() ==> keyed::oname_view(
                (#[trigger] disable_set_spec(u, id).bound_actions[j]).0.set_id,
            ) != keyed::oname_view(id),
        forall|j: int|
            0 <= j < u.bound_actions.len() && keyed::oname_view(
                (#[trigger] u.bound_actions[j]).0.set_id,
            ) != keyed::oname_view(id) ==> disable_set_spec(u, id).bound_actions.contains(
                u.bound_actions[j],
            ),
{
    let sid = keyed::oname_view(id);
    lemma_states_without_lookup(
        u.action_states,
        0,
        bound_ids_of_set(u.bound_actions, 0, sid),
        k,
    );
    lemma_bound_without_clean(u.bound_actions, 0, sid);
    assert forall|j: int|
        0 <= j < u.bound_actions.len() && keyed::oname_view(
            (#[trigger] u.bound_actions[j]).0.set_id,
        ) != keyed::oname_view(id) implies disable_set_spec(u, id).bound_actions.contains(
        u.bound_actions[j],
    ) by {
        lemma_bound_without_keeps(u.bound_actions, 0, sid, j);
    }
}

} // verus!

verus! {

/// Whether a state carries the marks of a tick at `time`: the tick time
/// is recorded and the held flag has been captured.
pub open spec fn ticked(sm: StateModel, time: int) -> bool {
    sm.last_update_time == time && sm.prev_frame_active == sm.active
}

/// Ticking the listed actions touches only their states, leaves every
/// state's id in place, never un-ticks a state, and leaves every listed
/// action's state ticked (at the entry a lookup by its id reaches).
pub proof fn lemma_tick_states_props(
    u: UserModel,
    ticking: Seq<action::Id>,
    k: int,
    time: int,
)
    requires
        0 <= k <= ticking.len(),
    ensures
        ({
            let r = tick_states_spec(u, ticking, k, time);
            r.config == u.config && r.consts == u.consts && r.name == u.name && r.active_layout
                == u.active_layout && r.enabled_action_sets == u.enabled_action_sets
                && r.bound_actions == u.bound_actions && r.ticking_states == u.ticking_states
                && same_state_ids(u.action_states, r.action_states) && (forall|q: int|
                0 <= q < r.action_states.len() && ticked(
                    u.action_states[q].1,
                    time,
                ) ==> ticked((#[trigger] r.action_states[q]).1, time)) && (forall|q: int|
                0 <= q < r.action_states.len() && first_of_its_id(r.action_states, q) && (
                exists|w: int|
                    k <= w < ticking.len() && (#[trigger] ticking[w])@ == r.action_states[q].0@)
                    ==> ticked((#[trigger] r.action_states[q]).1, time))
        }),
    decreases ticking.len() - k,
{
    if k < ticking.len() {
        let aid = ticking[k];
        keyed::lemma_str_find_lookup(u.action_states, 0, aid@);
        let u2 = match keyed::str_lookup(u.action_states, aid@) {
            Some(sm) => UserModel {
                action_states: state_update(u.action_states, aid@, update_spec(sm, time)),
                ..u
            },
            None => u,
        };
        assert(same_state_ids(u.action_states, u2.action_states));
        lemma_tick_states_props(u2, ticking, k + 1, time);
        let r = tick_states_spec(u, ticking, k, time);
        assert(r == tick_states_spec(u2, ticking, k + 1, time));
        assert forall|q: int|
            0 <= q < r.action_states.len() && first_of_its_id(r.action_states, q) && (exists|
            w: int|
                k <= w < ticking.len() && (#[trigger] ticking[w])@ == r.action_states[q].0@)
            implies ticked((#[trigger] r.action_states[q]).1, time) by {
            let w = choose|w: int|
                k <= w < ticking.len() && (#[trigger] ticking[w])@ == r.action_states[q].0@;
            if w == k && keyed::str_lookup(u.action_states, aid@) is Some {
                let idx = keyed::str_find_from(u.action_states, 0, aid@);
                lemma_find_same_ids(u.action_states, r.action_states, 0, aid@);
                if q == idx {
                    assert(ticked(u2.action_states[q].1, time));
                } else {
                    assert(!first_of_its_id(r.action_states, q));
                }
            } else if w == k {
                keyed::lemma_str_lookup_from_none_ids(u.action_states, 0, aid@);
                lemma_find_same_ids(u.action_states, r.action_states, 0, r.action_states[q].0@);
                assert(u.action_states[q].0@ != aid@);
            }
        }
    }
}

impl User {
    /// Advance the edge detection of every ticking action, exactly as
    /// [`tick_states_spec`] says.
    fn tick_actions(&mut self, time: u64)
        ensures
            final(self)@ == tick_states_spec(
                old(self)@,
                old(self)@.ticking_states,
                0,
                time as int,
            ),
    {
        let ghost u0 = self@;
        let ghost ticking = u0.ticking_states;
        let n = self.ticking_states.len();
        let mut t: usize = 0;
        while t < n
            invariant
                t <= n,
                n == ticking.len(),
                u0 == old(self)@,
                self@.ticking_states == ticking,
                tick_states_spec(u0, ticking, 0, time as int) == tick_states_spec(
                    self@,
                    ticking,
                    t as int,
                    time as int,
                ),
            decreases n - t,
        {
            let ghost before = self@;
            let aid = self.ticking_states[t].clone();
            let idx = find_state(&self.action_states, &aid);
            proof {
                keyed::lemma_str_find_lookup(before.action_states, 0, aid@);
            }
            if idx < self.action_states.len() {
                let elem = vstd::std_specs::vec::vec_index_mut(&mut self.action_states, idx);
                elem.1.update(time);
                proof {
                    let sm = keyed::str_lookup(before.action_states, aid@)->0;
                    assert(self@.action_states =~= state_update(
                        before.action_states,
                        aid@,
                        update_spec(sm, time as int),
                    ));
                    assert(self@ =~= (UserModel {
                        action_states: state_update(
                            before.action_states,
                            aid@,
                            update_spec(sm, time as int),
                        ),
                        ..before
                    }));
                }
            }
            t = t + 1;
        }
    }
}

} // verus!
