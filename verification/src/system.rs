//! The engine-wide configuration of actions, layouts and action sets,
//! the shared screen constants, and the device registry that assigns
//! each connected device to a logical user and routes its events.

use crate::action;
use crate::binding;
use crate::binding::ActionSet;
use crate::binding::ActionSetId;
use crate::binding::ActionSetModel;
use crate::binding::LayoutId;
use crate::device;
use crate::device::GamepadKind;
use crate::event;
use crate::event::InputSender;
use crate::keyed;
use crate::math::SCALE;
use crate::source;
use vstd::prelude::*;

verus! {

/// Identifies a logical user: the index the registry handed out when
/// the user was added.
pub type UserId = usize;

/// The screen constants that screen-relative behaviors normalize
/// against: the logical screen size and the display scale factor, both
/// fixed-point (one million stands for 1.0).
#[derive(Debug, Clone, Copy, PartialEq, Eq, Structural)]
pub struct Consts {
    /// The logical screen width, in fixed-point logical pixels.
    pub screen_width: u64,
    /// The logical screen height, in fixed-point logical pixels.
    pub screen_height: u64,
    /// The display scale factor, fixed-point.
    pub scale_factor: u64,
}

impl Default for Consts {
    /// No screen yet, and a scale factor of one.
    fn default() -> (r: Self)
        ensures
            r == (Consts { screen_width: 0, screen_height: 0, scale_factor: SCALE as u64 }),
    {
        Consts { screen_width: 0, screen_height: 0, scale_factor: SCALE as u64 }
    }
}

/// The logical size a physical extent maps to under a scale factor:
/// the extent in fixed-point units divided by the fixed-point scale,
/// clamped to `u64`; zero when the scale is zero.
pub open spec fn logical_size_spec(pixels: int, scale: int) -> int {
    if scale <= 0 {
        0
    } else {
        let raw = (pixels * (SCALE as int) * (SCALE as int)) / scale;
        if raw > u64::MAX {
            u64::MAX as int
        } else {
            raw
        }
    }
}

/// Convert a physical extent to fixed-point logical units.
fn logical_size(pixels: u32, scale: u64) -> (r: u64)
    ensures
        r as int == logical_size_spec(pixels as int, scale as int),
{
    if scale == 0 {
        return 0;
    }
    proof {
        assert(pixels * (SCALE as int) * (SCALE as int) <= u128::MAX) by (nonlinear_arith)
            requires
                0 <= pixels <= u32::MAX,
        ;
        assert(pixels * (SCALE as int) * (SCALE as int) >= 0) by (nonlinear_arith)
            requires
                pixels >= 0,
        ;
    }
    let wide: u128 = (pixels as u128) * (SCALE as u128) * (SCALE as u128);
    let q: u128 = wide / (scale as u128);
    if q > u64::MAX as u128 {
        u64::MAX
    } else {
        q as u64
    }
}

/// The mathematical model of a [`Config`].
pub struct ConfigModel {
    pub actions: Seq<(action::Id, source::Kind)>,
    pub layouts: Seq<LayoutId>,
    pub action_sets: Seq<(ActionSetId, ActionSetModel)>,
}

/// The immutable-after-construction configuration: the actions the
/// system supports, the layouts it knows, and the action sets that
/// group bindings per layout.
#[derive(Debug)]
pub struct Config {
    /// Each supported action and its button or axis semantic.
    pub actions: Vec<(action::Id, source::Kind)>,
    /// The layouts the system supports.
    pub layouts: Vec<LayoutId>,
    /// The action sets, by id.
    pub action_sets: Vec<(ActionSetId, ActionSet)>,
}

impl View for Config {
    type V = ConfigModel;

    open spec fn view(&self) -> ConfigModel {
        ConfigModel {
            actions: self.actions@,
            layouts: self.layouts@,
            action_sets: self.action_sets@.map_values(
                |p: (ActionSetId, ActionSet)| (p.0, p.1@),
            ),
        }
    }
}

impl Default for Config {
    /// A configuration with no actions, layouts, or action sets.
    fn default() -> (r: Self)
        ensures
            r@.actions == Seq::<(action::Id, source::Kind)>::empty(),
            r@.layouts == Seq::<LayoutId>::empty(),
            r@.action_sets == Seq::<(ActionSetId, ActionSetModel)>::empty(),
    {
        let r = Config { actions: Vec::new(), layouts: Vec::new(), action_sets: Vec::new() };
        proof {
            assert(r@.actions =~= Seq::<(action::Id, source::Kind)>::empty());
            assert(r@.layouts =~= Seq::<LayoutId>::empty());
            assert(r@.action_sets =~= Seq::<(ActionSetId, ActionSetModel)>::empty());
        }
        r
    }
}

impl Config {
    /// Add an action to the list of actions the system supports; an
    /// already known id's semantic is replaced, last write wins.
    pub fn add_action(self, name: action::Id, action: source::Kind) -> (r: Self)
        ensures
            r@.actions == keyed::str_upsert(self@.actions, name, action),
            r@.layouts == self@.layouts,
            r@.action_sets == self@.action_sets,
    {
        let ghost vorig = self@;
        let mut actions = self.actions;
        let ghost orig = actions@;
        let n = actions.len();
        let mut i: usize = 0;
        while i < n
            invariant
                i <= n,
                n == actions@.len(),
                actions@ == orig,
                self@ == vorig,
                vorig.actions == orig,
                keyed::str_find_from(orig, 0, name@) == keyed::str_find_from(
                    orig,
                    i as int,
                    name@,
                ),
            decreases n - i,
        {
            if actions[i].0 == name {
                proof {
                    assert(keyed::str_find_from(orig, i as int, name@) == i as int);
                }
                let elem = vstd::std_specs::vec::vec_index_mut(&mut actions, i);
                *elem = (name, action);
                return Config {
                    actions,
                    layouts: self.layouts,
                    action_sets: self.action_sets,
                };
            }
            i = i + 1;
        }
        actions.push((name, action));
        Config { actions, layouts: self.layouts, action_sets: self.action_sets }
    }

    /// Add a layout to the list of layouts the system supports.
    pub fn add_layout(self, layout: LayoutId) -> (r: Self)
        ensures
            r@.actions == self@.actions,
            r@.layouts == self@.layouts.push(layout),
            r@.action_sets == self@.action_sets,
    {
        let mut layouts = self.layouts;
        layouts.push(layout);
        Config { actions: self.actions, layouts, action_sets: self.action_sets }
    }

    /// Associate an action set with an id; an already present id's set
    /// is replaced, last write wins.
    pub fn add_action_set(self, id: ActionSetId, set: ActionSet) -> (r: Self)
        ensures
            r@.actions == self@.actions,
            r@.layouts == self@.layouts,
            r@.action_sets == keyed::oname_upsert(self@.action_sets, id, set@),
    {
        let ghost vorig = self@;
        let mut action_sets = self.action_sets;
        let ghost orig = action_sets@;
        let n = action_sets.len();
        let mut i: usize = 0;
        while i < n
            invariant
                i <= n,
                n == action_sets@.len(),
                action_sets@ == orig,
                self@ == vorig,
                vorig.action_sets == orig.map_values(|p: (ActionSetId, ActionSet)| (p.0, p.1@)),
                keyed::oname_find_from(vorig.action_sets, 0, keyed::oname_view(id))
                    == keyed::oname_find_from(vorig.action_sets, i as int, keyed::oname_view(id)),
            decreases n - i,
        {
            if keyed::oname_eq(&action_sets[i].0, &id) {
                proof {
                    assert(keyed::oname_find_from(vorig.action_sets, i as int, keyed::oname_view(id))
                        == i as int);
                }
                let elem = vstd::std_specs::vec::vec_index_mut(&mut action_sets, i);
                *elem = (id, set);
                let r = Config { actions: self.actions, layouts: self.layouts, action_sets };
                proof {
                    assert(r@.action_sets =~= vorig.action_sets.update(i as int, (id, set@)));
                }
                return r;
            }
            i = i + 1;
        }
        action_sets.push((id, set));
        let r = Config { actions: self.actions, layouts: self.layouts, action_sets };
        proof {
            assert(r@.action_sets =~= vorig.action_sets.push((id, set@)));
        }
        r
    }

    /// The action set registered under the given id, when there is one.
    pub fn get_action_set(&self, id: &ActionSetId) -> (r: Option<&ActionSet>)
        ensures
            match r {
                Some(s) => keyed::oname_lookup(self@.action_sets, keyed::oname_view(*id)) == Some(
                    s@,
                ),
                None => keyed::oname_lookup(self@.action_sets, keyed::oname_view(*id)) is None,
            },
    {
        let n = self.action_sets.len();
        let mut i: usize = 0;
        while i < n
            invariant
                i <= n,
                n == self.action_sets@.len(),
                keyed::oname_lookup(self@.action_sets, keyed::oname_view(*id))
                    == keyed::oname_lookup_from(self@.action_sets, i as int, keyed::oname_view(*id)),
                self@.action_sets == self.action_sets@.map_values(
                    |p: (ActionSetId, ActionSet)| (p.0, p.1@),
                ),
            decreases n - i,
        {
            if keyed::oname_eq(&self.action_sets[i].0, id) {
                return Some(&self.action_sets[i].1);
            }
            i = i + 1;
        }
        None
    }
}

impl Clone for Config {
    /// A configuration with the same model.
    fn clone(&self) -> (r: Self)
        ensures
            r@ == self@,
    {
        let n = self.actions.len();
        let mut actions: Vec<(action::Id, source::Kind)> = Vec::new();
        let mut i: usize = 0;
        while i < n
            invariant
                i <= n,
                n == self.actions@.len(),
                actions@.len() == i,
                forall|q: int| 0 <= q < i ==> #[trigger] actions@[q] == self.actions@[q],
            decreases n - i,
        {
            actions.push((self.actions[i].0.clone(), self.actions[i].1));
            i = i + 1;
        }
        let m = self.layouts.len();
        let mut layouts: Vec<LayoutId> = Vec::new();
        let mut j: usize = 0;
        while j < m
            invariant
                j <= m,
                m == self.layouts@.len(),
                layouts@.len() == j,
                forall|q: int| 0 <= q < j ==> #[trigger] layouts@[q] == self.layouts@[q],
            decreases m - j,
        {
            layouts.push(keyed::oname_clone(&self.layouts[j]));
            j = j + 1;
        }
        let c = self.action_sets.len();
        let mut action_sets: Vec<(ActionSetId, ActionSet)> = Vec::new();
        let mut k: usize = 0;
        while k < c
            invariant
                k <= c,
                c == self.action_sets@.len(),
                action_sets@.len() == k,
                forall|q: int|
                    0 <= q < k ==> (#[trigger] action_sets@[q]).0 == self.action_sets@[q].0
                        && action_sets@[q].1@ == self.action_sets@[q].1@,
            decreases c - k,
        {
            action_sets.push(
                (keyed::oname_clone(&self.action_sets[k].0), self.action_sets[k].1.clone()),
            );
            k = k + 1;
        }
        let r = Config { actions, layouts, action_sets };
        proof {
            assert(r@.actions =~= self@.actions);
            assert(r@.layouts =~= self@.layouts);
            assert(r@.action_sets =~= self@.action_sets);
        }
        r
    }
}

} // verus!

verus! {

/// The mathematical model of one user slot in the registry: the
/// devices currently assigned to that user.
#[verifier::ext_equal]
pub struct UserSlotModel {
    pub devices: Seq<device::Id>,
}

/// One user known to the registry: where that user's input events are
/// sent, and the devices currently assigned to it.
#[derive(Debug)]
pub struct UserSlot {
    /// The sending half of the user's input queue.
    pub sender: InputSender,
    /// The devices currently assigned to this user.
    pub devices: Vec<device::Id>,
}

/// The mathematical model of the [`DeviceCache`] registry.
#[verifier::ext_equal]
pub struct CacheModel {
    pub consts: Consts,
    pub unassigned: Seq<device::Id>,
    pub assigned: Seq<(device::Id, UserId)>,
    pub disconnected: Seq<(device::Id, UserId)>,
    pub users: Seq<UserSlotModel>,
}

/// Tracks the connection and assignment of devices: which user owns
/// each connected device, which devices wait for an owner, and which
/// disconnected device belonged to whom, so a returning gamepad can go
/// back to its player.
#[derive(Debug)]
pub struct DeviceCache {
    /// The screen constants, updated by window events.
    pub consts: Consts,
    /// Devices waiting for an owner, oldest first.
    pub unassigned_devices: Vec<device::Id>,
    /// Which user owns each connected device.
    pub assigned_devices: Vec<(device::Id, UserId)>,
    /// The sticky memory of who owned a device that disconnected.
    pub disconnected_devices: Vec<(device::Id, UserId)>,
    /// The users devices can be assigned to.
    pub users: Vec<UserSlot>,
}

impl View for DeviceCache {
    type V = CacheModel;

    open spec fn view(&self) -> CacheModel {
        CacheModel {
            consts: self.consts,
            unassigned: self.unassigned_devices@,
            assigned: self.assigned_devices@,
            disconnected: self.disconnected_devices@,
            users: self.users@.map_values(|u: UserSlot| UserSlotModel { devices: u.devices@ }),
        }
    }
}

/// Whether any of the devices is a gamepad.
pub open spec fn has_gamepad(devices: Seq<device::Id>) -> bool {
    exists|j: int| 0 <= j < devices.len() && devices[j] is Gamepad
}

/// The user owning the device, when one does.
pub open spec fn owner_of(m: CacheModel, d: device::Id) -> Option<UserId> {
    keyed::lookup(m.assigned, d)
}

/// The devices at or after `i` that are not `d`, in order.
pub open spec fn remove_device_from(s: Seq<device::Id>, i: int, d: device::Id) -> Seq<device::Id>
    decreases s.len() - i,
{
    if i < 0 || i >= s.len() {
        Seq::empty()
    } else if s[i] == d {
        remove_device_from(s, i + 1, d)
    } else {
        seq![s[i]] + remove_device_from(s, i + 1, d)
    }
}

/// The devices with every occurrence of `d` removed.
pub open spec fn remove_device(s: Seq<device::Id>, d: device::Id) -> Seq<device::Id> {
    remove_device_from(s, 0, d)
}

/// Assigning a device to a user records the pair and adds the device
/// to the user's set.
pub open spec fn assign_device_spec(m: CacheModel, u: int, d: device::Id) -> CacheModel {
    CacheModel {
        assigned: m.assigned.push((d, u as UserId)),
        users: m.users.update(u, UserSlotModel { devices: m.users[u].devices.push(d) }),
        ..m
    }
}

/// What connecting a gamepad does. A gamepad that is already assigned
/// changes nothing. One that previously disconnected from a user who is
/// still gamepad-less goes straight back to that user. Any other
/// gamepad queues as unassigned (once), and its sticky memory is
/// forgotten.
pub open spec fn connect_gamepad_spec(m: CacheModel, kind: GamepadKind, number: usize) -> CacheModel {
    let d = device::Id::Gamepad(kind, number);
    if keyed::lookup(m.assigned, d) is Some {
        m
    } else {
        let prior = keyed::lookup(m.disconnected, d);
        let m1 = CacheModel { disconnected: keyed::remove_key(m.disconnected, d), ..m };
        if prior matches Some(u) && u < m.users.len() && !has_gamepad(m.users[u as int].devices) {
            assign_device_spec(m1, prior->0 as int, d)
        } else if !m.unassigned.contains(d) {
            CacheModel { unassigned: m1.unassigned.push(d), ..m1 }
        } else {
            m1
        }
    }
}

/// What disconnecting a gamepad does. An assigned gamepad leaves its
/// owner's set and is remembered with that owner; an unassigned one
/// just leaves the queue; anything else is a no-op.
pub open spec fn disconnect_gamepad_spec(m: CacheModel, kind: GamepadKind, number: usize) -> CacheModel {
    let d = device::Id::Gamepad(kind, number);
    match keyed::lookup(m.assigned, d) {
        Some(u) => CacheModel {
            assigned: keyed::remove_key(m.assigned, d),
            users: if u < m.users.len() {
                m.users.update(
                    u as int,
                    UserSlotModel { devices: remove_device(m.users[u as int].devices, d) },
                )
            } else {
                m.users
            },
            disconnected: m.disconnected.push((d, u)),
            ..m
        },
        None => CacheModel { unassigned: remove_device(m.unassigned, d), ..m },
    }
}

/// The first user without a gamepad is a real index when it is not -1.
pub proof fn lemma_first_user_bounds(users: Seq<UserSlotModel>, i: int)
    requires
        0 <= i <= users.len(),
    ensures
        ({
            let t = first_user_without_gamepad(users, i);
            t == -1 || (i <= t < users.len() && !has_gamepad(users[t].devices))
        }),
    decreases users.len() - i,
{
    if i < users.len() && has_gamepad(users[i].devices) {
        lemma_first_user_bounds(users, i + 1);
    }
}

/// The first user at or after `i` without a gamepad; -1 when none.
pub open spec fn first_user_without_gamepad(users: Seq<UserSlotModel>, i: int) -> int
    decreases users.len() - i,
{
    if i < 0 || i >= users.len() {
        -1
    } else if !has_gamepad(users[i].devices) {
        i
    } else {
        first_user_without_gamepad(users, i + 1)
    }
}

/// Hand the pending devices at or after `k` out in order: the mouse and
/// the keyboard go to the first user; a gamepad goes to the first user
/// without one; a device nobody can take queues as unassigned again.
pub open spec fn assign_pending_spec(m: CacheModel, pending: Seq<device::Id>, k: int) -> CacheModel
    decreases pending.len() - k,
{
    if k < 0 || k >= pending.len() {
        m
    } else {
        let d = pending[k];
        let m2 = match d {
            device::Id::Mouse | device::Id::Keyboard => if m.users.len() > 0 {
                assign_device_spec(m, 0, d)
            } else {
                CacheModel { unassigned: m.unassigned.push(d), ..m }
            },
            device::Id::Gamepad(_, _) => {
                let t = first_user_without_gamepad(m.users, 0);
                if t >= 0 {
                    assign_device_spec(m, t, d)
                } else {
                    CacheModel { unassigned: m.unassigned.push(d), ..m }
                }
            },
        };
        assign_pending_spec(m2, pending, k + 1)
    }
}

/// What one pass over the unassigned queue does.
pub open spec fn assign_unused_spec(m: CacheModel) -> CacheModel {
    assign_pending_spec(
        CacheModel { unassigned: Seq::empty(), ..m },
        m.unassigned,
        0,
    )
}

/// The platform fan-out of one input event: the event itself, plus the
/// synthetic confirm event for a gamepad's bottom face button and the
/// synthetic deny event for its right face button.
pub open spec fn fanout_spec(
    id: device::Id,
    src: binding::Source,
    st: event::State,
) -> Seq<(device::Id, binding::Source, event::State)> {
    let base = seq![(id, src, st)];
    match src {
        binding::Source::Gamepad(kind, binding::Gamepad::Button(source::Button::FaceBottom)) =>
            base.push(
            (
                id,
                binding::Source::Gamepad(
                    kind,
                    binding::Gamepad::Button(source::Button::VirtualConfirm),
                ),
                st,
            ),
        ),
        binding::Source::Gamepad(kind, binding::Gamepad::Button(source::Button::FaceRight)) => base
            .push(
            (
                id,
                binding::Source::Gamepad(
                    kind,
                    binding::Gamepad::Button(source::Button::VirtualDeny),
                ),
                st,
            ),
        ),
        _ => base,
    }
}

/// What one event does to the registry: a window event updates the
/// screen constants; an input event is routed away and changes nothing
/// here.
pub open spec fn send_event_spec(m: CacheModel, event: event::Event) -> CacheModel {
    match event {
        event::Event::Window(event::WindowEvent::ResolutionChanged(w, h)) => CacheModel {
            consts: Consts {
                screen_width: logical_size_spec(w as int, m.consts.scale_factor as int) as u64,
                screen_height: logical_size_spec(h as int, m.consts.scale_factor as int) as u64,
                scale_factor: m.consts.scale_factor,
            },
            ..m
        },
        event::Event::Window(event::WindowEvent::ScaleFactorChanged(w, h, sf)) => CacheModel {
            consts: Consts {
                screen_width: logical_size_spec(w as int, sf as int) as u64,
                screen_height: logical_size_spec(h as int, sf as int) as u64,
                scale_factor: sf,
            },
            ..m
        },
        event::Event::Input(_, _, _) => m,
    }
}

} // verus!

verus! {

/// The user a device-to-user list pairs with the device, when any.
fn lookup_device(entries: &Vec<(device::Id, UserId)>, d: device::Id) -> (r: Option<UserId>)
    ensures
        r == keyed::lookup(entries@, d),
{
    let n = entries.len();
    let mut i: usize = 0;
    while i < n
        invariant
            i <= n,
            n == entries@.len(),
            keyed::lookup(entries@, d) == keyed::lookup_from(entries@, i as int, d),
        decreases n - i,
    {
        if entries[i].0 == d {
            return Some(entries[i].1);
        }
        i = i + 1;
    }
    None
}

/// The same list without every pair for the device.
fn remove_device_entries(entries: Vec<(device::Id, UserId)>, d: device::Id) -> (r: Vec<
    (device::Id, UserId),
>)
    ensures
        r@ == keyed::remove_key(entries@, d),
{
    let ghost orig = entries@;
    let n = entries.len();
    let mut out: Vec<(device::Id, UserId)> = Vec::new();
    let mut i: usize = 0;
    proof {
        assert(keyed::remove_key_from(orig, 0, d) =~= out@ + keyed::remove_key_from(orig, 0, d));
    }
    while i < n
        invariant
            i <= n,
            n == entries@.len(),
            entries@ == orig,
            keyed::remove_key(orig, d) == out@ + keyed::remove_key_from(orig, i as int, d),
        decreases n - i,
    {
        if !(entries[i].0 == d) {
            out.push(entries[i]);
        }
        proof {
            assert(keyed::remove_key(orig, d) =~= out@ + keyed::remove_key_from(orig, i + 1, d));
        }
        i = i + 1;
    }
    proof {
        assert(out@ + keyed::remove_key_from(orig, n as int, d) =~= out@);
    }
    out
}

/// The same device list without every occurrence of the device.
fn remove_device_list(list: Vec<device::Id>, d: device::Id) -> (r: Vec<device::Id>)
    ensures
        r@ == remove_device(list@, d),
{
    let ghost orig = list@;
    let n = list.len();
    let mut out: Vec<device::Id> = Vec::new();
    let mut i: usize = 0;
    while i < n
        invariant
            i <= n,
            n == list@.len(),
            list@ == orig,
            remove_device(orig, d) == out@ + remove_device_from(orig, i as int, d),
        decreases n - i,
    {
        if !(list[i] == d) {
            out.push(list[i]);
        }
        proof {
            assert(remove_device(orig, d) =~= out@ + remove_device_from(orig, i + 1, d));
        }
        i = i + 1;
    }
    proof {
        assert(out@ + remove_device_from(orig, n as int, d) =~= out@);
    }
    out
}

/// Whether the device list holds the device.
fn list_contains(list: &Vec<device::Id>, d: device::Id) -> (r: bool)
    ensures
        r == list@.contains(d),
{
    let n = list.len();
    let mut i: usize = 0;
    while i < n
        invariant
            i <= n,
            n == list@.len(),
            forall|j: int| 0 <= j < i ==> #[trigger] list@[j] != d,
        decreases n - i,
    {
        if list[i] == d {
            return true;
        }
        i = i + 1;
    }
    false
}

/// Whether any of the devices is a gamepad.
fn vec_has_gamepad(devices: &Vec<device::Id>) -> (r: bool)
    ensures
        r == has_gamepad(devices@),
{
    let n = devices.len();
    let mut i: usize = 0;
    while i < n
        invariant
            i <= n,
            n == devices@.len(),
            forall|j: int| 0 <= j < i ==> !((#[trigger] devices@[j]) is Gamepad),
        decreases n - i,
    {
        if let device::Id::Gamepad(_, _) = devices[i] {
            return true;
        }
        i = i + 1;
    }
    false
}

/// The first user without a gamepad, or the number of users when all
/// have one.
fn gamepad_target(users: &Vec<UserSlot>) -> (r: usize)
    ensures
        ({
            let model = users@.map_values(|u: UserSlot| UserSlotModel { devices: u.devices@ });
            let t = first_user_without_gamepad(model, 0);
            if t >= 0 {
                r as int == t
            } else {
                r as int == users@.len()
            }
        }),
{
    let ghost model = users@.map_values(|u: UserSlot| UserSlotModel { devices: u.devices@ });
    let n = users.len();
    let mut i: usize = 0;
    while i < n
        invariant
            i <= n,
            n == users@.len(),
            model == users@.map_values(|u: UserSlot| UserSlotModel { devices: u.devices@ }),
            first_user_without_gamepad(model, 0) == first_user_without_gamepad(model, i as int),
        decreases n - i,
    {
        if !vec_has_gamepad(&users[i].devices) {
            return i;
        }
        i = i + 1;
    }
    n
}

impl Default for DeviceCache {
    /// A registry with no users, no gamepads, and the mouse and
    /// keyboard waiting unassigned.
    fn default() -> (r: Self)
        ensures
            r@.consts == (Consts { screen_width: 0, screen_height: 0, scale_factor: SCALE as u64 }),
            r@.unassigned == seq![device::Id::Mouse, device::Id::Keyboard],
            r@.assigned == Seq::<(device::Id, UserId)>::empty(),
            r@.disconnected == Seq::<(device::Id, UserId)>::empty(),
            r@.users == Seq::<UserSlotModel>::empty(),
    {
        let mut unassigned: Vec<device::Id> = Vec::new();
        unassigned.push(device::Id::Mouse);
        unassigned.push(device::Id::Keyboard);
        let r = DeviceCache {
            consts: Consts::default(),
            unassigned_devices: unassigned,
            assigned_devices: Vec::new(),
            disconnected_devices: Vec::new(),
            users: Vec::new(),
        };
        proof {
            assert(r@.unassigned =~= seq![device::Id::Mouse, device::Id::Keyboard]);
            assert(r@.assigned =~= Seq::<(device::Id, UserId)>::empty());
            assert(r@.disconnected =~= Seq::<(device::Id, UserId)>::empty());
            assert(r@.users =~= Seq::<UserSlotModel>::empty());
        }
        r
    }
}

impl DeviceCache {
    /// Register a user the registry can assign devices to, under the
    /// returned id; events for the user's devices go to the sender.
    pub fn add_user(&mut self, sender: InputSender) -> (r: UserId)
        ensures
            r as int == old(self)@.users.len(),
            final(self)@.users == old(self)@.users.push(
                UserSlotModel { devices: Seq::empty() },
            ),
            final(self)@.consts == old(self)@.consts,
            final(self)@.unassigned == old(self)@.unassigned,
            final(self)@.assigned == old(self)@.assigned,
            final(self)@.disconnected == old(self)@.disconnected,
    {
        let r = self.users.len();
        self.users.push(UserSlot { sender, devices: Vec::new() });
        proof {
            assert(final(self)@.users =~= old(self)@.users.push(
                UserSlotModel { devices: Seq::empty() },
            ));
        }
        r
    }

    /// Assign a device to the user: record the pair and add the device
    /// to the user's set.
    fn assign_device(&mut self, user: UserId, d: device::Id)
        requires
            user < old(self).users@.len(),
        ensures
            final(self)@ == assign_device_spec(old(self)@, user as int, d),
    {
        let slot = vstd::std_specs::vec::vec_index_mut(&mut self.users, user);
        slot.devices.push(d);
        self.assigned_devices.push((d, user));
        proof {
            assert(final(self)@.users =~= assign_device_spec(old(self)@, user as int, d).users);
            assert(final(self)@ =~= assign_device_spec(old(self)@, user as int, d));
        }
    }

    /// Connect a gamepad. One that previously disconnected from a user
    /// who is still gamepad-less goes straight back to that user; any
    /// other newly seen gamepad queues for [`Self::update`] to assign.
    pub fn connect_gamepad(&mut self, kind: GamepadKind, number: usize)
        ensures
            final(self)@ == connect_gamepad_spec(old(self)@, kind, number),
    {
        let d = device::Id::Gamepad(kind, number);
        if let Some(_) = lookup_device(&self.assigned_devices, d) {
            return;
        }
        let prior = lookup_device(&self.disconnected_devices, d);
        let mut disconnected = Vec::new();
        core::mem::swap(&mut disconnected, &mut self.disconnected_devices);
        self.disconnected_devices = remove_device_entries(disconnected, d);
        if let Some(u) = prior {
            if u < self.users.len() {
                if !vec_has_gamepad(&self.users[u].devices) {
                    self.assign_device(u, d);
                    return;
                }
            }
        }
        if !list_contains(&self.unassigned_devices, d) {
            self.unassigned_devices.push(d);
        }
    }

    /// Disconnect a gamepad: an assigned one leaves its owner's set and
    /// is remembered with that owner; disconnecting twice is a no-op.
    pub fn disconnect_gamepad(&mut self, kind: GamepadKind, number: usize)
        ensures
            final(self)@ == disconnect_gamepad_spec(old(self)@, kind, number),
    {
        let d = device::Id::Gamepad(kind, number);
        match lookup_device(&self.assigned_devices, d) {
            Some(u) => {
                let mut assigned = Vec::new();
                core::mem::swap(&mut assigned, &mut self.assigned_devices);
                self.assigned_devices = remove_device_entries(assigned, d);
                if u < self.users.len() {
                    let slot = vstd::std_specs::vec::vec_index_mut(&mut self.users, u);
                    let mut devices = Vec::new();
                    core::mem::swap(&mut devices, &mut slot.devices);
                    slot.devices = remove_device_list(devices, d);
                }
                self.disconnected_devices.push((d, u));
                proof {
                    assert(final(self)@.users =~= disconnect_gamepad_spec(
                        old(self)@,
                        kind,
                        number,
                    ).users);
                    assert(final(self)@ =~= disconnect_gamepad_spec(old(self)@, kind, number));
                }
            },
            None => {
                let mut unassigned = Vec::new();
                core::mem::swap(&mut unassigned, &mut self.unassigned_devices);
                self.unassigned_devices = remove_device_list(unassigned, d);
                proof {
                    assert(final(self)@ =~= disconnect_gamepad_spec(old(self)@, kind, number));
                }
            },
        }
    }

    /// One pass over the unassigned queue: the mouse and the keyboard
    /// go to the first user, a gamepad goes to the first user without
    /// one, and whatever nobody can take queues again.
    fn assign_unused_devices(&mut self)
        ensures
            final(self)@ == assign_unused_spec(old(self)@),
    {
        let mut pending: Vec<device::Id> = Vec::new();
        core::mem::swap(&mut pending, &mut self.unassigned_devices);
        let ghost m0 = self@;
        let n = pending.len();
        let mut k: usize = 0;
        while k < n
            invariant
                k <= n,
                n == pending@.len(),
                assign_pending_spec(m0, pending@, 0) == assign_pending_spec(
                    self@,
                    pending@,
                    k as int,
                ),
            decreases n - k,
        {
            let d = pending[k];
            let ghost before = self@;
            match d {
                device::Id::Mouse | device::Id::Keyboard => {
                    if self.users.len() > 0 {
                        self.assign_device(0, d);
                    } else {
                        self.unassigned_devices.push(d);
                        proof {
                            assert(self@ =~= (CacheModel {
                                unassigned: before.unassigned.push(d),
                                ..before
                            }));
                        }
                    }
                },
                device::Id::Gamepad(_, _) => {
                    let t = gamepad_target(&self.users);
                    if t < self.users.len() {
                        self.assign_device(t, d);
                    } else {
                        self.unassigned_devices.push(d);
                        proof {
                            assert(self@ =~= (CacheModel {
                                unassigned: before.unassigned.push(d),
                                ..before
                            }));
                        }
                    }
                },
            }
            proof {
                lemma_first_user_bounds(before.users, 0);
                assert(assign_pending_spec(before, pending@, k as int) == assign_pending_spec(
                    self@,
                    pending@,
                    k + 1,
                ));
            }
            k = k + 1;
        }
        proof {
            assert(final(self)@ == self@);
        }
    }

    /// Run the assignment pass; call this once per frame.
    pub fn update(&mut self)
        ensures
            final(self)@ == assign_unused_spec(old(self)@),
    {
        self.assign_unused_devices();
    }

    /// The ids of the users the registry knows, in order.
    pub fn users(&self) -> (r: Vec<UserId>)
        ensures
            r@.len() == self@.users.len(),
            forall|i: int| 0 <= i < r@.len() ==> #[trigger] r@[i] == i,
    {
        let n = self.users.len();
        let mut out: Vec<UserId> = Vec::new();
        let mut i: usize = 0;
        while i < n
            invariant
                i <= n,
                out@.len() == i,
                forall|j: int| 0 <= j < i ==> #[trigger] out@[j] == j,
            decreases n - i,
        {
            out.push(i);
            i = i + 1;
        }
        out
    }

    /// The current screen constants.
    pub fn consts(&self) -> (r: Consts)
        ensures
            r == self@.consts,
    {
        self.consts
    }

    /// The platform fan-out of one input event: the event itself plus
    /// the synthetic confirm or deny event its face button implies.
    pub fn parse_input_event(
        &self,
        event: (device::Id, binding::Source, event::State),
    ) -> (r: Vec<(device::Id, binding::Source, event::State)>)
        ensures
            r@ == fanout_spec(event.0, event.1, event.2),
    {
        let mut out: Vec<(device::Id, binding::Source, event::State)> = Vec::new();
        out.push(event);
        match event.1 {
            binding::Source::Gamepad(kind, binding::Gamepad::Button(source::Button::FaceBottom)) => {
                out.push(
                    (
                        event.0,
                        binding::Source::Gamepad(
                            kind,
                            binding::Gamepad::Button(source::Button::VirtualConfirm),
                        ),
                        event.2,
                    ),
                );
            },
            binding::Source::Gamepad(kind, binding::Gamepad::Button(source::Button::FaceRight)) => {
                out.push(
                    (
                        event.0,
                        binding::Source::Gamepad(
                            kind,
                            binding::Gamepad::Button(source::Button::VirtualDeny),
                        ),
                        event.2,
                    ),
                );
            },
            _ => {},
        }
        proof {
            assert(out@ =~= fanout_spec(event.0, event.1, event.2));
        }
        out
    }

    /// Fan an input event out and enqueue each resulting event with the
    /// user owning its device; events for unowned devices are dropped,
    /// as is anything a closed queue refuses.
    fn send_device_event(&self, event: (device::Id, binding::Source, event::State)) {
        let routed = self.parse_input_event(event);
        let n = routed.len();
        let mut i: usize = 0;
        while i < n
            invariant
                i <= n,
                n == routed@.len(),
            decreases n - i,
        {
            let (device_id, src, st) = routed[i];
            if let Some(u) = lookup_device(&self.assigned_devices, device_id) {
                if u < self.users.len() {
                    let _ = event::send_input(&self.users[u].sender, src, st);
                }
            }
            i = i + 1;
        }
    }

    /// Send an event to the system: a window event updates the screen
    /// constants; an input event is fanned out and enqueued with the
    /// user owning its device. Gamepad connection is reported through
    /// [`Self::connect_gamepad`] and [`Self::disconnect_gamepad`];
    /// mouse and keyboard events come from the platform layer.
    pub fn send_event(&mut self, event: event::Event)
        ensures
            final(self)@ == send_event_spec(old(self)@, event),
    {
        match event {
            event::Event::Window(event::WindowEvent::ResolutionChanged(w, h)) => {
                self.consts.screen_width = logical_size(w, self.consts.scale_factor);
                self.consts.screen_height = logical_size(h, self.consts.scale_factor);
                proof {
                    assert(final(self)@ =~= send_event_spec(old(self)@, event));
                }
            },
            event::Event::Window(event::WindowEvent::ScaleFactorChanged(w, h, sf)) => {
                self.consts.scale_factor = sf;
                self.consts.screen_width = logical_size(w, sf);
                self.consts.screen_height = logical_size(h, sf);
                proof {
                    assert(final(self)@ =~= send_event_spec(old(self)@, event));
                }
            },
            event::Event::Input(device_id, src, st) => {
                self.send_device_event((device_id, src, st));
                proof {
                    assert(final(self)@ =~= send_event_spec(old(self)@, event));
                }
            },
        }
    }
}

} // verus!

verus! {

/// The registry invariant. Each connected device is recorded once; its
/// owner is a real user whose device set holds it, and every device in
/// a user's set is recorded as assigned to exactly that user. Waiting
/// and remembered devices are not assigned, are recorded once, and do
/// not overlap.
///
/// A fresh registry satisfies it ([`lemma_initial_cache_wf`]), and every
/// transition preserves it ([`lemma_add_user_preserves_wf`],
/// [`lemma_connect_preserves_wf`], [`lemma_disconnect_preserves_wf`],
/// [`lemma_assign_unused_preserves_wf`],
/// [`lemma_send_event_preserves_wf`]), so it holds at any time; under it
/// a device is owned by at most one user
/// ([`lemma_device_owned_by_at_most_one_user`]).
pub open spec fn cache_wf(m: CacheModel) -> bool {
    &&& m.users.len() <= usize::MAX
    &&& forall|i: int, j: int|
        0 <= i < j < m.assigned.len() ==> (#[trigger] m.assigned[i]).0 != (
        #[trigger] m.assigned[j]).0
    &&& forall|i: int|
        0 <= i < m.assigned.len() ==> (#[trigger] m.assigned[i]).1 < m.users.len()
    &&& forall|i: int|
        0 <= i < m.assigned.len() ==> m.users[(#[trigger] m.assigned[i]).1 as int].devices.contains(
            m.assigned[i].0,
        )
    &&& forall|u: int, j: int|
        0 <= u < m.users.len() && 0 <= j < m.users[u].devices.len() ==> keyed::lookup(
            m.assigned,
            #[trigger] m.users[u].devices[j],
        ) == Some(u as UserId)
    &&& forall|i: int|
        0 <= i < m.unassigned.len() ==> keyed::lookup(
            m.assigned,
            #[trigger] m.unassigned[i],
        ) is None
    &&& forall|i: int, j: int|
        0 <= i < j < m.unassigned.len() ==> #[trigger] m.unassigned[i] != #[trigger] m.unassigned[j]
    &&& forall|i: int|
        0 <= i < m.unassigned.len() ==> keyed::lookup(
            m.disconnected,
            #[trigger] m.unassigned[i],
        ) is None
    &&& forall|i: int, j: int|
        0 <= i < j < m.disconnected.len() ==> (#[trigger] m.disconnected[i]).0 != (
        #[trigger] m.disconnected[j]).0
    &&& forall|i: int|
        0 <= i < m.disconnected.len() ==> keyed::lookup(
            m.assigned,
            (#[trigger] m.disconnected[i]).0,
        ) is None
    &&& forall|i: int|
        0 <= i < m.disconnected.len() ==> (#[trigger] m.disconnected[i]).1 < m.users.len()
}

/// In a well-formed registry a device is owned by at most one user:
/// whenever two users' device sets both hold a device, they are the
/// same user.
pub proof fn lemma_device_owned_by_at_most_one_user(
    m: CacheModel,
    d: device::Id,
    u1: UserId,
    u2: UserId,
)
    requires
        cache_wf(m),
        u1 < m.users.len(),
        u2 < m.users.len(),
        m.users[u1 as int].devices.contains(d),
        m.users[u2 as int].devices.contains(d),
    ensures
        u1 == u2,
{
    let devs1 = m.users[u1 as int].devices;
    let devs2 = m.users[u2 as int].devices;
    let j1 = choose|j: int| 0 <= j < devs1.len() && devs1[j] == d;
    let j2 = choose|j: int| 0 <= j < devs2.len() && devs2[j] == d;
    assert(keyed::lookup(m.assigned, m.users[u1 as int].devices[j1]) == Some(u1));
    assert(keyed::lookup(m.assigned, m.users[u2 as int].devices[j2]) == Some(u2));
}

/// In a well-formed registry, a pair in the assigned list is what the
/// lookup finds for its device.
proof fn lemma_assigned_lookup_at(m: CacheModel, i: int)
    requires
        cache_wf(m),
        0 <= i < m.assigned.len(),
    ensures
        keyed::lookup(m.assigned, m.assigned[i].0) == Some(m.assigned[i].1),
{
    let d = m.assigned[i].0;
    let u = m.assigned[i].1;
    assert(m.users[u as int].devices.contains(d));
    let devs = m.users[u as int].devices;
    let j = choose|j: int| 0 <= j < devs.len() && devs[j] == d;
    assert(keyed::lookup(m.assigned, m.users[u as int].devices[j]) == Some(u));
}

/// Disconnecting a gamepad and reconnecting the same gamepad, with its
/// former owner still gamepad-less, reassigns it to the same owner.
pub proof fn lemma_gamepad_returns_to_former_owner(
    m: CacheModel,
    kind: GamepadKind,
    number: usize,
)
    requires
        cache_wf(m),
        owner_of(m, device::Id::Gamepad(kind, number)) is Some,
        ({
            let d = device::Id::Gamepad(kind, number);
            let u = owner_of(m, d)->0;
            let after = disconnect_gamepad_spec(m, kind, number);
            !has_gamepad(after.users[u as int].devices)
        }),
    ensures
        ({
            let d = device::Id::Gamepad(kind, number);
            let u = owner_of(m, d)->0;
            let after = connect_gamepad_spec(disconnect_gamepad_spec(m, kind, number), kind, number);
            owner_of(after, d) == Some(u) && after.users[u as int].devices.contains(d)
        }),
{
    let d = device::Id::Gamepad(kind, number);
    let u = owner_of(m, d)->0;
    let m1 = disconnect_gamepad_spec(m, kind, number);
    keyed::lemma_find_lookup(m.assigned, 0, d);
    assert(u < m.users.len());
    assert(m1.users.len() == m.users.len());
    keyed::lemma_lookup_remove_key(m.assigned, d, d);
    assert(keyed::lookup(m1.assigned, d) is None);
    keyed::lemma_lookup_push(m.disconnected, (d, u), d, 0);
    keyed::lemma_lookup_from_none(m.disconnected, 0, d);
    assert(keyed::lookup(m1.disconnected, d) == Some(u));
    let m2 = connect_gamepad_spec(m1, kind, number);
    let m15 = CacheModel { disconnected: keyed::remove_key(m1.disconnected, d), ..m1 };
    assert(m2 == assign_device_spec(m15, u as int, d));
    keyed::lemma_lookup_push(m15.assigned, (d, u), d, 0);
    assert(keyed::lookup(m2.assigned, d) == Some(u));
    assert(m2.users[u as int].devices == m15.users[u as int].devices.push(d));
    let devs2 = m2.users[u as int].devices;
    assert(devs2[devs2.len() - 1] == d);
    assert(devs2.contains(d));
}

} // verus!

verus! {

/// A device is in the list with one removed exactly when it is in the
/// original, from the same point on, and is not the removed one.
proof fn lemma_remove_device_membership(s: Seq<device::Id>, i: int, d: device::Id, x: device::Id)
    requires
        0 <= i <= s.len(),
    ensures
        remove_device_from(s, i, d).contains(x) <==> (exists|j: int|
            i <= j < s.len() && s[j] == x) && x != d,
    decreases s.len() - i,
{
    if i < s.len() {
        lemma_remove_device_membership(s, i + 1, d, x);
        let rest = remove_device_from(s, i + 1, d);
        if s[i] != d {
            let cat = seq![s[i]] + rest;
            assert(cat[0] == s[i]);
            assert(forall|j: int| 0 <= j < rest.len() ==> cat[j + 1] == #[trigger] rest[j]);
            if x != d && (exists|j: int| i <= j < s.len() && s[j] == x) {
                let j = choose|j: int| i <= j < s.len() && s[j] == x;
                if j == i {
                    assert(cat.contains(x));
                } else {
                    assert(rest.contains(x));
                    let q = choose|q: int| 0 <= q < rest.len() && rest[q] == x;
                    assert(cat[q + 1] == x);
                }
            }
            if cat.contains(x) {
                let q = choose|q: int| 0 <= q < cat.len() && cat[q] == x;
                if q == 0 {
                    assert(s[i] == x);
                } else {
                    assert(rest[q - 1] == x);
                    assert(rest.contains(x));
                }
            }
        }
    }
}

/// Removing a device that never occurs past `i` changes nothing there.
proof fn lemma_remove_device_clean(s: Seq<device::Id>, i: int, d: device::Id)
    requires
        0 <= i <= s.len(),
        forall|j: int| i <= j < s.len() ==> #[trigger] s[j] != d,
    ensures
        remove_device_from(s, i, d) == s.subrange(i, s.len() as int),
    decreases s.len() - i,
{
    if i < s.len() {
        lemma_remove_device_clean(s, i + 1, d);
        assert(remove_device_from(s, i, d) =~= s.subrange(i, s.len() as int));
    } else {
        assert(remove_device_from(s, i, d) =~= s.subrange(i, s.len() as int));
    }
}

/// When the devices are pairwise distinct, removing one is removing the
/// pair at its index, and the rest keep their relative order.
proof fn lemma_remove_device_at_unique(s: Seq<device::Id>, i: int, d: device::Id)
    requires
        0 <= i < s.len(),
        s[i] == d,
        forall|a: int, b: int| 0 <= a < b < s.len() ==> #[trigger] s[a] != #[trigger] s[b],
    ensures
        remove_device(s, d) == s.remove(i),
{
    lemma_remove_device_split(s, 0, i, d);
    lemma_remove_device_clean(s, i + 1, d);
    assert(remove_device(s, d) =~= s.remove(i));
}

/// Up to the device's index, removal keeps every entry.
proof fn lemma_remove_device_split(s: Seq<device::Id>, j: int, i: int, d: device::Id)
    requires
        0 <= j <= i < s.len(),
        s[i] == d,
        forall|a: int, b: int| 0 <= a < b < s.len() ==> #[trigger] s[a] != #[trigger] s[b],
    ensures
        remove_device_from(s, j, d) == s.subrange(j, i) + remove_device_from(s, i + 1, d),
    decreases i - j,
{
    if j < i {
        lemma_remove_device_split(s, j + 1, i, d);
        assert(s[j] != d);
        assert(remove_device_from(s, j, d) =~= s.subrange(j, i) + remove_device_from(s, i + 1, d));
    } else {
        assert(s.subrange(i, i) =~= Seq::<device::Id>::empty());
        assert(remove_device_from(s, i, d) =~= s.subrange(i, i) + remove_device_from(s, i + 1, d));
    }
}

/// The freshly built registry is well-formed.
pub proof fn lemma_initial_cache_wf(m: CacheModel)
    requires
        m.unassigned == seq![device::Id::Mouse, device::Id::Keyboard],
        m.assigned == Seq::<(device::Id, UserId)>::empty(),
        m.disconnected == Seq::<(device::Id, UserId)>::empty(),
        m.users == Seq::<UserSlotModel>::empty(),
    ensures
        cache_wf(m),
{
}

/// Adding a user preserves the registry invariant.
pub proof fn lemma_add_user_preserves_wf(m: CacheModel)
    requires
        cache_wf(m),
        m.users.len() < usize::MAX,
    ensures
        cache_wf(
            CacheModel { users: m.users.push(UserSlotModel { devices: Seq::empty() }), ..m },
        ),
{
    let m2 = CacheModel { users: m.users.push(UserSlotModel { devices: Seq::empty() }), ..m };
    assert(forall|i: int|
        0 <= i < m2.assigned.len() ==> m2.users[(#[trigger] m2.assigned[i]).1 as int] == m.users[(
        m.assigned[i].1) as int]);
    assert(forall|u: int|
        0 <= u < m.users.len() ==> #[trigger] m2.users[u] == m.users[u]);
}

/// Assigning an unowned, unqueued, unremembered device to a real user
/// preserves the registry invariant.
pub proof fn lemma_assign_device_preserves_wf(m: CacheModel, u: int, d: device::Id)
    requires
        cache_wf(m),
        0 <= u < m.users.len(),
        u <= usize::MAX,
        keyed::lookup(m.assigned, d) is None,
        !m.unassigned.contains(d),
        keyed::lookup(m.disconnected, d) is None,
    ensures
        cache_wf(assign_device_spec(m, u, d)),
{
    let m2 = assign_device_spec(m, u, d);
    keyed::lemma_lookup_from_none(m.assigned, 0, d);
    keyed::lemma_lookup_from_none(m.disconnected, 0, d);
    // ownership lists: pushed and updated entries still contain their devices
    assert forall|i: int| 0 <= i < m2.assigned.len() implies m2.users[(
    #[trigger] m2.assigned[i]).1 as int].devices.contains(m2.assigned[i].0) by {
        if i < m.assigned.len() {
            assert(m2.assigned[i] == m.assigned[i]);
            let owner = m.assigned[i].1 as int;
            let dev = m.assigned[i].0;
            assert(0 <= owner < m.users.len());
            assert(m.users[owner].devices.contains(dev));
            let devs = m.users[owner].devices;
            let j = choose|j: int| 0 <= j < devs.len() && devs[j] == dev;
            if owner == u {
                assert(m2.users[owner].devices == devs.push(d));
                assert(m2.users[owner].devices[j] == dev);
            } else {
                assert(m2.users[owner] == m.users[owner]);
                assert(m2.users[owner].devices[j] == dev);
            }
            assert(m2.users[owner].devices.contains(dev));
        } else {
            assert(m2.assigned[i] == (d, u as UserId));
            let devs2 = m2.users[u].devices;
            assert(devs2 == m.users[u].devices.push(d));
            assert(devs2[devs2.len() - 1] == d);
            assert(devs2.contains(d));
        }
    }
    // every listed device still looks up to its user
    assert forall|u2: int, j: int|
        0 <= u2 < m2.users.len() && 0 <= j < m2.users[u2].devices.len() implies keyed::lookup(
        m2.assigned,
        #[trigger] m2.users[u2].devices[j],
    ) == Some(u2 as UserId) by {
        let dev = m2.users[u2].devices[j];
        keyed::lemma_lookup_push(m.assigned, (d, u as UserId), dev, 0);
        if u2 == u && j == m.users[u].devices.len() {
            assert(dev == d);
        } else {
            assert(dev == m.users[u2].devices[j]);
            assert(keyed::lookup(m.assigned, dev) == Some(u2 as UserId));
        }
    }
    // waiting and remembered devices stay unassigned
    assert forall|i: int| 0 <= i < m2.unassigned.len() implies keyed::lookup(
        m2.assigned,
        #[trigger] m2.unassigned[i],
    ) is None by {
        keyed::lemma_lookup_push(m.assigned, (d, u as UserId), m2.unassigned[i], 0);
        assert(m.unassigned[i] != d);
    }
    assert forall|i: int| 0 <= i < m2.disconnected.len() implies keyed::lookup(
        m2.assigned,
        (#[trigger] m2.disconnected[i]).0,
    ) is None by {
        keyed::lemma_lookup_push(m.assigned, (d, u as UserId), m2.disconnected[i].0, 0);
    }
}

} // verus!

verus! {

/// Forgetting one remembered device preserves the registry invariant.
proof fn lemma_forget_disconnected_preserves_wf(m: CacheModel, d: device::Id)
    requires
        cache_wf(m),
    ensures
        cache_wf(CacheModel { disconnected: keyed::remove_key(m.disconnected, d), ..m }),
        keyed::lookup(keyed::remove_key(m.disconnected, d), d) is None,
        forall|x: device::Id|
            x != d ==> keyed::lookup(keyed::remove_key(m.disconnected, d), x) == keyed::lookup(
                m.disconnected,
                x,
            ),
{
    let m2 = CacheModel { disconnected: keyed::remove_key(m.disconnected, d), ..m };
    keyed::lemma_find_lookup(m.disconnected, 0, d);
    if keyed::lookup(m.disconnected, d) is Some {
        let i = keyed::find_from(m.disconnected, 0, d);
        keyed::lemma_remove_at_unique(m.disconnected, i, d);
        assert(forall|a: int|
            0 <= a < m2.disconnected.len() ==> #[trigger] m2.disconnected[a] == if a < i {
                m.disconnected[a]
            } else {
                m.disconnected[a + 1]
            });
    } else {
        keyed::lemma_lookup_from_none(m.disconnected, 0, d);
        keyed::lemma_remove_key_absent(m.disconnected, d);
    }
    assert forall|x: device::Id| true implies keyed::lookup(m2.disconnected, x) == if x == d {
        None::<UserId>
    } else {
        keyed::lookup(m.disconnected, x)
    } by {
        keyed::lemma_lookup_remove_key(m.disconnected, d, x);
    }
}

/// Connecting a gamepad preserves the registry invariant.
pub proof fn lemma_connect_preserves_wf(m: CacheModel, kind: GamepadKind, number: usize)
    requires
        cache_wf(m),
    ensures
        cache_wf(connect_gamepad_spec(m, kind, number)),
{
    let d = device::Id::Gamepad(kind, number);
    if keyed::lookup(m.assigned, d) is Some {
    } else {
        let prior = keyed::lookup(m.disconnected, d);
        lemma_forget_disconnected_preserves_wf(m, d);
        let m1 = CacheModel { disconnected: keyed::remove_key(m.disconnected, d), ..m };
        if prior matches Some(u) && u < m.users.len() && !has_gamepad(m.users[u as int].devices) {
            let u = prior->0;
            keyed::lemma_find_lookup(m.disconnected, 0, d);
            if m.unassigned.contains(d) {
                let j = choose|j: int| 0 <= j < m.unassigned.len() && m.unassigned[j] == d;
                assert(keyed::lookup(m.disconnected, m.unassigned[j]) is None);
                assert(false);
            }
            lemma_assign_device_preserves_wf(m1, u as int, d);
        } else if !m.unassigned.contains(d) {
            let m2 = CacheModel { unassigned: m1.unassigned.push(d), ..m1 };
            assert forall|i: int| 0 <= i < m2.unassigned.len() implies keyed::lookup(
                m2.assigned,
                #[trigger] m2.unassigned[i],
            ) is None by {
                if i < m.unassigned.len() {
                    assert(m2.unassigned[i] == m.unassigned[i]);
                }
            }
            assert forall|i: int| 0 <= i < m2.unassigned.len() implies keyed::lookup(
                m2.disconnected,
                #[trigger] m2.unassigned[i],
            ) is None by {
                if i < m.unassigned.len() {
                    assert(m2.unassigned[i] == m.unassigned[i]);
                    assert(keyed::lookup(m.disconnected, m.unassigned[i]) is None);
                }
            }
            assert forall|i: int, j: int| 0 <= i < j < m2.unassigned.len() implies (
            #[trigger] m2.unassigned[i]) != (#[trigger] m2.unassigned[j]) by {
                if j < m.unassigned.len() {
                } else {
                    assert(m2.unassigned[j] == d);
                    assert(m2.unassigned[i] == m.unassigned[i]);
                    if m.unassigned[i] == d {
                        assert(m.unassigned.contains(d));
                    }
                }
            }
        }
    }
}

/// Disconnecting a gamepad preserves the registry invariant.
pub proof fn lemma_disconnect_preserves_wf(m: CacheModel, kind: GamepadKind, number: usize)
    requires
        cache_wf(m),
    ensures
        cache_wf(disconnect_gamepad_spec(m, kind, number)),
{
    let d = device::Id::Gamepad(kind, number);
    let m2 = disconnect_gamepad_spec(m, kind, number);
    match keyed::lookup(m.assigned, d) {
        Some(u) => {
            keyed::lemma_find_lookup(m.assigned, 0, d);
            let di = keyed::find_from(m.assigned, 0, d);
            assert(m.assigned[di] == (d, u));
            assert(u < m.users.len());
            keyed::lemma_remove_at_unique(m.assigned, di, d);
            assert(forall|a: int|
                0 <= a < m2.assigned.len() ==> #[trigger] m2.assigned[a] == if a < di {
                    m.assigned[a]
                } else {
                    m.assigned[a + 1]
                });
            assert forall|x: device::Id| true implies keyed::lookup(m2.assigned, x) == if x == d {
                None::<UserId>
            } else {
                keyed::lookup(m.assigned, x)
            } by {
                keyed::lemma_lookup_remove_key(m.assigned, d, x);
            }
            // each remaining assignment still has its device in its owner's set
            assert forall|i: int| 0 <= i < m2.assigned.len() implies m2.users[(
            #[trigger] m2.assigned[i]).1 as int].devices.contains(m2.assigned[i].0) by {
                let owner = m2.assigned[i].1 as int;
                let dev = m2.assigned[i].0;
                assert(keyed::lookup(m2.assigned, dev) is Some);
                assert(dev != d);
                assert(m.users[owner].devices.contains(dev));
                let devs = m.users[owner].devices;
                let j = choose|j: int| 0 <= j < devs.len() && devs[j] == dev;
                if owner == u as int {
                    lemma_remove_device_membership(devs, 0, d, dev);
                    assert(m2.users[owner].devices.contains(dev));
                } else {
                    assert(m2.users[owner] == m.users[owner]);
                }
            }
            // each listed device still looks up to its user
            assert forall|u2: int, j: int|
                0 <= u2 < m2.users.len() && 0 <= j < m2.users[u2].devices.len() implies
                keyed::lookup(m2.assigned, #[trigger] m2.users[u2].devices[j]) == Some(
                u2 as UserId,
            ) by {
                let dev = m2.users[u2].devices[j];
                if u2 == u as int {
                    lemma_remove_device_membership(m.users[u2].devices, 0, d, dev);
                    assert(m2.users[u2].devices.contains(dev));
                    assert(m.users[u2].devices.contains(dev) && dev != d);
                    let devs = m.users[u2].devices;
                    let q = choose|q: int| 0 <= q < devs.len() && devs[q] == dev;
                    assert(keyed::lookup(m.assigned, devs[q]) == Some(u2 as UserId));
                } else {
                    assert(m2.users[u2] == m.users[u2]);
                    assert(keyed::lookup(m.assigned, dev) == Some(u2 as UserId));
                }
            }
            // the remembered list gains the device once
            assert forall|i: int, j: int| 0 <= i < j < m2.disconnected.len() implies (
            #[trigger] m2.disconnected[i]).0 != (#[trigger] m2.disconnected[j]).0 by {
                if j == m.disconnected.len() {
                    assert(m2.disconnected[j] == (d, u));
                    assert(m2.disconnected[i] == m.disconnected[i]);
                    assert(keyed::lookup(m.assigned, m.disconnected[i].0) is None);
                }
            }
            assert forall|i: int| 0 <= i < m2.disconnected.len() implies keyed::lookup(
                m2.assigned,
                (#[trigger] m2.disconnected[i]).0,
            ) is None by {
                keyed::lemma_lookup_remove_key(m.assigned, d, m2.disconnected[i].0);
                if i < m.disconnected.len() {
                    assert(m2.disconnected[i] == m.disconnected[i]);
                } else {
                    assert(m2.disconnected[i] == (d, u));
                }
            }
            assert forall|i: int| 0 <= i < m2.unassigned.len() implies keyed::lookup(
                m2.disconnected,
                #[trigger] m2.unassigned[i],
            ) is None by {
                keyed::lemma_lookup_push(m.disconnected, (d, u), m2.unassigned[i], 0);
                assert(keyed::lookup(m.assigned, m.unassigned[i]) is None);
            }
            assert forall|i: int| 0 <= i < m2.unassigned.len() implies keyed::lookup(
                m2.assigned,
                #[trigger] m2.unassigned[i],
            ) is None by {
                keyed::lemma_lookup_remove_key(m.assigned, d, m2.unassigned[i]);
            }
        },
        None => {
            keyed::lemma_lookup_from_none(m.assigned, 0, d);
            if m.unassigned.contains(d) {
                let i = choose|i: int| 0 <= i < m.unassigned.len() && m.unassigned[i] == d;
                lemma_remove_device_at_unique(m.unassigned, i, d);
                assert(forall|a: int|
                    0 <= a < m2.unassigned.len() ==> #[trigger] m2.unassigned[a] == if a < i {
                        m.unassigned[a]
                    } else {
                        m.unassigned[a + 1]
                    });
            } else {
                assert(forall|j: int| 0 <= j < m.unassigned.len() ==> #[trigger] m.unassigned[j] != d);
                lemma_remove_device_clean(m.unassigned, 0, d);
                assert(m.unassigned.subrange(0, m.unassigned.len() as int) =~= m.unassigned);
            }
        },
    }
}

} // verus!

verus! {

/// One pass handing out pending devices preserves the registry
/// invariant, provided the pending devices are unowned, unqueued,
/// unremembered, and pairwise distinct from `k` on.
proof fn lemma_assign_pending_preserves_wf(m: CacheModel, pending: Seq<device::Id>, k: int)
    requires
        cache_wf(m),
        0 <= k <= pending.len(),
        forall|j: int|
            k <= j < pending.len() ==> keyed::lookup(m.assigned, #[trigger] pending[j]) is None,
        forall|j: int| k <= j < pending.len() ==> !m.unassigned.contains(#[trigger] pending[j]),
        forall|j: int|
            k <= j < pending.len() ==> keyed::lookup(m.disconnected, #[trigger] pending[j]) is None,
        forall|a: int, b: int|
            k <= a < b < pending.len() ==> #[trigger] pending[a] != #[trigger] pending[b],
    ensures
        cache_wf(assign_pending_spec(m, pending, k)),
    decreases pending.len() - k,
{
    if k < pending.len() {
        let d = pending[k];
        let target: int = match d {
            device::Id::Mouse | device::Id::Keyboard => if m.users.len() > 0 {
                0
            } else {
                -1
            },
            device::Id::Gamepad(_, _) => first_user_without_gamepad(m.users, 0),
        };
        lemma_first_user_bounds(m.users, 0);
        let m2 = if target >= 0 {
            assign_device_spec(m, target, d)
        } else {
            CacheModel { unassigned: m.unassigned.push(d), ..m }
        };
        if target >= 0 {
            lemma_assign_device_preserves_wf(m, target, d);
            assert forall|j: int| k + 1 <= j < pending.len() implies keyed::lookup(
                m2.assigned,
                #[trigger] pending[j],
            ) is None by {
                keyed::lemma_lookup_push(m.assigned, (d, target as UserId), pending[j], 0);
            }
        } else {
            assert forall|i: int| 0 <= i < m2.unassigned.len() implies keyed::lookup(
                m2.assigned,
                #[trigger] m2.unassigned[i],
            ) is None by {
                if i < m.unassigned.len() {
                    assert(m2.unassigned[i] == m.unassigned[i]);
                } else {
                    assert(m2.unassigned[i] == d);
                }
            }
            assert forall|i: int| 0 <= i < m2.unassigned.len() implies keyed::lookup(
                m2.disconnected,
                #[trigger] m2.unassigned[i],
            ) is None by {
                if i < m.unassigned.len() {
                    assert(m2.unassigned[i] == m.unassigned[i]);
                } else {
                    assert(m2.unassigned[i] == d);
                }
            }
            assert forall|i: int, j: int| 0 <= i < j < m2.unassigned.len() implies (
            #[trigger] m2.unassigned[i]) != (#[trigger] m2.unassigned[j]) by {
                if j == m.unassigned.len() {
                    assert(m2.unassigned[j] == d);
                    assert(m2.unassigned[i] == m.unassigned[i]);
                    if m.unassigned[i] == d {
                        assert(m.unassigned.contains(d));
                    }
                }
            }
            assert forall|j: int| k + 1 <= j < pending.len() implies !m2.unassigned.contains(
                #[trigger] pending[j],
            ) by {
                if m2.unassigned.contains(pending[j]) {
                    let q = choose|q: int|
                        0 <= q < m2.unassigned.len() && m2.unassigned[q] == pending[j];
                    if q < m.unassigned.len() {
                        assert(m.unassigned.contains(pending[j]));
                    } else {
                        assert(pending[j] == d);
                    }
                }
            }
        }
        lemma_assign_pending_preserves_wf(m2, pending, k + 1);
    }
}

/// The assignment pass preserves the registry invariant.
pub proof fn lemma_assign_unused_preserves_wf(m: CacheModel)
    requires
        cache_wf(m),
    ensures
        cache_wf(assign_unused_spec(m)),
{
    let m0 = CacheModel { unassigned: Seq::empty(), ..m };
    assert(cache_wf(m0));
    lemma_assign_pending_preserves_wf(m0, m.unassigned, 0);
}

/// Sending an event preserves the registry invariant: only the screen
/// constants can change.
pub proof fn lemma_send_event_preserves_wf(m: CacheModel, event: event::Event)
    requires
        cache_wf(m),
    ensures
        cache_wf(send_event_spec(m, event)),
{
}

} // verus!
