pub mod math;

pub mod keyed;

pub mod source;

pub mod device;

pub mod binding;

pub mod event;

pub mod action;

mod controller;
pub use controller::ControllerKind;

pub mod grouping;

mod action_binding_map;
pub use action_binding_map::ActionBindingMap;
pub use action_binding_map::raw_binding_list_model;

mod category;
pub use category::Category;
pub use category::CategoryId;
pub use category::Layout;

mod system;
pub use system::CacheModel;
pub use system::Config;
pub use system::ConfigModel;
pub use system::Consts;
pub use system::DeviceCache;
pub use system::UserId;
pub use system::UserSlot;
pub use system::UserSlotModel;
pub use system::assign_device_spec;
pub use system::assign_pending_spec;
pub use system::assign_unused_spec;
pub use system::cache_wf;
pub use system::connect_gamepad_spec;
pub use system::disconnect_gamepad_spec;
pub use system::fanout_spec;
pub use system::first_user_without_gamepad;
pub use system::has_gamepad;
pub use system::lemma_add_user_preserves_wf;
pub use system::lemma_assign_device_preserves_wf;
pub use system::lemma_assign_unused_preserves_wf;
pub use system::lemma_connect_preserves_wf;
pub use system::lemma_device_owned_by_at_most_one_user;
pub use system::lemma_disconnect_preserves_wf;
pub use system::lemma_first_user_bounds;
pub use system::lemma_gamepad_returns_to_former_owner;
pub use system::lemma_initial_cache_wf;
pub use system::lemma_send_event_preserves_wf;
pub use system::logical_size_spec;
pub use system::owner_of;
pub use system::remove_device;
pub use system::remove_device_from;
pub use system::send_event_spec;

mod user;
pub use user::BindingStateKey;
pub use user::KeyModel;
pub use user::MAX_EVENTS_PER_UPDATE;
pub use user::User;
pub use user::UserModel;
pub use user::add_entries_spec;
pub use user::add_states_spec;
pub use user::bound_ids_of_set;
pub use user::bound_without_set;
pub use user::deliver_event_spec;
pub use user::disable_set_spec;
pub use user::enable_set_spec;
pub use user::fresh_state;
pub use user::id_in;
pub use user::key_find_from;
pub use user::key_model_eq;
pub use user::key_upsert;
pub use user::process_event_user_spec;
pub use user::rebuild_sets_spec;
pub use user::remove_states_spec;
pub use user::set_layout_spec;
pub use user::state_update;
pub use user::states_without;
pub use user::tick_states_spec;
pub use user::ticking_without;
pub use user::first_of_its_id;
pub use user::same_state_ids;
pub use user::lemma_deliver_preserves_shape;
pub use user::lemma_find_same_ids;
pub use user::lemma_disable_removes_exactly_its_set;
pub use user::lemma_tick_states_props;
pub use user::ticked;
