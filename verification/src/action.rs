//! Application-level actions and the machinery that turns raw device
//! samples into their state: the behavior transforms, the binding tree
//! that evaluates them, and the per-action state machine.

pub mod behavior;

mod action;
mod behavior_binding;
mod binding_map;
mod state;

pub use action::Action;
pub use action::ActionBehavior;
pub use action::Id;
pub use behavior_binding::BehaviorBinding;
pub use behavior_binding::BindingModel;
pub use behavior_binding::SourceBehavior;
pub use behavior_binding::SourceModel;
pub use behavior_binding::bb_select_views;
pub use behavior_binding::bb_view;
pub use behavior_binding::bb_views;
pub use behavior_binding::container_behaviors_spec;
pub use behavior_binding::container_children_spec;
pub use behavior_binding::directly_applicable_model;
pub use behavior_binding::elapsed_spec;
pub use behavior_binding::lemma_bb_select_views_index;
pub use behavior_binding::lemma_bb_select_views_len;
pub use behavior_binding::lemma_bb_select_views_push;
pub use behavior_binding::lemma_bb_views_push;
pub use behavior_binding::lemma_process_preserves_applicable;
pub use behavior_binding::maps_chain_spec;
pub use behavior_binding::process_model;
pub use behavior_binding::source_process_spec;
pub use behavior_binding::sources_children_model;
pub use behavior_binding::sources_model;
pub use behavior_binding::sources_select_model;
pub use binding_map::BindingList;
pub use binding_map::BindingMap;
pub use binding_map::binding_list_model;
pub use state::State;
pub use state::StateModel;
pub use state::RELEVANCE_WINDOW_MS;
pub use state::axis_value_model;
pub use state::lemma_axis_value_decay_window;
pub use state::lemma_button_edge_one_update_wide;
pub use state::on_button_pressed_model;
pub use state::on_button_released_model;
pub use state::process_event_spec;
pub use state::update_spec;
pub use behavior_binding::lemma_bb_views_index;
pub use behavior_binding::lemma_bb_views_len;
