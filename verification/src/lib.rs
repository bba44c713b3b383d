//! A web server that lives inside a Bevy application: the configuration it
//! listens on, the decisions taken while the application is set up, and the
//! state machine that drives one request through a service.

mod config;
mod oneshot;
mod poll_laws;
mod router;
mod service;
mod setup;

pub use config::{default_config, loopback_v4, IpAddress, WebServerConfig, DEFAULT_PORT};
pub use oneshot::{
    call_count, calls_left, delivers, lemma_answers_are_accepted, lemma_done_takes_no_event, lemma_pending_future_delivers_later, lemma_poll_of_called_polls_future, called_with, lemma_pending_or_failure_keeps_state,
    lemma_request_handed_over_once, lemma_response_delivered_last, lemma_single_poll_when_ready, lemma_stage_never_decreases,
    run, run_accepted, Action, Event, Oneshot, Outcome, Progress, Readiness,
};
pub use poll_laws::{
    action_rank, answers_actions, future_from_call, history_fits, lemma_results_come_from_readiness_or_future,
    lemma_run_len, lemma_single_poll_bounded, lemma_state_at, polls_future_from_call,
    ready_result_explained, responds, state_at,
};
pub use router::{changed_by_both, deterministic, lemma_composed_change_equals_two_changes, RouterWrapper};
pub use service::TowerToHyperService;
pub use setup::{
    adds_no_plugin_twice, adds_present_plugin, after_step, after_steps,
    build_steps, lemma_plugin_build, lemma_router_changes_add_each_plugin_once, lemma_router_changes_schedule_start_once, lemma_router_setup, step_count, plugin_build_steps, router_change_steps, setup_steps,
    router_setup_steps, InstalledPlugins, SetupStep,
};
