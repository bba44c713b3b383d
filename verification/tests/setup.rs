use bevy_webserver::{plugin_build_steps, router_setup_steps, InstalledPlugins, RouterWrapper, SetupStep};

#[test]
fn build_adds_the_async_runtime_when_missing() {
    let steps = plugin_build_steps(InstalledPlugins { webserver: true, async_runtime: false });
    assert_eq!(steps, vec![SetupStep::AddAsyncPlugin, SetupStep::ScheduleServerStart]);
}

#[test]
fn build_keeps_an_existing_async_runtime() {
    let steps = plugin_build_steps(InstalledPlugins { webserver: true, async_runtime: true });
    assert_eq!(steps, vec![SetupStep::ScheduleServerStart]);
}

#[test]
fn a_router_change_adds_the_webserver_plugin_once() {
    let before = InstalledPlugins { webserver: false, async_runtime: false };
    assert_eq!(router_setup_steps(before), vec![SetupStep::AddWebServerPlugin]);
    let after = InstalledPlugins { webserver: true, async_runtime: true };
    assert_eq!(router_setup_steps(after), vec![]);
}

#[test]
fn a_router_change_leaves_an_added_plugin_alone() {
    let plugins = InstalledPlugins { webserver: true, async_runtime: false };
    assert!(router_setup_steps(plugins).is_empty());
}

#[test]
fn the_default_router_is_empty_and_takes_routes() {
    let wrapper = RouterWrapper::default();
    assert!(!wrapper.0.has_routes());
    let changed = wrapper.apply(|r| r.route("/players", axum::routing::get(|| async { "ok" })));
    assert!(changed.0.has_routes());
}

#[test]
fn two_router_changes_keep_both_routes() {
    let once = RouterWrapper::default().apply(|r| r.route("/a", axum::routing::get(|| async { "a" })));
    let twice = once.apply(|r| r.route("/b", axum::routing::get(|| async { "b" })));
    assert!(twice.0.has_routes());
    let composed = RouterWrapper::default().apply(|r| {
        r.route("/a", axum::routing::get(|| async { "a" }))
            .route("/b", axum::routing::get(|| async { "b" }))
    });
    assert!(composed.0.has_routes());
}
