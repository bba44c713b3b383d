use vstd::prelude::*;

verus! {

/// Which of the plugins that the web server relies on a Bevy application
/// already holds. Each of them is to be added once only (Bevy refuses the
/// web server plugin a second time, and a second asynchronous runtime would
/// schedule its executor twice), so every step below is decided from these two
/// facts.
#[derive(Clone, Copy, Debug, PartialEq, Eq, Structural)]
pub struct InstalledPlugins {
    /// The web server plugin itself.
    pub webserver: bool,
    /// The plugin that runs the application's asynchronous tasks.
    pub async_runtime: bool,
}

/// A change to the application that the setup asks for.
#[derive(Clone, Copy, Debug, PartialEq, Eq, Structural)]
pub enum SetupStep {
    /// Add the web server plugin; the application then builds it.
    AddWebServerPlugin,
    /// Add the plugin that runs asynchronous tasks.
    AddAsyncPlugin,
    /// Have the server start when the application starts up.
    ScheduleServerStart,
}

/// What the application holds after `step`.
pub open spec fn after_step(plugins: InstalledPlugins, step: SetupStep) -> InstalledPlugins {
    match step {
        SetupStep::AddWebServerPlugin => InstalledPlugins { webserver: true, ..plugins },
        SetupStep::AddAsyncPlugin => InstalledPlugins { async_runtime: true, ..plugins },
        SetupStep::ScheduleServerStart => plugins,
    }
}

/// Whether `step` would add a plugin that the application already holds.
pub open spec fn adds_present_plugin(plugins: InstalledPlugins, step: SetupStep) -> bool {
    match step {
        SetupStep::AddWebServerPlugin => plugins.webserver,
        SetupStep::AddAsyncPlugin => plugins.async_runtime,
        SetupStep::ScheduleServerStart => false,
    }
}

/// What the application holds after `steps`, taken in order.
pub open spec fn after_steps(plugins: InstalledPlugins, steps: Seq<SetupStep>) -> InstalledPlugins
    decreases steps.len(),
{
    if steps.len() == 0 {
        plugins
    } else {
        after_steps(after_step(plugins, steps[0]), steps.drop_first())
    }
}

/// Whether none of `steps`, taken in order, adds a plugin already there.
pub open spec fn adds_no_plugin_twice(plugins: InstalledPlugins, steps: Seq<SetupStep>) -> bool
    decreases steps.len(),
{
    steps.len() == 0 || (!adds_present_plugin(plugins, steps[0]) && adds_no_plugin_twice(
        after_step(plugins, steps[0]),
        steps.drop_first(),
    ))
}

/// The steps of [`plugin_build_steps`].
pub open spec fn build_steps(plugins: InstalledPlugins) -> Seq<SetupStep> {
    if plugins.async_runtime {
        seq![SetupStep::ScheduleServerStart]
    } else {
        seq![SetupStep::AddAsyncPlugin, SetupStep::ScheduleServerStart]
    }
}

/// The steps of [`router_setup_steps`].
pub open spec fn setup_steps(plugins: InstalledPlugins) -> Seq<SetupStep> {
    if plugins.webserver {
        Seq::empty()
    } else {
        seq![SetupStep::AddWebServerPlugin]
    }
}

/// The steps the web server plugin takes when the application builds it:
/// add the asynchronous runtime unless it is there, then schedule the
/// server's start.
pub fn plugin_build_steps(plugins: InstalledPlugins) -> (steps: Vec<SetupStep>)
    ensures
        steps@ == build_steps(plugins),
{
    let mut steps = Vec::new();
    if !plugins.async_runtime {
        steps.push(SetupStep::AddAsyncPlugin);
    }
    steps.push(SetupStep::ScheduleServerStart);
    steps
}

/// The steps taken before the application's router is changed: add the web
/// server plugin unless it is there.
pub fn router_setup_steps(plugins: InstalledPlugins) -> (steps: Vec<SetupStep>)
    ensures
        steps@ == setup_steps(plugins),
{
    let mut steps = Vec::new();
    if !plugins.webserver {
        steps.push(SetupStep::AddWebServerPlugin);
    }
    steps
}

/// Everything a change of the router does to the plugins: the steps of
/// [`router_setup_steps`], followed, where they add the web server plugin,
/// by the steps of [`plugin_build_steps`] for the application as it then
/// stands (Bevy builds a plugin as it is added).
pub open spec fn router_change_steps(plugins: InstalledPlugins) -> Seq<SetupStep> {
    let setup = setup_steps(plugins);
    if setup.contains(SetupStep::AddWebServerPlugin) {
        setup + build_steps(after_steps(plugins, setup))
    } else {
        setup
    }
}

/// However often the router is changed, and whichever plugins the
/// application held before, no plugin is ever added twice; after the first
/// change the web server plugin is there, and a further change asks for no
/// step at all. Where the web server plugin is added, the asynchronous
/// runtime is there afterwards too.
pub proof fn lemma_router_changes_add_each_plugin_once(plugins: InstalledPlugins)
    ensures
        adds_no_plugin_twice(plugins, router_change_steps(plugins)),
        after_steps(plugins, router_change_steps(plugins)).webserver,
        !plugins.webserver ==> after_steps(plugins, router_change_steps(plugins)).async_runtime,
        router_change_steps(after_steps(plugins, router_change_steps(plugins))).len() == 0,
{
    reveal_with_fuel(after_steps, 4);
    reveal_with_fuel(adds_no_plugin_twice, 4);
    let steps = router_change_steps(plugins);
    let setup = setup_steps(plugins);
    if !plugins.webserver {
        assert(setup[0] == SetupStep::AddWebServerPlugin);
        assert(setup.contains(SetupStep::AddWebServerPlugin));
        assert(setup.drop_first() =~= Seq::<SetupStep>::empty());
        assert(after_steps(plugins, setup) == InstalledPlugins { webserver: true, ..plugins });
        assert(steps == setup + build_steps(after_steps(plugins, setup)));
        assert(steps[0] == SetupStep::AddWebServerPlugin);
        let rest1 = steps.drop_first();
        if plugins.async_runtime {
            assert(rest1 =~= seq![SetupStep::ScheduleServerStart]);
            assert(rest1.drop_first() =~= Seq::<SetupStep>::empty());
        } else {
            assert(rest1 =~= seq![SetupStep::AddAsyncPlugin, SetupStep::ScheduleServerStart]);
            assert(rest1.drop_first() =~= seq![SetupStep::ScheduleServerStart]);
            assert(rest1.drop_first().drop_first() =~= Seq::<SetupStep>::empty());
        }
    } else {
        assert(!setup.contains(SetupStep::AddWebServerPlugin));
    }
    let final_plugins = after_steps(plugins, steps);
    assert(final_plugins.webserver);
    assert(!setup_steps(final_plugins).contains(SetupStep::AddWebServerPlugin));
}

/// How many of `steps` are `step`.
pub open spec fn step_count(steps: Seq<SetupStep>, step: SetupStep) -> nat
    decreases steps.len(),
{
    if steps.len() == 0 {
        0
    } else {
        (if steps[0] == step { 1nat } else { 0nat }) + step_count(steps.drop_first(), step)
    }
}

proof fn lemma_count_one(a: SetupStep, step: SetupStep)
    ensures
        step_count(seq![a], step) == (if a == step { 1nat } else { 0nat }),
{
    assert(seq![a].drop_first() =~= Seq::<SetupStep>::empty());
    assert(step_count(Seq::<SetupStep>::empty(), step) == 0);
    assert(seq![a][0] == a);
}

proof fn lemma_count_two(a: SetupStep, b: SetupStep, step: SetupStep)
    ensures
        step_count(seq![a, b], step) == (if a == step { 1nat } else { 0nat }) + (if b == step {
            1nat
        } else {
            0nat
        }),
{
    assert(seq![a, b].drop_first() =~= seq![b]);
    lemma_count_one(b, step);
}

proof fn lemma_count_three(a: SetupStep, b: SetupStep, c: SetupStep, step: SetupStep)
    ensures
        step_count(seq![a, b, c], step) == (if a == step { 1nat } else { 0nat }) + (if b
            == step {
            1nat
        } else {
            0nat
        }) + (if c == step { 1nat } else { 0nat }),
{
    assert(seq![a, b, c].drop_first() =~= seq![b, c]);
    lemma_count_two(b, c, step);
}

/// What building the web server plugin does, whatever the application
/// holds, and whether or not the web server plugin counts as added yet
/// (Bevy records a plugin only once its build has returned): the
/// asynchronous runtime is added exactly when the application lacks it, and
/// then once only; the server's start is scheduled exactly once, as the
/// last step; the web server plugin itself is not added again; and
/// afterwards the runtime is there.
pub proof fn lemma_plugin_build(plugins: InstalledPlugins)
    ensures
        step_count(build_steps(plugins), SetupStep::AddAsyncPlugin) == (if plugins.async_runtime {
            0nat
        } else {
            1nat
        }),
        step_count(build_steps(plugins), SetupStep::ScheduleServerStart) == 1,
        step_count(build_steps(plugins), SetupStep::AddWebServerPlugin) == 0,
        build_steps(plugins).last() == SetupStep::ScheduleServerStart,
        after_steps(plugins, build_steps(plugins)).async_runtime,
        after_steps(plugins, build_steps(plugins)).webserver == plugins.webserver,
        adds_no_plugin_twice(plugins, build_steps(plugins)),
        build_steps(plugins) == build_steps(InstalledPlugins { webserver: !plugins.webserver, ..plugins }),
{
    reveal_with_fuel(after_steps, 3);
    reveal_with_fuel(adds_no_plugin_twice, 3);
    let steps = build_steps(plugins);
    let other = build_steps(InstalledPlugins { webserver: !plugins.webserver, ..plugins });
    if plugins.async_runtime {
        assert(steps =~= seq![SetupStep::ScheduleServerStart]);
        assert(other =~= seq![SetupStep::ScheduleServerStart]);
        assert(steps.drop_first() =~= Seq::<SetupStep>::empty());
        lemma_count_one(SetupStep::ScheduleServerStart, SetupStep::AddAsyncPlugin);
        lemma_count_one(SetupStep::ScheduleServerStart, SetupStep::ScheduleServerStart);
        lemma_count_one(SetupStep::ScheduleServerStart, SetupStep::AddWebServerPlugin);
    } else {
        assert(steps =~= seq![SetupStep::AddAsyncPlugin, SetupStep::ScheduleServerStart]);
        assert(other =~= seq![SetupStep::AddAsyncPlugin, SetupStep::ScheduleServerStart]);
        assert(steps.drop_first() =~= seq![SetupStep::ScheduleServerStart]);
        assert(steps.drop_first().drop_first() =~= Seq::<SetupStep>::empty());
        lemma_count_two(
            SetupStep::AddAsyncPlugin,
            SetupStep::ScheduleServerStart,
            SetupStep::AddAsyncPlugin,
        );
        lemma_count_two(
            SetupStep::AddAsyncPlugin,
            SetupStep::ScheduleServerStart,
            SetupStep::ScheduleServerStart,
        );
        lemma_count_two(
            SetupStep::AddAsyncPlugin,
            SetupStep::ScheduleServerStart,
            SetupStep::AddWebServerPlugin,
        );
    }
}

/// What the steps before a change of the router are: the web server plugin
/// is added exactly when the application lacks it, and nothing else is
/// done; in particular the server's start is not scheduled there, since
/// the plugin's build does that.
pub proof fn lemma_router_setup(plugins: InstalledPlugins)
    ensures
        step_count(setup_steps(plugins), SetupStep::AddWebServerPlugin) == (if plugins.webserver {
            0nat
        } else {
            1nat
        }),
        forall|i: int|
            0 <= i < setup_steps(plugins).len() ==> #[trigger] setup_steps(plugins)[i]
                == SetupStep::AddWebServerPlugin,
        step_count(setup_steps(plugins), SetupStep::ScheduleServerStart) == 0,
        step_count(setup_steps(plugins), SetupStep::AddAsyncPlugin) == 0,
{
    let steps = setup_steps(plugins);
    if plugins.webserver {
        assert(steps =~= Seq::<SetupStep>::empty());
    } else {
        assert(steps =~= seq![SetupStep::AddWebServerPlugin]);
        lemma_count_one(SetupStep::AddWebServerPlugin, SetupStep::AddWebServerPlugin);
        lemma_count_one(SetupStep::AddWebServerPlugin, SetupStep::ScheduleServerStart);
        lemma_count_one(SetupStep::AddWebServerPlugin, SetupStep::AddAsyncPlugin);
    }
}

/// Over any number of changes of the router, the server's start is
/// scheduled exactly once in all: by the first change where the
/// application lacked the web server plugin, never where it had it; and the
/// asynchronous runtime is added at most once.
pub proof fn lemma_router_changes_schedule_start_once(plugins: InstalledPlugins)
    ensures
        step_count(router_change_steps(plugins), SetupStep::ScheduleServerStart) == (
        if plugins.webserver {
            0nat
        } else {
            1nat
        }),
        step_count(router_change_steps(plugins), SetupStep::AddAsyncPlugin) <= 1,
        step_count(
            router_change_steps(after_steps(plugins, router_change_steps(plugins))),
            SetupStep::ScheduleServerStart,
        ) == 0,
{
    reveal_with_fuel(after_steps, 4);
    lemma_router_changes_add_each_plugin_once(plugins);
    let steps = router_change_steps(plugins);
    let later = router_change_steps(after_steps(plugins, steps));
    assert(later =~= Seq::<SetupStep>::empty());
    let setup = setup_steps(plugins);
    if plugins.webserver {
        assert(!setup.contains(SetupStep::AddWebServerPlugin));
        assert(steps =~= Seq::<SetupStep>::empty());
    } else {
        assert(setup[0] == SetupStep::AddWebServerPlugin);
        assert(setup.contains(SetupStep::AddWebServerPlugin));
        assert(setup.drop_first() =~= Seq::<SetupStep>::empty());
        assert(after_steps(plugins, setup) == InstalledPlugins { webserver: true, ..plugins });
        if plugins.async_runtime {
            assert(steps =~= seq![SetupStep::AddWebServerPlugin, SetupStep::ScheduleServerStart]);
            lemma_count_two(
                SetupStep::AddWebServerPlugin,
                SetupStep::ScheduleServerStart,
                SetupStep::ScheduleServerStart,
            );
            lemma_count_two(
                SetupStep::AddWebServerPlugin,
                SetupStep::ScheduleServerStart,
                SetupStep::AddAsyncPlugin,
            );
        } else {
            assert(steps =~= seq![
                SetupStep::AddWebServerPlugin,
                SetupStep::AddAsyncPlugin,
                SetupStep::ScheduleServerStart,
            ]);
            lemma_count_three(
                SetupStep::AddWebServerPlugin,
                SetupStep::AddAsyncPlugin,
                SetupStep::ScheduleServerStart,
                SetupStep::ScheduleServerStart,
            );
            lemma_count_three(
                SetupStep::AddWebServerPlugin,
                SetupStep::AddAsyncPlugin,
                SetupStep::ScheduleServerStart,
                SetupStep::AddAsyncPlugin,
            );
        }
    }
}

} // verus!
