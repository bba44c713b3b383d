use vstd::prelude::*;

verus! {

#[verifier::external_type_specification]
#[verifier::external_body]
#[verifier::reject_recursive_types(S)]
pub struct ExRouter<S>(axum::Router<S>);

/// The application's router while it is being put together. Where the
/// application holds none yet, it starts from the default, empty router.
#[derive(Default)]
pub struct RouterWrapper(pub axum::Router);

impl RouterWrapper {
    /// The wrapper around what `router_fn` makes of the wrapped router.
    pub fn apply<G: FnOnce(axum::Router) -> axum::Router>(self, router_fn: G) -> (changed: RouterWrapper)
        requires
            call_requires(router_fn, (self.0,)),
        ensures
            call_ensures(router_fn, (self.0,), changed.0),
    {
        RouterWrapper(router_fn(self.0))
    }
}

/// Whether `g` may make `new` of a router that `f` may make of `old`: the
/// routers that a change with `f` followed by a change with `g` can give.
pub open spec fn changed_by_both<F, G>(f: F, g: G, old: axum::Router, new: axum::Router) -> bool
    where
        F: FnOnce(axum::Router) -> axum::Router,
        G: FnOnce(axum::Router) -> axum::Router,
{
    exists|mid: axum::Router| call_ensures(f, (old,), mid) && #[trigger] call_ensures(g, (mid,), new)
}

/// Whether `f` makes at most one router of each router: two results of it
/// on the same router are equal.
pub open spec fn deterministic<F>(f: F) -> bool
    where
        F: FnOnce(axum::Router) -> axum::Router,
{
    forall|x: axum::Router, y1: axum::Router, y2: axum::Router|
        #[trigger] call_ensures(f, (x,), y1) && #[trigger] call_ensures(f, (x,), y2) ==> y1 == y2
}

/// Two changes of the router, first with `f` and then with `g`, give the
/// same router as one change with a function `h` that applies `f` and then
/// `g`, where all three functions are deterministic: `mid` is what `f` made
/// of `old`, `new` what `g` made of `mid`, and `composed` what `h` made of
/// `old`.
pub proof fn lemma_composed_change_equals_two_changes<F, G, H>(
    f: F,
    g: G,
    h: H,
    old: axum::Router,
    mid: axum::Router,
    new: axum::Router,
    composed: axum::Router,
)
    where
        F: FnOnce(axum::Router) -> axum::Router,
        G: FnOnce(axum::Router) -> axum::Router,
        H: FnOnce(axum::Router) -> axum::Router,
    requires
        deterministic(f),
        deterministic(g),
        forall|x: axum::Router, y: axum::Router|
            #[trigger] call_ensures(h, (x,), y) ==> changed_by_both(f, g, x, y),
        call_ensures(f, (old,), mid),
        call_ensures(g, (mid,), new),
        call_ensures(h, (old,), composed),
    ensures
        composed == new,
{
    assert(changed_by_both(f, g, old, composed));
    let m = choose|m: axum::Router|
        call_ensures(f, (old,), m) && #[trigger] call_ensures(g, (m,), composed);
    assert(m == mid);
    assert(composed == new);
}

} // verus!
