use vstd::prelude::*;

use crate::oneshot::Oneshot;

verus! {

/// A service of the router, seen from the connection handler: each request
/// that comes in is driven through a fresh copy of the service.
#[derive(Debug, Copy, Clone)]
pub struct TowerToHyperService<S> {
    pub service: S,
}

impl<S: Clone> TowerToHyperService<S> {
    /// The machine that takes `req` through a copy of the service.
    pub fn oneshot<R, F>(&self, req: R) -> (machine: Oneshot<S, R, F>)
        ensures
            machine matches Oneshot::NotReady { svc, req: Some(r) } && r == req && cloned(
                self.service,
                svc,
            ),
    {
        Self::oneshot_for(&self.service, req)
    }

    /// The machine that takes `req` through a copy of `service`, for a
    /// caller that holds the service itself rather than this wrapper.
    pub fn oneshot_for<R, F>(service: &S, req: R) -> (machine: Oneshot<S, R, F>)
        ensures
            machine matches Oneshot::NotReady { svc, req: Some(r) } && r == req && cloned(
                *service,
                svc,
            ),
    {
        Oneshot::new(service.clone(), req)
    }
}

} // verus!
