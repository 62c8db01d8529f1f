use vstd::prelude::*;

verus! {

/// What an inbound request asks of the balancer.
pub enum Route {
    /// The operator's trigger: look at the load and switch the strategy if
    /// the load calls for it.
    SwitchStrategy,
    /// Everything else: forward the request to a worker.
    Forward,
}

/// Tells the operator's trigger from the requests that are forwarded. The
/// trigger is the path `/switch-strategy`, letter for letter.
pub fn route(path: &str) -> (route: Route)
    ensures
        route is SwitchStrategy <==> path@ == "/switch-strategy"@,
{
    if path.to_owned() == "/switch-strategy".to_owned() {
        Route::SwitchStrategy
    } else {
        Route::Forward
    }
}

} // verus!
