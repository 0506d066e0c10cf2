use vstd::prelude::*;

verus! {

/// A strategy for wrapping the services that a service factory makes.
pub trait CircuitBreakerNewService<T> {
    type CircuitBreakerService;

    fn circuit_breaker(&self, target: &T) -> Self::CircuitBreakerService;
}

/// A strategy for watching the requests of a service.
pub trait CircuitBreakerService<Req> {
    type CircuitBreakerResponse;

    /// Watches one request.
    fn circuit_breaker_request(&mut self, req: &Req) -> Self::CircuitBreakerResponse;
}

/// A strategy for watching the errors of a service.
pub trait CircuitBreakerError<E> {
    fn circuit_breaker_error(&mut self, err: &E);
}

} // verus!
