use vstd::prelude::*;

use crate::time::Moment;

verus! {

#[verifier::external_type_specification]
#[verifier::external_body]
pub struct ExRuntimeInstant(actix_web::rt::time::Instant);

/// Relies on actix_web::rt::time::Instant::now (tokio's Instant::now): a
/// reading of the runtime's monotonic clock, which follows a paused or
/// advanced clock where the runtime has one; used as the origin from which a
/// `Clock` counts.
#[verifier::external_body]
fn monotonic_now() -> actix_web::rt::time::Instant {
    actix_web::rt::time::Instant::now()
}

/// Relies on actix_web::rt::time::Instant::elapsed (tokio's, which saturates
/// at zero): the time since `origin`, in nanoseconds. Nothing is stated of the
/// reading, which depends on when the call is made.
#[verifier::external_body]
fn nanos_since(origin: &actix_web::rt::time::Instant) -> u64 {
    origin.elapsed().as_nanos() as u64
}

/// A monotonic time source on the async runtime's clock: it reports instants
/// as nanoseconds since it was made.
#[derive(Clone, Copy, Debug)]
pub struct Clock {
    origin: actix_web::rt::time::Instant,
}

impl Clock {
    pub fn new() -> Clock {
        Clock { origin: monotonic_now() }
    }

    /// The current instant.
    pub fn now(&self) -> Moment {
        Moment { nanos: nanos_since(&self.origin) }
    }
}

} // verus!
