//! Measuring how long a step takes, and putting the time into words.

use vstd::prelude::*;

verus! {

/// A point in time of the monotonic clock.
#[verifier::external_type_specification]
#[verifier::external_body]
pub struct ExInstant(web_time::Instant);

/// A span of time: whole seconds and the nanoseconds beyond them.
#[derive(Debug, Clone, Copy, PartialEq, Eq)]
pub struct Duration {
    secs: u64,
    nanos: u32,
}

/// The text that the standard library's debug formatting gives for a span of
/// `secs` seconds and `nanos` nanoseconds, such as `1.5s` or `250µs`.
pub uninterp spec fn duration_text(secs: u64, nanos: u32) -> Seq<char>;

impl Duration {
    #[verifier::type_invariant]
    spec fn inv(self) -> bool {
        self.nanos < 1_000_000_000
    }

    /// The whole seconds of the span.
    pub closed spec fn secs(self) -> u64 {
        self.secs
    }

    /// The nanoseconds beyond the whole seconds.
    pub closed spec fn nanos(self) -> u32 {
        self.nanos
    }

    /// The span in words.
    pub open spec fn text(self) -> Seq<char> {
        duration_text(self.secs(), self.nanos())
    }

    /// A span of `secs` seconds and `nanos` nanoseconds, or `None` if `nanos`
    /// is a second or more.
    pub fn new(secs: u64, nanos: u32) -> (r: Option<Duration>)
        ensures
            nanos < 1_000_000_000 ==> (r matches Some(d) && d.secs() == secs && d.nanos() == nanos),
            nanos >= 1_000_000_000 ==> r is None,
    {
        if nanos < 1_000_000_000 {
            Some(Duration { secs, nanos })
        } else {
            None
        }
    }

    /// The whole seconds of the span.
    pub fn as_secs(&self) -> (r: u64)
        ensures
            r == self.secs(),
    {
        self.secs
    }

    /// The nanoseconds beyond the whole seconds.
    pub fn subsec_nanos(&self) -> (r: u32)
        ensures
            r == self.nanos(),
            r < 1_000_000_000,
    {
        proof {
            use_type_invariant(self);
        }
        self.nanos
    }

    /// The span in words, as the standard library's debug formatting gives it.
    pub fn to_string(&self) -> (r: String)
        ensures
            r@ == self.text(),
    {
        format_duration(self.secs, self.subsec_nanos())
    }
}

/// `web_time::Instant::now`: the current reading of the monotonic clock.
/// Nothing is claimed of the reading. In a browser the clock is the page's
/// performance clock, and the call stops the program where there is none.
#[verifier::external_body]
pub(crate) fn now() -> web_time::Instant {
    web_time::Instant::now()
}

/// `web_time::Instant::elapsed`: the time that has passed since `start`, as
/// seconds and nanoseconds. Only the range of the nanoseconds is claimed,
/// which `Duration::subsec_nanos` documents.
#[verifier::external_body]
pub(crate) fn elapsed(start: &web_time::Instant) -> (d: Duration)
    ensures
        d.nanos() < 1_000_000_000,
{
    let span = start.elapsed();
    Duration { secs: span.as_secs(), nanos: span.subsec_nanos() }
}

/// Debug formatting of `web_time::Duration`: the text depends on the seconds
/// and nanoseconds alone, and `duration_text` is the name of that text.
/// `Duration::new` does not overflow while `nanos` is below one second.
#[verifier::external_body]
fn format_duration(secs: u64, nanos: u32) -> (r: String)
    requires
        nanos < 1_000_000_000,
    ensures
        r@ == duration_text(secs, nanos),
{
    format!("{:?}", web_time::Duration::new(secs, nanos))
}

/// Runs `f` on the value of an `Ok` and measures how long it takes. An `Err`,
/// given or returned by `f`, is handed on without a time.
pub fn and_then_timed<T, U, E, F: FnOnce(T) -> Result<U, E>>(input: Result<T, E>, f: F) -> (r:
    Result<(U, Duration), E>)
    requires
        input matches Ok(t) ==> call_requires(f, (t,)),
    ensures
        match input {
            Ok(t) => match r {
                Ok((u, _)) => call_ensures(f, (t,), Ok(u)),
                Err(e) => call_ensures(f, (t,), Err(e)),
            },
            Err(e) => r == Err::<(U, Duration), E>(e),
        },
{
    match input {
        Ok(t) => {
            let start = now();
            match f(t) {
                Ok(u) => Ok((u, elapsed(&start))),
                Err(e) => Err(e),
            }
        },
        Err(e) => Err(e),
    }
}

/// Runs `f` on the value of an `Ok` and measures how long it takes. An `Err`
/// is handed on without a time.
pub fn map_timed<T, U, E, F: FnOnce(T) -> U>(input: Result<T, E>, f: F) -> (r: Result<
    (U, Duration),
    E,
>)
    requires
        input matches Ok(t) ==> call_requires(f, (t,)),
    ensures
        match input {
            Ok(t) => r matches Ok((u, _)) && call_ensures(f, (t,), u),
            Err(e) => r == Err::<(U, Duration), E>(e),
        },
{
    match input {
        Ok(t) => {
            let start = now();
            let u = f(t);
            Ok((u, elapsed(&start)))
        },
        Err(e) => Err(e),
    }
}

} // verus!
