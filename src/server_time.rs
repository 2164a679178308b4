//! Latency reporting: the time a request took, in microseconds, as the
//! value of a response header.
use vstd::prelude::*;
use vstd::string::*;

use crate::text::{dec, decimal_string, is_visible_ascii, lemma_dec_digits};

verus! {

/// The response header that carries the processing time.
pub const SERVER_TIME_HEADER: &'static str = "X-Server-Time";

/// Wraps a service so that each response reports its processing time.
#[derive(Debug, Clone, Copy)]
pub struct ServerTimeLayer;

/// A service whose responses report their processing time.
#[derive(Debug, Clone)]
pub struct ServerTimeMiddleware<S> {
    pub inner: S,
}

impl ServerTimeLayer {
    pub fn layer<S>(&self, inner: S) -> (r: ServerTimeMiddleware<S>)
        ensures
            r.inner == inner,
    {
        ServerTimeMiddleware { inner }
    }
}

/// The header value for a processing time: the decimal count of
/// microseconds followed by `us`.
pub fn server_time_value(elapsed_micros: u128) -> (r: String)
    ensures
        r@ == dec(elapsed_micros as nat) + seq!['u', 's'],
        is_visible_ascii(r@),
{
    let r = decimal_string(elapsed_micros).concat("us");
    proof {
        reveal_strlit("us");
        lemma_dec_digits(elapsed_micros as nat);
        assert(r@ =~= dec(elapsed_micros as nat) + seq!['u', 's']);
        let d = dec(elapsed_micros as nat);
        assert forall|i: int| 0 <= i < r@.len() implies ' ' <= #[trigger] r@[i] && r@[i] <= '~' by {
            if i < d.len() {
                assert(r@[i] == d[i]);
            }
        }
    }
    r
}

} // verus!
