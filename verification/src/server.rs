//! Settings of the server.

use vstd::prelude::*;

verus! {

/// Certificate and key for encrypted connections: both are needed, so one
/// without the other counts as none.
pub fn tls_config<T>(tls_cert: Option<T>, tls_key: Option<T>) -> (pair: Option<(T, T)>)
    ensures
        match (tls_cert, tls_key) {
            (Some(cert), Some(key)) => pair == Some((cert, key)),
            _ => pair is None,
        },
{
    match (tls_cert, tls_key) {
        (Some(cert), Some(key)) => Some((cert, key)),
        _ => None,
    }
}

} // verus!
