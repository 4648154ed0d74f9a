//! The request proxy's decisions: the port gate, the classification
//! of a completed exchange, the health response shape, and query
//! string assembly.
//!
//! The caller sends one HTTP request over loopback and hands the raw
//! outcome back; everything that can be decided from plain values is
//! decided here. No retries at this layer.

use vstd::prelude::*;
use crate::errors::BackendError;
use crate::json::{bool_field, json_bool_field, json_str_field, str_field};
use crate::lifecycle::BackendHandle;

verus! {

/// True of the statuses that count as success: the 2xx class.
pub open spec fn spec_is_success(status: u16) -> bool {
    200 <= status < 300
}

/// Whether a response status counts as success.
pub fn is_success_status(status: u16) -> (r: bool)
    ensures
        r == spec_is_success(status),
{
    200 <= status && status < 300
}

/// The precondition of every proxied call: a recorded port. A call
/// made before one is recorded fails immediately with `NotReady` —
/// no retry, the caller must wait for startup.
pub fn port_for_call(h: &BackendHandle) -> (r: Result<u16, BackendError>)
    ensures
        r == (match h.port {
            Some(p) => Ok::<u16, BackendError>(p),
            None => Err::<u16, BackendError>(BackendError::NotReady),
        }),
{
    match h.port {
        Some(p) => Ok(p),
        None => Err(BackendError::NotReady),
    }
}

/// Classifies one completed exchange. The argument is the transport
/// outcome: the response status and body, or the transport error
/// text. A 2xx body is returned verbatim; a non-2xx response becomes
/// `Upstream` with its status and body; a transport failure becomes
/// `Transport`.
pub fn classify_exchange(exchange: Result<(u16, Vec<u8>), Vec<u8>>) -> (r: Result<
    Vec<u8>,
    BackendError,
>)
    ensures
        r == (match exchange {
            Ok((status, body)) => if spec_is_success(status) {
                Ok::<Vec<u8>, BackendError>(body)
            } else {
                Err::<Vec<u8>, BackendError>(BackendError::Upstream { status, body })
            },
            Err(m) => Err::<Vec<u8>, BackendError>(BackendError::Transport(m)),
        }),
{
    match exchange {
        Ok((status, body)) => {
            if is_success_status(status) {
                Ok(body)
            } else {
                Err(BackendError::Upstream { status, body })
            }
        },
        Err(m) => Err(BackendError::Transport(m)),
    }
}

/// The shape of the health endpoint's answer: whether the backend
/// reports itself ready, and its version when it names one.
pub struct HealthCheckResponse {
    pub ok: bool,
    pub version: Option<String>,
}

/// Reads the health response body: `ok` is the boolean field when it
/// is `true` (anything else counts as not ready), `version` the
/// string field when present.
pub fn health_from_json(body: &[u8]) -> (r: HealthCheckResponse)
    ensures
        r.ok == (json_bool_field(body@, "ok"@) == Some(true)),
        r.version matches Some(v) ==> json_str_field(body@, "version"@) == Some(v@),
        r.version is None ==> json_str_field(body@, "version"@) is None,
{
    let ok = match bool_field(body, "ok") {
        Some(b) => b,
        None => false,
    };
    let version = str_field(body, "version");
    HealthCheckResponse { ok, version }
}

/// One optional query parameter: a name, and the value when present.
pub struct QueryParam {
    pub name: Vec<u8>,
    pub value: Option<Vec<u8>>,
}

/// The `name=value` parts of the present parameters, in order.
pub open spec fn spec_query_parts(params: Seq<QueryParam>) -> Seq<Seq<u8>>
    decreases params.len(),
{
    if params.len() == 0 {
        Seq::empty()
    } else {
        let rest = spec_query_parts(params.skip(1));
        match params[0].value {
            Some(v) => seq![params[0].name@ + seq![61u8] + v@] + rest,
            None => rest,
        }
    }
}

/// A path with its query string: `?` and the joined parts when at
/// least one parameter is present, the bare path otherwise.
pub open spec fn spec_endpoint(base: Seq<u8>, params: Seq<QueryParam>) -> Seq<u8> {
    if spec_query_parts(params).len() == 0 {
        base
    } else {
        base + seq![63u8] + crate::text::spec_join(spec_query_parts(params), 38u8)
    }
}

proof fn lemma_query_parts_append(a: Seq<QueryParam>, b: Seq<QueryParam>)
    ensures
        spec_query_parts(a + b) == spec_query_parts(a) + spec_query_parts(b),
    decreases a.len(),
{
    if a.len() == 0 {
        assert(a + b =~= b);
        assert(spec_query_parts(a) + spec_query_parts(b) =~= spec_query_parts(b));
    } else {
        assert((a + b).skip(1) =~= a.skip(1) + b);
        lemma_query_parts_append(a.skip(1), b);
        assert((a + b)[0] == a[0]);
        assert(spec_query_parts(a + b) =~= spec_query_parts(a) + spec_query_parts(b));
    }
}

/// Builds an endpoint path from a base path and optional query
/// parameters: present ones appear as `name=value`, joined with `&`
/// after `?`; with none present the base path stands alone.
pub fn endpoint_with_params(base: &[u8], params: &Vec<QueryParam>) -> (r: Vec<u8>)
    ensures
        r@ == spec_endpoint(base@, params@),
{
    let n = params.len();
    let mut query: Vec<u8> = Vec::new();
    let mut any = false;
    let mut i: usize = 0;
    while i < n
        invariant
            0 <= i <= n == params@.len(),
            any == (spec_query_parts(params@.take(i as int)).len() > 0),
            any ==> query@ == crate::text::spec_join(spec_query_parts(params@.take(i as int)), 38u8),
            !any ==> query@.len() == 0,
        decreases n - i,
    {
        let ghost done = params@.take(i as int);
        let ghost parts = spec_query_parts(done);
        proof {
            assert(params@.take(i + 1 as int) =~= done + seq![params@[i as int]]);
            lemma_query_parts_append(done, seq![params@[i as int]]);
        }
        match &params[i].value {
            Some(v) => {
                proof {
                    let one = seq![params@[i as int]];
                    assert(spec_query_parts(one.skip(1)) =~= Seq::empty());
                    let part = params@[i as int].name@ + seq![61u8] + params@[i as int].value->0@;
                    assert(spec_query_parts(one) =~= seq![part]);
                    assert(parts + seq![part] =~= parts.push(part));
                    crate::text::lemma_join_push(parts, part, 38u8);
                }
                if any {
                    query.push(38);
                }
                crate::text::push_all(&mut query, params[i].name.as_slice());
                query.push(61);
                crate::text::push_all(&mut query, v.as_slice());
                any = true;
            },
            None => {
                proof {
                    let one = seq![params@[i as int]];
                    assert(spec_query_parts(one.skip(1)) =~= Seq::empty());
                    assert(spec_query_parts(one) =~= Seq::<Seq<u8>>::empty());
                    assert(parts + spec_query_parts(one) =~= parts);
                }
            },
        }
        i = i + 1;
    }
    proof {
        assert(params@.take(n as int) =~= params@);
    }
    if any {
        let mut r = vstd::slice::slice_to_vec(base);
        r.push(63);
        crate::text::push_all(&mut r, query.as_slice());
        r
    } else {
        vstd::slice::slice_to_vec(base)
    }
}

} // verus!
