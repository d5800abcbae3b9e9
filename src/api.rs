use vstd::prelude::*;
use crate::auth::AuthError;
use crate::snapshot::SystemSnapshot;
use crate::state::{min_int, AppState};

verus! {

/// Why a request was refused.
#[derive(PartialEq, Eq, Structural, Clone, Copy, Debug)]
pub enum ApiError {
    Unauthorized,
}

impl From<AuthError> for ApiError {
    fn from(_value: AuthError) -> (r: ApiError) {
        ApiError::Unauthorized
    }
}

impl vstd::std_specs::convert::FromSpecImpl<AuthError> for ApiError {
    open spec fn obeys_from_spec() -> bool {
        true
    }

    open spec fn from_spec(v: AuthError) -> ApiError {
        ApiError::Unauthorized
    }
}

/// Parameters of a history request: how many snapshots at most, and the
/// inclusive range of timestamps to keep; `auth_params` holds the other
/// query parameters, credentials among them.
pub struct SystemQuery {
    pub limit: Option<usize>,
    pub from: Option<i64>,
    pub to: Option<i64>,
    pub auth_params: Vec<(String, String)>,
}

/// `s` lies in the requested range of timestamps.
pub open spec fn in_range(s: SystemSnapshot, from: Option<i64>, to: Option<i64>) -> bool {
    &&& (from matches Some(f) ==> s.timestamp >= f)
    &&& (to matches Some(t) ==> s.timestamp <= t)
}

/// How many snapshots a request gets at most: what it asks for, but never
/// more than the configured history limit, which is also what it gets when
/// it asks for no number.
pub open spec fn effective_limit(requested: Option<usize>, max: usize) -> int {
    match requested {
        Some(l) => min_int(l as int, max as int),
        None => max as int,
    }
}

/// The snapshots that a history request returns, newest first: the newest of
/// the history up to the effective limit, of which those in the requested
/// range of timestamps.
pub open spec fn history_answer(state: AppState, query: SystemQuery) -> Seq<SystemSnapshot> {
    let h = state.spec_history();
    let n = effective_limit(query.limit, state.spec_config().spec_history_limit());
    h.take(min_int(n, h.len() as int)).filter(|s: SystemSnapshot| in_range(s, query.from, query.to))
}

/// Answers a history request.
pub fn history_for_query<'a>(state: &'a AppState, query: &SystemQuery) -> (r: Vec<&'a SystemSnapshot>)
    requires
        state.wf(),
    ensures
        r@.map_values(|s: &SystemSnapshot| *s) == history_answer(*state, *query),
{
    let max = state.config().history_limit();
    let limit = match query.limit {
        Some(l) => if l < max { l } else { max },
        None => max,
    };
    let window = state.history(limit);
    let ghost w = window@;
    let mut out: Vec<&SystemSnapshot> = Vec::new();
    let mut i: usize = 0;
    while i < window.len()
        invariant
            i <= w.len(),
            w == window@,
            out@.map_values(|s: &SystemSnapshot| *s) == w.take(i as int).filter(
                |s: SystemSnapshot| in_range(s, query.from, query.to),
            ),
        decreases w.len() - i,
    {
        let s = &window[i];
        let keep_from = match query.from {
            Some(f) => s.timestamp >= f,
            None => true,
        };
        let keep_to = match query.to {
            Some(t) => s.timestamp <= t,
            None => true,
        };
        assert(w.take(i + 1).drop_last() =~= w.take(i as int));
        assert(w.take(i + 1).last() == w[i as int]);
        let ghost before = out@;
        let ghost pred = |s: SystemSnapshot| in_range(s, query.from, query.to);
        reveal(Seq::filter);
        assert(w.take(i + 1).filter(pred) == if pred(w[i as int]) {
            w.take(i as int).filter(pred).push(w[i as int])
        } else {
            w.take(i as int).filter(pred)
        });
        assert(pred(w[i as int]) == (keep_from && keep_to));
        if keep_from && keep_to {
            out.push(s);
            assert(out@.map_values(|s: &SystemSnapshot| *s) =~= before.map_values(|s: &SystemSnapshot| *s).push(
                w[i as int],
            ));
        }
        assert(out@.map_values(|s: &SystemSnapshot| *s) =~= w.take(i + 1).filter(
            |s: SystemSnapshot| in_range(s, query.from, query.to),
        ));
        i = i + 1;
    }
    assert(w.take(w.len() as int) =~= w);
    out
}

} // verus!
