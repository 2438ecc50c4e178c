//! Who may use the API: the access token check and the per-client rate limit.
use vstd::prelude::*;

verus! {

// ---------------------------------------------------------------- access token

/// The (key, value) pairs that the `application/x-www-form-urlencoded`
/// decoder reads from a query string, in order, keys and values
/// percent-decoded; `None` where it refuses the input.
pub uninterp spec fn form_pairs(query: Seq<char>) -> Option<Seq<(Seq<char>, Seq<char>)>>;

pub open spec fn pairs_view(pairs: Seq<(String, String)>) -> Seq<(Seq<char>, Seq<char>)> {
    pairs.map_values(|p: (String, String)| (p.0@, p.1@))
}

/// `serde_urlencoded::from_str` into a list of string pairs: the result is
/// the decoder's reading of the query string, `form_pairs`.
#[verifier::external_body]
fn decode_form(query: &str) -> (pairs: Option<Vec<(String, String)>>)
    ensures
        match pairs {
            Some(v) => form_pairs(query@) == Some(pairs_view(v@)),
            None => form_pairs(query@) is None,
        },
{
    serde_urlencoded::from_str::<Vec<(String, String)>>(query).ok()
}

/// The pairs whose key is "token".
pub open spec fn token_pairs(pairs: Seq<(Seq<char>, Seq<char>)>) -> Seq<(Seq<char>, Seq<char>)> {
    pairs.filter(|p: (Seq<char>, Seq<char>)| p.0 == "token"@)
}

/// The token that a decoded query carries: read as a record with one field
/// `token`, the query yields it when exactly one pair has the key "token";
/// none, or two or more, give no token.
pub open spec fn token_in_pairs(pairs: Seq<(Seq<char>, Seq<char>)>) -> Option<Seq<char>> {
    if token_pairs(pairs).len() == 1 {
        Some(token_pairs(pairs)[0].1)
    } else {
        None
    }
}

/// The token that a request presents: the `X-Jard-Token` header when it has
/// one (readable as text), else the `token` parameter of its query string.
pub open spec fn request_token(header: Option<Seq<char>>, query: Option<Seq<char>>) -> Option<Seq<char>> {
    match header {
        Some(h) => Some(h),
        None => match query {
            Some(q) => match form_pairs(q) {
                Some(pairs) => token_in_pairs(pairs),
                None => None,
            },
            None => None,
        },
    }
}

/// Finds the token among decoded query pairs.
pub fn token_from_pairs(pairs: &Vec<(String, String)>) -> (token: Option<String>)
    ensures
        match token {
            Some(t) => token_in_pairs(pairs_view(pairs@)) == Some(t@),
            None => token_in_pairs(pairs_view(pairs@)) is None,
        },
{
    let ghost all = pairs_view(pairs@);
    let key = String::from_str("token");
    let mut found: Option<String> = None;
    let mut seen: usize = 0;
    let n = pairs.len();
    let mut i: usize = 0;
    while i < n
        invariant
            n == pairs.len(),
            all == pairs_view(pairs@),
            key@ == "token"@,
            i <= n,
            seen == token_pairs(all.take(i as int)).len(),
            seen <= i,
            seen >= 1 ==> found is Some,
            found matches Some(f) ==> seen >= 1 && f@ == token_pairs(all.take(i as int))[0].1,
        decreases n - i,
    {
        proof {
            reveal_with_fuel(Seq::filter, 1);
            assert(all.take(i + 1).drop_last() =~= all.take(i as int));
        }
        if pairs[i].0 == key {
            if seen == 0 {
                found = Some(pairs[i].1.clone());
            }
            seen = seen + 1;
        }
        proof {
            let t0 = token_pairs(all.take(i as int));
            let t1 = token_pairs(all.take(i + 1));
            if all[i as int].0 == "token"@ {
                assert(t1 =~= t0.push(all[i as int]));
            } else {
                assert(t1 =~= t0);
            }
        }
        i = i + 1;
    }
    proof {
        assert(all.take(n as int) =~= all);
    }
    if seen == 1 {
        found
    } else {
        None
    }
}

/// The token that a request presents, from its header (already read as
/// text) or else its raw query string.
pub fn token_of_request(header: Option<String>, query: Option<String>) -> (token: Option<String>)
    ensures
        match token {
            Some(t) => request_token(opt_view(header), opt_view(query)) == Some(t@),
            None => request_token(opt_view(header), opt_view(query)) is None,
        },
{
    match header {
        Some(h) => Some(h),
        None => match query {
            Some(q) => match decode_form(q.as_str()) {
                Some(pairs) => token_from_pairs(&pairs),
                None => None,
            },
            None => None,
        },
    }
}

pub open spec fn opt_view(s: Option<String>) -> Option<Seq<char>> {
    crate::model::opt_string_view(s)
}

// ---------------------------------------------------------------- rate limit

/// Length of a rate window, in nanoseconds.
pub const WINDOW_NANOS: i128 = 1_000_000_000;

/// Requests counted in a window beyond which further requests are refused.
pub const WINDOW_ALLOWANCE: u32 = 10;

/// One request from a client at instant `now` (nanoseconds since the epoch),
/// given the client's window (start, count) if it has one: whether the
/// request passes, and the client's window afterwards. A client without a
/// window opens one at `now` with nothing counted. Within a second of the
/// window's start (or before it) a request passes while the count is at most
/// the allowance, and is counted; once the count exceeds the allowance it is
/// refused and nothing changes. A second or more after the start, a new
/// window opens at `now` with this request counted.
pub open spec fn window_step(window: Option<(i128, u32)>, now: i128) -> (bool, (i128, u32)) {
    let (start, count) = match window {
        Some(w) => w,
        None => (now, 0u32),
    };
    if now - start < WINDOW_NANOS {
        if count > WINDOW_ALLOWANCE {
            (false, (start, count))
        } else {
            (true, (start, (count + 1) as u32))
        }
    } else {
        (true, (now, 1u32))
    }
}

/// Computes `window_step`.
pub fn next_window(window: Option<(i128, u32)>, now: i128) -> (step: (bool, (i128, u32)))
    ensures
        step == window_step(window, now),
{
    let (start, count) = match window {
        Some(w) => w,
        None => (now, 0u32),
    };
    let within = if start <= i128::MAX - WINDOW_NANOS {
        now < start + WINDOW_NANOS
    } else {
        true
    };
    if within {
        if count > WINDOW_ALLOWANCE {
            (false, (start, count))
        } else {
            (true, (start, count + 1))
        }
    } else {
        (true, (now, 1))
    }
}

/// `chrono::Utc::now()`, read as whole seconds since the epoch and the
/// nanoseconds past that second. The time is the machine's, so which
/// instant comes back is not stated; chrono keeps the nanoseconds below
/// 2,000,000,000 (above 999,999,999 only during a leap second). The call
/// panics if the machine's clock reads before 1970, a state of the machine
/// that no argument can rule out.
#[verifier::external_body]
fn utc_now() -> (now: (i64, u32))
    ensures
        now.1 < 2_000_000_000,
{
    let t = chrono::Utc::now();
    (t.timestamp(), t.timestamp_subsec_nanos())
}

/// The instant `secs` seconds and `nanos` nanoseconds after the epoch, in
/// nanoseconds.
pub open spec fn instant_of(secs: int, nanos: int) -> int {
    secs * 1_000_000_000 + nanos
}

/// Computes `instant_of`.
pub fn instant_nanos(secs: i64, nanos: u32) -> (t: i128)
    ensures
        t == instant_of(secs as int, nanos as int),
{
    proof {
        assert(i64::MIN * 1_000_000_000 <= secs * 1_000_000_000 <= i64::MAX * 1_000_000_000)
            by (nonlinear_arith)
            requires
                i64::MIN <= secs <= i64::MAX,
        ;
    }
    (secs as i128) * 1_000_000_000 + (nanos as i128)
}

/// The current instant by the machine's clock, in nanoseconds since the
/// epoch: some whole second plus less than two seconds' worth of
/// nanoseconds. Which instant it is depends on the clock.
pub fn now_nanos() -> (now: i128)
    ensures
        exists|secs: i64, nanos: u32|
            nanos < 2_000_000_000 && #[trigger] instant_of(secs as int, nanos as int) == now,
{
    let (secs, nanos) = utc_now();
    let now = instant_nanos(secs, nanos);
    proof {
        assert(nanos < 2_000_000_000 && instant_of(secs as int, nanos as int) == now);
    }
    now
}

} // verus!
