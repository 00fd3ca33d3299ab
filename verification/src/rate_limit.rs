//! The token bucket behind per-client rate limiting: each request takes one
//! token, and tokens earned since the last refill are added first, up to the
//! bucket's capacity.
use vstd::prelude::*;

verus! {

/// What one request does to a bucket.
pub struct Decision {
    /// The request may proceed.
    pub allowed: bool,
    /// The tokens left in the bucket afterwards.
    pub tokens: u32,
    /// Tokens were added, so the time of the last refill moves to now.
    pub refilled: bool,
}

/// The tokens a bucket holds after `add` earned tokens are added.
pub open spec fn refilled_tokens(tokens: u32, capacity: u32, add: u32) -> int {
    if add > 0 {
        if capacity < tokens + add {
            capacity as int
        } else {
            tokens + add
        }
    } else {
        tokens as int
    }
}

/// A request arrives at a bucket holding `tokens` tokens of at most `capacity`,
/// after `add` tokens were earned since the last refill. The earned tokens are
/// added (never past `capacity`); then, if a token is there, one is taken and
/// the request is allowed; otherwise it is refused and the bucket keeps its
/// tokens.
pub fn take_token(tokens: u32, capacity: u32, add: u32) -> (d: Decision)
    requires
        add > 0 ==> tokens + add <= u32::MAX,
    ensures
        d.refilled == (add > 0),
        d.allowed == (refilled_tokens(tokens, capacity, add) > 0),
        d.allowed ==> d.tokens == refilled_tokens(tokens, capacity, add) - 1,
        !d.allowed ==> d.tokens == tokens,
        add > 0 ==> d.allowed == (capacity > 0 && tokens + add > 0),
        add > 0 && d.allowed ==> d.tokens + 1 == if capacity < tokens + add {
            capacity as int
        } else {
            tokens + add
        },
        add == 0 ==> d.allowed == (tokens > 0),
        add == 0 && d.allowed ==> d.tokens + 1 == tokens,
{
    let mut current = tokens;
    let refilled = add > 0;
    if refilled {
        let sum = tokens + add;
        current = if capacity < sum {
            capacity
        } else {
            sum
        };
    }
    if current > 0 {
        Decision { allowed: true, tokens: current - 1, refilled }
    } else {
        Decision { allowed: false, tokens, refilled }
    }
}

/// A bucket never holds more than its capacity: one that starts within it
/// stays within it after any request.
pub proof fn lemma_tokens_within_capacity(tokens: u32, capacity: u32, add: u32)
    requires
        tokens <= capacity,
    ensures
        refilled_tokens(tokens, capacity, add) <= capacity,
        refilled_tokens(tokens, capacity, add) > 0 ==> refilled_tokens(tokens, capacity, add) - 1 <= capacity,
{
}

/// The number of requests allowed among `n` that arrive in a burst, with no
/// tokens earned between them, at a bucket holding `tokens` tokens.
pub open spec fn allowed_in_burst(tokens: u32, capacity: u32, n: nat) -> nat
    decreases n,
{
    if n == 0 {
        0
    } else if refilled_tokens(tokens, capacity, 0) > 0 {
        1 + allowed_in_burst((tokens - 1) as u32, capacity, (n - 1) as nat)
    } else {
        allowed_in_burst(tokens, capacity, (n - 1) as nat)
    }
}

/// A burst of `n` requests with no refill in between is allowed exactly as
/// many times as there are tokens: `min(tokens, n)`.
pub proof fn lemma_burst(tokens: u32, capacity: u32, n: nat)
    ensures
        allowed_in_burst(tokens, capacity, n) == if tokens < n {
            tokens as nat
        } else {
            n
        },
    decreases n,
{
    if n > 0 {
        if tokens > 0 {
            lemma_burst((tokens - 1) as u32, capacity, (n - 1) as nat);
        } else {
            lemma_burst(tokens, capacity, (n - 1) as nat);
        }
    }
}

/// Tokens earned in total over a run of requests.
pub open spec fn total(adds: Seq<u32>) -> nat
    decreases adds.len(),
{
    if adds.len() == 0 {
        0
    } else {
        adds[0] as nat + total(adds.drop_first())
    }
}

/// A run of requests at a bucket holding `tokens` tokens, the `i`th arriving
/// after `adds[i]` tokens were earned since the one before, each handled as
/// `take_token` says: how many are allowed, and the tokens left at the end.
pub open spec fn bucket_run(tokens: u32, capacity: u32, adds: Seq<u32>) -> (nat, int)
    decreases adds.len(),
{
    if adds.len() == 0 {
        (0, tokens as int)
    } else {
        let t = refilled_tokens(tokens, capacity, adds[0]);
        if t > 0 {
            let rest = bucket_run((t - 1) as u32, capacity, adds.drop_first());
            (rest.0 + 1, rest.1)
        } else {
            bucket_run(tokens, capacity, adds.drop_first())
        }
    }
}

/// Over any run of requests, a bucket that starts within its capacity stays
/// within it, and it allows no more requests than the tokens it started with
/// plus the tokens earned during the run (tokens left over counted too).
pub proof fn lemma_bucket_run(tokens: u32, capacity: u32, adds: Seq<u32>)
    requires
        tokens <= capacity,
    ensures
        0 <= bucket_run(tokens, capacity, adds).1 <= capacity,
        bucket_run(tokens, capacity, adds).0 + bucket_run(tokens, capacity, adds).1 <= tokens + total(adds),
    decreases adds.len(),
{
    if adds.len() > 0 {
        let t = refilled_tokens(tokens, capacity, adds[0]);
        lemma_tokens_within_capacity(tokens, capacity, adds[0]);
        if t > 0 {
            lemma_bucket_run((t - 1) as u32, capacity, adds.drop_first());
        } else {
            lemma_bucket_run(tokens, capacity, adds.drop_first());
        }
    }
}

/// A refill keeps the tokens already in the bucket: the earned tokens are
/// added to them, and only what would pass the capacity is lost. So the
/// bucket never holds less than before (up to its capacity), never more than
/// before plus what was earned, and is either full or holds exactly the sum.
pub proof fn lemma_refill_adds_to_bucket(tokens: u32, capacity: u32, add: u32)
    requires
        tokens <= capacity,
    ensures
        refilled_tokens(tokens, capacity, add) >= tokens,
        refilled_tokens(tokens, capacity, add) <= tokens + add,
        refilled_tokens(tokens, capacity, add) <= capacity,
        refilled_tokens(tokens, capacity, add) == capacity || refilled_tokens(tokens, capacity, add) == tokens + add,
{
}

} // verus!
