//! Token accounting for completion requests, and how a request is split into
//! batches.

use vstd::prelude::*;

verus! {

/// The most completions asked for in one request.
pub const MAX_BATCH: u64 = 20;

/// The batch sizes for `n` completions: full batches of `MAX_BATCH`, then the rest.
pub open spec fn batches(n: nat) -> Seq<u64>
    decreases n,
{
    if n == 0 {
        Seq::empty()
    } else if n <= MAX_BATCH {
        seq![n as u64]
    } else {
        seq![MAX_BATCH] + batches((n - MAX_BATCH) as nat)
    }
}

/// The sizes of the requests that together ask for `n` completions.
pub fn batch_sizes(n: u64) -> (r: Vec<u64>)
    ensures
        r@ == batches(n as nat),
{
    let mut r: Vec<u64> = Vec::new();
    let mut left = n;
    while left > 0
        invariant
            r@ + batches(left as nat) == batches(n as nat),
        decreases left,
    {
        let cnt = if left < MAX_BATCH {
            left
        } else {
            MAX_BATCH
        };
        let ghost before = r@;
        r.push(cnt);
        left = left - cnt;
        assert(before + batches((left + cnt) as nat) =~= r@ + batches(left as nat));
    }
    assert(r@ + batches(0) =~= r@);
    r
}

/// `a + b`, or `u64::MAX` when that is larger.
pub open spec fn sat_add(a: u64, b: u64) -> u64 {
    if a + b <= u64::MAX {
        (a + b) as u64
    } else {
        u64::MAX
    }
}

/// The tokens used so far, owned by whoever makes the requests.
#[derive(Clone, Copy, Debug, PartialEq, Eq, Structural)]
pub struct Usage {
    pub completion_tokens: u64,
    pub prompt_tokens: u64,
}

/// The model a run uses.
#[derive(Clone, Copy, Debug, PartialEq, Eq, Structural)]
pub enum Backend {
    Gpt4,
    Gpt35Turbo,
}

/// The backend that a name selects.
pub open spec fn backend_of_name(name: Seq<char>) -> Option<Backend> {
    if name == "gpt-4"@ {
        Some(Backend::Gpt4)
    } else if name == "gpt-3.5-turbo"@ {
        Some(Backend::Gpt35Turbo)
    } else {
        None
    }
}

/// What the tokens cost, in millionths of a dollar: on `gpt-4` 0.06 per whole
/// thousand completion tokens and 0.03 per whole thousand prompt tokens; on
/// `gpt-3.5-turbo` 0.0002 per whole thousand tokens of either kind.
pub open spec fn cost_micros(u: Usage, b: Backend) -> nat {
    match b {
        Backend::Gpt4 => (u.completion_tokens / 1000) as nat * 60000 + (u.prompt_tokens / 1000) as nat
            * 30000,
        Backend::Gpt35Turbo => ((u.completion_tokens + u.prompt_tokens) / 1000) as nat * 200,
    }
}

impl Backend {
    /// The backend named `name`: `gpt-4` or `gpt-3.5-turbo`.
    pub fn from_name(name: &str) -> (r: Option<Backend>)
        ensures
            r == backend_of_name(name@),
    {
        if crate::text::spells(name, "gpt-4") {
            Some(Backend::Gpt4)
        } else if crate::text::spells(name, "gpt-3.5-turbo") {
            Some(Backend::Gpt35Turbo)
        } else {
            None
        }
    }
}

impl Usage {
    /// No tokens used.
    pub fn new() -> (r: Usage)
        ensures
            r.completion_tokens == 0 && r.prompt_tokens == 0,
    {
        Usage { completion_tokens: 0, prompt_tokens: 0 }
    }

    /// Adds the tokens of one answered request; the counts stop at `u64::MAX`.
    pub fn record(&mut self, completion_tokens: u64, prompt_tokens: u64)
        ensures
            final(self).completion_tokens == sat_add(old(self).completion_tokens, completion_tokens),
            final(self).prompt_tokens == sat_add(old(self).prompt_tokens, prompt_tokens),
    {
        self.completion_tokens = if self.completion_tokens > u64::MAX - completion_tokens {
            u64::MAX
        } else {
            self.completion_tokens + completion_tokens
        };
        self.prompt_tokens = if self.prompt_tokens > u64::MAX - prompt_tokens {
            u64::MAX
        } else {
            self.prompt_tokens + prompt_tokens
        };
    }
}

/// The tokens used and what they cost on `backend`, in millionths of a dollar.
pub fn gpt_usage(usage: &Usage, backend: Backend) -> (r: (u64, u64, u128))
    ensures
        r.0 == usage.completion_tokens,
        r.1 == usage.prompt_tokens,
        r.2 == cost_micros(*usage, backend),
{
    let c = usage.completion_tokens;
    let p = usage.prompt_tokens;
    let cost = match backend {
        Backend::Gpt4 => (c / 1000) as u128 * 60000 + (p / 1000) as u128 * 30000,
        Backend::Gpt35Turbo => (((c as u128) + (p as u128)) / 1000) * 200,
    };
    (c, p, cost)
}

} // verus!
