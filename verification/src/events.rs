//! Events a run reports to the terminal interface.
use vstd::prelude::*;

verus! {

/// Tokens consumed by model calls.
#[derive(Clone, Copy, Debug, PartialEq, Eq, Structural)]
pub struct TokenUsage {
    pub prompt_tokens: u64,
    pub completion_tokens: u64,
}

/// `a + b`, or `u64::MAX` when that does not fit.
pub open spec fn sat_add(a: u64, b: u64) -> u64 {
    if a + b <= u64::MAX {
        (a + b) as u64
    } else {
        u64::MAX
    }
}

impl TokenUsage {
    pub fn new() -> (u: TokenUsage)
        ensures
            u.prompt_tokens == 0 && u.completion_tokens == 0,
    {
        TokenUsage { prompt_tokens: 0, completion_tokens: 0 }
    }

    /// Counts as reported by the model; a missing count is zero.
    pub fn from_counts(prompt: Option<u64>, completion: Option<u64>) -> (u: TokenUsage)
        ensures
            u.prompt_tokens == match prompt {
                Some(p) => p,
                None => 0,
            },
            u.completion_tokens == match completion {
                Some(c) => c,
                None => 0,
            },
    {
        TokenUsage {
            prompt_tokens: match prompt {
                Some(p) => p,
                None => 0,
            },
            completion_tokens: match completion {
                Some(c) => c,
                None => 0,
            },
        }
    }

    /// Both counts together (saturating).
    pub fn total(&self) -> (t: u64)
        ensures
            t == sat_add(self.prompt_tokens, self.completion_tokens),
    {
        self.prompt_tokens.saturating_add(self.completion_tokens)
    }

    /// Adds another usage to this one, count by count (saturating).
    pub fn add_assign(&mut self, other: &TokenUsage)
        ensures
            final(self).prompt_tokens == sat_add(old(self).prompt_tokens, other.prompt_tokens),
            final(self).completion_tokens == sat_add(
                old(self).completion_tokens,
                other.completion_tokens,
            ),
    {
        self.prompt_tokens = self.prompt_tokens.saturating_add(other.prompt_tokens);
        self.completion_tokens = self.completion_tokens.saturating_add(other.completion_tokens);
    }

    /// The usage worth reporting for a model answer: none when nothing was
    /// counted.
    pub fn reportable(prompt: Option<u64>, completion: Option<u64>) -> (r: Option<TokenUsage>)
        ensures
            match r {
                Some(u) => u == TokenUsage::from_counts_spec(prompt, completion) && sat_add(
                    u.prompt_tokens,
                    u.completion_tokens,
                ) > 0,
                None => sat_add(
                    TokenUsage::from_counts_spec(prompt, completion).prompt_tokens,
                    TokenUsage::from_counts_spec(prompt, completion).completion_tokens,
                ) == 0,
            },
    {
        let u = TokenUsage::from_counts(prompt, completion);
        if u.total() > 0 {
            Some(u)
        } else {
            None
        }
    }

    pub open spec fn from_counts_spec(prompt: Option<u64>, completion: Option<u64>) -> TokenUsage {
        TokenUsage {
            prompt_tokens: match prompt {
                Some(p) => p,
                None => 0,
            },
            completion_tokens: match completion {
                Some(c) => c,
                None => 0,
            },
        }
    }
}

/// What a run tells the interface. Identifiers are 128-bit UUID values.
#[derive(Clone, Debug)]
pub enum RunEvent {
    Started { run_id: u128, conversation_id: u128 },
    Trace { run_id: u128, message: String },
    Usage { run_id: u128, usage: TokenUsage },
    Stage { run_id: u128, agent: String, current: usize, total: usize },
    Completed { run_id: u128, conversation_id: u128 },
    Failed { run_id: u128, conversation_id: u128, message: String, retryable: bool },
}

} // verus!
