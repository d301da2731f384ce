use vstd::prelude::*;

use crate::error::ReplayError;

verus! {

/// Default capacity of the queue that feeds the mirror.
pub const DEFAULT_CHANNEL_BUFFER_SIZE: usize = 1024;

/// Default number of sends that may be in flight at once.
pub const DEFAULT_MAX_CONCURRENT_REQUESTS: usize = 50;

/// The integer limits of a mirror's configuration: how many requests may wait
/// in its queue and how many sends may be in flight at once.
#[derive(Clone, Copy, Debug, PartialEq, Eq, Structural)]
pub struct MirrorLimits {
    pub channel_buffer_size: usize,
    pub max_concurrent_requests: usize,
}

/// The first rule that a configuration breaks, by its message, checking the
/// sampling rate first, then the queue size, then the concurrency limit;
/// `None` when it breaks none.
pub open spec fn config_violation(
    sample_rate_in_range: bool,
    channel_buffer_size: nat,
    max_concurrent_requests: nat,
) -> Option<Seq<char>> {
    if !sample_rate_in_range {
        Some("sample_rate must be between 0.0 and 1.0"@)
    } else if channel_buffer_size == 0 {
        Some("channel_buffer_size must be > 0"@)
    } else if max_concurrent_requests == 0 {
        Some("max_concurrent_requests must be > 0"@)
    } else {
        None
    }
}

/// A configuration is refused exactly when its sampling rate is out of range
/// or one of its limits is zero; any positive queue size goes with any
/// positive concurrency limit.
pub proof fn lemma_accepted_exactly_when_rules_hold(
    sample_rate_in_range: bool,
    channel_buffer_size: nat,
    max_concurrent_requests: nat,
)
    ensures
        config_violation(sample_rate_in_range, channel_buffer_size, max_concurrent_requests)
            is None <==> (sample_rate_in_range && channel_buffer_size > 0 && max_concurrent_requests
            > 0),
{
}

/// The message names the first rule broken: the rate whenever it is out of
/// range, the queue size whenever the rate is fine and the queue is empty,
/// and the concurrency limit only when it alone is broken.
pub proof fn lemma_violation_names_first_broken_rule(
    sample_rate_in_range: bool,
    channel_buffer_size: nat,
    max_concurrent_requests: nat,
)
    ensures
        !sample_rate_in_range ==> config_violation(
            sample_rate_in_range,
            channel_buffer_size,
            max_concurrent_requests,
        ) == Some("sample_rate must be between 0.0 and 1.0"@),
        sample_rate_in_range && channel_buffer_size == 0 ==> config_violation(
            sample_rate_in_range,
            channel_buffer_size,
            max_concurrent_requests,
        ) == Some("channel_buffer_size must be > 0"@),
        sample_rate_in_range && channel_buffer_size > 0 && max_concurrent_requests == 0
            ==> config_violation(sample_rate_in_range, channel_buffer_size, max_concurrent_requests)
            == Some("max_concurrent_requests must be > 0"@),
{
}

impl Default for MirrorLimits {
    fn default() -> (limits: MirrorLimits)
        ensures
            limits.channel_buffer_size == 1024,
            limits.max_concurrent_requests == 50,
    {
        MirrorLimits {
            channel_buffer_size: DEFAULT_CHANNEL_BUFFER_SIZE,
            max_concurrent_requests: DEFAULT_MAX_CONCURRENT_REQUESTS,
        }
    }
}

impl MirrorLimits {
    /// Checks a configuration with these limits. `sample_rate_in_range` says
    /// whether its sampling rate lies in the closed interval from 0 to 1.
    pub fn validate(&self, sample_rate_in_range: bool) -> (r: Result<(), ReplayError>)
        ensures
            match config_violation(
                sample_rate_in_range,
                self.channel_buffer_size as nat,
                self.max_concurrent_requests as nat,
            ) {
                None => r is Ok,
                Some(msg) => r matches Err(ReplayError::InvalidConfig(m)) && m@ == msg,
            },
            r is Ok <==> (sample_rate_in_range && self.channel_buffer_size > 0
                && self.max_concurrent_requests > 0),
    {
        if !sample_rate_in_range {
            return Err(ReplayError::InvalidConfig("sample_rate must be between 0.0 and 1.0".to_owned()));
        }
        if self.channel_buffer_size == 0 {
            return Err(ReplayError::InvalidConfig("channel_buffer_size must be > 0".to_owned()));
        }
        if self.max_concurrent_requests == 0 {
            return Err(ReplayError::InvalidConfig("max_concurrent_requests must be > 0".to_owned()));
        }
        Ok(())
    }
}

} // verus!
