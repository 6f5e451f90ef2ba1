use vstd::prelude::*;
use crate::model::{AppError, STATUS_TOO_MANY_REQUESTS};
use crate::scan::ProbeOutcome;

verus! {

/// Attempts of a bounded retry.
pub const MAX_RETRIES: u32 = 5;

/// Pause between two attempts, in seconds.
pub const RETRY_DELAY_SECS: u64 = 2;

/// Time limit of one request, in seconds.
pub const REQUEST_TIMEOUT_SECS: u64 = 10;

/// A declared body shorter than this is the fallback page.
pub const FALLBACK_PAGE_SIZE: u64 = 5925;

/// Domain that the remote service redirects to for an ID that does not exist.
pub const FALLBACK_DOMAIN: &'static str = "telegram.org";

/// `n` occurs in `h` as a contiguous run.
pub open spec fn text_contains(h: Seq<char>, n: Seq<char>) -> bool {
    exists|i: int| 0 <= i && i + n.len() <= h.len() && #[trigger] h.subrange(i, i + n.len()) == n
}

/// Whether `needle` occurs in `hay`.
pub fn contains_text(hay: &str, needle: &str) -> (r: bool)
    ensures
        r == text_contains(hay@, needle@),
{
    let h = hay.unicode_len();
    let m = needle.unicode_len();
    if m > h {
        assert forall|i: int| 0 <= i && i + needle@.len() <= hay@.len() implies
            #[trigger] hay@.subrange(i, i + needle@.len()) != needle@ by {};
        return false;
    }
    let mut i: usize = 0;
    while i <= h - m
        invariant
            h == hay@.len(),
            m == needle@.len(),
            m <= h,
            i <= h - m + 1,
            forall|k: int| 0 <= k < i ==> #[trigger] hay@.subrange(k, k + m) != needle@,
        decreases h - m + 1 - i,
    {
        let mut j: usize = 0;
        let mut same = true;
        while j < m
            invariant
                h == hay@.len(),
                m == needle@.len(),
                i + m <= h,
                j <= m,
                same == (forall|t: int| 0 <= t < j ==> hay@[i + t] == needle@[t]),
            decreases m - j,
        {
            if same && hay.get_char(i + j) != needle.get_char(j) {
                same = false;
            }
            j = j + 1;
        }
        if same {
            assert(hay@.subrange(i as int, i + m) =~= needle@);
            return true;
        }
        assert(hay@.subrange(i as int, i + m)[0] == hay@[i as int + 0]);
        assert(!(hay@.subrange(i as int, i + m) =~= needle@));
        i = i + 1;
    }
    assert forall|k: int| 0 <= k && k + needle@.len() <= hay@.len() implies
        #[trigger] hay@.subrange(k, k + needle@.len()) != needle@ by {
        assert(k < i);
    };
    false
}

/// What came back from one request for a page.
pub enum ProbeReply {
    /// A response: its status, its declared body length if any, and the URL
    /// it ended on after redirects.
    Response { status: u16, content_length: Option<u64>, final_url: String },
    /// The request failed below HTTP (timeout, DNS, reset), with its description.
    Transport(String),
}

/// A page that is real content: not shorter than the fallback page, and not
/// on the fallback domain.
pub open spec fn page_exists_spec(content_length: Option<u64>, final_url: Seq<char>) -> bool {
    match content_length {
        Some(n) => n >= FALLBACK_PAGE_SIZE && !text_contains(final_url, FALLBACK_DOMAIN@),
        None => !text_contains(final_url, FALLBACK_DOMAIN@),
    }
}

/// Whether a response is real content rather than the fallback page.
pub fn page_exists(content_length: Option<u64>, final_url: &str) -> (r: bool)
    ensures
        r == page_exists_spec(content_length, final_url@),
{
    match content_length {
        Some(n) => {
            if n < FALLBACK_PAGE_SIZE {
                false
            } else {
                !contains_text(final_url, FALLBACK_DOMAIN)
            }
        },
        None => !contains_text(final_url, FALLBACK_DOMAIN),
    }
}

pub open spec fn classify_spec(reply: ProbeReply) -> ProbeOutcome {
    match reply {
        ProbeReply::Transport(_) => ProbeOutcome::TransientError,
        ProbeReply::Response { status, content_length, final_url } => {
            if status == STATUS_TOO_MANY_REQUESTS {
                ProbeOutcome::RateLimited
            } else if page_exists_spec(content_length, final_url@) {
                ProbeOutcome::Exists
            } else {
                ProbeOutcome::NotExists
            }
        },
    }
}

/// Classifies what came back from one request for an ID.
pub fn classify(reply: &ProbeReply) -> (r: ProbeOutcome)
    ensures
        r == classify_spec(*reply),
{
    match reply {
        ProbeReply::Transport(_) => ProbeOutcome::TransientError,
        ProbeReply::Response { status, content_length, final_url } => {
            if *status == STATUS_TOO_MANY_REQUESTS {
                ProbeOutcome::RateLimited
            } else if page_exists(*content_length, final_url.as_str()) {
                ProbeOutcome::Exists
            } else {
                ProbeOutcome::NotExists
            }
        },
    }
}

/// What to do after one attempt of a bounded retry.
pub enum Step<T> {
    /// Finished with this value.
    Done(T),
    /// Try again after the retry delay.
    Retry,
    /// Give up with this error.
    Fail(AppError),
}

/// Retries before the last attempt; gives up with `MaxRetriesExceeded` on it.
pub open spec fn retry_or_give_up<T>(attempt: u32) -> Step<T> {
    if attempt >= MAX_RETRIES {
        Step::Fail(AppError::MaxRetriesExceeded(MAX_RETRIES))
    } else {
        Step::Retry
    }
}

pub fn give_up_or_retry<T>(attempt: u32) -> (r: Step<T>)
    ensures
        r == retry_or_give_up::<T>(attempt),
{
    if attempt >= MAX_RETRIES {
        Step::Fail(AppError::MaxRetriesExceeded(MAX_RETRIES))
    } else {
        Step::Retry
    }
}

/// Decision after attempt `attempt` of a single existence check: a transport
/// failure is retried after the pause, and gives up with `MaxRetriesExceeded`
/// on the last attempt; a rate limit is retried likewise, and on the last
/// attempt is the error itself; any other response is classified.
pub open spec fn check_step_spec(attempt: u32, reply: ProbeReply) -> Step<bool> {
    match reply {
        ProbeReply::Transport(_) => retry_or_give_up(attempt),
        ProbeReply::Response { status, content_length, final_url } => {
            if status == STATUS_TOO_MANY_REQUESTS {
                if attempt >= MAX_RETRIES {
                    Step::Fail(AppError::RateLimit)
                } else {
                    Step::Retry
                }
            } else {
                Step::Done(page_exists_spec(content_length, final_url@))
            }
        },
    }
}

/// Decides what follows attempt `attempt` (counted from 1) of a single check.
pub fn check_step(attempt: u32, reply: &ProbeReply) -> (r: Step<bool>)
    requires
        1 <= attempt <= MAX_RETRIES,
    ensures
        r == check_step_spec(attempt, *reply),
{
    match reply {
        ProbeReply::Transport(_) => give_up_or_retry(attempt),
        ProbeReply::Response { status, content_length, final_url } => {
            if *status == STATUS_TOO_MANY_REQUESTS {
                if attempt >= MAX_RETRIES {
                    Step::Fail(AppError::RateLimit)
                } else {
                    Step::Retry
                }
            } else {
                Step::Done(page_exists(*content_length, final_url.as_str()))
            }
        },
    }
}

} // verus!
