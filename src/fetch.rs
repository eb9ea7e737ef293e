//! Classification of upstream answers, the fail-soft count probe and the
//! fail-hard single lookup.
use vstd::prelude::*;

verus! {

/// Why one page could not be fetched.
#[derive(Clone, Copy, Debug, PartialEq, Eq, Structural)]
pub enum FetchError {
    /// The host could not be reached, or the transport timed out.
    Transport,
    /// The upstream service answered with a non-success status code.
    UpstreamStatus(u16),
    /// The answer had a success status but its body did not parse.
    MalformedBody,
}

/// One page of results: each item with its identifier, in upstream order,
/// and the total number of matching items upstream.
#[derive(Clone, Debug, PartialEq, Eq)]
pub struct PageResult<T> {
    pub items: Vec<(u128, T)>,
    pub total_count: u32,
}

/// A status code in the success class (2xx).
pub open spec fn is_success(status: u16) -> bool {
    200 <= status <= 299
}

/// Classifies the status code of an answer: success, or the upstream
/// status error carrying the code.
pub fn check_status(status: u16) -> (r: Result<(), FetchError>)
    ensures
        is_success(status) ==> r is Ok,
        !is_success(status) ==> r == Err::<(), FetchError>(FetchError::UpstreamStatus(status)),
{
    if 200 <= status && status <= 299 {
        Ok(())
    } else {
        Err(FetchError::UpstreamStatus(status))
    }
}

/// The total count that a probe answer gives, where a failed probe counts
/// as zero items.
pub open spec fn probed_total<T>(response: Result<PageResult<T>, FetchError>) -> u32 {
    match response {
        Ok(page) => page.total_count,
        Err(_) => 0,
    }
}

/// Reads the total number of matching items from a probe answer. A failed
/// probe is not an error here: it yields zero, so no page gets planned.
pub fn get_total_count<T>(response: &Result<PageResult<T>, FetchError>) -> (total: u32)
    ensures
        total == probed_total(*response),
{
    match response {
        Ok(page) => page.total_count,
        Err(_) => 0,
    }
}

/// What a lookup by identifier yields for an answer: the error unchanged,
/// nothing for an empty page, else the first item of the page.
pub open spec fn lookup_result<T>(response: Result<PageResult<T>, FetchError>) -> Result<
    Option<T>,
    FetchError,
> {
    match response {
        Err(e) => Err(e),
        Ok(page) => if page.items@.len() == 0 {
            Ok(None)
        } else {
            Ok(Some(page.items@[0].1))
        },
    }
}

/// Turns the answer to a lookup by identifier into its result. Errors are
/// passed on unchanged.
pub fn first_hit<T>(response: Result<PageResult<T>, FetchError>) -> (r: Result<Option<T>, FetchError>)
    ensures
        r == lookup_result(response),
{
    match response {
        Err(e) => Err(e),
        Ok(page) => {
            let mut items = page.items;
            if items.len() == 0 {
                Ok(None)
            } else {
                let (_, item) = items.remove(0);
                Ok(Some(item))
            }
        },
    }
}

} // verus!
