//! Errors of batch evaluation over registered data sets and recipes.
use vstd::prelude::*;

use crate::recipe::RecipeError;
use crate::registry::RegistryError;

verus! {

#[derive(Debug, Clone, PartialEq)]
pub enum BatchError {
    Registry(RegistryError),
    Recipe(RecipeError),
    Engine(String),
}

impl From<RegistryError> for BatchError {
    fn from(value: RegistryError) -> (r: Self)
        ensures
            r == BatchError::Registry(value),
    {
        BatchError::Registry(value)
    }
}

impl vstd::std_specs::convert::FromSpecImpl<RegistryError> for BatchError {
    open spec fn obeys_from_spec() -> bool {
        true
    }

    open spec fn from_spec(v: RegistryError) -> BatchError {
        BatchError::Registry(v)
    }
}

impl From<RecipeError> for BatchError {
    fn from(value: RecipeError) -> (r: Self)
        ensures
            r == BatchError::Recipe(value),
    {
        BatchError::Recipe(value)
    }
}

impl vstd::std_specs::convert::FromSpecImpl<RecipeError> for BatchError {
    open spec fn obeys_from_spec() -> bool {
        true
    }

    open spec fn from_spec(v: RecipeError) -> BatchError {
        BatchError::Recipe(v)
    }
}


/// Bars between progress reports of a forward run over `n` bars: a
/// twentieth of the run, but never fewer than 500.
pub open spec fn progress_interval(n: int) -> int {
    if n / 20 >= 500 {
        n / 20
    } else {
        500
    }
}

/// The progress interval is a twentieth of the run, never fewer than 500 bars.
pub proof fn progress_interval_is_twentieth_at_least_500(n: int)
    requires
        n >= 0,
    ensures
        progress_interval(n) >= 500,
        progress_interval(n) >= n / 20,
        n >= 10_000 ==> progress_interval(n) == n / 20,
        n < 10_000 ==> progress_interval(n) == 500,
{
}

/// Whether a forward run reports progress after `end` of `n` bars: after the
/// first bar, the last bar, and every `progress_interval(n)` bars.
pub fn forward_progress_due(end: usize, n: usize) -> (due: bool)
    ensures
        due == (end == 1 || end == n || end as int % progress_interval(n as int) == 0),
{
    let every = if n / 20 >= 500 { n / 20 } else { 500 };
    end == 1 || end == n || end % every == 0
}

} // verus!
