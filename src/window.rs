//! Bounds on occurrences: whether a moment lies after or before a bound,
//! counting the bound itself only when the window is inclusive.
use vstd::prelude::*;

verus! {

pub open spec fn after_bound(t: i64, bound: i64, inclusive: Option<bool>) -> bool {
    if inclusive == Some(true) {
        t >= bound
    } else {
        t > bound
    }
}

pub open spec fn before_bound(t: i64, bound: i64, inclusive: Option<bool>) -> bool {
    if inclusive == Some(true) {
        t <= bound
    } else {
        t < bound
    }
}

/// Whether `t` lies after `bound`; the window is exclusive unless `inclusive` says otherwise.
pub fn is_after(t: i64, bound: i64, inclusive: Option<bool>) -> (r: bool)
    ensures
        r == after_bound(t, bound, inclusive),
{
    let inclusive = match inclusive {
        Some(b) => b,
        None => false,
    };
    if inclusive && t < bound {
        false
    } else if !inclusive && t <= bound {
        false
    } else {
        true
    }
}

/// Whether `t` lies before `bound`; the window is exclusive unless `inclusive` says otherwise.
pub fn is_before(t: i64, bound: i64, inclusive: Option<bool>) -> (r: bool)
    ensures
        r == before_bound(t, bound, inclusive),
{
    let inclusive = match inclusive {
        Some(b) => b,
        None => false,
    };
    if inclusive && t > bound {
        false
    } else if !inclusive && t >= bound {
        false
    } else {
        true
    }
}

} // verus!
