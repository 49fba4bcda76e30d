use vstd::prelude::*;

verus! {

/// `x` is a value that `F::default()` can return (for `f32`, `0.0`).
pub open spec fn is_default<F: Default>(x: F) -> bool {
    call_ensures(F::default, (), x)
}

} // verus!
