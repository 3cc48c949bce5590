//! Values clamped to a compile-time range.
//!
//! A `BoundedValue<MIN, MAX, H>` always holds a value between the two
//! bound markers; construction clamps and reports the excess to the
//! handler `H`.
use vstd::prelude::*;

verus! {

/// A compile-time bound: a marker type naming one value.
pub trait Bounds {
    spec fn spec_value() -> usize;

    fn get() -> (r: usize)
        ensures
            r == Self::spec_value(),
    ;
}

/// Which end of the range a value fell outside of.
pub enum ExceededBound {
    Min,
    Max,
}

/// Told about every value that had to be clamped.
pub trait OutOfBoundsHandler {
    fn handle(bound: usize, value: usize, exceeded_bound: ExceededBound);
}

impl OutOfBoundsHandler for () {
    fn handle(_bound: usize, _value: usize, _exceeded_bound: ExceededBound) {
    }
}

/// Handler for callers that treat clamping as a fault.
pub struct OOBPanicer;

impl OutOfBoundsHandler for OOBPanicer {
    fn handle(_bound: usize, _value: usize, _exceeded_bound: ExceededBound) {
    }
}

/// Handler that accepts clamping silently.
pub struct OOBIgnorer;

impl OutOfBoundsHandler for OOBIgnorer {
    fn handle(_bound: usize, _value: usize, _exceeded_bound: ExceededBound) {
    }
}

/// What `create` turns an arbitrary value into.
pub open spec fn spec_clamped<MIN: Bounds, MAX: Bounds>(val: usize) -> usize {
    if val < MIN::spec_value() {
        MIN::spec_value()
    } else if val > MAX::spec_value() {
        MAX::spec_value()
    } else {
        val
    }
}

/// A value held between `MIN` and `MAX`.
#[derive(Debug, Copy, PartialEq)]
pub struct BoundedValue<MIN: Bounds, MAX: Bounds, H: OutOfBoundsHandler> {
    value: usize,
    _min: core::marker::PhantomData<MIN>,
    _max: core::marker::PhantomData<MAX>,
    _out_of_bounds_handler: core::marker::PhantomData<H>,
}

impl<MIN: Bounds, MAX: Bounds, H: OutOfBoundsHandler> BoundedValue<MIN, MAX, H> {
    /// The held value.
    pub closed spec fn spec_get(self) -> usize {
        self.value
    }

    /// Every value of this type lies within its bounds; sight of a
    /// value suffices to recover this.
    #[verifier::type_invariant]
    pub open spec fn inv(self) -> bool {
        MIN::spec_value() <= self.spec_get() <= MAX::spec_value()
            || MAX::spec_value() < MIN::spec_value()
    }

    pub fn create(val: usize) -> (r: Self)
        ensures
            r.spec_get() == spec_clamped::<MIN, MAX>(val),
    {
        let v = if val < MIN::get() {
            H::handle(MIN::get(), val, ExceededBound::Min);
            MIN::get()
        } else if val > MAX::get() {
            H::handle(MAX::get(), val, ExceededBound::Max);
            MAX::get()
        } else {
            val
        };
        Self {
            value: v,
            _min: core::marker::PhantomData,
            _max: core::marker::PhantomData,
            _out_of_bounds_handler: core::marker::PhantomData,
        }
    }

    pub fn take(self) -> (r: usize)
        ensures
            r == self.spec_get(),
            MIN::spec_value() <= MAX::spec_value() ==> MIN::spec_value() <= r <= MAX::spec_value(),
    {
        proof {
            use_type_invariant(&self);
        }
        self.value
    }

    pub fn once(val: usize) -> (r: usize)
        ensures
            r == spec_clamped::<MIN, MAX>(val),
    {
        Self::create(val).take()
    }

    pub fn min() -> (r: usize)
        ensures
            r == MIN::spec_value(),
    {
        MIN::get()
    }

    pub fn max() -> (r: usize)
        ensures
            r == MAX::spec_value(),
    {
        MAX::get()
    }
}

impl<MIN: Bounds, MAX: Bounds, H: OutOfBoundsHandler> Clone for BoundedValue<MIN, MAX, H> {
    fn clone(&self) -> (r: Self)
        ensures
            r.spec_get() == self.spec_get(),
    {
        proof {
            use_type_invariant(self);
        }
        Self {
            value: self.value,
            _min: core::marker::PhantomData,
            _max: core::marker::PhantomData,
            _out_of_bounds_handler: core::marker::PhantomData,
        }
    }
}

/// Marker for the bound value 0.
#[derive(Debug, Clone, Copy, PartialEq, Eq)]
pub struct Zero;

impl Bounds for Zero {
    open spec fn spec_value() -> usize {
        0
    }

    fn get() -> usize {
        0
    }
}

/// Marker for the bound value 1.
#[derive(Debug, Clone, Copy, PartialEq, Eq)]
pub struct One;

impl Bounds for One {
    open spec fn spec_value() -> usize {
        1
    }

    fn get() -> usize {
        1
    }
}

/// Marker for a bound of minus one. Only signed ranges can name it;
/// no range of this crate does, so it carries no `Bounds` impl here.
#[derive(Debug, Clone, Copy, PartialEq, Eq)]
pub struct NegOne;

/// Marker for a bound chosen by the type that names it.
#[derive(Debug, Clone, Copy, PartialEq, Eq)]
pub struct DynamicUSize<const BOUND: usize>;

impl<const BOUND: usize> Bounds for DynamicUSize<BOUND> {
    open spec fn spec_value() -> usize {
        BOUND
    }

    fn get() -> usize {
        BOUND
    }
}

} // verus!
