//! The cell value (NaN or a 257-bit integer) and the operation framework that
//! every arithmetic and bitwise operator is built on.

use vstd::prelude::*;
use crate::magnitude::{Int, abs, bit_len, ordering_of, words_val, magnitude_bits, lemma_words_bound, lemma_bit_len_bound};
use crate::bitsize::{bitsize_spec, fits_cell, bitsize, check_overflow, MAX_BITS};
use crate::behavior::{IntegerError, OperationBehavior};
use std::cmp::Ordering;

verus! {

#[derive(Debug)]
enum IntegerValue {
    NaN,
    Value(Int),
}

impl IntegerValue {
    /// The integer held; the value must not be NaN.
    fn unwrap(&self) -> (r: &Int)
        requires
            self is Value,
        ensures
            *r == self->Value_0,
    {
        match self {
            IntegerValue::Value(x) => x,
            IntegerValue::NaN => unreached(),
        }
    }
}

/// A cell value: NaN, or an integer of at most 257 bits in two's complement.
#[derive(Debug)]
pub struct IntegerData {
    value: IntegerValue,
}

impl View for IntegerData {
    /// `None` for NaN.
    type V = Option<int>;

    closed spec fn view(&self) -> Option<int> {
        match self.value {
            IntegerValue::NaN => None,
            IntegerValue::Value(x) => Some(x@),
        }
    }
}

impl IntegerData {
    #[verifier::type_invariant]
    spec fn inv(self) -> bool {
        match self.value {
            IntegerValue::NaN => true,
            IntegerValue::Value(x) => fits_cell(x@),
        }
    }

    /// The integer held by a value that is not NaN.
    pub closed spec fn magnitude(self) -> Int {
        self.value->Value_0
    }

    /// A value that is not NaN is the value of the integer it holds.
    pub proof fn lemma_magnitude(&self)
        ensures
            self@ is Some ==> self@ == Some(self.magnitude()@),
    {
    }

    /// Constructs zero.
    pub fn new() -> (r: IntegerData)
        ensures
            r@ == Some(0int),
    {
        Self::zero()
    }

    /// Constructs zero.
    pub fn zero() -> (r: IntegerData)
        ensures
            r@ == Some(0int),
    {
        IntegerData { value: IntegerValue::Value(Int::zero()) }
    }

    /// Constructs one.
    pub fn one() -> (r: IntegerData)
        ensures
            r@ == Some(1int),
    {
        let x = Int::unit(false);
        assert(bit_len(0) == 0);
        assert(bit_len(1) == 1);
        IntegerData { value: IntegerValue::Value(x) }
    }

    /// Constructs minus one.
    pub fn minus_one() -> (r: IntegerData)
        ensures
            r@ == Some(-1int),
    {
        IntegerData { value: IntegerValue::Value(Int::unit(true)) }
    }

    /// Constructs NaN.
    pub fn nan() -> (r: IntegerData)
        ensures
            r@ == None::<int>,
    {
        IntegerData { value: IntegerValue::NaN }
    }

    /// Wraps `value` when it fits in 257 bits; fails with `IntegerOverflow` otherwise.
    pub fn from_int(value: Int) -> (r: Result<IntegerData, IntegerError>)
        ensures
            r is Ok <==> fits_cell(value@),
            r is Ok ==> r->Ok_0@ == Some(value@),
            r is Err ==> r->Err_0 == IntegerError::IntegerOverflow,
    {
        if check_overflow(&value) {
            Ok(IntegerData { value: IntegerValue::Value(value) })
        } else {
            Err(IntegerError::IntegerOverflow)
        }
    }

    /// Takes the value out of the slot, leaving zero in it.
    pub fn withdraw(&mut self) -> (r: IntegerData)
        ensures
            withdrawn(old(self)@, final(self)@, r@),
    {
        let mut taken = IntegerData::new();
        std::mem::swap(self, &mut taken);
        taken
    }

    /// Overwrites the slot with `new_value`.
    pub fn replace(&mut self, new_value: IntegerData)
        ensures
            final(self)@ == new_value@,
    {
        *self = new_value;
    }

    /// Whether the value is NaN.
    pub fn is_nan(&self) -> (r: bool)
        ensures
            r == (self@ is None),
    {
        match self.value {
            IntegerValue::NaN => true,
            IntegerValue::Value(_) => false,
        }
    }

    /// Whether the value is below zero; false for NaN.
    pub fn is_neg(&self) -> (r: bool)
        ensures
            r == (self@ is Some && self@->0 < 0),
    {
        match &self.value {
            IntegerValue::NaN => false,
            IntegerValue::Value(value) => value.is_negative(),
        }
    }

    /// Whether the value is zero; false for NaN.
    pub fn is_zero(&self) -> (r: bool)
        ensures
            r == (self@ is Some && self@->0 == 0),
    {
        match &self.value {
            IntegerValue::NaN => false,
            IntegerValue::Value(value) => value.is_zero(),
        }
    }

    /// Compares two values under policy `T`: with a NaN operand the policy
    /// fails or the result is `Ok(None)`.
    pub fn cmp<T: OperationBehavior>(&self, other: &IntegerData) -> (r: Result<Option<Ordering>, IntegerError>)
        ensures
            self@ is Some && other@ is Some ==> r == Ok::<Option<Ordering>, IntegerError>(
                Some(ordering_of(self@->0, other@->0)),
            ),
            self@ is None || other@ is None ==> r == (if T::quiet() {
                Ok::<Option<Ordering>, IntegerError>(None)
            } else {
                Err(IntegerError::NaNOperand)
            }),
    {
        if self.is_nan() || other.is_nan() {
            match T::on_nan_parameter() {
                Ok(()) => return Ok(None),
                Err(e) => return Err(e),
            }
        }
        Ok(Some(self.value.unwrap().compare(other.value.unwrap())))
    }

    /// Whether the signed value fits in `bits` bits; the value must not be NaN.
    pub fn fits_in(&self, bits: usize) -> (r: bool)
        requires
            self@ is Some,
        ensures
            r == (bitsize_spec(self@->0) <= bits),
    {
        self.bitsize() <= bits
    }

    /// Whether the value is not negative and its magnitude fits in `bits` bits;
    /// the value must not be NaN.
    pub fn ufits_in(&self, bits: usize) -> (r: bool)
        requires
            self@ is Some,
        ensures
            r == (self@->0 >= 0 && bit_len(abs(self@->0)) <= bits),
            self@->0 < 0 ==> !r,
    {
        !self.is_neg() && self.ubitsize() <= bits
    }

    /// Fewest bits that hold the value in two's complement; the value must not be NaN.
    pub fn bitsize(&self) -> (r: usize)
        requires
            self@ is Some,
        ensures
            r == bitsize_spec(self@->0),
            r <= MAX_BITS,
    {
        proof {
            use_type_invariant(self);
        }
        process_value(self, |value: &Int| -> (b: usize)
            ensures
                b == bitsize_spec(value@),
            { bitsize(value) })
    }

    /// The integer held, or `None` for NaN.
    pub fn as_int(&self) -> (r: Option<&Int>)
        ensures
            r is None <==> self@ is None,
            r is Some ==> self@ == Some(r->0@),
            r is Some ==> fits_cell(r->0@),
    {
        proof {
            use_type_invariant(self);
        }
        match &self.value {
            IntegerValue::NaN => None,
            IntegerValue::Value(x) => Some(x),
        }
    }

    /// Fewest bits that hold the magnitude; the value must not be NaN.
    pub fn ubitsize(&self) -> (r: usize)
        requires
            self@ is Some,
        ensures
            r == bit_len(abs(self@->0)),
    {
        process_value(self, |value: &Int| -> (b: usize)
            ensures
                b == bit_len(abs(value@)),
            {
                let digits = value.digits();
                let bits = magnitude_bits(digits);
                proof {
                    lemma_words_bound(digits@);
                    lemma_bit_len_bound(words_val(digits@), 32 * digits@.len());
                }
                bits as usize
            })
    }
}

/// What `withdraw` does: the old value comes back and the slot holds zero.
pub open spec fn withdrawn(before: Option<int>, after: Option<int>, taken: Option<int>) -> bool {
    taken == before && after == Some(0int)
}

impl AsRef<IntegerData> for IntegerData {
    fn as_ref(&self) -> &IntegerData {
        self
    }
}

impl PartialEq for IntegerData {
    fn eq(&self, other: &IntegerData) -> (r: bool) {
        match (&self.value, &other.value) {
            (IntegerValue::NaN, IntegerValue::NaN) => true,
            (IntegerValue::Value(a), IntegerValue::Value(b)) => matches!(a.compare(b), Ordering::Equal),
            _ => false,
        }
    }
}

impl vstd::std_specs::cmp::PartialEqSpecImpl for IntegerData {
    open spec fn obeys_eq_spec() -> bool {
        true
    }

    open spec fn eq_spec(&self, other: &IntegerData) -> bool {
        self@ == other@
    }
}

/// Calls `call_on_valid` on the integer held by `value`, which must not be NaN.
pub fn process_value<F, R>(value: &IntegerData, call_on_valid: F) -> (r: R)
    where
        F: Fn(&Int) -> R,
    requires
        value@ is Some,
        call_on_valid.requires((&value.magnitude(),)),
    ensures
        call_on_valid.ensures((&value.magnitude(),), r),
        value@ == Some(value.magnitude()@),
{
    match &value.value {
        IntegerValue::NaN => unreached(),
        IntegerValue::Value(x) => call_on_valid(x),
    }
}

/// Unary operation under policy `T`: a NaN operand goes to the policy (failure,
/// or `nan_constructor`'s value); otherwise `callback`'s raw result goes
/// through `result_processor`.
pub fn unary_op<T, F, FNaN, FRes, RInt, R>(
    lhs: &IntegerData,
    callback: F,
    nan_constructor: FNaN,
    result_processor: FRes,
) -> (r: Result<R, IntegerError>)
    where
        T: OperationBehavior,
        F: Fn(&Int) -> RInt,
        FNaN: Fn() -> R,
        FRes: Fn(RInt, FNaN) -> Result<R, IntegerError>,
    requires
        nan_constructor.requires(()),
        lhs@ is Some ==> callback.requires((&lhs.magnitude(),)),
        forall|raw: RInt|
            callback.ensures((&lhs.magnitude(),), raw) ==> result_processor.requires(
                (raw, nan_constructor),
            ),
    ensures
        lhs@ is None ==> nan_outcome::<T, FNaN, R>(nan_constructor, r),
        lhs@ is Some ==> exists|raw: RInt|
            callback.ensures((&lhs.magnitude(),), raw) && result_processor.ensures(
                (raw, nan_constructor),
                r,
            ),
{
    let x = match &lhs.value {
        IntegerValue::NaN => {
            match T::on_nan_parameter() {
                Ok(()) => return Ok(nan_constructor()),
                Err(e) => return Err(e),
            }
        },
        IntegerValue::Value(x) => x,
    };
    result_processor(callback(x), nan_constructor)
}

/// Binary operation under policy `T`: a NaN operand goes to the policy
/// (failure, or `nan_constructor`'s value); otherwise `callback`'s raw result
/// goes through `result_processor`.
pub fn binary_op<T, F, FNaN, FRes, RInt, R>(
    lhs: &IntegerData,
    rhs: &IntegerData,
    callback: F,
    nan_constructor: FNaN,
    result_processor: FRes,
) -> (r: Result<R, IntegerError>)
    where
        T: OperationBehavior,
        F: Fn(&Int, &Int) -> RInt,
        FNaN: Fn() -> R,
        FRes: Fn(RInt, FNaN) -> Result<R, IntegerError>,
    requires
        nan_constructor.requires(()),
        lhs@ is Some && rhs@ is Some ==> callback.requires((&lhs.magnitude(), &rhs.magnitude())),
        forall|raw: RInt|
            callback.ensures((&lhs.magnitude(), &rhs.magnitude()), raw)
                ==> result_processor.requires((raw, nan_constructor)),
    ensures
        lhs@ is None || rhs@ is None ==> nan_outcome::<T, FNaN, R>(nan_constructor, r),
        lhs@ is Some && rhs@ is Some ==> exists|raw: RInt|
            callback.ensures((&lhs.magnitude(), &rhs.magnitude()), raw)
                && result_processor.ensures((raw, nan_constructor), r),
{
    let x = match &lhs.value {
        IntegerValue::NaN => {
            match T::on_nan_parameter() {
                Ok(()) => return Ok(nan_constructor()),
                Err(e) => return Err(e),
            }
        },
        IntegerValue::Value(x) => x,
    };
    let y = match &rhs.value {
        IntegerValue::NaN => {
            match T::on_nan_parameter() {
                Ok(()) => return Ok(nan_constructor()),
                Err(e) => return Err(e),
            }
        },
        IntegerValue::Value(y) => y,
    };
    result_processor(callback(x, y), nan_constructor)
}

/// What an operation yields on a NaN operand under policy `T`: the NaN
/// constructor's value when quiet, a `NaNOperand` failure when checked.
pub open spec fn nan_outcome<T: OperationBehavior, FNaN: Fn() -> R, R>(
    nan_constructor: FNaN,
    r: Result<R, IntegerError>,
) -> bool {
    if T::quiet() {
        r is Ok && nan_constructor.ensures((), r->Ok_0)
    } else {
        r == Err::<R, IntegerError>(IntegerError::NaNOperand)
    }
}

/// What an operation yields on an overflowing result under policy `T`: the NaN
/// constructor's value when quiet, an `IntegerOverflow` failure when checked.
pub open spec fn overflow_outcome<T: OperationBehavior, FNaN: Fn() -> R, R>(
    nan_constructor: FNaN,
    r: Result<R, IntegerError>,
) -> bool {
    if T::quiet() {
        r is Ok && nan_constructor.ensures((), r->Ok_0)
    } else {
        r == Err::<R, IntegerError>(IntegerError::IntegerOverflow)
    }
}

/// What `process_single_result` yields for raw result `raw`.
pub open spec fn single_result<T: OperationBehavior, FNaN: Fn() -> IntegerData>(
    raw: int,
    nan_constructor: FNaN,
    r: Result<IntegerData, IntegerError>,
) -> bool {
    if fits_cell(raw) {
        r is Ok && r->Ok_0@ == Some(raw)
    } else {
        overflow_outcome::<T, FNaN, IntegerData>(nan_constructor, r)
    }
}

/// A binary operation whose raw result needs more than 257 bits, and whose
/// result processor behaves as `process_single_result`, fails with
/// `IntegerOverflow` under a checked policy and yields the NaN constructor's
/// value under a quiet one.
pub proof fn lemma_binary_op_overflow<T, F, FNaN, FRes>(
    lhs: &IntegerData,
    rhs: &IntegerData,
    callback: F,
    nan_constructor: FNaN,
    result_processor: FRes,
    r: Result<IntegerData, IntegerError>,
)
    where
        T: OperationBehavior,
        F: Fn(&Int, &Int) -> Int,
        FNaN: Fn() -> IntegerData,
        FRes: Fn(Int, FNaN) -> Result<IntegerData, IntegerError>,
    requires
        lhs@ is Some && rhs@ is Some,
        forall|raw: Int| callback.ensures((&lhs.magnitude(), &rhs.magnitude()), raw) ==> !fits_cell(raw@),
        forall|raw: Int, out: Result<IntegerData, IntegerError>|
            result_processor.ensures((raw, nan_constructor), out) ==> single_result::<T, FNaN>(
                raw@,
                nan_constructor,
                out,
            ),
        exists|raw: Int|
            callback.ensures((&lhs.magnitude(), &rhs.magnitude()), raw)
                && result_processor.ensures((raw, nan_constructor), r),
    ensures
        overflow_outcome::<T, FNaN, IntegerData>(nan_constructor, r),
        !T::quiet() ==> r == Err::<IntegerData, IntegerError>(IntegerError::IntegerOverflow),
{
    let raw = choose|raw: Int|
        callback.ensures((&lhs.magnitude(), &rhs.magnitude()), raw)
            && result_processor.ensures((raw, nan_constructor), r);
    assert(!fits_cell(raw@));
    assert(single_result::<T, FNaN>(raw@, nan_constructor, r));
}

/// Slots: withdrawing gives back the slot's value and leaves zero in it, so a
/// second withdrawal gives zero.
pub proof fn lemma_withdraw_twice(
    value: Option<int>,
    after_first: Option<int>,
    first: Option<int>,
    after_second: Option<int>,
    second: Option<int>,
)
    requires
        withdrawn(value, after_first, first),
        withdrawn(after_first, after_second, second),
    ensures
        first == value,
        after_first == Some(0int),
        second == Some(0int),
        after_second == Some(0int),
{
}

/// Wraps one raw result: the value when it fits in 257 bits, else the
/// policy's overflow outcome.
pub fn process_single_result<T, FNaN>(result: Int, nan_constructor: FNaN) -> (r: Result<IntegerData, IntegerError>)
    where
        T: OperationBehavior,
        FNaN: Fn() -> IntegerData,
    requires
        nan_constructor.requires(()),
    ensures
        single_result::<T, FNaN>(result@, nan_constructor, r),
{
    match IntegerData::from_int(result) {
        Ok(value) => Ok(value),
        Err(_) => {
            match T::on_integer_overflow() {
                Ok(()) => Ok(nan_constructor()),
                Err(e) => Err(e),
            }
        },
    }
}

/// Wraps a pair of raw results (such as quotient and remainder). Only the first
/// is checked for overflow: when it fits, the second must fit too, and both
/// come back; when it does not, the pair gets the policy's overflow outcome.
pub fn process_double_result<T, FNaN>(result: (Int, Int), nan_constructor: FNaN) -> (r: Result<(IntegerData, IntegerData), IntegerError>)
    where
        T: OperationBehavior,
        FNaN: Fn() -> (IntegerData, IntegerData),
    requires
        nan_constructor.requires(()),
        fits_cell(result.0@) ==> fits_cell(result.1@),
    ensures
        fits_cell(result.0@) ==> r is Ok && r->Ok_0.0@ == Some(result.0@) && r->Ok_0.1@ == Some(result.1@),
        !fits_cell(result.0@) ==> overflow_outcome::<T, FNaN, (IntegerData, IntegerData)>(nan_constructor, r),
{
    let (r1, r2) = result;
    match IntegerData::from_int(r1) {
        Ok(r1) => Ok((r1, IntegerData::from_int(r2).unwrap())),
        Err(_) => {
            match T::on_integer_overflow() {
                Ok(()) => Ok(nan_constructor()),
                Err(e) => Err(e),
            }
        },
    }
}

/// The NaN result of a single-result operation.
pub fn construct_single_nan() -> (r: IntegerData)
    ensures
        r@ == None::<int>,
{
    IntegerData::nan()
}

/// The NaN result of a double-result operation.
pub fn construct_double_nan() -> (r: (IntegerData, IntegerData))
    ensures
        r.0@ == None::<int>,
        r.1@ == None::<int>,
{
    (construct_single_nan(), construct_single_nan())
}

} // verus!
