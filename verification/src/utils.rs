//! Common utility functions and helpers shared by the drivers.

pub mod algorithms;
pub mod collections;
pub mod math;
pub mod physical_quantities;
pub mod range;

use vstd::prelude::*;

verus! {

/// The character of a decimal digit.
pub open spec fn spec_digit_character(digit: nat) -> u8 {
    (48 + digit) as u8
}

/// The number of decimal digits of a number. Zero has one digit.
pub open spec fn spec_digit_count(number: nat) -> nat
    decreases number,
{
    if number < 10 {
        1
    } else {
        1 + spec_digit_count(number / 10)
    }
}

/// The decimal digits of a number as characters, the most significant first.
pub open spec fn spec_decimal_digits(number: nat) -> Seq<u8>
    decreases number,
{
    if number < 10 {
        seq![spec_digit_character(number)]
    } else {
        spec_decimal_digits(number / 10).push(spec_digit_character(number % 10))
    }
}

/// A number has as many digits as it has digit characters, and a number that `i32` holds
/// has ten at most.
pub proof fn lemma_digit_count(number: nat)
    ensures
        spec_decimal_digits(number).len() == spec_digit_count(number),
        spec_digit_count(number) >= 1,
        number <= i32::MAX ==> spec_digit_count(number) <= 10,
    decreases number,
{
    if number >= 10 {
        lemma_digit_count(number / 10);
        if number <= i32::MAX {
            reveal_with_fuel(spec_digit_count, 11);
        }
    } else {
        reveal_with_fuel(spec_digit_count, 2);
    }
}

/// Converts the provided `slice` to an array of the same type and with the length `N`,
/// which the slice must reach.
pub fn slice_to_array<T, const N: usize>(slice: &[T]) -> (array: [T; N]) where T: Clone + Copy
    requires
        slice@.len() >= N,
    ensures
        array@ == slice@.subrange(0, N as int),
{
    let array = array_from_slice(slice);
    assert(array@ =~= slice@.subrange(0, N as int));
    array
}

/// `core::array::from_fn` with a function that picks the element of `slice` at the index
/// it is given: the array holds, at each of its `N` places, the element of the slice
/// at that place. The slice must have `N` elements at least.
#[verifier::external_body]
fn array_from_slice<T, const N: usize>(slice: &[T]) -> (array: [T; N]) where T: Clone + Copy
    requires
        slice@.len() >= N,
    ensures
        array@.len() == N,
        forall|i: int| 0 <= i < N ==> array@[i] == slice@[i],
{
    core::array::from_fn(|i| slice[i])
}

/// Converts the provided `slice` to an array of the same type and with the length `N`.
///
/// If the length of the slice is less than `N`, the remaining elements will be set to the
/// value of `fill`.
pub fn slice_to_array_filled<T, const N: usize>(slice: &[T], fill: T) -> (array: [T; N]) where
    T: Clone + Copy,

    ensures
        array@.len() == N,
        forall|i: int|
            0 <= i < N ==> #[trigger] array@[i] == (if i < slice@.len() {
                slice@[i]
            } else {
                fill
            }),
{
    let mut array: [T; N] = [fill; N];
    let mut i: usize = 0;
    while i < N && i < slice.len()
        invariant
            i <= N,
            i <= slice@.len(),
            array@.len() == N,
            forall|j: int| 0 <= j < i ==> #[trigger] array@[j] == slice@[j],
            forall|j: int| i <= j < N ==> #[trigger] array@[j] == fill,
        decreases N - i,
    {
        array[i] = slice[i];
        i += 1;
    }
    array
}

/// Writes the decimal digits of `number`, which must not be negative, at the start of
/// `string`, which must have room for them, and returns their count.
pub fn itoa(number: i32, string: &mut [u8]) -> (count: u8)
    requires
        number >= 0,
        old(string)@.len() >= spec_digit_count(number as nat),
    ensures
        count == spec_digit_count(number as nat),
        final(string)@.len() == old(string)@.len(),
        final(string)@.subrange(0, count as int) == spec_decimal_digits(number as nat),
        final(string)@.subrange(count as int, old(string)@.len() as int) == old(string)@.subrange(
            count as int,
            old(string)@.len() as int,
        ),
{
    let ghost untouched = string@;
    let ghost whole = number as nat;
    let mut number: i32 = number;
    let mut i: usize = 0;
    proof {
        lemma_digit_count(whole);
    }
    loop
        invariant_except_break
            number >= 0,
            i + spec_digit_count(number as nat) == spec_digit_count(whole),
            i == 0 ==> number == whole,
            i > 0 ==> number > 0 && spec_decimal_digits(whole) == spec_decimal_digits(
                number as nat,
            ) + string@.subrange(0, i as int).reverse(),
        invariant
            whole <= i32::MAX,
            spec_digit_count(whole) <= 10,
            string@.len() == untouched.len(),
            untouched.len() >= spec_digit_count(whole),
            i <= 10,
            string@.subrange(i as int, untouched.len() as int) == untouched.subrange(
                i as int,
                untouched.len() as int,
            ),
        ensures
            i == spec_digit_count(whole),
            string@.subrange(0, i as int).reverse() == spec_decimal_digits(whole),
        decreases number,
    {
        let ghost before = string@;
        let ghost current = number as nat;
        proof {
            lemma_digit_count(current);
        }
        let digit: u8 = (number % 10) as u8;
        number = number / 10;
        string[i] = digit + 48;
        i += 1;
        proof {
            let written = string@.subrange(0, i as int);
            let earlier = before.subrange(0, i - 1);
            assert(written =~= earlier.push(spec_digit_character(current % 10)));
            assert(written.reverse() =~= seq![spec_digit_character(current % 10)]
                + earlier.reverse());
            assert(string@.subrange(i as int, untouched.len() as int) =~= untouched.subrange(
                i as int,
                untouched.len() as int,
            )) by {
                assert forall|k: int| i <= k < untouched.len() implies string@[k] == untouched[k] by {
                    assert(before.subrange(i - 1, untouched.len() as int)[k - (i - 1)]
                        == untouched.subrange(i - 1, untouched.len() as int)[k - (i - 1)]);
                }
            }
            if i == 1 {
                assert(earlier.reverse() =~= Seq::<u8>::empty());
                if current >= 10 {
                    assert(spec_decimal_digits(whole) =~= spec_decimal_digits(current / 10)
                        + written.reverse());
                } else {
                    assert(spec_decimal_digits(whole) =~= written.reverse());
                }
            } else {
                if current >= 10 {
                    assert(spec_decimal_digits(whole) =~= spec_decimal_digits(current / 10)
                        + written.reverse());
                } else {
                    assert(spec_decimal_digits(whole) =~= written.reverse());
                }
            }
        }
        if number == 0 {
            break ;
        }
    }
    let ghost backwards = string@;
    let mut j: usize = 0;
    while j < i / 2
        invariant
            i <= 10,
            i <= string@.len(),
            string@.len() == backwards.len(),
            j <= i / 2,
            forall|k: int| 0 <= k < j ==> #[trigger] string@[k] == backwards[i - 1 - k],
            forall|k: int| i - j <= k < i ==> #[trigger] string@[k] == backwards[i - 1 - k],
            forall|k: int| j <= k < i - j ==> #[trigger] string@[k] == backwards[k],
            forall|k: int| i <= k < string@.len() ==> #[trigger] string@[k] == backwards[k],
        decreases i / 2 - j,
    {
        let temp = string[j];
        string[j] = string[i - j - 1];
        string[i - j - 1] = temp;
        j += 1;
    }
    proof {
        assert(string@.subrange(0, i as int) =~= backwards.subrange(0, i as int).reverse());
        assert(string@.subrange(i as int, untouched.len() as int) =~= untouched.subrange(
            i as int,
            untouched.len() as int,
        )) by {
            assert forall|k: int| i <= k < untouched.len() implies string@[k] == untouched[k] by {
                assert(backwards.subrange(i as int, untouched.len() as int)[k - i]
                    == untouched.subrange(i as int, untouched.len() as int)[k - i]);
            }
        }
        let digits = spec_decimal_digits(whole);
        assert(digits.reverse().reverse() =~= digits);
    }
    i as u8
}

} // verus!
