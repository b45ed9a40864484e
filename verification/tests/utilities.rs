use a13c_embedded::drivers::l298n::{direction_levels, off_levels, InputLevels};
use a13c_embedded::utils::algorithms::bresenham::Bresenham;
use a13c_embedded::utils::physical_quantities::rotational_direction::RotationalDirection;
use a13c_embedded::utils::collections::list::{ArrayList, List, WouldOverflow};
use a13c_embedded::utils::math::constrain;
use a13c_embedded::utils::physical_quantities::duration::SmallDuration;
use a13c_embedded::utils::physical_quantities::frequency::Frequency;
use a13c_embedded::utils::range::RangeExt;
use a13c_embedded::utils::{itoa, slice_to_array, slice_to_array_filled};

#[test]
fn bresenham_walks_a_line() {
    let mut bresenham = Bresenham::new([0, 0], [8, 3]);
    assert_eq!(bresenham.len(), 8);
    assert_eq!(bresenham.next(), Some([true, false]));
    assert_eq!(bresenham.next(), Some([true, true]));
    assert_eq!(bresenham.next(), Some([true, false]));
    assert_eq!(bresenham.steps_taken(), 3);
    assert_eq!(bresenham.countt(), 5);
    assert_eq!(bresenham.next(), Some([true, false]));
    assert_eq!(bresenham.next(), Some([true, true]));
    assert_eq!(bresenham.next(), Some([true, false]));
    assert_eq!(bresenham.next(), Some([true, true]));
    assert!(!bresenham.has_finished());
    assert_eq!(bresenham.next(), Some([true, false]));
    assert!(bresenham.has_finished());
    assert_eq!(bresenham.next(), None);
    assert_eq!(bresenham.next(), None);
    assert_eq!(bresenham.get_longest_index(), 0);
    assert_eq!(bresenham.lengths(), 8);
    assert_eq!(bresenham.steps_taken(), 8);
    assert_eq!(bresenham.len(), 0);
}

#[test]
fn bresenham_longest_index() {
    assert_eq!(Bresenham::new([0, 0, 0], [4, 12, 7]).get_longest_index(), 1);
    assert_eq!(Bresenham::new([0, 0, 0], [24, 12, 7]).get_longest_index(), 0);
    assert_eq!(Bresenham::new([0, 0, 0], [4, 12, 27]).get_longest_index(), 2);
    // the first of the axes with the biggest distance
    assert_eq!(Bresenham::new([0, 0, 0], [5, -5, 5]).get_longest_index(), 0);
    assert_eq!(Bresenham::new([1, 1], [1, 1]).get_longest_index(), 0);
}

#[test]
fn bresenham_reaches_its_end() {
    let cases: [([i32; 3], [i32; 3]); 5] = [
        ([0, 0, 0], [4, 12, 7]),
        ([5, -3, 2], [-6, 10, 2]),
        ([0, 0, 0], [0, 0, 0]),
        ([i32::MIN, 0, 0], [-1, 7, -7]),
        ([-10, 20, 30], [-10, 20, 31]),
    ];
    for (start, end) in cases {
        let mut walk = Bresenham::new(start, end);
        let mut position = start;
        let longest = walk.lengths();
        let mut moves = 0;
        while let Some(axes) = walk.next() {
            for i in 0..3 {
                if axes[i] {
                    position[i] += (end[i] - start[i]).signum();
                }
            }
            moves += 1;
            assert_eq!(walk.steps_taken(), moves);
        }
        assert_eq!(position, end);
        assert_eq!(moves as i32, longest);
        assert_eq!(longest, (0..3).map(|i| (end[i] - start[i]).abs()).max().unwrap());
    }
}

#[test]
fn bresenham_with_no_distance_is_over_at_once() {
    let mut walk = Bresenham::new([3, 4], [3, 4]);
    assert!(walk.has_finished());
    assert_eq!(walk.lengths(), 0);
    assert_eq!(walk.len(), 0);
    assert_eq!(walk.next(), None);
}

#[test]
fn itoa_writes_decimal_digits() {
    let mut buffer = [b'x'; 12];
    assert_eq!(itoa(0, &mut buffer), 1);
    assert_eq!(&buffer[..2], b"0x");
    assert_eq!(itoa(7, &mut buffer), 1);
    assert_eq!(&buffer[..2], b"7x");
    assert_eq!(itoa(10, &mut buffer), 2);
    assert_eq!(&buffer[..3], b"10x");
    assert_eq!(itoa(507, &mut buffer), 3);
    assert_eq!(&buffer[..4], b"507x");
    assert_eq!(itoa(120034, &mut buffer), 6);
    assert_eq!(&buffer[..7], b"120034x");
    assert_eq!(itoa(i32::MAX, &mut buffer), 10);
    assert_eq!(&buffer, b"2147483647xx");
    let mut exact = [0u8; 3];
    assert_eq!(itoa(999, &mut exact), 3);
    assert_eq!(&exact, b"999");
}

#[test]
fn slice_to_array_takes_the_start_of_the_slice() {
    let array = [5, 10, 20];
    assert_eq!(slice_to_array(&array), array);
    assert_eq!(slice_to_array::<_, 2>(&array), [5, 10]);
    assert_eq!(slice_to_array::<i32, 0>(&array), []);
    assert_eq!(slice_to_array::<u8, 0>(&[]), []);
}

#[test]
fn slice_to_array_filled_fills_the_rest() {
    let array = [5, 10, 20];
    assert_eq!(slice_to_array_filled(&array, -1), [5, 10, 20, -1, -1]);
    assert_eq!(slice_to_array_filled(&array, -1), [5, 10]);
    assert_eq!(slice_to_array_filled(&array, -1), [5, 10, 20]);
    assert_eq!(slice_to_array_filled::<i32, 2>(&[], 9), [9, 9]);
    assert_eq!(slice_to_array_filled::<i32, 0>(&array, 9), []);
}

#[test]
fn constrain_keeps_a_value_within_a_range() {
    assert_eq!(constrain(10, 0..=20), 10);
    assert_eq!(constrain(-5, 0..=20), 0);
    assert_eq!(constrain(40, 0..=20), 20);
    assert_eq!(constrain(0, 0..=20), 0);
    assert_eq!(constrain(20, 0..=20), 20);
    assert_eq!(constrain(1.5, 0.0..=1.0), 1.0);
    assert_eq!(constrain('q', 'a'..='f'), 'f');
}

#[test]
fn map_interpolates_between_ranges() {
    assert_eq!(a13c_embedded::utils::math::map(5, 0..=10, 10..=20), 15);
    assert_eq!(a13c_embedded::utils::math::map(0, 0..=10, 10..=20), 10);
    assert_eq!(a13c_embedded::utils::math::map(10, 0..=10, 10..=20), 20);
    assert_eq!(a13c_embedded::utils::math::map(3, 0..=4, 0..=10), 7);
    assert_eq!(a13c_embedded::utils::math::map(75i64, 50..=100, -100..=100), 0);
    assert_eq!(a13c_embedded::utils::math::map(0.5, 0.0..=1.0, 10.0..=20.0), 15.0);
}

#[test]
fn range_intersection() {
    let a = 0..20;
    let b = 10..30;
    assert_eq!(a.intersection(&b), 10..20);
    assert_eq!(b.intersection(&a), 10..20);
    let a = 0..10;
    let b = 15..30;
    assert!(a.intersection(&b).is_empty());
    assert_eq!(a.intersection(&b), 15..10);
    let a = 0..=20;
    let b = 10..=30;
    assert_eq!(a.intersection(&b), 10..=20);
    let a = 0..=10;
    let b = 15..=30;
    assert!(a.intersection(&b).is_empty());
    assert_eq!((3..=9).intersection(&(3..=9)), 3..=9);
}

#[test]
fn range_shift() {
    assert_eq!((0..20).shift(10), 10..30);
    assert_eq!((10..20).shift(-10), 0..10);
    assert_eq!((0..=20).shift(10), 10..=30);
    assert_eq!((10..=20).shift(-10), 0..=10);
    assert_eq!((5u8..7).shift(0), 5..7);
}

#[test]
fn frequency_conversions() {
    assert_eq!(Frequency::from_hertz(1).as_hertz(), 1);
    assert_eq!(Frequency::from_hertz(100).as_hertz(), 100);
    assert_eq!(Frequency::from_hertz(10_000).as_hertz(), 10_000);
    assert_eq!(Frequency::from_kilohertz(1).as_hertz(), 1_000);
    assert_eq!(Frequency::from_kilohertz(45).as_hertz(), 45_000);
    assert_eq!(Frequency::from_megahertz(1).as_hertz(), 1_000_000);
    assert_eq!(Frequency::from_megahertz(45).as_hertz(), 45_000_000);
    assert_eq!(Frequency::from_megahertz(4294).as_hertz(), 4_294_000_000);
    assert_eq!(Frequency::from_kilohertz(4_294_967).as_hertz(), 4_294_967_000);
    assert_eq!(Frequency::zero().as_hertz(), 0);
    assert_eq!(Frequency::zero(), Frequency::from_hertz(0));
    assert_eq!(Frequency::from_hertz(1000).div(3).as_hertz(), 333);
    assert!(Frequency::from_hertz(1) < Frequency::from_kilohertz(1));
}

#[test]
fn frequency_of_a_period() {
    assert_eq!(Frequency::from_period(SmallDuration::from_millis(50)), Frequency::from_hertz(20));
    assert_eq!(Frequency::from_period(SmallDuration::from_micros(1)), Frequency::from_hertz(1_000_000));
    assert_eq!(Frequency::from_period(SmallDuration::second()), Frequency::from_hertz(1));
    assert_eq!(Frequency::from_period(SmallDuration::from_tens_of_nanos(3)).as_hertz(), 33_333_333);
    assert_eq!(Frequency::from_hertz(20).period(), SmallDuration::from_millis(50));
    assert_eq!(Frequency::from_hertz(3).period().as_tens_of_nanos(), 33_333_333);
}

#[test]
fn small_durations() {
    assert_eq!(SmallDuration::zero().as_tens_of_nanos(), 0);
    assert_eq!(SmallDuration::second().as_tens_of_nanos(), 100_000_000);
    assert_eq!(SmallDuration::from_micros(1).as_tens_of_nanos(), 100);
    assert_eq!(SmallDuration::from_millis(1).as_tens_of_nanos(), 100_000);
    assert_eq!(SmallDuration::from_millis(42_949).as_millis(), 42_949);
    assert_eq!(SmallDuration::from_micros(42_949_672).as_tens_of_nanos(), 4_294_967_200);
    assert_eq!(SmallDuration::from_tens_of_nanos(199_999).as_millis(), 1);
    let cycle = SmallDuration::from_millis(20);
    let phase = SmallDuration::from_millis(15).phase_after(SmallDuration::from_millis(12), cycle);
    assert_eq!(phase, SmallDuration::from_millis(7));
    let phase = SmallDuration::from_tens_of_nanos(u32::MAX).phase_after(SmallDuration::from_tens_of_nanos(u32::MAX), cycle);
    assert_eq!(phase.as_tens_of_nanos(), ((u32::MAX as u64 * 2) % 2_000_000) as u32);
}

#[test]
fn array_list_keeps_one_place_free() {
    let mut list: ArrayList<4, u8> = ArrayList::new(0);
    assert_eq!(list.capacity(), 4);
    assert_eq!(list.length(), 0);
    assert_eq!(list.push(1), Ok(()));
    assert_eq!(list.push(2), Ok(()));
    assert_eq!(list.push(3), Ok(()));
    assert_eq!(list.push(4), Err(WouldOverflow));
    assert_eq!(list.length(), 3);
    assert_eq!(list.get(0), Some(&1));
    assert_eq!(list.get(2), Some(&3));
    assert_eq!(list.get(3), None);
    assert_eq!(list.get_slice(0, 3), &[1, 2, 3]);
    assert_eq!(list.get_slice(1, 4), &[2, 3, 0]);
}

#[test]
fn array_list_extend_takes_all_or_nothing() {
    let mut list: ArrayList<5, i32> = ArrayList::new(-1);
    assert_eq!(list.extend(&[1, 2]), Ok(()));
    assert_eq!(list.extend(&[3, 4, 5]), Err(WouldOverflow));
    assert_eq!(list.length(), 2);
    assert_eq!(list.extend(&[]), Ok(()));
    assert_eq!(list.extend(&[3, 4]), Ok(()));
    assert_eq!(list.length(), 4);
    assert_eq!(list.get_slice(0, 5), &[1, 2, 3, 4, -1]);
    assert_eq!(list.extend(&[]), Ok(()));
    assert_eq!(list.extend(&[9]), Err(WouldOverflow));
    assert_eq!(list.push(9), Err(WouldOverflow));
    assert_eq!(list.length(), 4);
}

#[test]
fn array_list_swap_remove_and_clear() {
    let mut list: ArrayList<8, char> = ArrayList::new(' ');
    assert_eq!(list.extend(&['a', 'b', 'c', 'd']), Ok(()));
    assert_eq!(list.swap_remove(1), Some('b'));
    assert_eq!(list.get_slice(0, 3), &['a', 'd', 'c']);
    assert_eq!(list.swap_remove(2), Some('c'));
    assert_eq!(list.get_slice(0, 2), &['a', 'd']);
    assert_eq!(list.swap_remove(2), None);
    assert_eq!(list.length(), 2);
    if let Some(item) = list.get_mut(0) {
        *item = 'z';
    }
    assert_eq!(list.get(0), Some(&'z'));
    assert!(list.get_mut(2).is_none());
    list.clear();
    assert_eq!(list.length(), 0);
    assert_eq!(list.get(0), None);
    assert_eq!(list.swap_remove(0), None);
}

#[test]
fn vec_is_a_list_without_bounds() {
    let mut list: Vec<u16> = Vec::new();
    assert_eq!(List::push(&mut list, 7), Ok(()));
    assert_eq!(List::extend(&mut list, &[8, 9, 10]), Ok(()));
    assert_eq!(List::length(&list), 4);
    assert!(List::capacity(&list) >= 4);
    assert_eq!(List::get(&list, 3), Some(&10));
    assert_eq!(List::get(&list, 4), None);
    assert_eq!(List::swap_remove(&mut list, 0), Some(7));
    assert_eq!(list, vec![10, 8, 9]);
    if let Some(item) = List::get_mut(&mut list, 1) {
        *item = 80;
    }
    assert!(List::get_mut(&mut list, 3).is_none());
    assert_eq!(list, vec![10, 80, 9]);
    assert_eq!(List::get_slice(&list, 1, 3), &[80, 9]);
    assert_eq!(List::get_slice(&list, 2, 2), &[] as &[u16]);
    List::clear(&mut list);
    assert!(list.is_empty());
    let roomy: Vec<u8> = Vec::with_capacity(64);
    assert!(List::capacity(&roomy) >= 64);
    assert_eq!(List::length(&roomy), 0);
}

#[test]
fn ticks_of_a_clock_in_a_duration() {
    assert_eq!(SmallDuration::second().ticks_at(1), 1);
    assert_eq!(SmallDuration::second().ticks_at(80_000_000), 80_000_000);
    assert_eq!(SmallDuration::from_millis(1).ticks_at(1_000_000), 1_000);
    assert_eq!(SmallDuration::from_micros(1).ticks_at(80_000_000), 80);
    assert_eq!(SmallDuration::from_tens_of_nanos(1).ticks_at(80_000_000), 0);
    assert_eq!(SmallDuration::from_tens_of_nanos(3).ticks_at(50_000_000), 1);
    assert_eq!(SmallDuration::zero().ticks_at(u32::MAX), 0);
    assert_eq!(
        SmallDuration::from_tens_of_nanos(u32::MAX).ticks_at(u32::MAX),
        (u32::MAX as u64 * u32::MAX as u64) / 100_000_000
    );
}

#[test]
fn bridge_input_levels() {
    assert_eq!(direction_levels(RotationalDirection::CW), InputLevels { in1: true, in2: false });
    assert_eq!(direction_levels(RotationalDirection::CCW), InputLevels { in1: false, in2: true });
    assert_eq!(off_levels(), InputLevels { in1: false, in2: false });
}
