use zip_option::pairing::{combine_hints, pair_up};
use zip_option::{BackProducer, GetZipOption, Producer, SliceProducer, ZipOption};

type Record = (Option<i32>, Option<i32>);

fn owned(r: Option<(Option<&i32>, Option<&i32>)>) -> Option<Record> {
    r.map(|(x, y)| (x.copied(), y.copied()))
}

fn zipped<'a>(a: &'a [i32], b: &'a [i32]) -> ZipOption<SliceProducer<'a, i32>, SliceProducer<'a, i32>> {
    ZipOption::new(SliceProducer::new(a), SliceProducer::new(b))
}

fn forward_all(a: &[i32], b: &[i32]) -> Vec<Record> {
    let mut z = zipped(a, b);
    let mut out = Vec::new();
    while let Some(r) = owned(z.next()) {
        out.push(r);
    }
    out
}

fn backward_all(a: &[i32], b: &[i32]) -> Vec<Record> {
    let mut z = zipped(a, b);
    let mut out = Vec::new();
    while let Some(r) = owned(z.next_back()) {
        out.push(r);
    }
    out
}

#[test]
fn forward_longer_first_side() {
    let got = forward_all(&[1, 2, 3], &[10, 20]);
    assert_eq!(
        got,
        vec![(Some(1), Some(10)), (Some(2), Some(20)), (Some(3), None)]
    );
}

#[test]
fn forward_empty_first_side() {
    let got = forward_all(&[], &[5]);
    assert_eq!(got, vec![(None, Some(5))]);
}

#[test]
fn forward_both_empty() {
    let mut z = zipped(&[], &[]);
    assert_eq!(owned(z.next()), None);
    assert_eq!(owned(z.next()), None);
}

#[test]
fn reverse_trims_longer_side_first() {
    let a = [1, 2, 3, 4];
    let b = [9, 8];
    let mut z = zipped(&a, &b);
    assert_eq!(owned(z.next_back()), Some((Some(2), Some(8))));
    assert_eq!(owned(z.next_back()), Some((Some(1), Some(9))));
    assert_eq!(owned(z.next_back()), None);
    assert_eq!(owned(z.next()), None);
}

#[test]
fn reverse_trims_longer_second_side() {
    let got = backward_all(&[7], &[1, 2, 3]);
    assert_eq!(got, vec![(Some(7), Some(1))]);
}

#[test]
fn reverse_mirrors_common_prefix_of_forward() {
    let a = [1, 2, 3, 4];
    let b = [9, 8];
    let mut mirrored = forward_all(&a, &b);
    mirrored.truncate(2);
    mirrored.reverse();
    assert_eq!(backward_all(&a, &b), mirrored);
}

#[test]
fn reverse_mirrors_forward_for_equal_lengths() {
    let a = [1, 2, 3];
    let b = [4, 5, 6];
    let mut mirrored = forward_all(&a, &b);
    mirrored.reverse();
    let got = backward_all(&a, &b);
    assert_eq!(got, mirrored);
    assert_eq!(
        got,
        vec![(Some(3), Some(6)), (Some(2), Some(5)), (Some(1), Some(4))]
    );
}

#[test]
fn reverse_with_one_side_empty_drains_the_other() {
    let a = [1, 2, 3];
    let b: [i32; 0] = [];
    let mut z = zipped(&a, &b);
    assert_eq!(owned(z.next_back()), None);
    assert_eq!(z.size_hint(), (0, Some(0)));
    assert_eq!(owned(z.next()), None);
}

#[test]
fn forward_then_reverse_on_one_adaptor() {
    let a = [1, 2, 3, 4, 5];
    let b = [6, 7, 8];
    let mut z = zipped(&a, &b);
    assert_eq!(owned(z.next()), Some((Some(1), Some(6))));
    assert_eq!(owned(z.next_back()), Some((Some(3), Some(8))));
    assert_eq!(owned(z.next()), Some((Some(2), Some(7))));
    assert_eq!(owned(z.next()), None);
    assert_eq!(owned(z.next_back()), None);
}

#[test]
fn coverage_is_the_longer_length() {
    assert_eq!(forward_all(&[1, 2, 3, 4, 5], &[1, 2]).len(), 5);
    assert_eq!(forward_all(&[1], &[1, 2, 3, 4]).len(), 4);
    assert_eq!(forward_all(&[1, 2], &[3, 4]).len(), 2);
    assert_eq!(forward_all(&[], &[]).len(), 0);
}

#[test]
fn pairing_by_position() {
    let a = [4, 5];
    let b = [6, 7, 8, 9];
    let got = forward_all(&a, &b);
    for i in 0..got.len() {
        assert_eq!(got[i].0, a.get(i).copied());
        assert_eq!(got[i].1, b.get(i).copied());
    }
}

#[test]
fn no_record_has_both_slots_absent() {
    for r in forward_all(&[1, 2, 3], &[4]) {
        assert!(r.0.is_some() || r.1.is_some());
    }
    for r in backward_all(&[1, 2, 3], &[4]) {
        assert!(r.0.is_some() && r.1.is_some());
    }
}

#[test]
fn exhaustion_is_permanent() {
    let a = [1];
    let b = [2];
    let mut z = zipped(&a, &b);
    assert_eq!(owned(z.next()), Some((Some(1), Some(2))));
    assert_eq!(owned(z.next()), None);
    assert_eq!(owned(z.next()), None);
    assert_eq!(owned(z.nth(0)), None);
}

#[test]
fn nth_equals_repeated_next() {
    let a = [1, 2, 3, 4];
    let b = [5, 6];
    for n in 0..7usize {
        let mut skipped = zipped(&a, &b);
        let mut stepped = skipped.clone();
        let by_skip = owned(skipped.nth(n));
        let mut last = None;
        for _ in 0..n + 1 {
            last = owned(stepped.next());
        }
        assert_eq!(by_skip, last);
        assert_eq!(owned(skipped.next()), owned(stepped.next()));
    }
}

#[test]
fn nth_exact_values() {
    let a = [1, 2, 3, 4];
    let b = [5, 6];
    let mut z = zipped(&a, &b);
    assert_eq!(owned(z.nth(1)), Some((Some(2), Some(6))));
    assert_eq!(owned(z.nth(0)), Some((Some(3), None)));
    assert_eq!(owned(z.nth(1)), None);
    assert_eq!(owned(z.next()), None);
}

#[test]
fn super_nth_exact_values() {
    let a = [1, 2, 3];
    let b = [5];
    let mut z = zipped(&a, &b);
    assert_eq!(owned(z.super_nth(2)), Some((Some(3), None)));
    assert_eq!(owned(z.super_nth(0)), None);
    let mut z = zipped(&a, &b);
    assert_eq!(owned(z.super_nth(3)), None);
}

#[test]
fn size_hint_of_slices() {
    let a = [1, 2, 3];
    let b = [10, 20];
    let mut z = zipped(&a, &b);
    assert_eq!(z.size_hint(), (2, Some(2)));
    z.next();
    assert_eq!(z.size_hint(), (1, Some(1)));
    z.next();
    assert_eq!(z.size_hint(), (0, Some(0)));
}

#[test]
fn size_hint_lower_bound_is_sound() {
    let a = [1, 2, 3];
    let b = [10, 20];
    let z = zipped(&a, &b);
    let (lower, _) = z.size_hint();
    assert!(lower <= forward_all(&a, &b).len());
}

#[test]
fn size_hint_exact_for_equal_lengths() {
    let a = [1, 2, 3];
    let b = [10, 20, 30];
    let z = zipped(&a, &b);
    assert_eq!(z.size_hint(), (3, Some(3)));
    assert_eq!(forward_all(&a, &b).len(), 3);
}

#[test]
fn combine_hints_formula() {
    assert_eq!(combine_hints((3, Some(9)), (5, Some(7))), (3, Some(7)));
    assert_eq!(combine_hints((5, Some(6)), (2, Some(8))), (2, Some(6)));
    assert_eq!(combine_hints((1, None), (5, Some(7))), (1, Some(7)));
    assert_eq!(combine_hints((4, Some(4)), (0, None)), (0, Some(4)));
    assert_eq!(combine_hints((4, None), (6, None)), (4, None));
}

#[test]
fn pair_up_cases() {
    assert_eq!(pair_up::<i32, i32>(None, None), None);
    assert_eq!(pair_up::<i32, i32>(Some(1), None), Some((Some(1), None)));
    assert_eq!(pair_up::<i32, i32>(None, Some(2)), Some((None, Some(2))));
    assert_eq!(pair_up(Some(1), Some('x')), Some((Some(1), Some('x'))));
}

#[test]
fn zip_option_method_on_a_producer() {
    let a = [1, 2];
    let b = [3];
    let mut z = SliceProducer::new(&a).zip_option(SliceProducer::new(&b));
    assert_eq!(owned(z.next()), Some((Some(1), Some(3))));
    assert_eq!(owned(z.next()), Some((Some(2), None)));
    assert_eq!(owned(z.next()), None);
}

#[test]
fn slice_producer_both_ends() {
    let items = [1, 2, 3];
    let mut p = SliceProducer::new(&items);
    assert_eq!(p.len(), 3);
    assert_eq!(p.size_hint(), (3, Some(3)));
    assert_eq!(p.next(), Some(&1));
    assert_eq!(p.next_back(), Some(&3));
    assert_eq!(p.len(), 1);
    let mut q = p.clone();
    assert_eq!(p.next_back(), Some(&2));
    assert_eq!(p.next(), None);
    assert_eq!(p.next_back(), None);
    assert_eq!(q.next(), Some(&2));
    assert_eq!(q.next(), None);
}

#[test]
fn mixed_item_types() {
    let a = ["x", "y"];
    let b = [1u8, 2, 3];
    let mut z = ZipOption::new(SliceProducer::new(&a), SliceProducer::new(&b));
    assert_eq!(z.next(), Some((Some(&"x"), Some(&1u8))));
    assert_eq!(z.nth(1), Some((None, Some(&3u8))));
    assert_eq!(z.next(), None);
}

#[test]
fn zip_of_a_zip() {
    let a = [1];
    let b = [2, 3];
    let c = [4, 5, 6];
    let inner = ZipOption::new(SliceProducer::new(&a), SliceProducer::new(&b));
    let mut z = ZipOption::new(inner, SliceProducer::new(&c));
    assert_eq!(z.size_hint(), (1, Some(1)));
    assert_eq!(z.next(), Some((Some((Some(&1), Some(&2))), Some(&4))));
    assert_eq!(z.next(), Some((Some((None, Some(&3))), Some(&5))));
    assert_eq!(z.next(), Some((None, Some(&6))));
    assert_eq!(z.next(), None);
}

#[test]
fn size_hint_upper_bound_is_the_shorter_count() {
    let a = [1, 2, 3, 4];
    let b = [9];
    let z = zipped(&a, &b);
    assert_eq!(z.size_hint(), (1, Some(1)));
    assert_eq!(forward_all(&a, &b).len(), 4);
}
