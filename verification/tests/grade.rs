use dghub::grade::Grade;

#[test]
fn grades_by_place() {
    assert_eq!(Grade::from_index(0), Grade::Perfect);
    assert_eq!(Grade::from_index(1), Grade::Good);
    assert_eq!(Grade::from_index(2), Grade::Bad);
    assert_eq!(Grade::from_index(3), Grade::Miss);
    assert_eq!(Grade::from_index(4), Grade::Miss);
    assert_eq!(Grade::from_index(usize::MAX), Grade::Miss);
}

#[test]
fn places_of_grades() {
    for i in 0..4 {
        assert_eq!(Grade::from_index(i).index(), i);
    }
}

#[test]
fn labels_of_grades() {
    assert_eq!(Grade::Perfect.label(), "Perfect");
    assert_eq!(Grade::Good.label(), "Good");
    assert_eq!(Grade::Bad.label(), "Bad");
    assert_eq!(Grade::Miss.label(), "Miss");
}
