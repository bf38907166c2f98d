use dghub::grade::Grade;
use dghub::update::{chain_update_fns, CountDiff, UpdateFns};

fn drained(diff: &mut CountDiff, counts: [u32; 4]) -> Vec<Grade> {
    diff.frame(counts);
    let mut hits = Vec::new();
    while let Some(grade) = diff.next_grade() {
        hits.push(grade);
    }
    hits
}

#[test]
fn new_hits_are_handed_on_by_grade() {
    let mut diff = CountDiff::new();
    assert!(drained(&mut diff, [0, 0, 0, 0]).is_empty());
    assert_eq!(
        drained(&mut diff, [2, 0, 1, 1]),
        vec![Grade::Perfect, Grade::Perfect, Grade::Bad, Grade::Miss]
    );
    assert!(drained(&mut diff, [2, 0, 1, 1]).is_empty());
    assert_eq!(drained(&mut diff, [2, 1, 1, 3]), vec![Grade::Good, Grade::Miss, Grade::Miss]);
}

#[test]
fn every_hit_of_a_game_is_handed_on_once() {
    let mut diff = CountDiff::new();
    let mut sent = [0u32; 4];
    let mut counts = [0u32; 4];
    for step in 0..100u32 {
        counts[(step % 4) as usize] += step % 3;
        counts[((step / 7) % 4) as usize] += 1;
        for grade in drained(&mut diff, counts) {
            sent[grade.index()] += 1;
        }
    }
    assert_eq!(sent, counts);
}

#[test]
fn counts_that_go_down_hand_on_nothing() {
    let mut diff = CountDiff::new();
    drained(&mut diff, [5, 5, 5, 5]);
    assert!(drained(&mut diff, [0, 0, 0, 0]).is_empty());
    assert_eq!(drained(&mut diff, [1, 0, 0, 0]), vec![Grade::Perfect]);
}

#[test]
fn a_frame_that_breaks_off_is_handed_out_again() {
    let mut diff = CountDiff::new();
    diff.frame([1, 0, 0, 2]);
    assert_eq!(diff.next_grade(), Some(Grade::Perfect));
    assert_eq!(diff.next_grade(), Some(Grade::Miss));
    assert_eq!(
        drained(&mut diff, [1, 1, 0, 2]),
        vec![Grade::Perfect, Grade::Good, Grade::Miss, Grade::Miss]
    );
}

#[test]
fn a_settled_frame_stays_settled() {
    let mut diff = CountDiff::new();
    drained(&mut diff, [1, 1, 1, 1]);
    assert_eq!(diff.next_grade(), None);
    assert_eq!(diff.next_grade(), None);
    assert!(drained(&mut diff, [1, 1, 1, 1]).is_empty());
}

#[test]
fn functions_are_chained_in_their_order() {
    assert!(chain_update_fns::<u8>(None, None).is_none());
    assert!(matches!(chain_update_fns(Some(1), None), Some(UpdateFns::One(1))));
    assert!(matches!(chain_update_fns(None, Some(2)), Some(UpdateFns::One(2))));
    assert!(matches!(chain_update_fns(Some(1), Some(2)), Some(UpdateFns::Two(1, 2))));
}
