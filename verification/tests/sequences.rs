use atm::utils::{gen_num_melodies, gen_sequences};
use itertools::Itertools;

fn collect(notes: &Vec<u8>, length: u32) -> Vec<Vec<u8>> {
    let mut melodies = gen_sequences(notes, length);
    let mut all = Vec::new();
    while let Some(melody) = melodies.next() {
        all.push(melody);
    }
    // the sequence stays at its end
    assert_eq!(melodies.next(), None);
    assert_eq!(melodies.next(), None);
    all
}

#[test]
fn two_notes_three_long_in_order() {
    let all = collect(&vec![60, 62], 3);
    assert_eq!(
        all,
        vec![
            vec![60, 60, 60],
            vec![60, 60, 62],
            vec![60, 62, 60],
            vec![60, 62, 62],
            vec![62, 60, 60],
            vec![62, 60, 62],
            vec![62, 62, 60],
            vec![62, 62, 62],
        ]
    );
}

#[test]
fn order_follows_the_places_of_the_notes() {
    // the order is that of the places in the sequence, not that of the pitches
    let all = collect(&vec![72, 60], 2);
    assert_eq!(all, vec![vec![72, 72], vec![72, 60], vec![60, 72], vec![60, 60]]);
}

#[test]
fn as_many_melodies_as_the_power_says() {
    for k in 0u32..5 {
        for l in 0u32..6 {
            let notes: Vec<u8> = (0..k).map(|i| 60 + i as u8).collect();
            let all = collect(&notes, l);
            assert_eq!(all.len() as u64, gen_num_melodies(k, l));
            // each melody is distinct and they come in ascending order
            for pair in all.windows(2) {
                assert!(pair[0] < pair[1]);
            }
            for melody in &all {
                assert_eq!(melody.len(), l as usize);
            }
        }
    }
}

#[test]
fn same_melodies_as_the_cartesian_product() {
    let notes: Vec<u8> = vec![60, 62, 64, 60];
    for length in 1u32..5 {
        let expected: Vec<Vec<u8>> = (0..length)
            .map(|_| notes.iter())
            .multi_cartesian_product()
            .map(|melody| melody.into_iter().copied().collect())
            .collect();
        assert_eq!(collect(&notes, length), expected);
    }
}

#[test]
fn length_zero_gives_the_empty_melody() {
    assert_eq!(collect(&vec![60, 62], 0), vec![Vec::<u8>::new()]);
    assert_eq!(collect(&Vec::new(), 0), vec![Vec::<u8>::new()]);
}

#[test]
fn no_notes_give_no_melody() {
    assert_eq!(collect(&Vec::new(), 3), Vec::<Vec<u8>>::new());
}
