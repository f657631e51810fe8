use particle_life::palette::ColorPalette;

#[test]
fn from_entries_keeps_the_order() {
    let p: ColorPalette = ColorPalette::from_entries(vec![7, 0, 3], 8).unwrap();
    assert_eq!(p.len(), 3);
    assert_eq!(p.table_len(), 8);
    assert_eq!(p.table_entry(0), 7);
    assert_eq!(p.table_entry(1), 0);
    assert_eq!(p.table_entry(2), 3);
}

#[test]
fn from_entries_refuses_an_empty_palette() {
    assert!(ColorPalette::from_entries(Vec::new(), 8).is_none());
}

#[test]
fn from_entries_refuses_an_entry_outside_the_table() {
    assert!(ColorPalette::from_entries(vec![0, 8], 8).is_none());
    assert!(ColorPalette::from_entries(vec![0], 0).is_none());
}

#[test]
fn from_entries_refuses_an_entry_given_twice() {
    assert!(ColorPalette::from_entries(vec![1, 2, 1], 8).is_none());
    assert!(ColorPalette::from_entries(vec![5, 5], 8).is_none());
}

#[test]
fn pick_takes_different_entries_of_the_table() {
    for _ in 0..50 {
        let p: ColorPalette = ColorPalette::pick(120, 40);
        assert_eq!(p.len(), 40);
        assert_eq!(p.table_len(), 120);
        let mut seen: Vec<bool> = vec![false; 120];
        for class in 0..40 {
            let entry: usize = p.table_entry(class);
            assert!(entry < 120);
            assert!(!seen[entry]);
            seen[entry] = true;
        }
    }
}

#[test]
fn pick_of_the_whole_table_is_a_reordering() {
    let p: ColorPalette = ColorPalette::pick(120, 120);
    let mut entries: Vec<usize> = Vec::new();
    for class in 0..120 {
        entries.push(p.table_entry(class));
    }
    let in_order: Vec<usize> = (0..120).collect();
    assert_ne!(entries, in_order);
    entries.sort();
    assert_eq!(entries, in_order);
}

#[test]
fn pick_of_one_color() {
    let p: ColorPalette = ColorPalette::pick(1, 1);
    assert_eq!(p.len(), 1);
    assert_eq!(p.table_entry(0), 0);
}

#[test]
fn generated_palette_draws_its_size_from_the_interval() {
    let mut sizes: Vec<usize> = Vec::new();
    for _ in 0..64 {
        let p: ColorPalette = ColorPalette::generate(120, 20, 100);
        assert!(20 <= p.len() && p.len() <= 100);
        sizes.push(p.len());
    }
    assert!(sizes.iter().any(|n| *n != sizes[0]));
}
