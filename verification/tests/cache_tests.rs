use rw_fetch::cache::is_blank;
use rw_fetch::cache::pick_art;
use rw_fetch::cache::small_entries;
use rw_fetch::cache::CacheEntry;
use rw_fetch::cache::SMALL_CATEGORY;

fn entry(art: &str, category: &str) -> CacheEntry {
    CacheEntry { ansi_art: art.to_string(), category: category.to_string(), num_lines: art.lines().count() }
}

#[test]
fn small_category_is_named_small() {
    assert_eq!(SMALL_CATEGORY, "small");
}

#[test]
fn is_blank_of_white_space_only() {
    assert!(is_blank(""));
    assert!(is_blank(" \n\t\r\n"));
    assert!(!is_blank("{}"));
    assert!(!is_blank("  {} \n"));
}

#[test]
fn small_entries_lists_the_positions_in_order() {
    let entries = vec![
        entry("a", "large"),
        entry("b", "small"),
        entry("c", "Small"),
        entry("d", "small"),
        entry("e", ""),
        entry("f", "small "),
        entry("g", "small"),
    ];
    assert_eq!(small_entries(&entries), vec![1, 3, 6]);
    assert_eq!(small_entries(&Vec::new()), Vec::<usize>::new());
    assert_eq!(small_entries(&vec![entry("a", "medium")]), Vec::<usize>::new());
}

#[test]
fn pick_art_without_a_small_entry() {
    assert!(pick_art(&Vec::new()).is_none());
    assert!(pick_art(&vec![entry("a", "large"), entry("b", "medium")]).is_none());
}

#[test]
fn pick_art_picks_a_small_entry() {
    let entries = vec![entry("a", "large"), entry("b", "small"), entry("c", "medium")];
    for _ in 0..50 {
        let chosen = pick_art(&entries).unwrap();
        assert_eq!(chosen.ansi_art, "b");
        assert_eq!(chosen.category, "small");
    }
}

#[test]
fn pick_art_picks_among_all_small_entries() {
    let entries = vec![
        entry("a", "small"),
        entry("b", "large"),
        entry("c", "small"),
        entry("d", "small"),
    ];
    let mut seen = [0usize; 4];
    for _ in 0..600 {
        let chosen = pick_art(&entries).unwrap();
        assert_eq!(chosen.category, "small");
        let at = entries.iter().position(|e| e.ansi_art == chosen.ansi_art).unwrap();
        seen[at] += 1;
    }
    assert_eq!(seen[1], 0);
    assert!(seen[0] > 0 && seen[2] > 0 && seen[3] > 0, "seen {:?}", seen);
}
