use tilesim::scores::{sort_scores, ScoreEntry};

fn entry(initials: &str, score: u32) -> ScoreEntry {
    ScoreEntry { initials: String::from(initials), score }
}

#[test]
fn sort_scores_descending() {
    let entries = vec![entry("AB", 3), entry("CD", 17), entry("EF", 0), entry("GH", 9)];
    let sorted = sort_scores(entries);
    let scores: Vec<u32> = sorted.iter().map(|e| e.score).collect();
    assert_eq!(scores, vec![17, 9, 3, 0]);
    assert_eq!(sorted[0].initials, "CD");
    assert_eq!(sorted[3].initials, "EF");
}

#[test]
fn sort_scores_keeps_duplicates() {
    let entries = vec![entry("AA", 5), entry("BB", 5), entry("CC", 1), entry("DD", 5)];
    let sorted = sort_scores(entries);
    assert_eq!(sorted.len(), 4);
    let scores: Vec<u32> = sorted.iter().map(|e| e.score).collect();
    assert_eq!(scores, vec![5, 5, 5, 1]);
    let mut names: Vec<String> = sorted.iter().map(|e| e.initials.clone()).collect();
    names.sort();
    assert_eq!(names, vec!["AA", "BB", "CC", "DD"]);
}

#[test]
fn sort_scores_empty() {
    let sorted = sort_scores(Vec::new());
    assert!(sorted.is_empty());
}
