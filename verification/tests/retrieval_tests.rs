use semantic_gallery::errors::ErrorKind;
use semantic_gallery::retrieval::{rank_results, score_key, search_rank, SearchRow};

fn row(media_id: u128, name: &str, score: f32) -> SearchRow {
    SearchRow {
        media_id,
        filename: name.to_string(),
        file_path: format!("gallery/{name}"),
        score_bits: score.to_bits(),
    }
}

#[test]
fn score_key_orders_like_the_floats() {
    let scores: [f32; 7] = [-1.0, -0.5, -0.125, 0.0, 0.25, 0.5, 1.0];
    for w in scores.windows(2) {
        assert!(
            score_key(w[0].to_bits()) < score_key(w[1].to_bits()),
            "{} should rank below {}",
            w[0],
            w[1]
        );
    }
}

#[test]
fn ranking_sorts_descending_and_keeps_everything() {
    let rows = vec![row(1, "low.jpg", 0.1), row(2, "high.jpg", 0.9), row(3, "mid.jpg", 0.5)];
    let ranked = rank_results(rows);
    let names: Vec<&str> = ranked.iter().map(|r| r.filename.as_str()).collect();
    assert_eq!(names, vec!["high.jpg", "mid.jpg", "low.jpg"]);
}

#[test]
fn negative_scores_rank_below_positive_ones() {
    let rows = vec![row(1, "anti.jpg", -0.8), row(2, "weak.jpg", 0.05), row(3, "off.jpg", -0.1)];
    let ranked = rank_results(rows);
    let names: Vec<&str> = ranked.iter().map(|r| r.filename.as_str()).collect();
    assert_eq!(names, vec!["weak.jpg", "off.jpg", "anti.jpg"]);
}

#[test]
fn limit_three_of_ten_returns_the_three_highest() {
    let scores: [f32; 10] = [0.11, 0.93, 0.42, 0.87, -0.3, 0.05, 0.64, 0.99, 0.21, 0.5];
    let mut rows = Vec::new();
    for (i, s) in scores.iter().enumerate() {
        rows.push(row(i as u128, &format!("img{i}.jpg"), *s));
    }
    let got = search_rank(rows, 3).unwrap();
    assert_eq!(got.len(), 3);
    let names: Vec<&str> = got.iter().map(|r| r.filename.as_str()).collect();
    assert_eq!(names, vec!["img7.jpg", "img1.jpg", "img3.jpg"]);
    for w in got.windows(2) {
        assert!(score_key(w[0].score_bits) >= score_key(w[1].score_bits));
    }
}

#[test]
fn limit_larger_than_store_returns_everything_ranked() {
    let rows = vec![row(1, "a.jpg", 0.2), row(2, "b.jpg", 0.7)];
    let got = search_rank(rows, 10).unwrap();
    assert_eq!(got.len(), 2);
    assert_eq!(got[0].filename, "b.jpg");
}

#[test]
fn empty_store_gives_an_empty_result_not_an_error() {
    let got = search_rank(Vec::new(), 10).unwrap();
    assert!(got.is_empty());
}

#[test]
fn zero_limit_is_rejected_before_querying() {
    let r = search_rank(vec![row(1, "a.jpg", 0.5)], 0);
    assert_eq!(r.unwrap_err().kind(), ErrorKind::Validation);
}

#[test]
fn equal_scores_are_both_returned() {
    let rows = vec![row(1, "first.jpg", 0.5), row(2, "second.jpg", 0.5), row(3, "low.jpg", 0.1)];
    let got = search_rank(rows, 2).unwrap();
    assert_eq!(got.len(), 2);
    let mut names: Vec<&str> = got.iter().map(|r| r.filename.as_str()).collect();
    names.sort();
    assert_eq!(names, vec!["first.jpg", "second.jpg"]);
}
