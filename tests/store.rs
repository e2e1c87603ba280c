use nexus_context::store::{Document, VectorDB};

fn bits(v: &[f32]) -> Vec<u32> {
    v.iter().map(|x| x.to_bits()).collect()
}

fn dot(a: &[f32], b: &[f32]) -> f32 {
    a.iter().zip(b.iter()).map(|(x, y)| x * y).sum()
}

fn scores(db: &VectorDB, query: &[f32]) -> Vec<u32> {
    db.documents()
        .iter()
        .map(|d| {
            let v: Vec<f32> = d.vector.iter().map(|b| f32::from_bits(*b)).collect();
            dot(query, &v).to_bits()
        })
        .collect()
}

fn hits(db: &VectorDB, query: &[f32], limit: usize) -> Vec<(String, String, f32)> {
    db.search(&scores(db, query), limit)
        .into_iter()
        .map(|(t, m, s)| (t, m, f32::from_bits(s)))
        .collect()
}

#[test]
fn empty_store_search_is_empty() {
    let db = VectorDB::new("data/none.json", None);
    assert_eq!(db.len(), 0);
    assert!(db.search(&vec![], 5).is_empty());
}

#[test]
fn add_appends_in_order_and_keeps_duplicate_ids() {
    let mut db = VectorDB::new("data/v.json", None);
    db.add("a", "first", bits(&[1.0, 0.0]), "{}");
    db.add("a", "second", bits(&[0.0, 1.0]), "{\"k\":1}");
    assert_eq!(db.len(), 2);
    let docs = db.documents();
    assert_eq!(docs[0].id, "a");
    assert_eq!(docs[1].id, "a");
    assert_eq!(docs[0].text, "first");
    assert_eq!(docs[1].metadata, "{\"k\":1}");
    assert_eq!(db.path(), "data/v.json");
}

#[test]
fn reopen_from_snapshot_keeps_everything() {
    let mut db = VectorDB::new("data/v.json", None);
    db.add("x", "one", bits(&[0.6, 0.8]), "m1");
    db.add("y", "two", bits(&[0.8, 0.6]), "m2");
    let copy = db.snapshot();
    let reopened = VectorDB::new("data/v.json", Some(copy));
    assert_eq!(reopened.len(), 2);
    for (a, b) in db.documents().iter().zip(reopened.documents().iter()) {
        assert_eq!(a.id, b.id);
        assert_eq!(a.text, b.text);
        assert_eq!(a.vector, b.vector);
        assert_eq!(a.metadata, b.metadata);
    }
}

#[test]
fn end_to_end_single_document() {
    let stored = [0.6f32, 0.8, 0.0];
    let query = [0.8f32, 0.0, 0.6];
    let mut db = VectorDB::new("data/test_vectors.json", None);
    db.add("doc_1", "The rust compiler is fast and safe.", bits(&stored), "{\"category\": \"test\"}");
    let reopened = VectorDB::new("data/test_vectors.json", Some(db.snapshot()));
    let r = hits(&reopened, &query, 2);
    assert_eq!(r.len(), 1);
    assert_eq!(r[0].0, "The rust compiler is fast and safe.");
    assert_eq!(r[0].1, "{\"category\": \"test\"}");
    assert_eq!(r[0].2, dot(&query, &stored));
}

#[test]
fn search_returns_top_k_by_score() {
    let mut db = VectorDB::new("p", None);
    db.add("1", "low", bits(&[0.1]), "");
    db.add("2", "high", bits(&[0.9]), "");
    db.add("3", "mid", bits(&[0.5]), "");
    db.add("4", "mid again", bits(&[0.5]), "");
    let r = hits(&db, &[1.0], 3);
    let texts: Vec<&str> = r.iter().map(|h| h.0.as_str()).collect();
    assert_eq!(texts, vec!["high", "mid", "mid again"]);
    assert_eq!(r[0].2, 0.9);
    let all = hits(&db, &[1.0], 9);
    assert_eq!(all.len(), 4);
    assert_eq!(all[3].0, "low");
}

#[test]
fn search_is_deterministic() {
    let mut db = VectorDB::new("p", None);
    db.add("1", "a", bits(&[0.3, 0.4]), "");
    db.add("2", "b", bits(&[0.4, 0.3]), "");
    db.add("3", "c", bits(&[0.3, 0.4]), "");
    let first = hits(&db, &[1.0, 1.0], 2);
    let second = hits(&db, &[1.0, 1.0], 2);
    assert_eq!(first, second);
    assert_eq!(first.len(), 2);
}

#[test]
fn nan_score_ranks_last() {
    let mut db = VectorDB::new("p", None);
    db.add("1", "nan", bits(&[f32::NAN]), "");
    db.add("2", "neg", bits(&[-1.0]), "");
    let r = hits(&db, &[1.0], 2);
    assert_eq!(r[0].0, "neg");
    assert_eq!(r[1].0, "nan");
}

#[test]
fn duplicate_copies_every_field() {
    let d = Document::new("i", "t", vec![1, 2], "m");
    let e = d.duplicate();
    assert_eq!(e.id, "i");
    assert_eq!(e.text, "t");
    assert_eq!(e.vector, vec![1, 2]);
    assert_eq!(e.metadata, "m");
}
