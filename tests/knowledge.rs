use assistant_agent::error::AssistantError;
use assistant_agent::knowledge::documents::{chunk_text, Document};
use assistant_agent::knowledge::embeddings::{cosine_similarity, dot_product, magnitude_sq, MAX_DIM};
use assistant_agent::knowledge::vectorstore::VectorStore;

fn stored(content: &str, embedding: Vec<i16>, store: &mut VectorStore) {
    let doc = Document::new(content.to_string(), "test".to_string());
    assert!(store.add_document(doc, embedding).is_ok());
}

#[test]
fn empty_store_search_returns_empty() {
    let store = VectorStore::new();
    let found = store.search(&vec![1, 0], 3).unwrap();
    assert!(found.is_empty());
}

#[test]
fn search_returns_nearest_first() {
    let mut store = VectorStore::new();
    stored("east", vec![1000, 0], &mut store);
    stored("north", vec![0, 1000], &mut store);
    stored("mostly east", vec![900, 100], &mut store);
    let found = store.search(&vec![1000, 0], 2).unwrap();
    assert_eq!(found.len(), 2);
    assert_eq!(found[0].content, "east");
    assert_eq!(found[1].content, "mostly east");
    assert_eq!(found[0].embedding, Some(vec![1000, 0]));
}

#[test]
fn search_never_exceeds_k_and_is_sorted() {
    let mut store = VectorStore::new();
    stored("a", vec![0, 5], &mut store);
    stored("b", vec![5, 5], &mut store);
    stored("c", vec![-5, 1], &mut store);
    stored("d", vec![5, 0], &mut store);
    stored("e", vec![5, -1], &mut store);
    let order = store.rank(&vec![3, 1], 10);
    assert_eq!(order, vec![3, 1, 4, 0, 2]);
    let found = store.search(&vec![3, 1], 3).unwrap();
    let names: Vec<&str> = found.iter().map(|d| d.content.as_str()).collect();
    assert_eq!(names, vec!["d", "b", "e"]);
    assert!(store.search(&vec![3, 1], 0).unwrap().is_empty());
}

#[test]
fn ties_keep_store_order_and_unembedded_are_skipped() {
    let mut store = VectorStore::new();
    stored("first", vec![2, 0], &mut store);
    stored("second", vec![4, 0], &mut store);
    let plain = Document::new("no vector".to_string(), "test".to_string());
    let mut docs = store.export();
    docs.push(plain);
    let store = VectorStore::from_documents(docs).unwrap();
    assert_eq!(store.count(), 3);
    assert_eq!(store.rank(&vec![1, 0], 5), vec![0, 1]);
}

#[test]
fn zero_query_ranks_everything_equal() {
    let mut store = VectorStore::new();
    stored("a", vec![1, 2], &mut store);
    stored("b", vec![0, 0], &mut store);
    stored("c", vec![-3, 2], &mut store);
    assert_eq!(store.rank(&vec![0, 0], 3), vec![0, 1, 2]);
}

#[test]
fn oversized_embeddings_are_rejected() {
    let mut store = VectorStore::new();
    let doc = Document::new("big".to_string(), "test".to_string());
    let r = store.add_document(doc, vec![1; MAX_DIM + 1]);
    assert!(matches!(r, Err(AssistantError::KnowledgeError(_))));
    assert_eq!(store.count(), 0);
    assert!(matches!(
        store.search(&vec![1; MAX_DIM + 1], 1),
        Err(AssistantError::KnowledgeError(_))
    ));
    let doc = Document::new("big".to_string(), "test".to_string()).with_embedding(vec![1; MAX_DIM + 1]);
    assert!(matches!(
        VectorStore::from_documents(vec![doc]),
        Err(AssistantError::SerializationError(_))
    ));
    let doc = Document::new("fits".to_string(), "test".to_string());
    assert!(store.add_document(doc, vec![1; MAX_DIM]).is_ok());
}

#[test]
fn export_and_reload_keep_documents() {
    let mut store = VectorStore::new();
    stored("one", vec![1, 2, 3], &mut store);
    stored("two", vec![3, 2, 1], &mut store);
    let exported = store.export();
    let reloaded = VectorStore::from_documents(exported.clone()).unwrap();
    let again = reloaded.export();
    assert_eq!(again.len(), 2);
    for (a, b) in exported.iter().zip(again.iter()) {
        assert_eq!(a.id, b.id);
        assert_eq!(a.content, b.content);
        assert_eq!(a.metadata.source, b.metadata.source);
        assert_eq!(a.metadata.timestamp, b.metadata.timestamp);
        assert_eq!(a.embedding, b.embedding);
    }
}

#[test]
fn new_documents_get_distinct_ids() {
    let a = Document::new("x".to_string(), "src".to_string());
    let b = Document::new("x".to_string(), "src".to_string());
    assert_eq!(a.id.len(), 36);
    assert_eq!(a.id.chars().filter(|c| *c == '-').count(), 4);
    assert_ne!(a.id, b.id);
    assert_eq!(a.metadata.source, "src");
    assert!(a.embedding.is_none());
    assert!(a.metadata.timestamp > 1_600_000_000_000);
}

#[test]
fn cosine_examples() {
    let c = cosine_similarity(&[3, 4], &[4, 3]);
    assert_eq!((c.num, c.den), (576, 625));
    let d = cosine_similarity(&[4, 3], &[3, 4]);
    assert_eq!(c, d);
    let opposite = cosine_similarity(&[1, 1], &[-2, -2]);
    assert_eq!(opposite.num, -(opposite.den as i128));
    let zero = cosine_similarity(&[0, 0], &[1, 2]);
    assert_eq!((zero.num, zero.den), (0, 1));
    let zero = cosine_similarity(&[1, 2], &[]);
    assert_eq!((zero.num, zero.den), (0, 1));
    let extreme = cosine_similarity(&[i16::MIN, i16::MAX], &[i16::MAX, i16::MIN]);
    assert!(extreme.num.unsigned_abs() <= extreme.den);
}

#[test]
fn dot_and_magnitude() {
    assert_eq!(dot_product(&[1, 2, 3], &[4, 5]), 14);
    assert_eq!(magnitude_sq(&[3, -4]), 25);
    assert_eq!(magnitude_sq(&[]), 0);
}

#[test]
fn chunks_overlap() {
    let chunks = chunk_text("abcdefghij", 4, 1);
    assert_eq!(chunks, vec!["abcd", "defg", "ghij"]);
}

#[test]
fn chunks_skip_blank_windows() {
    let chunks = chunk_text("ab    cd", 2, 0);
    assert_eq!(chunks, vec!["ab", "cd"]);
    assert!(chunk_text("", 5, 1).is_empty());
    assert!(chunk_text(" \t\n\u{3000}", 2, 0).is_empty());
}

#[test]
fn chunks_count_characters_not_bytes() {
    let chunks = chunk_text("héllo wörld", 5, 0);
    assert_eq!(chunks, vec!["héllo", " wörl", "d"]);
}
