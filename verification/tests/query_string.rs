use pgwire::query_string::{AssertQuerySafe, QuerySafeStr, QueryString};
use std::borrow::Borrow;
use std::collections::hash_map::DefaultHasher;
use std::collections::HashMap;
use std::hash::{Hash, Hasher};
use std::sync::Arc;

const SQL: &str = "SELECT * FROM posts ORDER BY score LIMIT $1";

fn hash_of<T: Hash + ?Sized>(value: &T) -> u64 {
    let mut hasher = DefaultHasher::new();
    value.hash(&mut hasher);
    hasher.finish()
}

fn every_representation(text: &String) -> Vec<QueryString<'_>> {
    vec![
        SQL.into_query_string(),
        AssertQuerySafe(text.as_str()).into_query_string(),
        AssertQuerySafe(text).into_query_string(),
        AssertQuerySafe(text.clone()).into_query_string(),
        AssertQuerySafe(text.clone().into_boxed_str()).into_query_string(),
        AssertQuerySafe(Arc::<str>::from(text.as_str())).into_query_string(),
    ]
}

#[test]
fn as_str_gives_the_text_of_every_representation() {
    let text = String::from(SQL);
    for query in every_representation(&text) {
        assert_eq!(query.as_str(), SQL);
        let as_ref: &str = query.as_ref();
        assert_eq!(as_ref, SQL);
        let borrowed: &str = query.borrow();
        assert_eq!(borrowed, SQL);
    }
}

#[test]
fn into_static_keeps_the_text() {
    let text = String::from(SQL);
    for query in every_representation(&text) {
        let erased: QueryString<'static> = query.into_static();
        assert_eq!(erased.as_str(), SQL);
    }
}

#[test]
fn into_static_outlives_the_borrowed_string() {
    let erased = {
        let text = format!("SELECT {}", 1 + 1);
        AssertQuerySafe(text.as_str()).into_query_string().into_static()
    };
    assert_eq!(erased.as_str(), "SELECT 2");
}

#[test]
fn into_static_copies_a_borrowed_string() {
    let text = String::from(SQL);
    let erased = AssertQuerySafe(text.as_str()).into_query_string().into_static();
    assert_ne!(erased.as_str().as_ptr(), text.as_ptr());
    assert_eq!(erased.as_str(), text);
}

#[test]
fn into_static_does_not_copy_an_owned_string() {
    let literal = SQL.into_query_string();
    assert_eq!(literal.into_static().as_str().as_ptr(), SQL.as_ptr());

    let owned = String::from(SQL);
    let at = owned.as_ptr();
    assert_eq!(AssertQuerySafe(owned).into_query_string().into_static().as_str().as_ptr(), at);

    let boxed = String::from(SQL).into_boxed_str();
    let at = boxed.as_ptr();
    assert_eq!(AssertQuerySafe(boxed).into_query_string().into_static().as_str().as_ptr(), at);

    let shared = Arc::<str>::from(SQL);
    let at = shared.as_ptr();
    assert_eq!(AssertQuerySafe(shared).into_query_string().into_static().as_str().as_ptr(), at);
}

#[test]
fn into_static_twice_is_into_static_once() {
    let text = String::from(SQL);
    for query in every_representation(&text) {
        let once = query.into_static();
        let at = once.as_str().as_ptr();
        let twice = once.into_static();
        assert_eq!(twice.as_str(), SQL);
        assert_eq!(twice.as_str().as_ptr(), at);
    }
}

#[test]
fn equality_goes_by_the_text_alone() {
    let text = String::from(SQL);
    let other = String::from("SELECT 1");
    for a in every_representation(&text) {
        for b in every_representation(&text) {
            assert!(a == b);
        }
        for b in every_representation(&other) {
            if b.as_str() != SQL {
                assert!(a != b);
            }
        }
        assert!(a == SQL);
        assert!(a == *SQL);
        assert!(a == text);
        assert!(a != "SELECT 1");
        assert!(a != other);
    }
}

#[test]
fn a_query_string_hashes_as_its_text() {
    let text = String::from(SQL);
    for query in every_representation(&text) {
        assert_eq!(hash_of(&query), hash_of(SQL));
    }
}

#[test]
fn a_query_string_keys_a_map_that_its_text_looks_up() {
    let text = String::from(SQL);
    let mut statements: HashMap<QueryString<'static>, u32> = HashMap::new();
    statements.insert(AssertQuerySafe(text.as_str()).into_query_string().into_static(), 7);
    assert_eq!(statements.get(SQL), Some(&7));
    assert_eq!(statements.get(&SQL.into_query_string()), Some(&7));
    assert_eq!(statements.get("SELECT 1"), None);
}

#[test]
fn clone_keeps_text_and_sharing() {
    let text = String::from(SQL);
    for query in every_representation(&text) {
        let copy = query.clone();
        assert_eq!(copy.as_str(), query.as_str());
        assert!(copy == query);
    }
    let borrowed = AssertQuerySafe(text.as_str()).into_query_string();
    assert_eq!(borrowed.clone().as_str().as_ptr(), text.as_ptr());
}

#[test]
fn the_empty_string_is_a_query_string() {
    let empty = "".into_query_string();
    assert_eq!(empty.as_str(), "");
    assert!(empty == AssertQuerySafe(String::new()).into_query_string());
    assert_eq!(empty.into_static().as_str(), "");
}

#[test]
fn a_query_string_wraps_as_itself() {
    let query = SQL.into_query_string();
    let again = query.into_query_string();
    assert_eq!(again.as_str().as_ptr(), SQL.as_ptr());
}
