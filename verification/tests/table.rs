//! Lists of named entries, and the members of JSON objects.

use crane_wyoming::json::{find, insert, merge, put, put_text, Json};
use crane_wyoming::table::name_order;

fn names(given: &[&str]) -> Vec<String> {
    given.iter().map(|n| n.to_string()).collect()
}

#[test]
fn names_are_put_in_order() {
    assert_eq!(name_order(&names(&["b", "a", "c"])), vec![1, 0, 2]);
    assert_eq!(name_order(&names(&["m2", "m10", "M1", "m2"])), vec![2, 1, 0, 3]);
    assert_eq!(name_order(&names(&["ab", "a", ""])), vec![2, 1, 0]);
    assert!(name_order(&vec![]).is_empty());
}

#[test]
fn the_order_that_names_came_in_is_forgotten() {
    let first = names(&["b", "a", "c"]);
    let second = names(&["c", "b", "a"]);
    let sorted = |given: &Vec<String>| -> Vec<String> {
        name_order(given).into_iter().map(|i| given[i].clone()).collect()
    };
    assert_eq!(sorted(&first), sorted(&second));
}

#[test]
fn members_are_found_set_and_merged() {
    let mut fields: Vec<(String, Json)> = Vec::new();
    put(&mut fields, "a", Json::Unsigned(1));
    put_text(&mut fields, "b", &Some("x".to_string()));
    put_text(&mut fields, "c", &None);
    assert_eq!(fields.len(), 2);
    assert_eq!(find(&fields, "b"), Some(&Json::Text("x".to_string())));
    assert_eq!(find(&fields, "c"), None);
    insert(&mut fields, "a".to_string(), Json::Null);
    assert_eq!(find(&fields, "a"), Some(&Json::Null));
    merge(
        &mut fields,
        vec![
            ("d".to_string(), Json::Bool(true)),
            ("b".to_string(), Json::Unsigned(2)),
        ],
    );
    let order: Vec<&str> = fields.iter().map(|(name, _)| name.as_str()).collect();
    assert_eq!(order, vec!["a", "b", "d"]);
    assert_eq!(find(&fields, "b"), Some(&Json::Unsigned(2)));
}
