use cca_club_hub::catalog::{category_ids, category_names, dedup_names, find_id, find_name, Category};

fn catalogue() -> Vec<Category> {
    vec![
        Category { id: 1, category_name: "STEM".to_string() },
        Category { id: 2, category_name: "Arts".to_string() },
        Category { id: 5, category_name: "Sports".to_string() },
    ]
}

fn strings(names: &[&str]) -> Vec<String> {
    names.iter().map(|n| n.to_string()).collect()
}

#[test]
fn names_and_numbers_are_found() {
    assert_eq!(find_id(&catalogue(), &"Arts".to_string()), Some(2));
    assert_eq!(find_id(&catalogue(), &"arts".to_string()), None);
    assert_eq!(find_name(&catalogue(), 5), Some("Sports".to_string()));
    assert_eq!(find_name(&catalogue(), 3), None);
    assert_eq!(find_id(&Vec::new(), &"Arts".to_string()), None);
}

#[test]
fn of_two_rows_the_later_one_counts() {
    let mut all = catalogue();
    all.push(Category { id: 9, category_name: "Arts".to_string() });
    all.push(Category { id: 1, category_name: "Science".to_string() });
    assert_eq!(find_id(&all, &"Arts".to_string()), Some(9));
    assert_eq!(find_name(&all, 1), Some("Science".to_string()));
}

#[test]
fn numbers_are_named_in_order() {
    assert_eq!(category_names(&catalogue(), &vec![5, 1, 5]), Some(strings(&["Sports", "STEM", "Sports"])));
    assert_eq!(category_names(&catalogue(), &Vec::new()), Some(Vec::new()));
}

#[test]
fn unknown_number_names_nothing() {
    assert_eq!(category_names(&catalogue(), &vec![1, 4]), None);
}

#[test]
fn repeated_names_count_once() {
    assert_eq!(dedup_names(strings(&["a", "b", "a", "c", "b", "a"])), strings(&["a", "b", "c"]));
    assert_eq!(dedup_names(Vec::new()), Vec::<String>::new());
    assert_eq!(
        category_ids(&catalogue(), strings(&["Sports", "STEM", "Sports", "Arts", "STEM"])),
        Some(vec![5, 1, 2])
    );
}

#[test]
fn unknown_name_is_refused() {
    assert_eq!(category_ids(&catalogue(), strings(&["STEM", "Chess"])), None);
    assert_eq!(category_ids(&Vec::new(), strings(&["STEM"])), None);
    assert_eq!(category_ids(&Vec::new(), Vec::new()), Some(Vec::new()));
}
