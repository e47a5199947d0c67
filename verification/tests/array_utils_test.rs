use table_engine::array_utils::Array_Utils;

#[test]
fn index_of_finds_the_first_place() {
    let v = vec![4, 7, 9, 7];
    assert_eq!(Array_Utils::index_of(&v, &7), 1);
    assert_eq!(Array_Utils::index_of(&v, &4), 0);
    assert_eq!(Array_Utils::index_of(&v, &5), -1);
    let none: Vec<i32> = Vec::new();
    assert_eq!(Array_Utils::index_of(&none, &5), -1);
}

#[test]
fn get_difference_keeps_what_the_first_lacks() {
    let a = vec![1, 2, 3];
    let b = vec![3, 4, 1, 5, 4];
    assert_eq!(Array_Utils::get_difference(&a, &b), vec![4, 5, 4]);
    assert_eq!(Array_Utils::get_difference(&b, &a), vec![2]);
    let none: Vec<i32> = Vec::new();
    assert_eq!(Array_Utils::get_difference(&none, &a), vec![1, 2, 3]);
    assert_eq!(Array_Utils::get_difference(&a, &none), none);
}

#[test]
fn filter_keeps_order() {
    let v = vec![5, 2, 8, 1, 9];
    assert_eq!(Array_Utils::filter(&v, &|x: &&i32| **x > 4), vec![5, 8, 9]);
    assert_eq!(Array_Utils::filter(&v, &|_x: &&i32| true), v);
    assert_eq!(Array_Utils::filter(&v, &|_x: &&i32| false), Vec::<i32>::new());
}

#[test]
fn map_applies_to_each() {
    let v = vec![1, 2, 3];
    assert_eq!(Array_Utils::map(&v, &|x: i32| x * 2), vec![2, 4, 6]);
    assert_eq!(
        Array_Utils::map(&v, &|x: i32| format!("<{}>", x)),
        vec!["<1>".to_string(), "<2>".to_string(), "<3>".to_string()]
    );
    let none: Vec<i32> = Vec::new();
    assert_eq!(Array_Utils::map(&none, &|x: i32| x), none);
}

#[test]
fn max_gives_the_last_item() {
    assert_eq!(Array_Utils::max(&vec![1, 5, 9]), 9);
    assert_eq!(Array_Utils::max(&vec![9, 5, 1]), 1);
    assert_eq!(Array_Utils::max(&vec![7]), 7);
}
