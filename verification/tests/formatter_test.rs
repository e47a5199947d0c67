use table_engine::basic_elements::layout::COLUMN_WIDTH;
use table_engine::basic_elements::{DataType, TData, Table, TableForameter};

fn cell(s: &str) -> String {
    format!(" {:<30}|", s)
}

fn texts(list: &[&str]) -> Vec<String> {
    list.iter().map(|s| s.to_string()).collect()
}

#[test]
fn width_of_a_cell() {
    assert_eq!(COLUMN_WIDTH, 30);
}

#[test]
fn lines_of_a_row() {
    assert_eq!(TableForameter::get_max_column_length(&texts(&[])), 1);
    assert_eq!(TableForameter::get_max_column_length(&texts(&[""])), 1);
    assert_eq!(TableForameter::get_max_column_length(&texts(&["a", "bb"])), 1);
    assert_eq!(TableForameter::get_max_column_length(&texts(&[&"x".repeat(30)])), 1);
    assert_eq!(TableForameter::get_max_column_length(&texts(&[&"x".repeat(31)])), 2);
    assert_eq!(TableForameter::get_max_column_length(&texts(&[&"x".repeat(40), "a"])), 2);
    assert_eq!(TableForameter::get_max_column_length(&texts(&[&"x".repeat(60)])), 2);
    assert_eq!(TableForameter::get_max_column_length(&texts(&["a", &"x".repeat(61), "b"])), 3);
    assert_eq!(TableForameter::get_max_column_length(&texts(&[&"é".repeat(30)])), 1);
}

#[test]
fn row_of_short_cells() {
    assert_eq!(TableForameter::build_row(&texts(&[])), "");
    assert_eq!(TableForameter::build_row(&texts(&["Name", "Age"])), cell("Name") + &cell("Age"));
    assert_eq!(TableForameter::build_row(&texts(&[""])), cell(""));
    let full = "x".repeat(30);
    assert_eq!(TableForameter::build_row(&texts(&[&full])), format!(" {}|", full));
}

#[test]
fn long_cell_wraps() {
    let long: String = "0123456789".repeat(4);
    let row = TableForameter::build_row(&texts(&[&long, "b"]));
    let lines: Vec<&str> = row.split('\n').collect();
    assert_eq!(lines.len(), 2);
    assert_eq!(lines[0], format!(" {}|", &long[0..30]) + &cell("b"));
    assert_eq!(lines[1], cell(&long[30..]) + &cell(""));
    for line in &lines {
        assert_eq!(line.chars().count(), 64);
        for part in line.split('|').filter(|p| !p.is_empty()) {
            assert_eq!(part.chars().count(), 31);
        }
    }
}

#[test]
fn cell_of_three_lines() {
    let long: String = "abcdefghij".repeat(7);
    let row = TableForameter::build_row(&texts(&["k", &long]));
    let lines: Vec<&str> = row.split('\n').collect();
    assert_eq!(lines.len(), 3);
    assert_eq!(lines[0], cell("k") + &format!(" {}|", &long[0..30]));
    assert_eq!(lines[1], cell("") + &format!(" {}|", &long[30..60]));
    assert_eq!(lines[2], cell("") + &cell(&long[60..]));
}

#[test]
fn wrapping_counts_characters() {
    let long: String = "ż".repeat(31);
    let row = TableForameter::build_row(&texts(&[&long]));
    let lines: Vec<&str> = row.split('\n').collect();
    assert_eq!(lines.len(), 2);
    assert_eq!(lines[0], format!(" {}|", "ż".repeat(30)));
    assert_eq!(lines[1], format!(" ż{}|", " ".repeat(29)));
}

#[test]
fn table_as_text() {
    let mut t = Table::new("Users".to_string());
    assert!(t.add("Name".to_string(), DataType::Text, true).is_ok());
    assert!(t.add("Age".to_string(), DataType::Integer, false).is_ok());
    let head = "=".repeat(64);
    let rule = "-".repeat(64);
    let header = cell("Name") + &cell("Age");
    assert_eq!(TableForameter::stringify(&t), format!("{1}\n{0}", head, header));

    assert!(
        t.insert(
            vec!["Name".to_string(), "Age".to_string()],
            vec![TData::Text("Max".to_string()), TData::Integer(35)]
        )
        .is_ok()
    );
    assert!(t.insert(vec!["Name".to_string()], vec![TData::Text("Nick".to_string())]).is_ok());
    let first = cell("\"Max\"") + &cell("35");
    let second = cell("\"Nick\"") + &cell("0");
    assert_eq!(
        TableForameter::stringify(&t),
        format!("{1}\n{0}\n{2}\n{4}\n{3}\n{4}", head, header, first, second, rule)
    );
}

#[test]
fn table_with_a_long_value() {
    let mut t = Table::new("T".to_string());
    assert!(t.add("Address".to_string(), DataType::Text, false).is_ok());
    let long = "NY Grow Stree t 12|123 'A' United State of America";
    assert!(t.insert(vec!["Address".to_string()], vec![TData::Text(long.to_string())]).is_ok());
    let shown = format!("\"{}\"", long);
    let expected = format!(
        "{1}\n{0}\n {2}|\n{3}\n{4}",
        "=".repeat(32),
        cell("Address"),
        &shown[0..30],
        cell(&shown[30..]),
        "-".repeat(32)
    );
    assert_eq!(TableForameter::stringify(&t), expected);
}

#[test]
fn table_without_columns() {
    let mut t = Table::new("T".to_string());
    assert_eq!(TableForameter::stringify(&t), "\n");
    assert!(t.insert(vec![], vec![]).is_ok());
    assert_eq!(TableForameter::stringify(&t), "\n\n\n");
}

#[test]
fn row_that_lacks_a_column_shows_null() {
    let mut t = Table::new("T".to_string());
    assert!(t.add("A".to_string(), DataType::Integer, false).is_ok());
    assert!(t.insert(vec!["A".to_string()], vec![TData::Integer(1)]).is_ok());
    assert!(t.add("B".to_string(), DataType::Integer, false).is_ok());
    let expected = format!(
        "{1}\n{0}\n{2}\n{3}",
        "=".repeat(64),
        cell("A") + &cell("B"),
        cell("1") + &cell("null"),
        "-".repeat(64)
    );
    assert_eq!(TableForameter::stringify(&t), expected);
}

#[test]
fn text_starts_with_the_names_and_ends_with_a_rule() {
    let mut t = Table::new("Users".to_string());
    assert!(t.add("Name".to_string(), DataType::Text, true).is_ok());
    assert!(t.add("Age".to_string(), DataType::Integer, false).is_ok());
    assert!(t.add("Town".to_string(), DataType::Text, false).is_ok());
    for n in ["Max", "Nick", "Alice"] {
        assert!(t.insert(vec!["Name".to_string()], vec![TData::Text(n.to_string())]).is_ok());
    }
    let shown = TableForameter::stringify(&t);
    let lines: Vec<&str> = shown.split('\n').collect();
    assert_eq!(lines.len(), 8);
    assert_eq!(lines[0], cell("Name") + &cell("Age") + &cell("Town"));
    assert_eq!(lines[1], "=".repeat(96));
    assert_eq!(lines[2], cell("\"Max\"") + &cell("0") + &cell("\"0\""));
    assert_eq!(lines[3], "-".repeat(96));
    assert_eq!(lines[5], "-".repeat(96));
    assert_eq!(lines[6], cell("\"Alice\"") + &cell("0") + &cell("\"0\""));
    assert_eq!(lines[7], "-".repeat(96));
    assert_eq!(shown.chars().count(), 8 * 96 + 7);
}
