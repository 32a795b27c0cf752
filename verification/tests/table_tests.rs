use cqlsh_rs::table::layout;
use cqlsh_rs::value::Value;

#[test]
fn empty_result_set_block() {
    let names = vec![String::from("id"), String::from("name")];
    let rows: Vec<Vec<Option<Value>>> = vec![];
    assert_eq!(layout(&names, &rows), "\nEmpty Result Set\n\n");
}

#[test]
fn empty_result_set_block_ignores_columns() {
    let none: Vec<String> = vec![];
    let rows: Vec<Vec<Option<Value>>> = vec![];
    assert_eq!(layout(&none, &rows), "\nEmpty Result Set\n\n");
    let many = vec![
        String::from("a"),
        String::from("b"),
        String::from("c"),
        String::from("a_very_long_column_name"),
    ];
    assert_eq!(layout(&many, &rows), "\nEmpty Result Set\n\n");
}

#[test]
fn two_by_two_exact_padding() {
    // `id` is wider than its cells, so the header sets that column's
    // width; `alice` is wider than `name`, so the cell sets the other.
    let names = vec![String::from("id"), String::from("name")];
    let rows = vec![
        vec![Some(Value::Int(1)), Some(Value::Text(String::from("alice")))],
        vec![Some(Value::Int(2)), Some(Value::Text(String::from("bo")))],
    ];
    let expected = "\n\
        | id |  name |\n\
        +----+-------+\n\
        |  1 | alice |\n\
        |  2 |    bo |\n\n";
    assert_eq!(layout(&names, &rows), expected);
}

#[test]
fn single_column_single_row() {
    let names = vec![String::from("v")];
    let rows = vec![vec![Some(Value::Text(String::from("x")))]];
    let expected = "\n\
        | v |\n\
        +---+\n\
        | x |\n\n";
    assert_eq!(layout(&names, &rows), expected);
}

#[test]
fn null_cell_renders_and_sets_width() {
    // The `null` literal is four characters wide and widens the `id`
    // column past its two-character name, like any other cell would.
    let names = vec![String::from("id")];
    let rows = vec![vec![None]];
    let expected = "\n\
        |   id |\n\
        +------+\n\
        | null |\n\n";
    assert_eq!(layout(&names, &rows), expected);
}

#[test]
fn unicode_names_and_values_align() {
    let names = vec![String::from("名前"), String::from("id")];
    let rows = vec![
        vec![Some(Value::Text(String::from("値"))), Some(Value::Int(10))],
        vec![Some(Value::Text(String::from("abc"))), Some(Value::Int(7))],
    ];
    let out = layout(&names, &rows);
    let lines: Vec<&str> = out.trim_matches('\n').split('\n').collect();
    assert_eq!(lines.len(), 4);
    let header_chars = lines[0].chars().count();
    for line in &lines {
        assert_eq!(line.chars().count(), header_chars);
    }
    // The name 名前 counts as two characters, so its column is as wide
    // as the three-character cell `abc`, not as the name's byte length.
    let expected = "\n\
        |  名前 | id |\n\
        +-----+----+\n\
        |   値 | 10 |\n\
        | abc |  7 |\n\n";
    assert_eq!(layout(&names, &rows), expected);
}

#[test]
fn nested_value_in_table_cell() {
    let names = vec![String::from("data")];
    let rows = vec![vec![Some(Value::List(vec![Value::Int(1), Value::Int(2)]))]];
    let expected = "\n\
        |       data |\n\
        +------------+\n\
        | {'1', '2'} |\n\n";
    assert_eq!(layout(&names, &rows), expected);
}
