use simple_tables::Table;
use simple_tables::TableRow as TableRowTrait;

#[derive(Clone)]
struct TableRow {
    id: u32,
    name: String,
}

impl TableRowTrait for TableRow {
    fn get_fields() -> Vec<&'static str> {
        vec!["id", "name"]
    }

    fn get_field_types() -> Vec<&'static str> {
        vec!["u32", "String"]
    }

    fn get_field_str(&self) -> Vec<String> {
        vec![self.id.to_string(), self.name.clone()]
    }

    fn clone_row(&self) -> Self {
        self.clone()
    }
}

struct MyTable {
    rows: Vec<TableRow>,
}

impl Table<TableRow> for MyTable {
    fn new() -> Self {
        MyTable { rows: Vec::new() }
    }

    fn from_vec(vec: &Vec<TableRow>) -> Self {
        MyTable { rows: vec.clone() }
    }

    fn get_rows(&self) -> &Vec<TableRow> {
        &self.rows
    }

    fn get_rows_mut(&mut self) -> &mut Vec<TableRow> {
        &mut self.rows
    }
}

#[test]
fn get_column() {
    let vec: Vec<TableRow> = vec![
        TableRow { id: 1, name: String::from("A") },
        TableRow { id: 2, name: String::from("B") },
    ];
    let table = MyTable::from_vec(&vec);

    let ids: Vec<u32> = table.get_column(|row| row.id);
    assert_eq!(vec![1, 2], ids);
}

#[test]
fn get_column_sizes() {
    let vec: Vec<TableRow> = vec![
        TableRow { id: 1000, name: String::from("Abc") },
        TableRow { id: 2, name: String::from("Bd") },
    ];
    let table = MyTable::from_vec(&vec);

    assert_eq!(3, table.get_column_size(|row| row.name.clone()).unwrap());
    assert_eq!(4, table.get_column_size(|row| row.id.to_string()).unwrap());
}

#[test]
fn table_to_string() {
    let vec: Vec<TableRow> = vec![
        TableRow { id: 1000, name: String::from("Abc") },
        TableRow { id: 2, name: String::from("Bd") },
    ];
    let table: MyTable = MyTable::from_vec(&vec);

    let ascii_table = "\
+------+------+
| id   | name |
+======+======+
| 1000 | Abc  |
+------+------+
| 2    | Bd   |
+------+------+";
    assert_eq!(ascii_table, table.to_string())
}
