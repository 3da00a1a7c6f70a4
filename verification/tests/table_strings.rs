use simple_tables::Table;
use simple_tables::TableRow as TableRowTrait;

#[derive(Clone)]
struct TableRow {
    id: u64,
    name: String,
    email: String,
}

impl TableRowTrait for TableRow {
    fn get_fields() -> Vec<&'static str> {
        vec!["id", "name", "email"]
    }

    fn get_field_types() -> Vec<&'static str> {
        vec!["u64", "String", "String"]
    }

    fn get_field_str(&self) -> Vec<String> {
        vec![self.id.to_string(), self.name.clone(), self.email.clone()]
    }

    fn clone_row(&self) -> Self {
        self.clone()
    }
}

struct MyTable {
    rows: Vec<TableRow>,
}

impl Table<TableRow> for MyTable {
    fn new() -> Self {
        MyTable { rows: Vec::new() }
    }

    fn from_vec(vec: &Vec<TableRow>) -> Self {
        MyTable { rows: vec.clone() }
    }

    fn get_rows(&self) -> &Vec<TableRow> {
        &self.rows
    }

    fn get_rows_mut(&mut self) -> &mut Vec<TableRow> {
        &mut self.rows
    }
}

#[test]
fn to_string2() {
    let vec: Vec<TableRow> = vec![
        TableRow {
            id: 425549252244,
            name: "Nothing But Thieves".to_string(),
            email: "info@nbt.com".to_string(),
        },
        TableRow {
            id: 34459529244554252,
            name: "David Bowie".to_string(),
            email: "info@bowie.com".to_string(),
        },
        TableRow {
            id: 45052024,
            name: "Slipknot".to_string(),
            email: "info@slipknot.com".to_string(),
        },
    ];
    let table: MyTable = MyTable::from_vec(&vec);

    let ascii_table = "\
+-------------------+---------------------+-------------------+
| id                | name                | email             |
+===================+=====================+===================+
| 425549252244      | Nothing But Thieves | info@nbt.com      |
+-------------------+---------------------+-------------------+
| 34459529244554252 | David Bowie         | info@bowie.com    |
+-------------------+---------------------+-------------------+
| 45052024          | Slipknot            | info@slipknot.com |
+-------------------+---------------------+-------------------+";
    assert_eq!(ascii_table, table.to_string())
}
