use simple_tables::IdTable;
use simple_tables::Table;
use simple_tables::TableRow as TableRowTrait;

#[derive(Debug, Clone)]
struct TableRow {
    id: i32,
    name: String,
}

impl TableRowTrait for TableRow {
    fn get_fields() -> Vec<&'static str> {
        vec!["id", "name"]
    }

    fn get_field_types() -> Vec<&'static str> {
        vec!["i32", "String"]
    }

    fn get_field_str(&self) -> Vec<String> {
        vec![self.id.to_string(), self.name.clone()]
    }

    fn clone_row(&self) -> Self {
        self.clone()
    }
}

impl PartialEq<Self> for TableRow {
    fn eq(&self, other: &Self) -> bool {
        self.id == other.id && self.name == other.name
    }
}

struct ATable {
    rows: Vec<TableRow>,
}

impl Table<TableRow> for ATable {
    fn new() -> Self {
        ATable { rows: Vec::new() }
    }

    fn from_vec(vec: &Vec<TableRow>) -> Self {
        ATable { rows: vec.clone() }
    }

    fn get_rows(&self) -> &Vec<TableRow> {
        &self.rows
    }

    fn get_rows_mut(&mut self) -> &mut Vec<TableRow> {
        &mut self.rows
    }
}

impl IdTable<i32, TableRow> for ATable {
    fn get_id_from_row(row: &TableRow) -> i32 {
        row.id
    }
}

#[derive(Debug)]
struct MyTable {
    rows: Vec<TableRow>,
}

impl Table<TableRow> for MyTable {
    fn new() -> Self {
        MyTable { rows: Vec::new() }
    }

    fn from_vec(vec: &Vec<TableRow>) -> Self {
        MyTable { rows: vec.clone() }
    }

    fn get_rows(&self) -> &Vec<TableRow> {
        &self.rows
    }

    fn get_rows_mut(&mut self) -> &mut Vec<TableRow> {
        &mut self.rows
    }
}

impl IdTable<i32, TableRow> for MyTable {
    fn get_id_from_row(row: &TableRow) -> i32 {
        row.id
    }
}

impl PartialEq for MyTable {
    fn eq(&self, other: &Self) -> bool {
        let results: Vec<bool> = self
            .rows
            .iter()
            .enumerate()
            .map(|(i, row)| {
                return other.get_row_at(i).unwrap() == row;
            })
            .collect();
        return if results.contains(&false) { false } else { true };
    }
}

#[test]
fn new_is_empty() {
    assert!(ATable::new().get_rows().is_empty());
}

#[test]
fn from_vec() {
    let vec: Vec<TableRow> = vec![
        TableRow { id: 1, name: String::from("Jomy") },
        TableRow { id: 2, name: String::from("David") },
    ];
    let table = ATable::from_vec(&vec);

    assert_eq!(&vec, table.get_rows())
}

#[test]
fn push_row() {
    let mut vec: Vec<TableRow> = vec![
        TableRow { id: 1, name: String::from("Jomy") },
        TableRow { id: 2, name: String::from("David") },
    ];
    let mut table = ATable::from_vec(&vec);

    let row_to_add = TableRow { id: 3, name: String::from("Richard Wright") };
    vec.push(row_to_add.clone());
    table.push(row_to_add.clone());

    assert_eq!(&vec, table.get_rows());
    assert!(table.get_rows().contains(&row_to_add))
}

#[test]
fn insert_top() {
    let mut vec: Vec<TableRow> = vec![
        TableRow { id: 1, name: String::from("Jomy") },
        TableRow { id: 2, name: String::from("David") },
    ];
    let mut table = ATable::from_vec(&vec);

    let row_to_add = TableRow { id: 3, name: String::from("Richard Wright") };
    vec.insert(0, row_to_add.clone());
    table.insert_top(row_to_add.clone());

    assert_eq!(&vec, table.get_rows());
    assert!(table.get_rows().contains(&row_to_add))
}

#[test]
fn insert() {
    let mut vec: Vec<TableRow> = vec![
        TableRow { id: 1, name: String::from("Jomy") },
        TableRow { id: 2, name: String::from("David") },
    ];
    let mut table = ATable::from_vec(&vec);

    let row_to_add = TableRow { id: 3, name: String::from("Richard Wright") };
    vec.insert(1, row_to_add.clone());
    table.insert(1, row_to_add.clone()).unwrap();

    assert_eq!(&vec, table.get_rows());
    assert!(table.get_rows().contains(&row_to_add));
}

#[test]
fn rm_row_at() {
    let vec: Vec<TableRow> = vec![
        TableRow { id: 0, name: "Ritchie Blackmore".to_string() },
        TableRow { id: 1, name: "The Rolling Stones".to_string() },
    ];
    let rm_should_be = TableRow { id: 0, name: "Ritchie Blackmore".to_string() };
    let left = vec![TableRow { id: 1, name: "The Rolling Stones".to_string() }];

    let mut table: MyTable = MyTable::from_vec(&vec);
    let left_in_table = MyTable::from_vec(&left);
    let removed_row = table.rm_row_at(0).unwrap();

    assert_eq!(removed_row, rm_should_be);
    assert_eq!(table, left_in_table)
}

#[test]
fn get_row() {
    let vec = vec![
        TableRow { id: 1, name: String::from("J") },
        TableRow { id: 2, name: String::from("T") },
        TableRow { id: 3, name: String::from("A") },
    ];
    let table = ATable::from_vec(&vec);
    assert_eq!(vec[1], table.get_row(2).unwrap().clone());
}

#[test]
fn get_row_mut() {
    let vec = vec![
        TableRow { id: 1, name: String::from("J") },
        TableRow { id: 2, name: String::from("T") },
        TableRow { id: 3, name: String::from("A") },
    ];
    let table = ATable::from_vec(&vec);
    let mut table2: ATable = ATable::from_vec(&vec);
    assert_eq!(table2.get_row_mut(2).unwrap().clone(), table.get_row(2).unwrap().clone());
}

#[test]
fn get_row_mut_can_edit() {
    let vec = vec![
        TableRow { id: 1, name: String::from("J") },
        TableRow { id: 2, name: String::from("T") },
        TableRow { id: 3, name: String::from("A") },
    ];
    let vec_unedited = vec![
        TableRow { id: 1, name: String::from("J") },
        TableRow { id: 2, name: String::from("T") },
        TableRow { id: 3, name: String::from("B") },
    ];
    let table = ATable::from_vec(&vec);
    let mut table2: ATable = ATable::from_vec(&vec_unedited);
    let row = table2.get_row_mut(3).unwrap();
    row.name = "A".to_string();
    assert_eq!(table2.get_rows(), table.get_rows());
}

#[test]
fn rm_row() {
    let vec: Vec<TableRow> = vec![
        TableRow { id: 0, name: "Ritchie Blackmore".to_string() },
        TableRow { id: 1, name: "The Rolling Stones".to_string() },
    ];
    let rm_should_be = TableRow { id: 0, name: "Ritchie Blackmore".to_string() };
    let left_vec = vec![TableRow { id: 1, name: "The Rolling Stones".to_string() }];

    let mut table: MyTable = MyTable::from_vec(&vec);
    let removed_row = table.rm_row_at(0).unwrap();

    let table_left: MyTable = MyTable::from_vec(&left_vec);

    assert_eq!(rm_should_be, removed_row);
    assert_eq!(table_left, table)
}
