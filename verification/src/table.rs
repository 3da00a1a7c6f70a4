//! The generic table container and identifier-based lookup.

use crate::error::{TableError, TableErrorKind};
use crate::render::spec_render;
use crate::row::TableRow;
use vstd::prelude::*;
use vstd::std_specs::cmp::PartialEqSpec;
use vstd::string::{StrSliceExecFns, StringExecFns};

verus! {

/// The character length of the string form of one projected value; the
/// measure every column width is built from.
pub fn get_size(var: &str) -> (n: usize)
    ensures
        n == var@.len(),
{
    var.unicode_len()
}

/// The string projections of a sequence of rows, one row per entry.
pub open spec fn rows_strings<Row: TableRow>(rows: Seq<Row>) -> Seq<Seq<Seq<char>>> {
    Seq::new(rows.len(), |i: int| rows[i].spec_field_str())
}

/// A table should conform to this trait. `Row` is the table's row type.
///
/// A table owns an ordered sequence of rows; insertion order is the
/// table's row order, and every operation preserves the order of the rows
/// it does not touch. The trait's provided methods are all built on the
/// one abstraction `spec_rows`, the mathematical sequence of the table's
/// rows that the four storage accessors expose.
pub trait Table<Row: TableRow>: Sized {
    /// The rows of the table, in table order: the mathematical content
    /// that the storage accessors expose and every operation is held to.
    /// A table type that wants its operations verified overrides this;
    /// its default value is arbitrary, so nothing can be proved about a
    /// table type that keeps it.
    open spec fn spec_rows(&self) -> Seq<Row> {
        arbitrary()
    }

    /// Creates a new empty `Table`.
    fn new() -> (t: Self)
        ensures
            t.spec_rows() == Seq::<Row>::empty(),
    ;

    /// Creates a new `Table` with an initial value for the rows, copied
    /// from the borrowed vector in order.
    fn from_vec(vec: &Vec<Row>) -> (t: Self)
        ensures
            t.spec_rows() == vec@,
    ;

    /// Returns an immutable reference to the rows of this table.
    fn get_rows(&self) -> (rows: &Vec<Row>)
        ensures
            rows@ == self.spec_rows(),
    ;

    /// Returns a mutable reference to the rows of this table.
    fn get_rows_mut(&mut self) -> (rows: &mut Vec<Row>)
        ensures
            (*rows)@ == old(self).spec_rows(),
            final(self).spec_rows() == (*final(rows))@,
    ;

    /// Pushes a new row to the end of the table. Every prior row keeps
    /// its index; the new row stands last.
    fn push(&mut self, row: Row)
        ensures
            final(self).spec_rows() == old(self).spec_rows().push(row),
            final(self).spec_rows().len() == old(self).spec_rows().len() + 1,
            final(self).spec_rows().last() == row,
            forall|i: int|
                0 <= i < old(self).spec_rows().len() ==> final(self).spec_rows()[i] == old(
                    self,
                ).spec_rows()[i],
    {
        let rows = self.get_rows_mut();
        rows.push(row);
    }

    /// Inserts a new row at the top of the table (element 0). Every
    /// previously existing row's index grows by exactly one.
    fn insert_top(&mut self, row: Row)
        ensures
            final(self).spec_rows() == old(self).spec_rows().insert(0, row),
            final(self).spec_rows().len() == old(self).spec_rows().len() + 1,
            final(self).spec_rows()[0] == row,
            forall|i: int|
                0 <= i < old(self).spec_rows().len() ==> final(self).spec_rows()[i + 1] == old(
                    self,
                ).spec_rows()[i],
    {
        let rows = self.get_rows_mut();
        rows.insert(0, row);
    }

    /// Inserts a new row at index `i`, shifting the rows from `i` on down
    /// by one. Fails, leaving the table untouched, when `i` is past the
    /// end of the table.
    fn insert(&mut self, i: usize, row: Row) -> (result: Result<(), TableError>)
        ensures
            i <= old(self).spec_rows().len() ==> (result is Ok && final(self).spec_rows()
                == old(self).spec_rows().insert(i as int, row)),
            i > old(self).spec_rows().len() ==> (result matches Err(e) && e.kind
                == TableErrorKind::CouldNotRemove && final(self).spec_rows() == old(
                self,
            ).spec_rows()),
    {
        if i <= self.row_count() {
            let rows = self.get_rows_mut();
            rows.insert(i, row);
            Ok(())
        } else {
            Err(
                TableError {
                    kind: TableErrorKind::CouldNotRemove,
                    message: String::from_str("could not insert row: index out of range"),
                },
            )
        }
    }

    /// Removes and returns the row at index `i`, shifting every later row
    /// up by one to fill the gap. Fails, leaving the table untouched,
    /// when `i` addresses no row.
    fn rm_row_at(&mut self, i: usize) -> (result: Result<Row, TableError>)
        ensures
            i < old(self).spec_rows().len() ==> (result matches Ok(row) && row == old(
                self,
            ).spec_rows()[i as int] && final(self).spec_rows() == old(self).spec_rows().remove(
                i as int,
            )),
            i < old(self).spec_rows().len() ==> final(self).spec_rows().len() == old(
                self,
            ).spec_rows().len() - 1,
            i < old(self).spec_rows().len() ==> forall|j: int|
                0 <= j < i ==> final(self).spec_rows()[j] == old(self).spec_rows()[j],
            i < old(self).spec_rows().len() ==> forall|j: int|
                i <= j < final(self).spec_rows().len() ==> final(self).spec_rows()[j] == old(
                    self,
                ).spec_rows()[j + 1],
            i >= old(self).spec_rows().len() ==> (result matches Err(e) && e.kind
                == TableErrorKind::CouldNotRemove && final(self).spec_rows() == old(
                self,
            ).spec_rows()),
    {
        if i < self.row_count() {
            let rows = self.get_rows_mut();
            let row = rows.remove(i);
            Ok(row)
        } else {
            Err(
                TableError {
                    kind: TableErrorKind::CouldNotRemove,
                    message: String::from_str("could not remove row: index out of range"),
                },
            )
        }
    }

    /// Returns the row at the index, or nothing when the index is past
    /// the end of the table.
    fn get_row_at(&self, i: usize) -> (result: Option<&Row>)
        ensures
            i < self.spec_rows().len() ==> (result matches Some(row) && *row
                == self.spec_rows()[i as int]),
            i >= self.spec_rows().len() ==> result is None,
    {
        let rows = self.get_rows();
        if i < rows.len() {
            Some(&rows[i])
        } else {
            None
        }
    }

    /// Returns the column built by applying `column` to every row in
    /// order; the result holds exactly one projected value per row.
    fn get_column<ColumnType, F: Fn(&Row) -> ColumnType>(&self, column: F) -> (columns: Vec<
        ColumnType,
    >)
        requires
            forall|i: int|
                0 <= i < self.spec_rows().len() ==> call_requires(
                    column,
                    (&self.spec_rows()[i],),
                ),
        ensures
            columns@.len() == self.spec_rows().len(),
            forall|i: int|
                0 <= i < self.spec_rows().len() ==> call_ensures(
                    column,
                    (&self.spec_rows()[i],),
                    #[trigger] columns@[i],
                ),
    {
        let rows = self.get_rows();
        let mut columns: Vec<ColumnType> = Vec::new();
        let mut j: usize = 0;
        while j < rows.len()
            invariant
                j <= rows@.len(),
                rows@ == self.spec_rows(),
                forall|i: int|
                    0 <= i < self.spec_rows().len() ==> call_requires(
                        column,
                        (&self.spec_rows()[i],),
                    ),
                columns@.len() == j,
                forall|i: int|
                    0 <= i < j ==> call_ensures(
                        column,
                        (&self.spec_rows()[i],),
                        #[trigger] columns@[i],
                    ),
            decreases rows@.len() - j,
        {
            columns.push(column(&rows[j]));
            j += 1;
        }
        columns
    }

    /// Gets the column size of a specific column: the character length of
    /// the widest string the projection produces over all rows, or
    /// nothing when the table has no rows. Requires that the column can
    /// be converted to a `String`.
    fn get_column_size<F: Fn(&Row) -> String>(&self, column: F) -> (result: Option<usize>)
        requires
            forall|i: int|
                0 <= i < self.spec_rows().len() ==> call_requires(
                    column,
                    (&self.spec_rows()[i],),
                ),
        ensures
            (result is None) <==> self.spec_rows().len() == 0,
            result matches Some(m) ==> exists|outs: Seq<String>|
                {
                    &&& #[trigger] outs.len() == self.spec_rows().len()
                    &&& (forall|i: int|
                        0 <= i < outs.len() ==> call_ensures(
                            column,
                            (&self.spec_rows()[i],),
                            #[trigger] outs[i],
                        ))
                    &&& m as nat == crate::render::max_width(crate::render::str_views(outs))
                },
    {
        let rows = self.get_rows();
        if rows.len() == 0 {
            return None;
        }
        let ghost gouts: Seq<String> = Seq::empty();
        let mut sizes: Vec<usize> = Vec::new();
        let mut j: usize = 0;
        while j < rows.len()
            invariant
                j <= rows@.len(),
                rows@ == self.spec_rows(),
                forall|i: int|
                    0 <= i < self.spec_rows().len() ==> call_requires(
                        column,
                        (&self.spec_rows()[i],),
                    ),
                gouts.len() == j,
                forall|i: int|
                    0 <= i < j ==> call_ensures(
                        column,
                        (&self.spec_rows()[i],),
                        #[trigger] gouts[i],
                    ),
                sizes@.len() == j,
                forall|i: int| 0 <= i < j ==> sizes@[i] as nat == (#[trigger] gouts[i])@.len(),
            decreases rows@.len() - j,
        {
            let col = column(&rows[j]);
            let size = get_size(col.as_str());
            sizes.push(size);
            proof {
                gouts = gouts.push(col);
            }
            j += 1;
        }
        let mut max: usize = 0;
        let mut k: usize = 0;
        while k < sizes.len()
            invariant
                k <= sizes@.len(),
                gouts.len() == sizes@.len(),
                forall|i: int| 0 <= i < sizes@.len() ==> sizes@[i] as nat == (
                #[trigger] gouts[i])@.len(),
                max as nat == crate::render::max_width(
                    crate::render::str_views(gouts.take(k as int)),
                ),
            decreases sizes@.len() - k,
        {
            if sizes[k] > max {
                max = sizes[k];
            }
            proof {
                let vs = crate::render::str_views(gouts);
                let prefix = crate::render::str_views(gouts.take(k + 1));
                assert(prefix.drop_last() =~= crate::render::str_views(gouts.take(k as int)));
                assert(prefix.last() == gouts[k as int]@);
            }
            k += 1;
        }
        proof {
            assert(gouts.take(gouts.len() as int) =~= gouts);
        }
        Some(max)
    }

    /// The number of columns of this table: the row type's field count.
    fn column_count(&self) -> (n: usize)
        ensures
            n == Row::spec_fields().len(),
    {
        Row::field_count()
    }

    /// The number of rows of this table.
    fn row_count(&self) -> (n: usize)
        ensures
            n == self.spec_rows().len(),
    {
        self.get_rows().len()
    }

    /// Renders the table as a fixed-width ASCII text table, built from
    /// the row type's field names and every row's string projection.
    fn to_string(&self) -> (s: String)
        ensures
            s@ == spec_render(Row::spec_fields(), rows_strings(self.spec_rows())),
    {
        let field_names = Row::get_fields();
        let mut fields: Vec<String> = Vec::new();
        let mut c: usize = 0;
        while c < field_names.len()
            invariant
                c <= field_names@.len(),
                field_names.deep_view() == Row::spec_fields(),
                fields@.len() == c,
                forall|i: int| 0 <= i < c ==> (#[trigger] fields@[i])@ == Row::spec_fields()[i],
            decreases field_names@.len() - c,
        {
            fields.push(String::from_str(field_names[c]));
            c += 1;
        }
        let rows = self.get_rows();
        let mut cells: Vec<Vec<String>> = Vec::new();
        let mut r: usize = 0;
        while r < rows.len()
            invariant
                r <= rows@.len(),
                rows@ == self.spec_rows(),
                cells@.len() == r,
                forall|i: int| 0 <= i < r ==> (#[trigger] cells@[i]).deep_view() == rows@[i].spec_field_str(),
                forall|i: int| 0 <= i < r ==> (#[trigger] cells@[i])@.len() == Row::spec_fields().len(),
            decreases rows@.len() - r,
        {
            let row_strs = rows[r].get_field_str();
            proof {
                assert(row_strs@.len() == row_strs.deep_view().len());
            }
            cells.push(row_strs);
            r += 1;
        }
        proof {
            assert(fields.deep_view() =~= Row::spec_fields());
            assert(fields@.len() == fields.deep_view().len());
            assert(cells.deep_view() =~= rows_strings(self.spec_rows()));
        }
        crate::render::render_table(&fields, &cells)
    }
}

/// Defines a table with a unique identifier. This trait should be
/// implemented alongside the [`Table`] trait.
///
/// The implementer supplies the extraction of a row's identifier; lookup
/// is a linear scan in row order that returns the first row whose
/// identifier equals the one asked for. The extraction is expected to be
/// injective over the table's rows; with duplicate identifiers, lookup
/// simply returns the first match. The scan costs one comparison per row:
/// a deliberate limitation, since no index could cheaply survive the free
/// mutation of the rows.
pub trait IdTable<UidType: PartialEq, Row: TableRow>: Table<Row> {
    /// The identifier of a row, the value the executable extraction
    /// returns. Overridden alongside `get_id_from_row`; its default
    /// value is arbitrary.
    open spec fn spec_id(row: Row) -> UidType {
        arbitrary()
    }

    /// Gets the uid from a row; implemented by the concrete table for
    /// its row type.
    fn get_id_from_row(row: &Row) -> (uid: UidType)
        ensures
            uid == Self::spec_id(*row),
    ;

    /// Returns the first row in table order whose identifier equals
    /// `uid`, or nothing when no row matches.
    fn get_row(&self, uid: UidType) -> (result: Option<&Row>)
        ensures
            UidType::obeys_eq_spec() ==> (match result {
                Option::Some(row) => exists|i: int|
                    {
                        &&& 0 <= i < self.spec_rows().len()
                        &&& *row == self.spec_rows()[i]
                        &&& Self::spec_id(#[trigger] self.spec_rows()[i]).eq_spec(&uid)
                        &&& forall|j: int|
                            0 <= j < i ==> !Self::spec_id(
                                #[trigger] self.spec_rows()[j],
                            ).eq_spec(&uid)
                    },
                Option::None => forall|i: int|
                    0 <= i < self.spec_rows().len() ==> !Self::spec_id(
                        #[trigger] self.spec_rows()[i],
                    ).eq_spec(&uid),
            }),
    {
        let rows = self.get_rows();
        let mut j: usize = 0;
        while j < rows.len()
            invariant
                j <= rows@.len(),
                rows@ == self.spec_rows(),
                UidType::obeys_eq_spec() ==> forall|i: int|
                    0 <= i < j ==> !Self::spec_id(#[trigger] self.spec_rows()[i]).eq_spec(&uid),
            decreases rows@.len() - j,
        {
            let row = &rows[j];
            if Self::get_id_from_row(row) == uid {
                return Some(row);
            }
            j += 1;
        }
        None
    }

    /// Returns mutable access to the first row in table order whose
    /// identifier equals `uid`, or nothing, leaving the table unchanged,
    /// when no row matches.
    fn get_row_mut(&mut self, uid: UidType) -> (result: Option<&mut Row>)
        ensures
            result is None ==> final(self).spec_rows() == old(self).spec_rows(),
            result is None && UidType::obeys_eq_spec() ==> forall|i: int|
                0 <= i < old(self).spec_rows().len() ==> !Self::spec_id(
                    #[trigger] old(self).spec_rows()[i],
                ).eq_spec(&uid),
            result is Some ==> exists|i: int|
                {
                    &&& 0 <= i < old(self).spec_rows().len()
                    &&& *result.unwrap() == old(self).spec_rows()[i]
                    &&& final(self).spec_rows() == old(self).spec_rows().update(
                        i,
                        *final(result.unwrap()),
                    )
                    &&& (UidType::obeys_eq_spec() ==> Self::spec_id(
                        #[trigger] old(self).spec_rows()[i],
                    ).eq_spec(&uid) && forall|j: int|
                        0 <= j < i ==> !Self::spec_id(
                            #[trigger] old(self).spec_rows()[j],
                        ).eq_spec(&uid))
                },
    {
        let n = self.row_count();
        let mut j: usize = 0;
        while j < n
            invariant
                j <= n,
                n == old(self).spec_rows().len(),
                *self == *old(self),
                UidType::obeys_eq_spec() ==> forall|i: int|
                    0 <= i < j ==> !Self::spec_id(#[trigger] self.spec_rows()[i]).eq_spec(&uid),
            decreases n - j,
        {
            let matched = {
                let rows = self.get_rows();
                Self::get_id_from_row(&rows[j]) == uid
            };
            if matched {
                let rows = self.get_rows_mut();
                return Some(&mut rows[j]);
            }
            j += 1;
        }
        None
    }
}

/// Identifier lookup finds the row it was asked for: when the identifier
/// extraction is injective over the table's rows and equality on
/// identifiers is plain value equality, any row satisfying the
/// first-match characterization of [`IdTable::get_row`] for the
/// identifier of the row at `k` is that row itself.
pub proof fn lemma_id_lookup_finds_row<
    UidType: PartialEq,
    Row: TableRow,
    T: IdTable<UidType, Row>,
>(rows: Seq<Row>, uid: UidType, k: int, i: int, row: Row)
    requires
        vstd::laws_eq::obeys_concrete_eq::<UidType>(),
        forall|p: int, q: int|
            0 <= p < rows.len() && 0 <= q < rows.len() && p != q ==> T::spec_id(
                #[trigger] rows[p],
            ) != T::spec_id(#[trigger] rows[q]),
        0 <= k < rows.len(),
        uid == T::spec_id(rows[k]),
        0 <= i < rows.len(),
        row == rows[i],
        T::spec_id(rows[i]).eq_spec(&uid),
    ensures
        i == k,
        row == rows[k],
{
    reveal(vstd::laws_eq::obeys_concrete_eq);
    assert(T::spec_id(rows[i]) == uid);
}

/// Identifier lookup for an absent identifier truly has nothing to find:
/// when equality on identifiers is plain value equality and no row
/// matches the identifier under the spec-level comparison (the case in
/// which [`IdTable::get_row`] returns nothing), no row's identifier is
/// that value.
pub proof fn lemma_id_lookup_absent<UidType: PartialEq, Row: TableRow, T: IdTable<UidType, Row>>(
    rows: Seq<Row>,
    uid: UidType,
)
    requires
        vstd::laws_eq::obeys_concrete_eq::<UidType>(),
        forall|i: int|
            0 <= i < rows.len() ==> !T::spec_id(#[trigger] rows[i]).eq_spec(&uid),
    ensures
        forall|i: int| 0 <= i < rows.len() ==> T::spec_id(#[trigger] rows[i]) != uid,
{
    reveal(vstd::laws_eq::obeys_concrete_eq);
}

/// A table backed by a plain owned vector of rows: the storage shape a
/// concrete table declaration provides for its row type.
pub struct VecTable<Row: TableRow> {
    rows: Vec<Row>,
}

impl<Row: TableRow> Table<Row> for VecTable<Row> {
    closed spec fn spec_rows(&self) -> Seq<Row> {
        self.rows@
    }

    fn new() -> (t: Self) {
        VecTable { rows: Vec::new() }
    }

    fn from_vec(vec: &Vec<Row>) -> (t: Self) {
        let mut rows: Vec<Row> = Vec::new();
        let mut i: usize = 0;
        while i < vec.len()
            invariant
                i <= vec@.len(),
                rows@.len() == i,
                forall|j: int| 0 <= j < i ==> rows@[j] == vec@[j],
            decreases vec@.len() - i,
        {
            rows.push(vec[i].clone_row());
            i += 1;
        }
        proof {
            assert(rows@ =~= vec@);
        }
        VecTable { rows }
    }

    fn get_rows(&self) -> (rows: &Vec<Row>) {
        &self.rows
    }

    fn get_rows_mut(&mut self) -> (rows: &mut Vec<Row>) {
        &mut self.rows
    }
}

} // verus!
