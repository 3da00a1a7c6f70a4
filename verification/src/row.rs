//! The self-describing schema capability that every row type provides.

use vstd::prelude::*;

verus! {

/// A row of a table: a fixed-size record that can describe its own schema.
///
/// The schema is type-level metadata, identical for every instance of the
/// row type: an ordered sequence of field names, a parallel sequence of
/// human-readable type labels, and the field count. Each instance can in
/// addition project every one of its fields to a string, in schema order;
/// the rendering of a table is built from nothing but these projections
/// and the field names.
///
/// The three spec functions are the mathematical schema that the
/// executable methods are held to. A row type that wants its tables
/// verified overrides them; their default values are arbitrary, so
/// nothing can be proved about a row type that keeps them.
pub trait TableRow: Sized {
    /// The field names, in declaration order.
    open spec fn spec_fields() -> Seq<Seq<char>> {
        arbitrary()
    }

    /// The field type labels, parallel to the field names. They are
    /// display metadata only and drive no runtime behaviour.
    open spec fn spec_field_types() -> Seq<Seq<char>> {
        arbitrary()
    }

    /// The string projection of one row: the textual form of every field,
    /// in schema order.
    open spec fn spec_field_str(&self) -> Seq<Seq<char>> {
        arbitrary()
    }

    /// Returns a vector containing the names of the fields.
    fn get_fields() -> (r: Vec<&'static str>)
        ensures
            r.deep_view() == Self::spec_fields(),
    ;

    /// Returns a vector containing the types of the fields, one type
    /// label per field name.
    fn get_field_types() -> (r: Vec<&'static str>)
        ensures
            r.deep_view() == Self::spec_field_types(),
            r@.len() == Self::spec_fields().len(),
    ;

    /// Returns the amount of fields in this struct.
    fn field_count() -> (n: usize)
        ensures
            n == Self::spec_fields().len(),
    {
        let fields = Self::get_fields();
        proof {
            assert(fields.deep_view().len() == fields@.len());
        }
        fields.len()
    }

    /// Projects every field of this row through its string conversion:
    /// exactly one string per field, in schema order.
    fn get_field_str(&self) -> (r: Vec<String>)
        ensures
            r.deep_view() == self.spec_field_str(),
            r@.len() == Self::spec_fields().len(),
    ;

    /// Returns a copy of this row. Rows are plain data records: the copy
    /// equals the original, and a table built from a borrowed vector of
    /// rows holds equal rows.
    fn clone_row(&self) -> (r: Self)
        ensures
            r == *self,
    ;
}

} // verus!
