//! The SELECT, UPDATE and DELETE builders: what a statement selects, in
//! which order, with which joins, filters and limits, and which columns it
//! sets or returns. Filters are of the caller's filter type `F`, turned into
//! SQL when the statement is rendered.

use std::marker::PhantomData;
use vstd::prelude::*;

use crate::orm::{Join, SqlValue};

verus! {

/// The direction of an ORDER BY column.
#[derive(Debug, Clone, Copy, PartialEq, Eq, Structural)]
pub enum Order {
    Asc,
    Desc,
}

/// An ordering of an entity: a column, of the entity's table unless
/// another is named, and its direction.
#[derive(Debug, Clone, Copy)]
pub struct OrderSpec {
    pub table: Option<&'static str>,
    pub column: &'static str,
    pub order: Order,
}

/// A table-qualified column.
#[derive(Debug, Clone, Copy)]
pub struct ColumnRef {
    pub table: &'static str,
    pub column: &'static str,
}

/// A selected column: where it is read from, and the name it is selected
/// as when that differs.
#[derive(Debug, Clone, Copy)]
pub struct SelectColumn {
    pub source: ColumnRef,
    pub alias: Option<&'static str>,
}

/// A table-qualified column (`table.column`).
pub fn table_column(table: &'static str, column: &'static str) -> (res: ColumnRef)
    ensures
        res.table == table,
        res.column == column,
{
    ColumnRef { table, column }
}

/// The table an ordering or filter refers to: the one named, or the
/// entity's own.
pub open spec fn table_or(table: Option<&'static str>, default: &'static str) -> &'static str {
    match table {
        Some(t) => t,
        None => default,
    }
}

/// Where a field of an entity is read from, according to its column specs
/// (field, source table, source column): the last spec naming the field.
pub open spec fn spec_for(specs: Seq<(&'static str, &'static str, &'static str)>, field: Seq<char>) -> Option<
    (&'static str, &'static str),
>
    decreases specs.len(),
{
    if specs.len() == 0 {
        None
    } else if specs.last().0@ == field {
        Some((specs.last().1, specs.last().2))
    } else {
        spec_for(specs.drop_last(), field)
    }
}

/// The column a field is selected as: the source a column spec names, under
/// the field's name, or else the field of the entity's table.
pub open spec fn select_column_spec(
    table: &'static str,
    specs: Seq<(&'static str, &'static str, &'static str)>,
    field: &'static str,
) -> SelectColumn {
    match spec_for(specs, field@) {
        Some((t, c)) => SelectColumn { source: ColumnRef { table: t, column: c }, alias: Some(field) },
        None => SelectColumn { source: ColumnRef { table, column: field }, alias: None },
    }
}

/// The columns a SELECT of an entity reads, one per projected field, in
/// order: a field with a column spec is read from the spec's table and
/// column and selected under the field's name; any other field is read from
/// the entity's table.
pub fn select_columns(
    table: &'static str,
    projection: &[&'static str],
    column_specs: &[(&'static str, &'static str, &'static str)],
) -> (res: Vec<SelectColumn>)
    ensures
        res@.len() == projection@.len(),
        forall|i: int|
            0 <= i < projection@.len() ==> #[trigger] res@[i] == select_column_spec(
                table,
                column_specs@,
                projection@[i],
            ),
{
    let mut out: Vec<SelectColumn> = Vec::new();
    let mut i: usize = 0;
    while i < projection.len()
        invariant
            i <= projection.len(),
            out@.len() == i,
            forall|j: int|
                0 <= j < i ==> #[trigger] out@[j] == select_column_spec(table, column_specs@, projection@[j]),
        decreases projection.len() - i,
    {
        let field = projection[i];
        let mut k: usize = column_specs.len();
        let mut found: Option<(&'static str, &'static str)> = None;
        assert(column_specs@.take(k as int) =~= column_specs@);
        while k > 0 && found.is_none()
            invariant
                k <= column_specs.len(),
                field == projection@[i as int],
                found is None ==> spec_for(column_specs@, field@) == spec_for(column_specs@.take(k as int), field@),
                found is Some ==> spec_for(column_specs@, field@) == found,
            decreases k,
        {
            let (f, t, c) = column_specs[k - 1];
            assert(column_specs@.take(k as int).drop_last() =~= column_specs@.take(k - 1));
            assert(column_specs@.take(k as int).last() == column_specs@[k - 1]);
            if crate::insert::str_eq(f, field) {
                found = Some((t, c));
            }
            k = k - 1;
        }
        proof {
            if found is None {
                assert(column_specs@.take(0) =~= Seq::<(&'static str, &'static str, &'static str)>::empty());
            }
        }
        let col = match found {
            Some((t, c)) => SelectColumn { source: ColumnRef { table: t, column: c }, alias: Some(field) },
            None => SelectColumn { source: ColumnRef { table, column: field }, alias: None },
        };
        out.push(col);
        i = i + 1;
    }
    out
}

/// The ORDER BY column of an ordering of an entity of `table`.
pub open spec fn order_entry(table: &'static str, spec: OrderSpec) -> (ColumnRef, Order) {
    (ColumnRef { table: table_or(spec.table, table), column: spec.column }, spec.order)
}

/// The ORDER BY columns of an entity's orderings.
pub fn resolve_ordering(table: &'static str, ordering: Vec<OrderSpec>) -> (res: Vec<(ColumnRef, Order)>)
    ensures
        res@ == ordering@.map_values(|s: OrderSpec| order_entry(table, s)),
{
    let mut out: Vec<(ColumnRef, Order)> = Vec::new();
    let mut i: usize = 0;
    while i < ordering.len()
        invariant
            i <= ordering.len(),
            out@ == ordering@.take(i as int).map_values(|s: OrderSpec| order_entry(table, s)),
        decreases ordering.len() - i,
    {
        let spec = ordering[i];
        let t = match spec.table {
            Some(t) => t,
            None => table,
        };
        out.push((ColumnRef { table: t, column: spec.column }, spec.order));
        assert(ordering@.take(i + 1).map_values(|s: OrderSpec| order_entry(table, s)) =~= ordering@.take(
            i as int,
        ).map_values(|s: OrderSpec| order_entry(table, s)).push(order_entry(table, spec)));
        i = i + 1;
    }
    assert(ordering@.take(ordering.len() as int) =~= ordering@);
    out
}

/// A database entity: its table, the fields it projects, its default
/// ordering and joins, and where fields from joined tables come from.
pub trait Entity: Sized {
    /// The type of the conditions of the entity's joins.
    type Filter;

    /// The database table name for this entity.
    fn table() -> &'static str;

    /// Column names to select when fetching this entity.
    fn projection() -> &'static [&'static str];

    /// Default ordering specification for queries.
    fn ordering() -> Vec<OrderSpec>;

    /// Default joins to include when querying this entity.
    fn joins() -> Vec<Join<Self::Filter>>;

    /// (field, source table, source column) for fields read from joined
    /// tables; other fields are read from the entity's table.
    fn column_specs() -> Vec<(&'static str, &'static str, &'static str)>;
}

/// Builder for constructing SELECT queries.
pub struct SelectBuilder<M: Entity> {
    table: &'static str,
    filters: Vec<M::Filter>,
    limit: Option<u64>,
    offset: Option<u64>,
    order: Vec<(ColumnRef, Order)>,
    joins: Vec<Join<M::Filter>>,
    marker: PhantomData<M>,
}

/// The parts of a SELECT statement, for rendering: the selected columns,
/// the table, its joins, filters, limit, offset and ORDER BY columns.
pub struct SelectParts<F> {
    pub columns: Vec<SelectColumn>,
    pub table: &'static str,
    pub joins: Vec<Join<F>>,
    pub filters: Vec<F>,
    pub limit: Option<u64>,
    pub offset: Option<u64>,
    pub order: Vec<(ColumnRef, Order)>,
}

impl<M: Entity> SelectBuilder<M> {
    pub closed spec fn table_view(&self) -> &'static str {
        self.table
    }

    pub closed spec fn filters_view(&self) -> Seq<M::Filter> {
        self.filters@
    }

    pub closed spec fn limit_view(&self) -> Option<u64> {
        self.limit
    }

    pub closed spec fn offset_view(&self) -> Option<u64> {
        self.offset
    }

    pub closed spec fn order_view(&self) -> Seq<(ColumnRef, Order)> {
        self.order@
    }

    pub closed spec fn joins_view(&self) -> Seq<Join<M::Filter>> {
        self.joins@
    }

    /// A builder selecting from `table`, ordered by the given orderings and
    /// joined as given.
    pub fn with_defaults(table: &'static str, ordering: Vec<OrderSpec>, joins: Vec<Join<M::Filter>>) -> (res: Self)
        ensures
            res.table_view() == table,
            res.filters_view() == Seq::<M::Filter>::empty(),
            res.limit_view() is None,
            res.offset_view() is None,
            res.order_view() == ordering@.map_values(|s: OrderSpec| order_entry(table, s)),
            res.joins_view() == joins@,
    {
        let order = resolve_ordering(table, ordering);
        SelectBuilder { table, filters: Vec::new(), limit: None, offset: None, order, joins, marker: PhantomData }
    }

    /// Creates a new SELECT query builder for the entity, with its default
    /// ordering and joins (see `with_defaults`).
    pub fn new() -> (res: Self)
        ensures
            exists|t: &'static str, o: Vec<OrderSpec>, j: Vec<Join<M::Filter>>|
                call_ensures(M::table, (), t) && call_ensures(M::ordering, (), o) && call_ensures(
                    M::joins,
                    (),
                    j,
                ) && res.table_view() == t && res.order_view() == o@.map_values(
                    |s: OrderSpec| order_entry(t, s),
                ) && res.joins_view() == j@,
            res.filters_view() == Seq::<M::Filter>::empty(),
            res.limit_view() is None,
            res.offset_view() is None,
    {
        let t = M::table();
        let o = M::ordering();
        let j = M::joins();
        let res = Self::with_defaults(t, o, j);
        assert(call_ensures(M::ordering, (), o));
        res
    }

    /// Adds a WHERE clause filter; filters are combined with AND.
    pub fn where_(self, filter: M::Filter) -> (res: Self)
        ensures
            res.filters_view() == self.filters_view().push(filter),
            res.table_view() == self.table_view(),
            res.limit_view() == self.limit_view(),
            res.offset_view() == self.offset_view(),
            res.order_view() == self.order_view(),
            res.joins_view() == self.joins_view(),
    {
        let mut b = self;
        b.filters.push(filter);
        b
    }

    /// Sets the maximum number of rows to return.
    pub fn limit(self, limit: u64) -> (res: Self)
        ensures
            res.limit_view() == Some(limit),
            res.table_view() == self.table_view(),
            res.filters_view() == self.filters_view(),
            res.offset_view() == self.offset_view(),
            res.order_view() == self.order_view(),
            res.joins_view() == self.joins_view(),
    {
        let mut b = self;
        b.limit = Some(limit);
        b
    }

    /// Sets the number of rows to skip.
    pub fn offset(self, offset: u64) -> (res: Self)
        ensures
            res.offset_view() == Some(offset),
            res.table_view() == self.table_view(),
            res.filters_view() == self.filters_view(),
            res.limit_view() == self.limit_view(),
            res.order_view() == self.order_view(),
            res.joins_view() == self.joins_view(),
    {
        let mut b = self;
        b.offset = Some(offset);
        b
    }

    /// Adds an ascending ORDER BY column, of the entity's table unless
    /// another is named.
    pub fn order_by(self, table: Option<&'static str>, column: &'static str) -> (res: Self)
        ensures
            res.order_view() == self.order_view().push(
                (ColumnRef { table: table_or(table, self.table_view()), column }, Order::Asc),
            ),
            res.table_view() == self.table_view(),
            res.filters_view() == self.filters_view(),
            res.limit_view() == self.limit_view(),
            res.offset_view() == self.offset_view(),
            res.joins_view() == self.joins_view(),
    {
        let mut b = self;
        let t = match table {
            Some(t) => t,
            None => b.table,
        };
        b.order.push((table_column(t, column), Order::Asc));
        b
    }

    /// Adds a descending ORDER BY column, of the entity's table unless
    /// another is named.
    pub fn order_by_desc(self, table: Option<&'static str>, column: &'static str) -> (res: Self)
        ensures
            res.order_view() == self.order_view().push(
                (ColumnRef { table: table_or(table, self.table_view()), column }, Order::Desc),
            ),
            res.table_view() == self.table_view(),
            res.filters_view() == self.filters_view(),
            res.limit_view() == self.limit_view(),
            res.offset_view() == self.offset_view(),
            res.joins_view() == self.joins_view(),
    {
        let mut b = self;
        let t = match table {
            Some(t) => t,
            None => b.table,
        };
        b.order.push((table_column(t, column), Order::Desc));
        b
    }

    /// Adds a JOIN clause to the query.
    pub fn join(self, join: Join<M::Filter>) -> (res: Self)
        ensures
            res.joins_view() == self.joins_view().push(join),
            res.table_view() == self.table_view(),
            res.filters_view() == self.filters_view(),
            res.limit_view() == self.limit_view(),
            res.offset_view() == self.offset_view(),
            res.order_view() == self.order_view(),
    {
        let mut b = self;
        b.joins.push(join);
        b
    }

    /// The parts of the statement: the given columns, and what the builder
    /// holds.
    pub fn parts_with(self, columns: Vec<SelectColumn>) -> (res: SelectParts<M::Filter>)
        ensures
            res.columns@ == columns@,
            res.table == self.table_view(),
            res.joins@ == self.joins_view(),
            res.filters@ == self.filters_view(),
            res.limit == self.limit_view(),
            res.offset == self.offset_view(),
            res.order@ == self.order_view(),
    {
        SelectParts {
            columns,
            table: self.table,
            joins: self.joins,
            filters: self.filters,
            limit: self.limit,
            offset: self.offset,
            order: self.order,
        }
    }

    /// The parts of the statement, with the entity's projection qualified
    /// (see `select_columns` and `parts_with`).
    pub fn into_parts(self) -> (res: SelectParts<M::Filter>)
        ensures
            exists|p: &'static [&'static str], specs: Vec<(&'static str, &'static str, &'static str)>|
                call_ensures(M::projection, (), p) && call_ensures(M::column_specs, (), specs)
                    && res.columns@ == p@.map_values(
                    |f: &'static str| select_column_spec(self.table_view(), specs@, f),
                ),
            res.table == self.table_view(),
            res.joins@ == self.joins_view(),
            res.filters@ == self.filters_view(),
            res.limit == self.limit_view(),
            res.offset == self.offset_view(),
            res.order@ == self.order_view(),
    {
        let specs = M::column_specs();
        let p = M::projection();
        let columns = select_columns(self.table, p, specs.as_slice());
        let ghost tv = self.table_view();
        assert(columns@ =~= p@.map_values(|f: &'static str| select_column_spec(tv, specs@, f)));
        let res = self.parts_with(columns);
        assert(call_ensures(M::projection, (), p) && call_ensures(M::column_specs, (), specs));
        res
    }
}

/// Builder for constructing UPDATE queries.
pub struct UpdateBuilder<M: Entity> {
    set_clauses: Vec<(&'static str, SqlValue)>,
    filters: Vec<M::Filter>,
    returning: Vec<&'static str>,
    marker: PhantomData<M>,
}

impl<M: Entity> UpdateBuilder<M> {
    pub closed spec fn set_view(&self) -> Seq<(&'static str, SqlValue)> {
        self.set_clauses@
    }

    pub closed spec fn filters_view(&self) -> Seq<M::Filter> {
        self.filters@
    }

    pub closed spec fn returning_view(&self) -> Seq<&'static str> {
        self.returning@
    }

    /// Creates a new UPDATE query builder.
    pub fn new() -> (res: Self)
        ensures
            res.set_view() == Seq::<(&'static str, SqlValue)>::empty(),
            res.filters_view() == Seq::<M::Filter>::empty(),
            res.returning_view() == Seq::<&'static str>::empty(),
    {
        UpdateBuilder { set_clauses: Vec::new(), filters: Vec::new(), returning: Vec::new(), marker: PhantomData }
    }

    /// Sets a column to a new value.
    pub fn set(self, column: &'static str, value: SqlValue) -> (res: Self)
        ensures
            res.set_view() == self.set_view().push((column, value)),
            res.filters_view() == self.filters_view(),
            res.returning_view() == self.returning_view(),
    {
        let mut b = self;
        b.set_clauses.push((column, value));
        b
    }

    /// Adds a WHERE clause filter; filters are combined with AND.
    pub fn where_(self, filter: M::Filter) -> (res: Self)
        ensures
            res.filters_view() == self.filters_view().push(filter),
            res.set_view() == self.set_view(),
            res.returning_view() == self.returning_view(),
    {
        let mut b = self;
        b.filters.push(filter);
        b
    }

    /// Specifies a column to return from updated rows.
    pub fn returning(self, column: &'static str) -> (res: Self)
        ensures
            res.returning_view() == self.returning_view().push(column),
            res.set_view() == self.set_view(),
            res.filters_view() == self.filters_view(),
    {
        let mut b = self;
        b.returning.push(column);
        b
    }

    /// The table, the assignments, the filters and the returned columns,
    /// for rendering the statement.
    pub fn into_parts(self) -> (res: (&'static str, Vec<(&'static str, SqlValue)>, Vec<M::Filter>, Vec<&'static str>))
        ensures
            call_ensures(M::table, (), res.0),
            res.1@ == self.set_view(),
            res.2@ == self.filters_view(),
            res.3@ == self.returning_view(),
    {
        let table = M::table();
        (table, self.set_clauses, self.filters, self.returning)
    }
}

/// Builder for constructing DELETE queries.
pub struct DeleteBuilder<M: Entity> {
    filters: Vec<M::Filter>,
    returning: Vec<&'static str>,
    marker: PhantomData<M>,
}

impl<M: Entity> DeleteBuilder<M> {
    pub closed spec fn filters_view(&self) -> Seq<M::Filter> {
        self.filters@
    }

    pub closed spec fn returning_view(&self) -> Seq<&'static str> {
        self.returning@
    }

    /// Creates a new DELETE query builder.
    pub fn new() -> (res: Self)
        ensures
            res.filters_view() == Seq::<M::Filter>::empty(),
            res.returning_view() == Seq::<&'static str>::empty(),
    {
        DeleteBuilder { filters: Vec::new(), returning: Vec::new(), marker: PhantomData }
    }

    /// Adds a WHERE clause filter; filters are combined with AND.
    pub fn where_(self, filter: M::Filter) -> (res: Self)
        ensures
            res.filters_view() == self.filters_view().push(filter),
            res.returning_view() == self.returning_view(),
    {
        let mut b = self;
        b.filters.push(filter);
        b
    }

    /// Specifies a column to return from deleted rows.
    pub fn returning(self, column: &'static str) -> (res: Self)
        ensures
            res.returning_view() == self.returning_view().push(column),
            res.filters_view() == self.filters_view(),
    {
        let mut b = self;
        b.returning.push(column);
        b
    }

    /// The table, the filters and the returned columns, for rendering the
    /// statement.
    pub fn into_parts(self) -> (res: (&'static str, Vec<M::Filter>, Vec<&'static str>))
        ensures
            call_ensures(M::table, (), res.0),
            res.1@ == self.filters_view(),
            res.2@ == self.returning_view(),
    {
        let table = M::table();
        (table, self.filters, self.returning)
    }
}

} // verus!
