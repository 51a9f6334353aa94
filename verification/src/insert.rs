//! The INSERT builder: the column values of a row to insert, and what to do
//! when the row conflicts with one already stored (an "upsert").

use std::marker::PhantomData;
use vstd::prelude::*;
use vstd::slice::slice_to_vec;

use crate::orm::SqlValue;

verus! {

/// Whether two strings are equal.
pub fn str_eq(a: &str, b: &str) -> (res: bool)
    ensures
        res == (a@ == b@),
{
    let n = a.unicode_len();
    if n != b.unicode_len() {
        return false;
    }
    let mut i: usize = 0;
    while i < n
        invariant
            n == a@.len() == b@.len(),
            i <= n,
            forall|j: int| 0 <= j < i ==> a@[j] == b@[j],
        decreases n - i,
    {
        if a.get_char(i) != b.get_char(i) {
            return false;
        }
        i = i + 1;
    }
    assert(a@ =~= b@);
    true
}

/// Implemented by entities to give the column values of an instance.
pub trait EntityValues {
    /// The column names and values of this instance, in column order.
    fn to_values(&self) -> Vec<(&'static str, SqlValue)>;
}

/// The columns a conflict is detected on.
#[derive(Debug, Clone)]
pub enum ConflictTarget {
    Columns(Vec<&'static str>),
}

/// What to do when an inserted row conflicts with a stored one.
#[derive(Debug, Clone)]
pub enum ConflictStrategy {
    /// Ignore the insert.
    DoNothing { target: ConflictTarget },
    /// Update the stored row's `columns` with the inserted values.
    DoUpdate { target: ConflictTarget, columns: Vec<&'static str> },
}

/// The view of a list of column names.
pub open spec fn names_view(cols: Seq<&'static str>) -> Seq<Seq<char>> {
    cols.map_values(|c: &'static str| c@)
}

/// A conflict strategy as (whether it updates, the conflict columns, the
/// columns it updates).
pub open spec fn strategy_view(c: ConflictStrategy) -> (bool, Seq<Seq<char>>, Seq<Seq<char>>) {
    match c {
        ConflictStrategy::DoNothing { target: ConflictTarget::Columns(t) } => (false, names_view(t@), Seq::empty()),
        ConflictStrategy::DoUpdate { target: ConflictTarget::Columns(t), columns } => (
            true,
            names_view(t@),
            names_view(columns@),
        ),
    }
}

/// The inserted columns that are not conflict columns, in order.
pub open spec fn columns_outside(values: Seq<(&'static str, SqlValue)>, target: Seq<Seq<char>>) -> Seq<Seq<char>>
    decreases values.len(),
{
    if values.len() == 0 {
        Seq::empty()
    } else {
        let rest = columns_outside(values.drop_last(), target);
        let c = values.last().0@;
        if target.contains(c) {
            rest
        } else {
            rest.push(c)
        }
    }
}

/// Builder for constructing INSERT queries.
pub struct InsertBuilder<M> {
    values: Vec<(&'static str, SqlValue)>,
    conflict: Option<ConflictStrategy>,
    marker: PhantomData<M>,
}

impl<M> InsertBuilder<M> {
    /// The column values to insert, in order.
    pub closed spec fn values_view(&self) -> Seq<(&'static str, SqlValue)> {
        self.values@
    }

    /// The conflict strategy, if one is set.
    pub closed spec fn conflict_view(&self) -> Option<(bool, Seq<Seq<char>>, Seq<Seq<char>>)> {
        match self.conflict {
            Some(c) => Some(strategy_view(c)),
            None => None,
        }
    }

    /// Creates a new INSERT query builder.
    pub fn new() -> (res: Self)
        ensures
            res.values_view() == Seq::<(&'static str, SqlValue)>::empty(),
            res.conflict_view() is None,
    {
        InsertBuilder { values: Vec::new(), conflict: None, marker: PhantomData }
    }

    /// A builder inserting the given column values, in order.
    pub fn from_values(values: Vec<(&'static str, SqlValue)>) -> (res: Self)
        ensures
            res.values_view() == values@,
            res.conflict_view() is None,
    {
        InsertBuilder { values, conflict: None, marker: PhantomData }
    }

    /// Populate all fields from an entity instance: the builder inserts the
    /// values the entity's `to_values` gives, in order (see `from_values`).
    pub fn from_entity(entity: &M) -> (res: Self) where M: EntityValues
        ensures
            exists|values: Vec<(&'static str, SqlValue)>|
                call_ensures(M::to_values, (entity,), values) && res.values_view() == values@,
            res.conflict_view() is None,
    {
        let values = entity.to_values();
        let res = Self::from_values(values);
        assert(call_ensures(M::to_values, (entity,), values) && res.values_view() == values@);
        res
    }

    /// Sets a column value for the insert.
    pub fn set(self, column: &'static str, value: SqlValue) -> (res: Self)
        ensures
            res.values_view() == self.values_view().push((column, value)),
            res.conflict_view() == self.conflict_view(),
    {
        let mut b = self;
        b.values.push((column, value));
        b
    }

    /// Handle conflicts on the given columns; `do_update()`,
    /// `do_update_all()` or `do_nothing()` says what then happens.
    pub fn on_conflict_columns(self, columns: &[&'static str]) -> (res: Self)
        ensures
            res.values_view() == self.values_view(),
            res.conflict_view() == Some((false, names_view(columns@), Seq::<Seq<char>>::empty())),
    {
        let mut b = self;
        b.conflict = Some(ConflictStrategy::DoNothing { target: ConflictTarget::Columns(slice_to_vec(columns)) });
        b
    }

    /// Handle conflicts on a single column.
    pub fn on_conflict(self, column: &'static str) -> (res: Self)
        ensures
            res.values_view() == self.values_view(),
            res.conflict_view() == Some((false, seq![column@], Seq::<Seq<char>>::empty())),
    {
        let cols: [&'static str; 1] = [column];
        let res = self.on_conflict_columns(cols.as_slice());
        assert(names_view(cols@) =~= seq![column@]);
        res
    }

    /// On conflict, do nothing (ignore the insert): the conflict columns
    /// are kept and any update is dropped. Does nothing unless conflict
    /// columns are set.
    pub fn do_nothing(self) -> (res: Self)
        ensures
            res.values_view() == self.values_view(),
            res.conflict_view() == (match self.conflict_view() {
                Some(c) => Some((false, c.1, Seq::<Seq<char>>::empty())),
                None => None,
            }),
    {
        let mut b = self;
        if let Some(conflict) = b.conflict.take() {
            let target = match conflict {
                ConflictStrategy::DoNothing { target } => target,
                ConflictStrategy::DoUpdate { target, .. } => target,
            };
            b.conflict = Some(ConflictStrategy::DoNothing { target });
        }
        b
    }

    /// On conflict, update the given columns with the inserted values. Does
    /// nothing unless conflict columns are set.
    pub fn do_update(self, columns: &[&'static str]) -> (res: Self)
        ensures
            res.values_view() == self.values_view(),
            res.conflict_view() == (match self.conflict_view() {
                Some(c) => Some((true, c.1, names_view(columns@))),
                None => None,
            }),
    {
        let mut b = self;
        if let Some(conflict) = b.conflict.take() {
            let target = match conflict {
                ConflictStrategy::DoNothing { target } => target,
                ConflictStrategy::DoUpdate { target, .. } => target,
            };
            b.conflict = Some(ConflictStrategy::DoUpdate { target, columns: slice_to_vec(columns) });
        }
        b
    }

    /// On conflict, update every inserted column but the conflict columns.
    /// Does nothing unless conflict columns are set.
    pub fn do_update_all(self) -> (res: Self)
        ensures
            res.values_view() == self.values_view(),
            res.conflict_view() == (match self.conflict_view() {
                Some(c) => Some((true, c.1, columns_outside(self.values_view(), c.1))),
                None => None,
            }),
    {
        let mut b = self;
        if let Some(conflict) = b.conflict.take() {
            let target = match conflict {
                ConflictStrategy::DoNothing { target } => target,
                ConflictStrategy::DoUpdate { target, .. } => target,
            };
            let ConflictTarget::Columns(cols) = &target;
            let ghost tv = names_view(cols@);
            let mut update: Vec<&'static str> = Vec::new();
            let mut i: usize = 0;
            while i < b.values.len()
                invariant
                    i <= b.values.len(),
                    tv == names_view(cols@),
                    names_view(update@) == columns_outside(b.values@.take(i as int), tv),
                decreases b.values.len() - i,
            {
                assert(b.values@.take(i + 1).drop_last() =~= b.values@.take(i as int));
                let col = b.values[i].0;
                let mut found = false;
                let mut k: usize = 0;
                while k < cols.len()
                    invariant
                        k <= cols.len(),
                        tv == names_view(cols@),
                        found == (exists|j: int| 0 <= j < k && tv[j] == col@),
                    decreases cols.len() - k,
                {
                    assert(tv[k as int] == cols@[k as int]@);
                    if str_eq(cols[k], col) {
                        found = true;
                    }
                    k = k + 1;
                }
                assert(found == tv.contains(col@));
                if !found {
                    let ghost before = update@;
                    update.push(col);
                    assert(names_view(update@) =~= names_view(before).push(col@));
                }
                i = i + 1;
            }
            assert(b.values@.take(b.values.len() as int) =~= b.values@);
            b.conflict = Some(ConflictStrategy::DoUpdate { target, columns: update });
        }
        b
    }

    /// The column values and the conflict strategy, for rendering the
    /// statement.
    pub fn into_parts(self) -> (res: (Vec<(&'static str, SqlValue)>, Option<ConflictStrategy>))
        ensures
            res.0@ == self.values_view(),
            match res.1 {
                Some(c) => self.conflict_view() == Some(strategy_view(c)),
                None => self.conflict_view() is None,
            },
    {
        (self.values, self.conflict)
    }
}

proof fn lemma_columns_outside(values: Seq<(&'static str, SqlValue)>, target: Seq<Seq<char>>)
    ensures
        forall|i: int| 0 <= i < columns_outside(values, target).len() ==> !target.contains(
            #[trigger] columns_outside(values, target)[i],
        ),
        forall|i: int|
            0 <= i < columns_outside(values, target).len() ==> exists|j: int|
                0 <= j < values.len() && #[trigger] columns_outside(values, target)[i] == values[j].0@,
        forall|j: int| 0 <= j < values.len() && !target.contains(#[trigger] values[j].0@) ==> columns_outside(
            values,
            target,
        ).contains(values[j].0@),
    decreases values.len(),
{
    if values.len() > 0 {
        let t = values.drop_last();
        lemma_columns_outside(t, target);
        let r = columns_outside(t, target);
        let s = columns_outside(values, target);
        assert forall|i: int| 0 <= i < s.len() implies !target.contains(#[trigger] s[i]) by {
            if i < r.len() {
                assert(s[i] == r[i]);
            }
        }
        assert forall|i: int| 0 <= i < s.len() implies exists|j: int|
            0 <= j < values.len() && #[trigger] s[i] == values[j].0@ by {
            if i < r.len() {
                assert(s[i] == r[i]);
                let j = choose|j: int| 0 <= j < t.len() && r[i] == t[j].0@;
                assert(values[j] == t[j]);
            } else {
                assert(s[i] == values[values.len() - 1].0@);
            }
        }
        assert forall|j: int| 0 <= j < values.len() && !target.contains(#[trigger] values[j].0@) implies s.contains(
            values[j].0@,
        ) by {
            if j < values.len() - 1 {
                assert(values[j] == t[j]);
                let k = choose|k: int| 0 <= k < r.len() && r[k] == t[j].0@;
                assert(s[k] == r[k]);
            } else {
                assert(s[s.len() - 1] == values[j].0@);
            }
        }
    }
}

/// An upsert that updates "all" columns updates exactly the inserted
/// columns that are not conflict columns: never a conflict column, and
/// every other inserted column.
pub proof fn law_update_all_spares_conflict_columns(values: Seq<(&'static str, SqlValue)>, target: Seq<Seq<char>>)
    ensures
        forall|i: int| 0 <= i < columns_outside(values, target).len() ==> !target.contains(
            #[trigger] columns_outside(values, target)[i],
        ),
        forall|i: int|
            0 <= i < columns_outside(values, target).len() ==> exists|j: int|
                0 <= j < values.len() && #[trigger] columns_outside(values, target)[i] == values[j].0@,
        forall|j: int| 0 <= j < values.len() && !target.contains(#[trigger] values[j].0@) ==> columns_outside(
            values,
            target,
        ).contains(values[j].0@),
{
    lemma_columns_outside(values, target);
}

} // verus!
