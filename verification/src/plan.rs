//! Query plans and the composable interface that builds them.
//!
//! A plan names its source table, the expressions that form the group key,
//! the aggregates taken per group, an optional projection that derives the
//! output columns from the aggregated ones, and the sort keys. A plan is a
//! plain value: building one reads no table and runs nothing.

use vstd::prelude::*;

use crate::error::{agrees, Error};
use crate::names::{all_distinct, distinct, index_of, names_view, position};
use crate::value::Op;

verus! {

/// One expression of the group key: a column, as it is or truncated to its
/// calendar month, under the name `alias`.
#[derive(Clone, Debug, PartialEq, Eq)]
pub struct GroupKey {
    pub column: String,
    pub month: bool,
    pub alias: String,
}

/// What an aggregate computes over the rows of a group.
#[derive(Clone, Debug, PartialEq, Eq)]
pub enum Measure {
    /// The number of rows.
    CountRows,
    /// The sum of a column.
    Sum(String),
    /// The average of a column.
    Avg(String),
}

/// An aggregate under the name `alias`.
#[derive(Clone, Debug, PartialEq, Eq)]
pub struct Aggregate {
    pub measure: Measure,
    pub alias: String,
}

/// An expression over the columns that aggregation yields: a column by name,
/// or arithmetic over two expressions.
#[derive(Debug, PartialEq, Eq)]
pub enum Expr {
    Column(String),
    Binary(Op, Box<Expr>, Box<Expr>),
}

/// An output column: an expression under the name `alias`.
#[derive(Debug, PartialEq, Eq)]
pub struct Projection {
    pub expr: Expr,
    pub alias: String,
}

/// An output column to order by, and the direction.
#[derive(Clone, Debug, PartialEq, Eq)]
pub struct SortKey {
    pub column: String,
    pub ascending: bool,
}

/// A query plan.
#[derive(Debug, PartialEq, Eq)]
pub struct Plan {
    pub table: String,
    pub group_keys: Vec<GroupKey>,
    pub aggregates: Vec<Aggregate>,
    pub projections: Option<Vec<Projection>>,
    pub sort_keys: Vec<SortKey>,
}

/// A group key expression as specifications see it.
pub struct GroupKeyView {
    pub column: Seq<char>,
    pub month: bool,
    pub alias: Seq<char>,
}

/// A measure as specifications see it.
pub enum MeasureView {
    CountRows,
    Sum(Seq<char>),
    Avg(Seq<char>),
}

/// An aggregate as specifications see it.
pub struct AggregateView {
    pub measure: MeasureView,
    pub alias: Seq<char>,
}

/// An expression as specifications see it.
pub enum ExprView {
    Column(Seq<char>),
    Binary(Op, Box<ExprView>, Box<ExprView>),
}

/// An output column as specifications see it.
pub struct ProjectionView {
    pub expr: ExprView,
    pub alias: Seq<char>,
}

/// A sort key as specifications see it.
pub struct SortKeyView {
    pub column: Seq<char>,
    pub ascending: bool,
}

/// A plan as specifications see it.
pub struct PlanView {
    pub table: Seq<char>,
    pub group_keys: Seq<GroupKeyView>,
    pub aggregates: Seq<AggregateView>,
    pub projections: Option<Seq<ProjectionView>>,
    pub sort_keys: Seq<SortKeyView>,
}

impl View for GroupKey {
    type V = GroupKeyView;

    open spec fn view(&self) -> GroupKeyView {
        GroupKeyView { column: self.column@, month: self.month, alias: self.alias@ }
    }
}

impl View for Measure {
    type V = MeasureView;

    open spec fn view(&self) -> MeasureView {
        match self {
            Measure::CountRows => MeasureView::CountRows,
            Measure::Sum(c) => MeasureView::Sum(c@),
            Measure::Avg(c) => MeasureView::Avg(c@),
        }
    }
}

impl View for Aggregate {
    type V = AggregateView;

    open spec fn view(&self) -> AggregateView {
        AggregateView { measure: self.measure@, alias: self.alias@ }
    }
}

/// The view of an expression.
pub open spec fn expr_view(e: Expr) -> ExprView
    decreases e,
{
    match e {
        Expr::Column(n) => ExprView::Column(n@),
        Expr::Binary(op, a, b) => ExprView::Binary(
            op,
            Box::new(expr_view(*a)),
            Box::new(expr_view(*b)),
        ),
    }
}

impl View for Expr {
    type V = ExprView;

    open spec fn view(&self) -> ExprView {
        expr_view(*self)
    }
}

impl View for Projection {
    type V = ProjectionView;

    open spec fn view(&self) -> ProjectionView {
        ProjectionView { expr: self.expr@, alias: self.alias@ }
    }
}

impl View for SortKey {
    type V = SortKeyView;

    open spec fn view(&self) -> SortKeyView {
        SortKeyView { column: self.column@, ascending: self.ascending }
    }
}

/// The views of the items of a list, in order.
pub open spec fn views<T: View>(items: Seq<T>) -> Seq<T::V> {
    Seq::new(items.len(), |i: int| items[i]@)
}

impl View for Plan {
    type V = PlanView;

    open spec fn view(&self) -> PlanView {
        PlanView {
            table: self.table@,
            group_keys: views(self.group_keys@),
            aggregates: views(self.aggregates@),
            projections: match self.projections {
                Some(ps) => Some(views(ps@)),
                None => None,
            },
            sort_keys: views(self.sort_keys@),
        }
    }
}

/// The names of the group key expressions, in order.
pub open spec fn key_aliases(keys: Seq<GroupKeyView>) -> Seq<Seq<char>> {
    Seq::new(keys.len(), |i: int| keys[i].alias)
}

/// The names of the aggregates, in order.
pub open spec fn aggregate_aliases(aggregates: Seq<AggregateView>) -> Seq<Seq<char>> {
    Seq::new(aggregates.len(), |i: int| aggregates[i].alias)
}

/// The names of the projected columns, in order.
pub open spec fn projection_aliases(projections: Seq<ProjectionView>) -> Seq<Seq<char>> {
    Seq::new(projections.len(), |i: int| projections[i].alias)
}

/// The columns that aggregation yields: the group keys, then the aggregates.
pub open spec fn stage_names(keys: Seq<GroupKeyView>, aggregates: Seq<AggregateView>) -> Seq<
    Seq<char>,
> {
    key_aliases(keys) + aggregate_aliases(aggregates)
}

/// Every column that the expression names is among `names`.
pub open spec fn refs_known(e: ExprView, names: Seq<Seq<char>>) -> bool
    decreases e,
{
    match e {
        ExprView::Column(n) => index_of(names, n) is Some,
        ExprView::Binary(_, a, b) => refs_known(*a, names) && refs_known(*b, names),
    }
}

/// Every projection names known columns only.
pub open spec fn projections_known(projections: Seq<ProjectionView>, names: Seq<Seq<char>>) -> bool {
    forall|j: int| 0 <= j < projections.len() ==> refs_known((#[trigger] projections[j]).expr, names)
}

/// Every sort key names one of `names`.
pub open spec fn sort_keys_known(keys: Seq<SortKeyView>, names: Seq<Seq<char>>) -> bool {
    forall|j: int| 0 <= j < keys.len() ==> index_of(names, (#[trigger] keys[j]).column) is Some
}

impl PlanView {
    /// The columns of the result: the projected ones where the plan projects,
    /// the aggregated ones otherwise.
    pub open spec fn output_names(self) -> Seq<Seq<char>> {
        match self.projections {
            Some(ps) => projection_aliases(ps),
            None => stage_names(self.group_keys, self.aggregates),
        }
    }

    /// What every plan from the builder satisfies: no two aggregated columns
    /// and no two projected columns share a name, every projection reads
    /// aggregated columns, and every sort key is a column of the result.
    pub open spec fn wf(self) -> bool {
        &&& distinct(stage_names(self.group_keys, self.aggregates))
        &&& self.projections matches Some(ps) ==> distinct(projection_aliases(ps))
            && projections_known(ps, stage_names(self.group_keys, self.aggregates))
        &&& sort_keys_known(self.sort_keys, self.output_names())
    }

    /// The plan that groups `table` by `group_keys` and reduces the groups by
    /// `aggregates`; invalid where two of its columns would share a name.
    pub open spec fn aggregated(
        table: Seq<char>,
        group_keys: Seq<GroupKeyView>,
        aggregates: Seq<AggregateView>,
    ) -> Result<PlanView, Error> {
        if distinct(stage_names(group_keys, aggregates)) {
            Ok(
                PlanView {
                    table,
                    group_keys,
                    aggregates,
                    projections: None,
                    sort_keys: Seq::empty(),
                },
            )
        } else {
            Err(Error::InvalidPlan)
        }
    }

    /// The plan with `projections` placed on it; invalid where the plan does
    /// not accept them.
    pub open spec fn selected(self, projections: Seq<ProjectionView>) -> Result<PlanView, Error> {
        if self.accepts_projections(projections) {
            Ok(PlanView { projections: Some(projections), ..self })
        } else {
            Err(Error::InvalidPlan)
        }
    }

    /// The plan ordered by `keys` before its earlier sort keys; invalid where
    /// a key names no column of the result.
    pub open spec fn sorted(self, keys: Seq<SortKeyView>) -> Result<PlanView, Error> {
        if sort_keys_known(keys, self.output_names()) {
            Ok(PlanView { sort_keys: keys + self.sort_keys, ..self })
        } else {
            Err(Error::InvalidPlan)
        }
    }

    /// Whether `projections` can be placed on the plan: it has no projection
    /// and no sort yet, the new columns have distinct names, and they read
    /// aggregated columns only.
    pub open spec fn accepts_projections(self, projections: Seq<ProjectionView>) -> bool {
        &&& self.projections is None
        &&& self.sort_keys.len() == 0
        &&& distinct(projection_aliases(projections))
        &&& projections_known(projections, stage_names(self.group_keys, self.aggregates))
    }
}

/// Every plan that the builder yields is well formed.
pub proof fn lemma_builder_keeps_wf(
    plan: PlanView,
    projections: Seq<ProjectionView>,
    keys: Seq<SortKeyView>,
)
    ensures
        PlanView::aggregated(plan.table, plan.group_keys, plan.aggregates) matches Ok(p) ==> p.wf(),
        plan.wf() ==> (plan.selected(projections) matches Ok(p) ==> p.wf()),
        plan.wf() ==> (plan.sorted(keys) matches Ok(p) ==> p.wf()),
{
}

/// The names of group key expressions, in order.
pub fn key_alias_list(keys: &Vec<GroupKey>) -> (names: Vec<String>)
    ensures
        names_view(names@) == key_aliases(views(keys@)),
{
    let mut names: Vec<String> = Vec::new();
    let mut i: usize = 0;
    while i < keys.len()
        invariant
            0 <= i <= keys.len(),
            names.len() == i,
            forall|k: int| 0 <= k < i ==> (#[trigger] names@[k])@ == keys@[k].alias@,
        decreases keys.len() - i,
    {
        names.push(keys[i].alias.clone());
        i = i + 1;
    }
    assert(names_view(names@) =~= key_aliases(views(keys@)));
    names
}

fn append_aggregate_aliases(names: &mut Vec<String>, aggregates: &Vec<Aggregate>)
    ensures
        names_view(final(names)@) == names_view(old(names)@) + aggregate_aliases(views(aggregates@)),
{
    let ghost before = names_view(names@);
    let mut i: usize = 0;
    while i < aggregates.len()
        invariant
            0 <= i <= aggregates.len(),
            names.len() == before.len() + i,
            forall|k: int| 0 <= k < before.len() ==> (#[trigger] names@[k])@ == before[k],
            forall|k: int|
                before.len() <= k < names.len() ==> (#[trigger] names@[k])@ == aggregates@[k
                    - before.len()].alias@,
        decreases aggregates.len() - i,
    {
        names.push(aggregates[i].alias.clone());
        i = i + 1;
    }
    assert(names_view(names@) =~= before + aggregate_aliases(views(aggregates@)));
}

fn projection_alias_list(projections: &Vec<Projection>) -> (names: Vec<String>)
    ensures
        names_view(names@) == projection_aliases(views(projections@)),
{
    let mut names: Vec<String> = Vec::new();
    let mut i: usize = 0;
    while i < projections.len()
        invariant
            0 <= i <= projections.len(),
            names.len() == i,
            forall|k: int| 0 <= k < i ==> (#[trigger] names@[k])@ == projections@[k].alias@,
        decreases projections.len() - i,
    {
        names.push(projections[i].alias.clone());
        i = i + 1;
    }
    assert(names_view(names@) =~= projection_aliases(views(projections@)));
    names
}

fn expr_known(e: &Expr, names: &Vec<String>) -> (r: bool)
    ensures
        r == refs_known(e@, names_view(names@)),
    decreases *e,
{
    match e {
        Expr::Column(n) => position(names, n).is_some(),
        Expr::Binary(_, a, b) => expr_known(a, names) && expr_known(b, names),
    }
}

impl Plan {
    /// The names of the columns that aggregation yields.
    pub fn stage_columns(&self) -> (names: Vec<String>)
        ensures
            names_view(names@) == stage_names(self@.group_keys, self@.aggregates),
    {
        let mut names = key_alias_list(&self.group_keys);
        append_aggregate_aliases(&mut names, &self.aggregates);
        names
    }

    /// The names of the columns of the result.
    pub fn output_columns(&self) -> (names: Vec<String>)
        ensures
            names_view(names@) == self@.output_names(),
    {
        match &self.projections {
            Some(ps) => projection_alias_list(ps),
            None => self.stage_columns(),
        }
    }

    /// Starts a plan: the rows of `table` are grouped by `group_keys` and
    /// every group is reduced by `aggregates`.
    ///
    /// Refused as an invalid plan exactly when two of the resulting columns
    /// would share a name; see [`PlanView::aggregated`].
    pub fn aggregate(table: String, group_keys: Vec<GroupKey>, aggregates: Vec<Aggregate>) -> (r:
        Result<Plan, Error>)
        ensures
            agrees(r, PlanView::aggregated(table@, views(group_keys@), views(aggregates@))),
            r.is_ok() ==> r.unwrap()@.wf(),
    {
        let plan = Plan {
            table,
            group_keys,
            aggregates,
            projections: None,
            sort_keys: Vec::new(),
        };
        let names = plan.stage_columns();
        if all_distinct(&names) {
            assert(plan@.sort_keys =~= Seq::empty());
            Ok(plan)
        } else {
            Err(Error::InvalidPlan)
        }
    }

    /// Places a projection on the plan: the result holds the columns that
    /// `projections` derive from the aggregated ones, in that order.
    ///
    /// Refused as an invalid plan exactly when the plan does not accept the
    /// projection, see [`PlanView::accepts_projections`].
    pub fn select(self, projections: Vec<Projection>) -> (r: Result<Plan, Error>)
        ensures
            agrees(r, self@.selected(views(projections@))),
            r.is_ok() && self@.wf() ==> r.unwrap()@.wf(),
    {
        if self.projections.is_some() || self.sort_keys.len() != 0 {
            return Err(Error::InvalidPlan);
        }
        let aliases = projection_alias_list(&projections);
        if !all_distinct(&aliases) {
            return Err(Error::InvalidPlan);
        }
        let known = self.stage_columns();
        let mut j: usize = 0;
        while j < projections.len()
            invariant
                0 <= j <= projections.len(),
                names_view(known@) == stage_names(self@.group_keys, self@.aggregates),
                forall|k: int|
                    0 <= k < j ==> refs_known(
                        (#[trigger] views(projections@)[k]).expr,
                        names_view(known@),
                    ),
            decreases projections.len() - j,
        {
            if !expr_known(&projections[j].expr, &known) {
                assert(!refs_known(views(projections@)[j as int].expr, names_view(known@)));
                return Err(Error::InvalidPlan);
            }
            j = j + 1;
        }
        let ghost before = self@;
        let plan = Plan {
            table: self.table,
            group_keys: self.group_keys,
            aggregates: self.aggregates,
            projections: Some(projections),
            sort_keys: self.sort_keys,
        };
        assert(plan@.sort_keys =~= before.sort_keys);
        Ok(plan)
    }

    /// Orders the result by `keys`, the first key first. Rows that no key
    /// tells apart keep the order of the groups. Where the plan is sorted
    /// already, the new keys take precedence and the earlier ones break their
    /// ties.
    ///
    /// Refused as an invalid plan exactly when a key names no column of the
    /// result; see [`PlanView::sorted`].
    pub fn sort(self, keys: Vec<SortKey>) -> (r: Result<Plan, Error>)
        ensures
            agrees(r, self@.sorted(views(keys@))),
            r.is_ok() && self@.wf() ==> r.unwrap()@.wf(),
    {
        let known = self.output_columns();
        let mut j: usize = 0;
        while j < keys.len()
            invariant
                0 <= j <= keys.len(),
                names_view(known@) == self@.output_names(),
                forall|k: int|
                    0 <= k < j ==> index_of(
                        names_view(known@),
                        (#[trigger] views(keys@)[k]).column,
                    ) is Some,
            decreases keys.len() - j,
        {
            if position(&known, &keys[j].column).is_none() {
                assert(index_of(names_view(known@), views(keys@)[j as int].column) is None);
                return Err(Error::InvalidPlan);
            }
            j = j + 1;
        }
        let ghost before = self@;
        let ghost added = views(keys@);
        let mut sort_keys = keys;
        let mut earlier = self.sort_keys;
        sort_keys.append(&mut earlier);
        let plan = Plan {
            table: self.table,
            group_keys: self.group_keys,
            aggregates: self.aggregates,
            projections: self.projections,
            sort_keys,
        };
        assert(plan@.sort_keys =~= added + before.sort_keys);
        assert(plan@.output_names() == before.output_names());
        Ok(plan)
    }
}

} // verus!
