//! From a query as written to the plan that the builder yields for the same
//! request.
//!
//! The select list decides the plan. The items that `GROUP BY` refers to
//! become the group key, in the order of the references. Every aggregate call
//! becomes an aggregate, in the order of the select list: under its alias
//! where it stands alone, under a name made of the function and the column
//! where it is an operand of arithmetic. A projection is placed only where
//! the select list is not already the list of the aggregated columns. The
//! plan is put together by the builder itself, so a query and a chain of
//! builder calls for the same request end in equal plans.

use vstd::prelude::*;
use vstd::string::*;

use crate::engine::{lemma_try_all_prefix_error, lemma_try_all_push, try_all};
use crate::error::{agrees, Error};
use crate::lexer::{tokenize, tokens_of};
use crate::names::{index_of, names_view, position};
use crate::plan::{
    key_alias_list, key_aliases, stage_names, views, Aggregate, AggregateView, Expr, ExprView,
    GroupKey, GroupKeyView, Measure, MeasureView, Plan, PlanView, Projection, ProjectionView,
    SortKey, SortKeyView,
};
use crate::text::{
    parse_query, parse_tokens, Item, ItemView, Query, QueryView, Reference, ReferenceView, Term,
    TermView,
};

verus! {

/// Whether the operand is an aggregate call.
pub open spec fn is_aggregate(t: TermView) -> bool {
    t is CountRows || t is Sum || t is Avg
}

/// The name of an operand that has no alias: the column that it reads, or the
/// function and the column of an aggregate call.
pub open spec fn default_name(t: TermView) -> Seq<char> {
    match t {
        TermView::Column(c) => c,
        TermView::Month(c) => c,
        TermView::CountRows => "count"@,
        TermView::Sum(c) => "sum_"@ + c,
        TermView::Avg(c) => "avg_"@ + c,
    }
}

/// The name of the column that an item yields.
pub open spec fn item_name(item: ItemView) -> Seq<char> {
    match item.alias {
        Some(a) => a,
        None => default_name(item.term),
    }
}

/// The names of the columns that the select list yields.
pub open spec fn item_names(items: Seq<ItemView>) -> Seq<Seq<char>> {
    Seq::new(items.len(), |i: int| item_name(items[i]))
}

/// Whether the item selects a column, as it is or truncated, without
/// aggregating it.
pub open spec fn is_key_item(item: ItemView) -> bool {
    item.second is None && !is_aggregate(item.term)
}

/// Arithmetic is supported between two aggregate calls and under an alias.
pub open spec fn supported_item(item: ItemView) -> bool {
    item.second matches Some((_, right)) ==> is_aggregate(item.term) && is_aggregate(right)
        && item.alias is Some
}

/// Every item of the select list is supported.
pub open spec fn supported_items(items: Seq<ItemView>) -> bool {
    forall|i: int| 0 <= i < items.len() ==> supported_item(#[trigger] items[i])
}

/// What an aggregate call measures.
pub open spec fn measure_of(t: TermView) -> MeasureView {
    match t {
        TermView::Sum(c) => MeasureView::Sum(c),
        TermView::Avg(c) => MeasureView::Avg(c),
        _ => MeasureView::CountRows,
    }
}

/// The group key expression that a key item stands for.
pub open spec fn key_of_item(item: ItemView) -> GroupKeyView {
    GroupKeyView {
        column: default_name(item.term),
        month: item.term is Month,
        alias: item_name(item),
    }
}

/// The item that a reference refers to: the item at the position, or the
/// first item of the name.
pub open spec fn referred(items: Seq<ItemView>, reference: ReferenceView) -> Option<int> {
    match reference {
        ReferenceView::Ordinal(n) => if 1 <= n <= items.len() {
            Some(n - 1)
        } else {
            None
        },
        ReferenceView::Name(w) => index_of(item_names(items), w),
    }
}

/// The group key expression that a reference of `GROUP BY` stands for. A
/// reference to no item or to an item that aggregates makes the plan invalid.
pub open spec fn group_key_of(items: Seq<ItemView>, reference: ReferenceView) -> Result<
    GroupKeyView,
    Error,
> {
    match referred(items, reference) {
        Some(i) => if is_key_item(items[i]) {
            Ok(key_of_item(items[i]))
        } else {
            Err(Error::InvalidPlan)
        },
        None => Err(Error::InvalidPlan),
    }
}

/// The group key of a query, or the first error among its references.
pub open spec fn group_keys_of(items: Seq<ItemView>, references: Seq<ReferenceView>) -> Result<
    Seq<GroupKeyView>,
    Error,
> {
    try_all(Seq::new(references.len(), |i: int| group_key_of(items, references[i])))
}

/// The grouping rule: every selected column that is not aggregated is part of
/// the group key.
pub open spec fn keys_cover_items(items: Seq<ItemView>, keys: Seq<GroupKeyView>) -> bool {
    forall|i: int|
        0 <= i < items.len() && is_key_item(#[trigger] items[i]) ==> index_of(
            key_aliases(keys),
            item_name(items[i]),
        ) is Some
}

/// The aggregates that one item asks for.
pub open spec fn aggregates_of_item(item: ItemView) -> Seq<AggregateView> {
    match item.second {
        Some((_, right)) => seq![
            AggregateView { measure: measure_of(item.term), alias: default_name(item.term) },
            AggregateView { measure: measure_of(right), alias: default_name(right) },
        ],
        None => if is_aggregate(item.term) {
            seq![AggregateView { measure: measure_of(item.term), alias: item_name(item) }]
        } else {
            Seq::empty()
        },
    }
}

/// The aggregates that the select list asks for, in its order.
pub open spec fn aggregates_of(items: Seq<ItemView>) -> Seq<AggregateView>
    decreases items.len(),
{
    if items.len() == 0 {
        Seq::empty()
    } else {
        aggregates_of(items.drop_last()) + aggregates_of_item(items.last())
    }
}

/// The output column that an item stands for, over the aggregated columns.
pub open spec fn projection_of(item: ItemView) -> ProjectionView {
    ProjectionView {
        expr: match item.second {
            Some((op, right)) => ExprView::Binary(
                op,
                Box::new(ExprView::Column(default_name(item.term))),
                Box::new(ExprView::Column(default_name(right))),
            ),
            None => ExprView::Column(item_name(item)),
        },
        alias: item_name(item),
    }
}

/// The output columns that the select list stands for, in its order.
pub open spec fn projections_of(items: Seq<ItemView>) -> Seq<ProjectionView> {
    Seq::new(items.len(), |i: int| projection_of(items[i]))
}

/// No item holds arithmetic.
pub open spec fn is_plain(items: Seq<ItemView>) -> bool {
    forall|i: int| 0 <= i < items.len() ==> (#[trigger] items[i]).second is None
}

/// The plan with the select list as its output: the plan itself where the
/// select list is the list of its aggregated columns, the plan under a
/// projection otherwise.
pub open spec fn shaped(base: PlanView, items: Seq<ItemView>) -> Result<PlanView, Error> {
    if is_plain(items) && item_names(items) == stage_names(base.group_keys, base.aggregates) {
        Ok(base)
    } else {
        base.selected(projections_of(items))
    }
}

/// The sort key that `ORDER BY` asks for. A position outside the select list
/// makes the plan invalid.
pub open spec fn sort_key_of(items: Seq<ItemView>, order: (ReferenceView, bool)) -> Result<
    SortKeyView,
    Error,
> {
    match order.0 {
        ReferenceView::Ordinal(n) => if 1 <= n <= items.len() {
            Ok(SortKeyView { column: item_name(items[n - 1]), ascending: order.1 })
        } else {
            Err(Error::InvalidPlan)
        },
        ReferenceView::Name(w) => Ok(SortKeyView { column: w, ascending: order.1 }),
    }
}

/// The plan in the order that the query asks for.
pub open spec fn arranged(
    plan: PlanView,
    items: Seq<ItemView>,
    order_by: Option<(ReferenceView, bool)>,
) -> Result<PlanView, Error> {
    match order_by {
        None => Ok(plan),
        Some(order) => match sort_key_of(items, order) {
            Err(e) => Err(e),
            Ok(key) => plan.sorted(seq![key]),
        },
    }
}

/// The plan of a query.
pub open spec fn plan_of(query: QueryView) -> Result<PlanView, Error> {
    if !supported_items(query.items) {
        Err(Error::UnsupportedQuery)
    } else {
        match group_keys_of(query.items, query.group_by) {
            Err(e) => Err(e),
            Ok(keys) => if !keys_cover_items(query.items, keys) {
                Err(Error::InvalidPlan)
            } else {
                match PlanView::aggregated(query.table, keys, aggregates_of(query.items)) {
                    Err(e) => Err(e),
                    Ok(base) => match shaped(base, query.items) {
                        Err(e) => Err(e),
                        Ok(plan) => arranged(plan, query.items, query.order_by),
                    },
                }
            },
        }
    }
}

/// The plan that a text asks for: the text is split into tokens, the tokens
/// are read as a query, and the query is turned into its plan. The first
/// step that fails decides the error.
pub open spec fn interpret(text: Seq<char>) -> Result<PlanView, Error> {
    match tokens_of(text) {
        Err(e) => Err(e),
        Ok(tokens) => match parse_tokens(tokens) {
            Err(e) => Err(e),
            Ok(query) => plan_of(query),
        },
    }
}

fn term_is_aggregate(t: &Term) -> (r: bool)
    ensures
        r == is_aggregate(t@),
{
    match t {
        Term::CountRows => true,
        Term::Sum(_) => true,
        Term::Avg(_) => true,
        _ => false,
    }
}

fn default_name_of(t: &Term) -> (name: String)
    ensures
        name@ == default_name(t@),
{
    match t {
        Term::Column(c) => c.clone(),
        Term::Month(c) => c.clone(),
        Term::CountRows => String::from_str("count"),
        Term::Sum(c) => {
            let mut name = String::from_str("sum_");
            name.append(c.as_str());
            name
        },
        Term::Avg(c) => {
            let mut name = String::from_str("avg_");
            name.append(c.as_str());
            name
        },
    }
}

fn item_name_of(item: &Item) -> (name: String)
    ensures
        name@ == item_name(item@),
{
    match &item.alias {
        Some(a) => a.clone(),
        None => default_name_of(&item.term),
    }
}

fn item_is_key(item: &Item) -> (r: bool)
    ensures
        r == is_key_item(item@),
{
    item.second.is_none() && !term_is_aggregate(&item.term)
}

fn measure_of_term(t: &Term) -> (m: Measure)
    ensures
        m@ == measure_of(t@),
{
    match t {
        Term::Sum(c) => Measure::Sum(c.clone()),
        Term::Avg(c) => Measure::Avg(c.clone()),
        _ => Measure::CountRows,
    }
}

fn item_name_list(items: &Vec<Item>) -> (names: Vec<String>)
    ensures
        names_view(names@) == item_names(views(items@)),
        names.len() == items.len(),
{
    let mut names: Vec<String> = Vec::new();
    let mut i: usize = 0;
    while i < items.len()
        invariant
            0 <= i <= items.len(),
            names.len() == i,
            forall|k: int| 0 <= k < i ==> (#[trigger] names@[k])@ == item_name(items@[k]@),
        decreases items.len() - i,
    {
        names.push(item_name_of(&items[i]));
        i = i + 1;
    }
    assert(names_view(names@) =~= item_names(views(items@)));
    names
}

fn items_supported(items: &Vec<Item>) -> (r: bool)
    ensures
        r == supported_items(views(items@)),
{
    let mut i: usize = 0;
    while i < items.len()
        invariant
            0 <= i <= items.len(),
            forall|k: int| 0 <= k < i ==> supported_item(#[trigger] views(items@)[k]),
        decreases items.len() - i,
    {
        let item = &items[i];
        let fine = match &item.second {
            Some(second) => term_is_aggregate(&item.term) && term_is_aggregate(&second.1)
                && item.alias.is_some(),
            None => true,
        };
        if !fine {
            assert(!supported_item(views(items@)[i as int]));
            return false;
        }
        i = i + 1;
    }
    true
}

fn referred_item(items: &Vec<Item>, names: &Vec<String>, reference: &Reference) -> (r: Option<usize>)
    requires
        names_view(names@) == item_names(views(items@)),
        names.len() == items.len(),
    ensures
        r is Some == referred(views(items@), reference@) is Some,
        r matches Some(i) ==> referred(views(items@), reference@) == Some(i as int) && i
            < items.len(),
{
    match reference {
        Reference::Ordinal(n) => {
            if 1 <= *n && *n <= items.len() as u64 {
                Some((*n - 1) as usize)
            } else {
                None
            }
        },
        Reference::Name(w) => position(names, w),
    }
}

fn key_for_item(item: &Item) -> (key: GroupKey)
    ensures
        key@ == key_of_item(item@),
{
    let month = match &item.term {
        Term::Month(_) => true,
        _ => false,
    };
    GroupKey { column: default_name_of(&item.term), month, alias: item_name_of(item) }
}

fn group_key_for(items: &Vec<Item>, names: &Vec<String>, reference: &Reference) -> (r: Result<
    GroupKey,
    Error,
>)
    requires
        names_view(names@) == item_names(views(items@)),
        names.len() == items.len(),
    ensures
        agrees(r, group_key_of(views(items@), reference@)),
{
    match referred_item(items, names, reference) {
        Some(i) => {
            if item_is_key(&items[i]) {
                Ok(key_for_item(&items[i]))
            } else {
                Err(Error::InvalidPlan)
            }
        },
        None => Err(Error::InvalidPlan),
    }
}

fn group_keys_for(items: &Vec<Item>, names: &Vec<String>, references: &Vec<Reference>) -> (r:
    Result<Vec<GroupKey>, Error>)
    requires
        names_view(names@) == item_names(views(items@)),
        names.len() == items.len(),
    ensures
        r matches Ok(keys) ==> group_keys_of(views(items@), views(references@)) == Ok::<
            Seq<GroupKeyView>,
            Error,
        >(views(keys@)),
        r matches Err(e) ==> group_keys_of(views(items@), views(references@)) == Err::<
            Seq<GroupKeyView>,
            Error,
        >(e),
{
    let ghost outcomes = Seq::new(
        references.len() as nat,
        |i: int| group_key_of(views(items@), views(references@)[i]),
    );
    let mut keys: Vec<GroupKey> = Vec::new();
    let mut i: usize = 0;
    assert(outcomes.take(0) =~= Seq::empty());
    assert(views(keys@) =~= Seq::empty());
    while i < references.len()
        invariant
            0 <= i <= references.len(),
            names_view(names@) == item_names(views(items@)),
            names.len() == items.len(),
            outcomes.len() == references.len(),
            forall|k: int|
                0 <= k < references.len() ==> #[trigger] outcomes[k] == group_key_of(
                    views(items@),
                    references@[k]@,
                ),
            group_keys_of(views(items@), views(references@)) == try_all(outcomes),
            try_all(outcomes.take(i as int)) == Ok::<Seq<GroupKeyView>, Error>(views(keys@)),
        decreases references.len() - i,
    {
        let found = group_key_for(items, names, &references[i]);
        let ghost earlier = views(keys@);
        proof {
            assert(outcomes.take(i + 1) =~= outcomes.take(i as int).push(outcomes[i as int]));
            lemma_try_all_push(outcomes.take(i as int), outcomes[i as int]);
        }
        match found {
            Err(e) => {
                proof {
                    lemma_try_all_prefix_error(outcomes, i + 1);
                }
                return Err(e);
            },
            Ok(key) => {
                let ghost added = key@;
                keys.push(key);
                assert(views(keys@) =~= earlier.push(added));
            },
        }
        i = i + 1;
    }
    proof {
        assert(outcomes.take(i as int) =~= outcomes);
    }
    Ok(keys)
}

fn keys_cover(items: &Vec<Item>, keys: &Vec<GroupKey>) -> (r: bool)
    ensures
        r == keys_cover_items(views(items@), views(keys@)),
{
    let aliases = key_alias_list(keys);
    let mut i: usize = 0;
    while i < items.len()
        invariant
            0 <= i <= items.len(),
            names_view(aliases@) == key_aliases(views(keys@)),
            forall|k: int|
                0 <= k < i && is_key_item(#[trigger] views(items@)[k]) ==> index_of(
                    key_aliases(views(keys@)),
                    item_name(views(items@)[k]),
                ) is Some,
        decreases items.len() - i,
    {
        if item_is_key(&items[i]) {
            let name = item_name_of(&items[i]);
            if position(&aliases, &name).is_none() {
                assert(is_key_item(views(items@)[i as int]));
                return false;
            }
        }
        i = i + 1;
    }
    true
}

fn aggregates_for(items: &Vec<Item>) -> (aggregates: Vec<Aggregate>)
    ensures
        views(aggregates@) == aggregates_of(views(items@)),
{
    let mut aggregates: Vec<Aggregate> = Vec::new();
    let mut i: usize = 0;
    assert(views(items@).take(0) =~= Seq::empty());
    assert(views(aggregates@) =~= Seq::empty());
    while i < items.len()
        invariant
            0 <= i <= items.len(),
            views(aggregates@) == aggregates_of(views(items@).take(i as int)),
        decreases items.len() - i,
    {
        let item = &items[i];
        let ghost earlier = views(aggregates@);
        proof {
            assert(views(items@).take(i + 1).drop_last() =~= views(items@).take(i as int));
            assert(views(items@).take(i + 1).last() == item@);
        }
        match &item.second {
            Some(second) => {
                let left = Aggregate {
                    measure: measure_of_term(&item.term),
                    alias: default_name_of(&item.term),
                };
                let right = Aggregate {
                    measure: measure_of_term(&second.1),
                    alias: default_name_of(&second.1),
                };
                let ghost l = left@;
                let ghost r = right@;
                aggregates.push(left);
                aggregates.push(right);
                assert(views(aggregates@) =~= earlier + seq![l, r]);
            },
            None => {
                if term_is_aggregate(&item.term) {
                    let only = Aggregate {
                        measure: measure_of_term(&item.term),
                        alias: item_name_of(item),
                    };
                    let ghost o = only@;
                    aggregates.push(only);
                    assert(views(aggregates@) =~= earlier + seq![o]);
                } else {
                    assert(views(aggregates@) =~= earlier + Seq::<AggregateView>::empty());
                }
            },
        }
        i = i + 1;
    }
    assert(views(items@).take(i as int) =~= views(items@));
    aggregates
}

fn items_plain(items: &Vec<Item>) -> (r: bool)
    ensures
        r == is_plain(views(items@)),
{
    let mut i: usize = 0;
    while i < items.len()
        invariant
            0 <= i <= items.len(),
            forall|k: int| 0 <= k < i ==> (#[trigger] views(items@)[k]).second is None,
        decreases items.len() - i,
    {
        if items[i].second.is_some() {
            assert(views(items@)[i as int].second is Some);
            return false;
        }
        i = i + 1;
    }
    true
}

fn same_names(a: &Vec<String>, b: &Vec<String>) -> (r: bool)
    ensures
        r == (names_view(a@) == names_view(b@)),
{
    if a.len() != b.len() {
        assert(names_view(a@).len() != names_view(b@).len());
        return false;
    }
    let mut i: usize = 0;
    while i < a.len()
        invariant
            0 <= i <= a.len(),
            a.len() == b.len(),
            forall|k: int| 0 <= k < i ==> a@[k]@ == b@[k]@,
        decreases a.len() - i,
    {
        if !(a[i] == b[i]) {
            assert(names_view(a@)[i as int] != names_view(b@)[i as int]);
            return false;
        }
        i = i + 1;
    }
    assert(names_view(a@) =~= names_view(b@));
    true
}

fn projection_for(item: &Item) -> (p: Projection)
    ensures
        p@ == projection_of(item@),
{
    let expr = match &item.second {
        Some(second) => Expr::Binary(
            second.0,
            Box::new(Expr::Column(default_name_of(&item.term))),
            Box::new(Expr::Column(default_name_of(&second.1))),
        ),
        None => Expr::Column(item_name_of(item)),
    };
    proof {
        reveal_with_fuel(crate::plan::expr_view, 2);
    }
    Projection { expr, alias: item_name_of(item) }
}

fn projections_for(items: &Vec<Item>) -> (projections: Vec<Projection>)
    ensures
        views(projections@) == projections_of(views(items@)),
{
    let mut projections: Vec<Projection> = Vec::new();
    let mut i: usize = 0;
    while i < items.len()
        invariant
            0 <= i <= items.len(),
            projections.len() == i,
            forall|k: int| 0 <= k < i ==> (#[trigger] projections@[k])@ == projection_of(items@[k]@),
        decreases items.len() - i,
    {
        projections.push(projection_for(&items[i]));
        i = i + 1;
    }
    assert(views(projections@) =~= projections_of(views(items@)));
    projections
}

fn sort_key_for(items: &Vec<Item>, reference: &Reference, ascending: bool) -> (r: Result<
    SortKey,
    Error,
>)
    ensures
        agrees(r, sort_key_of(views(items@), (reference@, ascending))),
{
    match reference {
        Reference::Ordinal(n) => {
            if 1 <= *n && *n <= items.len() as u64 {
                let i = (*n - 1) as usize;
                Ok(SortKey { column: item_name_of(&items[i]), ascending })
            } else {
                Err(Error::InvalidPlan)
            }
        },
        Reference::Name(w) => Ok(SortKey { column: w.clone(), ascending }),
    }
}

/// Turns a query into its plan; see [`plan_of`].
pub fn plan_query(query: &Query) -> (r: Result<Plan, Error>)
    ensures
        agrees(r, plan_of(query@)),
        r matches Ok(plan) ==> plan@.wf(),
{
    if !items_supported(&query.items) {
        return Err(Error::UnsupportedQuery);
    }
    let names = item_name_list(&query.items);
    let keys = match group_keys_for(&query.items, &names, &query.group_by) {
        Ok(keys) => keys,
        Err(e) => {
            return Err(e);
        },
    };
    if !keys_cover(&query.items, &keys) {
        return Err(Error::InvalidPlan);
    }
    let aggregates = aggregates_for(&query.items);
    let base = match Plan::aggregate(query.table.clone(), keys, aggregates) {
        Ok(base) => base,
        Err(e) => {
            return Err(e);
        },
    };
    let stage = base.stage_columns();
    let plan = if items_plain(&query.items) && same_names(&names, &stage) {
        base
    } else {
        match base.select(projections_for(&query.items)) {
            Ok(plan) => plan,
            Err(e) => {
                return Err(e);
            },
        }
    };
    match &query.order_by {
        None => Ok(plan),
        Some(order) => {
            let key = match sort_key_for(&query.items, &order.0, order.1) {
                Ok(key) => key,
                Err(e) => {
                    return Err(e);
                },
            };
            let ghost k = key@;
            let mut keys: Vec<SortKey> = Vec::new();
            keys.push(key);
            assert(views(keys@) =~= seq![k]);
            plan.sort(keys)
        },
    }
}

/// Reads the plan that a text asks for; see [`interpret`].
pub fn parse(text: &str) -> (r: Result<Plan, Error>)
    ensures
        agrees(r, interpret(text@)),
        r matches Ok(plan) ==> plan@.wf(),
{
    let tokens = match tokenize(text) {
        Ok(tokens) => tokens,
        Err(e) => {
            return Err(e);
        },
    };
    let query = match parse_query(&tokens) {
        Ok(query) => query,
        Err(e) => {
            return Err(e);
        },
    };
    plan_query(&query)
}

} // verus!
