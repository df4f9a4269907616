//! Query plans: what a statement of the supported SQL subset asks for.

use vstd::prelude::*;
use vstd::string::*;
use crate::error::{Error, ErrorKind};
use crate::query::sql::{
    error_text, expr_call, expr_text, item_parts, parse_statements, query_limit, query_order_by,
    call_arguments, expr_parts, number_text, query_has_with, query_select, query_text,
    select_group_by, spec_query_text,
    select_having, select_items, select_selection, select_tables, spec_call_arguments,
    spec_call_view, spec_counted, spec_expr_call, spec_expr_shape, spec_expr_text, spec_exprs,
    spec_flagged, spec_item_shape, spec_limit_view, spec_number_text, spec_opt_texts,
    spec_ordered, spec_parse_sql, spec_query_has_with, spec_query_limit, spec_query_order_by,
    spec_query_select, spec_select_group_by, spec_select_having, spec_select_items,
    spec_select_selection, spec_select_tables, spec_statement_query, spec_uppercase,
    statement_query, uppercase, ArgParts, ArgShape, ExprParts, ExprShape, ItemParts, ItemShape,
};
use crate::text::{
    chars_of, contains_text, is_space, parse_nat, spec_contains_text, spec_is_space,
    spec_parse_nat, spec_texts,
};
use sqlparser::ast::{Expr, Query, Select};

pub mod executor;
pub mod sql;

verus! {

/// Supported aggregation functions.
#[derive(Debug, Clone, Copy, PartialEq, Eq, Structural)]
pub enum AggregateFunction {
    Sum,
    Avg,
    Count,
    Min,
    Max,
}

/// Direction of an ORDER BY clause.
#[derive(Debug, Clone, Copy, PartialEq, Eq, Structural)]
pub enum OrderDirection {
    /// Smallest first.
    Asc,
    /// Largest first.
    Desc,
}

/// An aggregation: the function, the column it is applied to, and the name
/// of the result if the statement gives one.
pub type Aggregation = (AggregateFunction, String, Option<String>);

/// A parsed query.
#[derive(Debug, Clone)]
pub struct QueryPlan {
    /// Selected columns; a single `*` selects all.
    pub columns: Vec<String>,
    /// Table name.
    pub table: String,
    /// WHERE clause as `column operator literal`.
    pub filter: Option<String>,
    /// GROUP BY columns.
    pub group_by: Vec<String>,
    /// Aggregations, in the order of the select list.
    pub aggregations: Vec<Aggregation>,
    /// ORDER BY clauses.
    pub order_by: Vec<(String, OrderDirection)>,
    /// LIMIT, if any.
    pub limit: Option<usize>,
}

/// An aggregation as contracts see it.
pub struct AggregationView {
    pub function: AggregateFunction,
    pub column: Seq<char>,
    pub alias: Option<Seq<char>>,
}

/// A plan as contracts see it.
pub struct PlanView {
    pub columns: Seq<Seq<char>>,
    pub table: Seq<char>,
    pub filter: Option<Seq<char>>,
    pub group_by: Seq<Seq<char>>,
    pub aggregations: Seq<AggregationView>,
    pub order_by: Seq<(Seq<char>, OrderDirection)>,
    pub limit: Option<usize>,
}

/// The view of an optional string.
pub open spec fn spec_opt_text(s: Option<String>) -> Option<Seq<char>> {
    match s {
        Some(t) => Some(t@),
        None => None,
    }
}

/// The view of an aggregation.
pub open spec fn spec_aggregation(a: Aggregation) -> AggregationView {
    AggregationView { function: a.0, column: a.1@, alias: spec_opt_text(a.2) }
}

impl View for QueryPlan {
    type V = PlanView;

    open spec fn view(&self) -> PlanView {
        PlanView {
            columns: spec_texts(self.columns@),
            table: self.table@,
            filter: spec_opt_text(self.filter),
            group_by: spec_texts(self.group_by@),
            aggregations: Seq::new(
                self.aggregations@.len(),
                |i: int| spec_aggregation(self.aggregations@[i]),
            ),
            order_by: Seq::new(
                self.order_by@.len(),
                |i: int| (self.order_by@[i].0@, self.order_by@[i].1),
            ),
            limit: self.limit,
        }
    }
}

/// A function call in a select list: the name as written and, where the
/// arguments are a plain list, the text of each.
#[derive(Debug, Clone)]
pub struct CallOutline {
    pub name: String,
    pub args: Option<Vec<String>>,
}

/// An item of a select list.
#[derive(Debug, Clone)]
pub enum ItemOutline {
    /// `*`
    Wildcard,
    /// `table.*`
    QualifiedWildcard,
    /// An expression: its text, the call if it is one, and its alias if it
    /// has one.
    ///
    /// `simple` says whether the expression is within the grammar: a call,
    /// or a name, a literal or one operation on names and literals.
    Expr { text: String, call: Option<CallOutline>, alias: Option<String>, simple: bool },
}

/// What the plan is made from: the clauses of one SELECT, as text.
#[derive(Debug, Clone)]
pub struct SelectOutline {
    /// FROM: the text of each relation, the number of its joins, and
    /// whether it is a table by its name.
    pub tables: Vec<(String, usize, bool)>,
    /// The select list.
    pub items: Vec<ItemOutline>,
    /// WHERE: the text of the expression, and whether it is a name, a
    /// literal or one operation on names and literals.
    pub filter: Option<(String, bool)>,
    /// GROUP BY; `None` for GROUP BY ALL.
    pub group_by: Option<Vec<String>>,
    /// ORDER BY: each expression and its direction, where one is written
    /// (`true` for ascending).
    pub order_by: Vec<(String, Option<bool>)>,
    /// LIMIT: whether there is one, and the text of its number if it is a
    /// numeric literal.
    pub limit: Option<Option<String>>,
    /// Whether the rest of the statement is within the grammar: it begins
    /// with no WITH clause, every expression of GROUP BY, HAVING, ORDER BY
    /// and LIMIT is a name, a literal or one operation on names and
    /// literals, and no query begins inside it.
    pub rest_plain: bool,
}

/// A call as contracts see it.
pub struct CallView {
    pub name: Seq<char>,
    pub args: Option<Seq<Seq<char>>>,
}

/// An item as contracts see it.
pub enum ItemView {
    Wildcard,
    QualifiedWildcard,
    Expr { text: Seq<char>, call: Option<CallView>, alias: Option<Seq<char>>, simple: bool },
}

/// An outline as contracts see it.
pub struct OutlineView {
    pub tables: Seq<(Seq<char>, nat, bool)>,
    pub items: Seq<ItemView>,
    pub filter: Option<(Seq<char>, bool)>,
    pub group_by: Option<Seq<Seq<char>>>,
    pub order_by: Seq<(Seq<char>, Option<bool>)>,
    pub limit: Option<Option<Seq<char>>>,
    pub rest_plain: bool,
}

/// The view of an optional call.
pub open spec fn spec_call(c: Option<CallOutline>) -> Option<CallView> {
    match c {
        Some(call) => Some(CallView { name: call.name@, args: spec_opt_texts(call.args) }),
        None => None,
    }
}

impl View for ItemOutline {
    type V = ItemView;

    open spec fn view(&self) -> ItemView {
        match self {
            ItemOutline::Wildcard => ItemView::Wildcard,
            ItemOutline::QualifiedWildcard => ItemView::QualifiedWildcard,
            ItemOutline::Expr { text, call, alias, simple } => ItemView::Expr {
                text: text@,
                call: spec_call(*call),
                alias: spec_opt_text(*alias),
                simple: *simple,
            },
        }
    }
}

impl View for SelectOutline {
    type V = OutlineView;

    open spec fn view(&self) -> OutlineView {
        OutlineView {
            tables: spec_counted(self.tables@),
            items: Seq::new(self.items@.len(), |i: int| self.items@[i]@),
            filter: match self.filter {
                Some((text, plain)) => Some((text@, plain)),
                None => None,
            },
            group_by: spec_opt_texts(self.group_by),
            order_by: spec_flagged(self.order_by@),
            limit: spec_limit_view(self.limit),
            rest_plain: self.rest_plain,
        }
    }
}

/// The aggregate function that a name in upper case stands for.
pub open spec fn spec_aggregate_function(upper: Seq<char>) -> Option<AggregateFunction> {
    if upper == "SUM"@ {
        Some(AggregateFunction::Sum)
    } else if upper == "AVG"@ {
        Some(AggregateFunction::Avg)
    } else if upper == "COUNT"@ {
        Some(AggregateFunction::Count)
    } else if upper == "MIN"@ {
        Some(AggregateFunction::Min)
    } else if upper == "MAX"@ {
        Some(AggregateFunction::Max)
    } else {
        None
    }
}

/// The aggregation that a call is: the function that its name stands for,
/// whatever the case of its letters, and its first argument, or `*` where
/// it has none.
pub open spec fn spec_call_aggregate(call: Option<CallView>) -> Option<
    (AggregateFunction, Seq<char>),
> {
    match call {
        None => None,
        Some(c) => match spec_aggregate_function(spec_uppercase(c.name)) {
            None => None,
            Some(f) => Some(
                (
                    f,
                    match c.args {
                        Some(args) => if args.len() > 0 {
                            args[0]
                        } else {
                            "*"@
                        },
                        None => "*"@,
                    },
                ),
            ),
        },
    }
}

/// The columns and the aggregations of the first `upto` items of a select
/// list; nothing if one of them is a qualified wildcard or an expression
/// that is not simple. A wildcard is the
/// column `*`. An expression that is an aggregation joins the
/// aggregations, with its alias; any other joins the columns, under its
/// alias if it has one and else as its text.
pub open spec fn spec_select_list(items: Seq<ItemView>, upto: int) -> Option<
    (Seq<Seq<char>>, Seq<AggregationView>),
>
    decreases upto,
{
    if upto <= 0 {
        Some((Seq::empty(), Seq::empty()))
    } else {
        match spec_select_list(items, upto - 1) {
            None => None,
            Some((columns, aggregations)) => match items[upto - 1] {
                ItemView::Wildcard => Some((columns.push("*"@), aggregations)),
                ItemView::QualifiedWildcard => None,
                ItemView::Expr { text, call, alias, simple } => if !simple {
                    None
                } else {
                    match spec_call_aggregate(call) {
                        Some((function, column)) => Some(
                            (
                                columns,
                                aggregations.push(AggregationView { function, column, alias }),
                            ),
                        ),
                        None => Some(
                            (
                                columns.push(
                                    match alias {
                                        Some(a) => a,
                                        None => text,
                                    },
                                ),
                                aggregations,
                            ),
                        ),
                    }
                },
            },
        }
    }
}

/// Once an item has no place in the list, the later ones do not change
/// that.
pub proof fn lemma_select_list_settles(items: Seq<ItemView>, upto: int, later: int)
    requires
        0 <= upto <= later,
        spec_select_list(items, upto) is None,
    ensures
        spec_select_list(items, later) is None,
    decreases later - upto,
{
    if upto < later {
        lemma_select_list_settles(items, upto, later - 1);
    }
}

/// The directions of ORDER BY: ascending where none is written.
pub open spec fn spec_directions(order_by: Seq<(Seq<char>, Option<bool>)>) -> Seq<
    (Seq<char>, OrderDirection),
> {
    Seq::new(
        order_by.len(),
        |i: int|
            (
                order_by[i].0,
                match order_by[i].1 {
                    Some(false) => OrderDirection::Desc,
                    _ => OrderDirection::Asc,
                },
            ),
    )
}

/// The limit of a plan: the number that the text of a numeric literal
/// writes, if it is a natural number that a machine word holds.
pub open spec fn spec_limit(limit: Option<Option<Seq<char>>>) -> Option<usize> {
    match limit {
        Some(Some(text)) => match spec_parse_nat(text) {
            Some(n) => if n <= usize::MAX {
                Some(n as usize)
            } else {
                None
            },
            None => None,
        },
        _ => None,
    }
}

/// The plan of an outline, or nothing where the outline is outside the
/// supported subset: more than one table, a join, a relation that is no
/// table by its name (a subquery), a filter that is more than one
/// operation on names and literals, a WITH clause or another clause with
/// such an expression, a qualified wildcard, or an item that is not
/// simple. Without a table the table name is empty.
pub open spec fn spec_plan(o: OutlineView) -> Option<PlanView> {
    if o.tables.len() > 1 {
        None
    } else if o.tables.len() == 1 && (o.tables[0].1 > 0 || !o.tables[0].2) {
        None
    } else if o.filter matches Some(f) && !f.1 {
        None
    } else if !o.rest_plain {
        None
    } else {
        match spec_select_list(o.items, o.items.len() as int) {
            None => None,
            Some((columns, aggregations)) => Some(
                PlanView {
                    columns,
                    table: if o.tables.len() == 0 {
                        Seq::empty()
                    } else {
                        o.tables[0].0
                    },
                    filter: match o.filter {
                        Some(f) => Some(f.0),
                        None => None,
                    },
                    group_by: match o.group_by {
                        Some(g) => g,
                        None => Seq::empty(),
                    },
                    aggregations,
                    order_by: spec_directions(o.order_by),
                    limit: spec_limit(o.limit),
                },
            ),
        }
    }
}

/// A copy of the texts.
pub fn clone_texts(v: &Vec<String>) -> (r: Vec<String>)
    ensures
        spec_texts(r@) == spec_texts(v@),
{
    let n = v.len();
    let mut r: Vec<String> = Vec::with_capacity(n);
    let mut i: usize = 0;
    while i < n
        invariant
            n == v@.len(),
            i <= n,
            r@.len() == i,
            forall|j: int| 0 <= j < i ==> r@[j]@ == v@[j]@,
        decreases n - i,
    {
        r.push(v[i].clone());
        i += 1;
    }
    assert(spec_texts(r@) =~= spec_texts(v@));
    r
}

/// The aggregation that a call is: see [`spec_call_aggregate`].
pub fn extract_aggregate(call: &Option<CallOutline>) -> (r: Option<(AggregateFunction, String)>)
    ensures
        match r {
            Some((f, column)) => spec_call_aggregate(spec_call(*call)) == Some((f, column@)),
            None => spec_call_aggregate(spec_call(*call)) is None,
        },
{
    let c = match call {
        Some(c) => c,
        None => {
            return None;
        },
    };
    let upper = uppercase(c.name.as_str());
    let function = if upper == String::from_str("SUM") {
        AggregateFunction::Sum
    } else if upper == String::from_str("AVG") {
        AggregateFunction::Avg
    } else if upper == String::from_str("COUNT") {
        AggregateFunction::Count
    } else if upper == String::from_str("MIN") {
        AggregateFunction::Min
    } else if upper == String::from_str("MAX") {
        AggregateFunction::Max
    } else {
        return None;
    };
    let column = match &c.args {
        Some(args) => if args.len() > 0 {
            assert(spec_texts(args@)[0] == args@[0]@);
            args[0].clone()
        } else {
            String::from_str("*")
        },
        None => String::from_str("*"),
    };
    Some((function, column))
}

/// Makes the plan of an outline: see [`spec_plan`]. Fails with `ParseError`
/// where the outline is outside the supported subset.
pub fn plan_from_outline(o: &SelectOutline) -> (r: Result<QueryPlan, Error>)
    ensures
        match r {
            Ok(plan) => spec_plan(o@) == Some(plan@),
            Err(e) => spec_plan(o@) is None && e.spec_kind() == ErrorKind::ParseError,
        },
{
    if o.tables.len() > 1 {
        return Err(Error::ParseError(String::from_str("Multiple tables not supported")));
    }
    let table = if o.tables.len() == 0 {
        String::new()
    } else {
        assert(o@.tables[0] == (o.tables@[0].0@, o.tables@[0].1 as nat, o.tables@[0].2));
        if o.tables[0].1 > 0 {
            return Err(Error::ParseError(String::from_str("JOINs not supported")));
        }
        if !o.tables[0].2 {
            return Err(Error::ParseError(String::from_str("Subqueries not supported")));
        }
        o.tables[0].0.clone()
    };
    let filter = match &o.filter {
        Some(f) => {
            if !f.1 {
                return Err(
                    Error::ParseError(
                        String::from_str("Only filters of the form column OP literal supported"),
                    ),
                );
            }
            Some(f.0.clone())
        },
        None => None,
    };
    if !o.rest_plain {
        return Err(Error::ParseError(String::from_str("Subqueries not supported")));
    }
    let n = o.items.len();
    let ghost items = o@.items;
    let mut columns: Vec<String> = Vec::new();
    let mut aggregations: Vec<Aggregation> = Vec::new();
    let ghost mut agg_views: Seq<AggregationView> = Seq::empty();
    let mut i: usize = 0;
    while i < n
        invariant
            n == o.items@.len(),
            items == o@.items,
            i <= n,
            agg_views.len() == aggregations@.len(),
            forall|k: int|
                0 <= k < agg_views.len() ==> agg_views[k] == spec_aggregation(
                    #[trigger] aggregations@[k],
                ),
            spec_select_list(items, i as int) == Some((spec_texts(columns@), agg_views)),
        decreases n - i,
    {
        assert(items[i as int] == o.items@[i as int]@);
        let ghost before = spec_texts(columns@);
        match &o.items[i] {
            ItemOutline::Wildcard => {
                columns.push(String::from_str("*"));
                assert(spec_texts(columns@) =~= before.push("*"@));
            },
            ItemOutline::QualifiedWildcard => {
                proof {
                    assert(spec_select_list(items, i + 1) is None);
                    lemma_select_list_settles(items, i + 1, n as int);
                }
                return Err(Error::ParseError(String::from_str("Qualified wildcards not supported")));
            },
            ItemOutline::Expr { text, call, alias, simple } => {
                if !*simple {
                    proof {
                        assert(spec_select_list(items, i + 1) is None);
                        lemma_select_list_settles(items, i + 1, n as int);
                    }
                    return Err(
                        Error::ParseError(String::from_str("Subqueries not supported")),
                    );
                }
                match extract_aggregate(call) {
                    Some((function, column)) => {
                        let kept = match alias {
                            Some(a) => Some(a.clone()),
                            None => None,
                        };
                        proof {
                            agg_views = agg_views.push(
                                AggregationView {
                                    function,
                                    column: column@,
                                    alias: spec_opt_text(*alias),
                                },
                            );
                        }
                        aggregations.push((function, column, kept));
                    },
                    None => {
                        let name = match alias {
                            Some(a) => a.clone(),
                            None => text.clone(),
                        };
                        columns.push(name);
                        assert(spec_texts(columns@) =~= before.push(name@));
                    },
                }
            },
        }
        i += 1;
    }
    let group_by = match &o.group_by {
        Some(g) => clone_texts(g),
        None => Vec::new(),
    };
    let m = o.order_by.len();
    let mut order_by: Vec<(String, OrderDirection)> = Vec::with_capacity(m);
    let mut j: usize = 0;
    while j < m
        invariant
            m == o.order_by@.len(),
            j <= m,
            order_by@.len() == j,
            forall|k: int|
                0 <= k < j ==> (#[trigger] order_by@[k]).0@ == o.order_by@[k].0@ && order_by@[k].1
                    == spec_directions(o@.order_by)[k].1,
        decreases m - j,
    {
        let entry = &o.order_by[j];
        assert(o@.order_by[j as int] == (entry.0@, entry.1));
        let direction = match entry.1 {
            Some(false) => OrderDirection::Desc,
            _ => OrderDirection::Asc,
        };
        order_by.push((entry.0.clone(), direction));
        j += 1;
    }
    let limit = match &o.limit {
        Some(Some(text)) => match parse_nat(text.as_str(), usize::MAX as u64) {
            Some(v) => Some(v as usize),
            None => None,
        },
        _ => None,
    };
    let plan = QueryPlan { columns, table, filter, group_by, aggregations, order_by, limit };
    proof {
        let want = spec_plan(o@)->Some_0;
        assert(plan@.aggregations =~= agg_views);
        assert(plan@.order_by =~= spec_directions(o@.order_by));
        assert(plan@.group_by =~= want.group_by);
        assert(plan@.table =~= want.table);
    }
    Ok(plan)
}

/// Whether an expression is a name or a literal.
pub open spec fn spec_atom(e: Expr) -> bool {
    spec_expr_shape(e) is Name || spec_expr_shape(e) is Literal
}

/// Whether an expression is a name or a literal, with or without one
/// operator before it.
pub open spec fn spec_operand(e: Expr) -> bool {
    spec_atom(e) || match spec_expr_shape(e) {
        ExprShape::Unary(x) => spec_atom(x),
        _ => false,
    }
}

/// Whether an expression is an operand, or one operator between two
/// operands: what a filter `column OP literal` is.
pub open spec fn spec_plain(e: Expr) -> bool {
    spec_operand(e) || match spec_expr_shape(e) {
        ExprShape::Binary(l, r) => spec_operand(l) && spec_operand(r),
        _ => false,
    }
}

/// Whether an argument of a call is a wildcard, a name or a literal.
pub open spec fn spec_flat_argument(a: ArgShape) -> bool {
    match a {
        ArgShape::Wildcard => true,
        ArgShape::Unnamed(e) => spec_atom(e),
        ArgShape::Other => false,
    }
}

/// Whether an expression is a call with a plain list of arguments, each a
/// wildcard, a name or a literal.
pub open spec fn spec_flat_call(e: Expr) -> bool {
    match spec_call_arguments(e) {
        Some(args) => spec_flat_arguments(args),
        None => false,
    }
}

/// Whether every argument is a wildcard, a name or a literal.
pub open spec fn spec_flat_arguments(args: Seq<ArgShape>) -> bool {
    forall|i: int| 0 <= i < args.len() ==> spec_flat_argument(#[trigger] args[i])
}

/// Whether an expression may stand in a select list: a plain expression,
/// or a call of names and literals.
pub open spec fn spec_simple(e: Expr) -> bool {
    spec_plain(e) || (spec_expr_shape(e) is Call && spec_flat_call(e))
}

/// Whether every expression is plain.
pub open spec fn spec_all_plain(exprs: Seq<Expr>) -> bool {
    forall|i: int| 0 <= i < exprs.len() ==> spec_plain(#[trigger] exprs[i])
}

/// How a query inside another begins, as the parser prints it.
pub open spec fn spec_subquery_mark() -> Seq<char> {
    "(SELECT"@
}

/// Whether the clauses of a statement other than FROM, WHERE and the
/// select list are within the grammar: there is no WITH clause, every
/// expression of GROUP BY, HAVING, ORDER BY and LIMIT is plain, and
/// nowhere in the printed statement does a query begin inside another.
/// (A text literal that holds the mark of such a beginning is taken for
/// one.)
pub open spec fn spec_rest_plain(q: Query, s: Select) -> bool {
    &&& !spec_query_has_with(q)
    &&& !spec_contains_text(spec_query_text(q), spec_subquery_mark())
    &&& match spec_select_group_by(s) {
        Some(exprs) => spec_all_plain(exprs),
        None => true,
    }
    &&& match spec_select_having(s) {
        Some(e) => spec_plain(e),
        None => true,
    }
    &&& forall|i: int|
        0 <= i < spec_query_order_by(q).len() ==> spec_plain((#[trigger] spec_query_order_by(q)[i]).0)
    &&& match spec_query_limit(q) {
        Some(e) => spec_plain(e),
        None => true,
    }
}

fn is_atom(e: &Expr) -> (r: bool)
    ensures
        r == spec_atom(*e),
{
    match expr_parts(e) {
        ExprParts::Name => true,
        ExprParts::Literal => true,
        _ => false,
    }
}

fn is_operand(e: &Expr) -> (r: bool)
    ensures
        r == spec_operand(*e),
{
    match expr_parts(e) {
        ExprParts::Name => true,
        ExprParts::Literal => true,
        ExprParts::Unary(x) => is_atom(x),
        _ => false,
    }
}

fn is_plain(e: &Expr) -> (r: bool)
    ensures
        r == spec_plain(*e),
{
    match expr_parts(e) {
        ExprParts::Name => true,
        ExprParts::Literal => true,
        ExprParts::Unary(x) => is_atom(x),
        ExprParts::Binary(l, r) => is_operand(l) && is_operand(r),
        _ => false,
    }
}

fn is_flat_call(e: &Expr) -> (r: bool)
    ensures
        r == spec_flat_call(*e),
{
    match call_arguments(e) {
        None => false,
        Some(args) => {
            let ghost shapes = spec_call_arguments(*e)->Some_0;
            let n = args.len();
            let mut i: usize = 0;
            while i < n
                invariant
                    n == args@.len(),
                    spec_call_arguments(*e) == Some(shapes),
                    shapes.len() == n,
                    forall|j: int| 0 <= j < n ==> shapes[j] == (#[trigger] args@[j]).shape(),
                    i <= n,
                    forall|j: int| 0 <= j < i ==> spec_flat_argument(#[trigger] shapes[j]),
                decreases n - i,
            {
                let flat = match &args[i] {
                    ArgParts::Wildcard => true,
                    ArgParts::Unnamed(x) => is_atom(x),
                    ArgParts::Other => false,
                };
                if !flat {
                    assert(shapes[i as int] == args@[i as int].shape());
                    assert(!spec_flat_argument(shapes[i as int]));
                    assert(!spec_flat_arguments(shapes));
                    return false;
                }
                i += 1;
            }
            true
        },
    }
}

fn is_simple(e: &Expr) -> (r: bool)
    ensures
        r == spec_simple(*e),
{
    match expr_parts(e) {
        ExprParts::Call => is_flat_call(e),
        _ => is_plain(e),
    }
}

fn all_plain(exprs: &Vec<&Expr>) -> (r: bool)
    ensures
        r == spec_all_plain(spec_exprs(exprs@)),
{
    let n = exprs.len();
    let mut i: usize = 0;
    while i < n
        invariant
            n == exprs@.len(),
            i <= n,
            forall|j: int| 0 <= j < i ==> spec_plain(#[trigger] spec_exprs(exprs@)[j]),
        decreases n - i,
    {
        assert(spec_exprs(exprs@)[i as int] == *exprs@[i as int]);
        if !is_plain(exprs[i]) {
            return false;
        }
        i += 1;
    }
    true
}

fn texts_of(exprs: &Vec<&Expr>) -> (r: Vec<String>)
    ensures
        spec_texts(r@) == spec_expr_texts(spec_exprs(exprs@)),
{
    let n = exprs.len();
    let mut r: Vec<String> = Vec::with_capacity(n);
    let mut i: usize = 0;
    while i < n
        invariant
            n == exprs@.len(),
            i <= n,
            r@.len() == i,
            forall|j: int| 0 <= j < i ==> (#[trigger] r@[j])@ == spec_expr_text(*exprs@[j]),
        decreases n - i,
    {
        r.push(expr_text(exprs[i]));
        i += 1;
    }
    assert(spec_texts(r@) =~= spec_expr_texts(spec_exprs(exprs@)));
    r
}

/// The texts of expressions.
pub open spec fn spec_expr_texts(exprs: Seq<Expr>) -> Seq<Seq<char>> {
    Seq::new(exprs.len(), |i: int| spec_expr_text(exprs[i]))
}

/// The view of one item of the tree.
pub open spec fn spec_item_view(shape: ItemShape) -> ItemView {
    match shape {
        ItemShape::Wildcard => ItemView::Wildcard,
        ItemShape::QualifiedWildcard => ItemView::QualifiedWildcard,
        ItemShape::Unnamed(e) => ItemView::Expr {
            text: spec_expr_text(e),
            call: spec_call_of(spec_expr_call(e)),
            alias: None,
            simple: spec_simple(e),
        },
        ItemShape::Aliased(e, alias) => ItemView::Expr {
            text: spec_expr_text(e),
            call: spec_call_of(spec_expr_call(e)),
            alias: Some(alias),
            simple: spec_simple(e),
        },
    }
}

/// A call, from its name and argument texts.
pub open spec fn spec_call_of(c: Option<(Seq<char>, Option<Seq<Seq<char>>>)>) -> Option<CallView> {
    match c {
        Some((name, args)) => Some(CallView { name, args }),
        None => None,
    }
}

/// The outline of a SELECT in the syntax tree: what the parser's tree holds
/// for each clause.
pub open spec fn spec_outline(q: Query, s: Select) -> OutlineView {
    OutlineView {
        tables: spec_select_tables(s),
        items: Seq::new(
            spec_select_items(s).len(),
            |i: int| spec_item_view(spec_item_shape(spec_select_items(s)[i])),
        ),
        filter: match spec_select_selection(s) {
            Some(e) => Some((spec_expr_text(e), spec_plain(e))),
            None => None,
        },
        group_by: match spec_select_group_by(s) {
            Some(exprs) => Some(spec_expr_texts(exprs)),
            None => None,
        },
        order_by: Seq::new(
            spec_query_order_by(q).len(),
            |i: int| (spec_expr_text(spec_query_order_by(q)[i].0), spec_query_order_by(q)[i].1),
        ),
        limit: match spec_query_limit(q) {
            Some(e) => Some(spec_number_text(e)),
            None => None,
        },
        rest_plain: spec_rest_plain(q, s),
    }
}

/// Every character of the text is white space.
pub open spec fn spec_blank(s: Seq<char>) -> bool {
    forall|i: int| 0 <= i < s.len() ==> spec_is_space(#[trigger] s[i])
}

/// The plan for no statement at all: no column, no table, no clause.
pub open spec fn spec_empty_plan() -> PlanView {
    PlanView {
        columns: Seq::empty(),
        table: Seq::empty(),
        filter: None,
        group_by: Seq::empty(),
        aggregations: Seq::empty(),
        order_by: Seq::empty(),
        limit: None,
    }
}

/// The plan of a text, or nothing where the text is rejected. A blank text
/// has the empty plan. Any other text must parse to exactly one statement,
/// which must be a query whose body is a plain SELECT inside the supported
/// subset; its plan is that of its outline.
pub open spec fn spec_parse(sql: Seq<char>) -> Option<PlanView> {
    if spec_blank(sql) {
        Some(spec_empty_plan())
    } else {
        match spec_parse_sql(sql) {
            Err(_) => None,
            Ok(statements) => if statements.len() != 1 {
                None
            } else {
                match spec_statement_query(statements[0]) {
                    None => None,
                    Some(q) => match spec_query_select(q) {
                        None => None,
                        Some(s) => spec_plan(spec_outline(q, s)),
                    },
                }
            },
        }
    }
}

/// A text of more than one statement has no plan.
pub proof fn lemma_rejects_multiple_statements(sql: Seq<char>)
    requires
        !spec_blank(sql),
        spec_parse_sql(sql) matches Ok(statements) && statements.len() > 1,
    ensures
        spec_parse(sql) is None,
{
}

/// A statement that is no query has no plan.
pub proof fn lemma_rejects_non_select(sql: Seq<char>)
    requires
        !spec_blank(sql),
        spec_parse_sql(sql) matches Ok(statements) && statements.len() == 1
            && spec_statement_query(statements[0]) is None,
    ensures
        spec_parse(sql) is None,
{
}

/// A SELECT from a relation that is no table by its name, such as a
/// subquery, has no plan; nor has one whose filter is not plain, whose
/// other clauses are not, or with an item that is not simple.
pub proof fn lemma_rejects_subqueries(o: OutlineView)
    requires
        (o.tables.len() == 1 && !o.tables[0].2) || (o.filter matches Some(f) && !f.1)
            || !o.rest_plain || (exists|i: int|
            0 <= i < o.items.len() && (#[trigger] o.items[i] matches ItemView::Expr {
                simple,
                ..
            } && !simple)),
    ensures
        spec_plan(o) is None,
{
    if exists|i: int|
        0 <= i < o.items.len() && (#[trigger] o.items[i] matches ItemView::Expr { simple, .. }
            && !simple) {
        let i = choose|i: int|
            0 <= i < o.items.len() && (#[trigger] o.items[i] matches ItemView::Expr {
                simple,
                ..
            } && !simple);
        assert(spec_select_list(o.items, i + 1) is None);
        lemma_select_list_settles(o.items, i + 1, o.items.len() as int);
    }
}

/// A SELECT with a join, or from more than one table, has no plan.
pub proof fn lemma_rejects_joins(o: OutlineView)
    requires
        o.tables.len() > 1 || (o.tables.len() == 1 && o.tables[0].1 > 0),
    ensures
        spec_plan(o) is None,
{
}

/// Whether every character of a text is white space.
pub fn is_blank(s: &str) -> (r: bool)
    ensures
        r == spec_blank(s@),
{
    let n = s.unicode_len();
    let mut i: usize = 0;
    while i < n
        invariant
            n == s@.len(),
            i <= n,
            forall|j: int| 0 <= j < i ==> spec_is_space(#[trigger] s@[j]),
        decreases n - i,
    {
        if !is_space(s.get_char(i)) {
            return false;
        }
        i += 1;
    }
    true
}

/// Reads the clauses of a SELECT out of the syntax tree.
fn outline_of(q: &Query, s: &Select) -> (o: SelectOutline)
    ensures
        o@ == spec_outline(*q, *s),
{
    let tree_items = select_items(s);
    let n = tree_items.len();
    let mut items: Vec<ItemOutline> = Vec::with_capacity(n);
    let mut i: usize = 0;
    while i < n
        invariant
            n == tree_items@.len(),
            tree_items@ == spec_select_items(*s),
            i <= n,
            items@.len() == i,
            forall|k: int|
                0 <= k < i ==> (#[trigger] items@[k])@ == spec_item_view(
                    spec_item_shape(tree_items@[k]),
                ),
        decreases n - i,
    {
        let item = match item_parts(&tree_items[i]) {
            ItemParts::Wildcard => ItemOutline::Wildcard,
            ItemParts::QualifiedWildcard => ItemOutline::QualifiedWildcard,
            ItemParts::Unnamed(e) => ItemOutline::Expr {
                text: expr_text(e),
                call: call_of(expr_call(e)),
                alias: None,
                simple: is_simple(e),
            },
            ItemParts::Aliased(e, alias) => ItemOutline::Expr {
                text: expr_text(e),
                call: call_of(expr_call(e)),
                alias: Some(alias),
                simple: is_simple(e),
            },
        };
        items.push(item);
        i += 1;
    }
    let mut rest_plain = !query_has_with(q);
    let printed = chars_of(query_text(q).as_str());
    let mark = chars_of("(SELECT");
    if contains_text(&printed, &mark) {
        rest_plain = false;
    }
    let group_by = match select_group_by(s) {
        Some(exprs) => {
            if !all_plain(&exprs) {
                rest_plain = false;
            }
            Some(texts_of(&exprs))
        },
        None => None,
    };
    match select_having(s) {
        Some(e) => {
            if !is_plain(e) {
                rest_plain = false;
            }
        },
        None => {},
    }
    let tree_order = query_order_by(q);
    let m = tree_order.len();
    let ghost ordered = spec_query_order_by(*q);
    let mut order_by: Vec<(String, Option<bool>)> = Vec::with_capacity(m);
    let mut order_plain = true;
    let mut j: usize = 0;
    while j < m
        invariant
            m == tree_order@.len(),
            ordered == spec_ordered(tree_order@),
            j <= m,
            order_by@.len() == j,
            forall|k: int|
                0 <= k < j ==> (#[trigger] order_by@[k]).0@ == spec_expr_text(ordered[k].0)
                    && order_by@[k].1 == ordered[k].1,
            order_plain == (forall|k: int| 0 <= k < j ==> spec_plain((#[trigger] ordered[k]).0)),
        decreases m - j,
    {
        let entry = &tree_order[j];
        assert(ordered[j as int] == (*entry.0, entry.1));
        if !is_plain(entry.0) {
            order_plain = false;
        }
        order_by.push((expr_text(entry.0), entry.1));
        j += 1;
    }
    if !order_plain {
        rest_plain = false;
    }
    let limit = match query_limit(q) {
        Some(e) => {
            if !is_plain(e) {
                rest_plain = false;
            }
            Some(number_text(e))
        },
        None => None,
    };
    let o = SelectOutline {
        tables: select_tables(s),
        items,
        filter: match select_selection(s) {
            Some(e) => Some((expr_text(e), is_plain(e))),
            None => None,
        },
        group_by,
        order_by,
        limit,
        rest_plain,
    };
    assert(o@.items =~= spec_outline(*q, *s).items);
    assert(o@.order_by =~= spec_outline(*q, *s).order_by);
    o
}

fn call_of(c: Option<(String, Option<Vec<String>>)>) -> (r: Option<CallOutline>)
    ensures
        spec_call(r) == spec_call_of(spec_call_view(c)),
{
    match c {
        Some((name, args)) => Some(CallOutline { name, args }),
        None => None,
    }
}

/// The SQL front end.
#[derive(Debug, Clone, Copy)]
pub struct QueryEngine {
    _private: (),
}

impl QueryEngine {
    /// A new query engine.
    pub fn new() -> (e: QueryEngine) {
        QueryEngine { _private: () }
    }

    /// Parses one statement of the supported subset into a plan: see
    /// [`spec_parse`]. Every rejection is a `ParseError`.
    pub fn parse(&self, sql: &str) -> (r: Result<QueryPlan, Error>)
        ensures
            match r {
                Ok(plan) => spec_parse(sql@) == Some(plan@),
                Err(e) => spec_parse(sql@) is None && e.spec_kind() == ErrorKind::ParseError,
            },
    {
        if is_blank(sql) {
            let plan = QueryPlan {
                columns: Vec::new(),
                table: String::new(),
                filter: None,
                group_by: Vec::new(),
                aggregations: Vec::new(),
                order_by: Vec::new(),
                limit: None,
            };
            proof {
                let want = spec_empty_plan();
                assert(plan@.columns =~= want.columns);
                assert(plan@.group_by =~= want.group_by);
                assert(plan@.aggregations =~= want.aggregations);
                assert(plan@.order_by =~= want.order_by);
            }
            return Ok(plan);
        }
        let statements = match parse_statements(sql) {
            Ok(statements) => statements,
            Err(e) => {
                let mut msg = String::from_str("SQL parse error: ");
                msg.append(error_text(&e).as_str());
                return Err(Error::ParseError(msg));
            },
        };
        if statements.len() != 1 {
            return Err(Error::ParseError(String::from_str("Only single statements supported")));
        }
        let q = match statement_query(&statements[0]) {
            Some(q) => q,
            None => {
                return Err(Error::ParseError(String::from_str("Only SELECT queries supported")));
            },
        };
        let s = match query_select(q) {
            Some(s) => s,
            None => {
                return Err(Error::ParseError(String::from_str("Only SELECT queries supported")));
            },
        };
        let outline = outline_of(q, s);
        plan_from_outline(&outline)
    }
}

impl Default for QueryEngine {
    fn default() -> (e: QueryEngine) {
        QueryEngine::new()
    }
}

} // verus!
