//! The boundary to the SQL parser.
//!
//! The grammar is the parser's. What comes back is a syntax tree of the
//! parser's own types, which is carried here as it is and read through the
//! functions below. Each of them makes one step into the tree and hands
//! out tree nodes or plain text. None of their contracts is proved: each
//! only gives a name to what the step returns, so that the verified code
//! can say which steps its result is made of.

use vstd::prelude::*;
use sqlparser::ast::{
    Expr, FunctionArg, FunctionArgExpr, FunctionArguments, GroupByExpr, Query, Select, SelectItem,
    SetExpr, Statement, TableFactor, Value,
};
use sqlparser::dialect::GenericDialect;
use sqlparser::parser::{Parser, ParserError};

verus! {

#[verifier::external_type_specification]
#[verifier::external_body]
pub struct ExStatement(sqlparser::ast::Statement);

#[verifier::external_type_specification]
#[verifier::external_body]
pub struct ExQuery(sqlparser::ast::Query);

#[verifier::external_type_specification]
#[verifier::external_body]
pub struct ExSelect(sqlparser::ast::Select);

#[verifier::external_type_specification]
#[verifier::external_body]
pub struct ExSelectItem(sqlparser::ast::SelectItem);

#[verifier::external_type_specification]
#[verifier::external_body]
pub struct ExExpr(sqlparser::ast::Expr);

#[verifier::external_type_specification]
#[verifier::external_body]
pub struct ExParserError(sqlparser::parser::ParserError);

/// The statements that the parser reads from a text in the generic
/// dialect, or its error.
pub uninterp spec fn spec_parse_sql(sql: Seq<char>) -> Result<Seq<Statement>, ParserError>;

/// The message of a parser error.
pub uninterp spec fn spec_error_text(e: ParserError) -> Seq<char>;

/// The query of a statement that is a query.
pub uninterp spec fn spec_statement_query(s: Statement) -> Option<Query>;

/// The SELECT of a query whose body is a plain SELECT.
pub uninterp spec fn spec_query_select(q: Query) -> Option<Select>;

/// The entries of the FROM clause: the text of each relation, the number
/// of its joins, and whether the relation is a table by its name (not a
/// subquery, nor a function).
pub uninterp spec fn spec_select_tables(s: Select) -> Seq<(Seq<char>, nat, bool)>;

/// The items of the select list.
pub uninterp spec fn spec_select_items(s: Select) -> Seq<SelectItem>;

/// An item of a select list.
pub enum ItemShape {
    Wildcard,
    QualifiedWildcard,
    Unnamed(Expr),
    Aliased(Expr, Seq<char>),
}

/// The shape of an item of the select list.
pub uninterp spec fn spec_item_shape(item: SelectItem) -> ItemShape;

/// The text of an expression, as the parser prints it.
pub uninterp spec fn spec_expr_text(e: Expr) -> Seq<char>;

/// For an expression that is a function call, the text of the function's
/// name and, if the arguments are a plain list, the text of each.
pub uninterp spec fn spec_expr_call(e: Expr) -> Option<(Seq<char>, Option<Seq<Seq<char>>>)>;

/// What an expression is at its top, with the expressions that it is made
/// of where it is an operation.
pub enum ExprShape {
    /// A name, plain or qualified.
    Name,
    /// A literal value.
    Literal,
    /// An operator before an expression.
    Unary(Expr),
    /// An operator between two expressions.
    Binary(Expr, Expr),
    /// A function call.
    Call,
    /// Anything else: a subquery among them.
    Other,
}

/// The shape of an expression.
pub uninterp spec fn spec_expr_shape(e: Expr) -> ExprShape;

/// The expression of the WHERE clause, if there is one.
pub uninterp spec fn spec_select_selection(s: Select) -> Option<Expr>;

/// The GROUP BY expressions; none for GROUP BY ALL.
pub uninterp spec fn spec_select_group_by(s: Select) -> Option<Seq<Expr>>;

/// The HAVING expression, if there is one.
pub uninterp spec fn spec_select_having(s: Select) -> Option<Expr>;

/// The ORDER BY expressions: each with its direction, where one is written
/// (`true` for ascending).
pub uninterp spec fn spec_query_order_by(q: Query) -> Seq<(Expr, Option<bool>)>;

/// The LIMIT expression of a query, if it has one.
pub uninterp spec fn spec_query_limit(q: Query) -> Option<Expr>;

/// The text of a query, as the parser prints it: keywords in upper case,
/// and every query inside it in round brackets.
pub uninterp spec fn spec_query_text(q: Query) -> Seq<char>;

/// Whether a query begins with a WITH clause.
pub uninterp spec fn spec_query_has_with(q: Query) -> bool;

/// The text of the number, for an expression that is a numeric literal.
pub uninterp spec fn spec_number_text(e: Expr) -> Option<Seq<char>>;

/// An argument of a function call.
pub enum ArgShape {
    /// `*`
    Wildcard,
    /// An expression, without a name.
    Unnamed(Expr),
    /// Anything else: a named argument, a qualified wildcard.
    Other,
}

/// The arguments of an expression that is a function call with a plain
/// list of arguments; none for any other expression.
pub uninterp spec fn spec_call_arguments(e: Expr) -> Option<Seq<ArgShape>>;

/// A text in upper case.
pub uninterp spec fn spec_uppercase(s: Seq<char>) -> Seq<char>;

/// The views of relations: the text, the count and the flag of each.
pub open spec fn spec_counted(v: Seq<(String, usize, bool)>) -> Seq<(Seq<char>, nat, bool)> {
    Seq::new(v.len(), |i: int| (v[i].0@, v[i].1 as nat, v[i].2))
}

/// The views of texts with optional flags.
pub open spec fn spec_flagged(v: Seq<(String, Option<bool>)>) -> Seq<(Seq<char>, Option<bool>)> {
    Seq::new(v.len(), |i: int| (v[i].0@, v[i].1))
}

/// The views of optional texts.
pub open spec fn spec_opt_texts(v: Option<Vec<String>>) -> Option<Seq<Seq<char>>> {
    match v {
        Some(list) => Some(crate::text::spec_texts(list@)),
        None => None,
    }
}

/// `sqlparser::parser::Parser::parse_sql` in the generic dialect: the
/// statements of the text, or the parser's error. The contract names the
/// result.
#[verifier::external_body]
pub(crate) fn parse_statements(sql: &str) -> (r: Result<Vec<Statement>, ParserError>)
    ensures
        match r {
            Ok(statements) => spec_parse_sql(sql@) == Ok::<Seq<Statement>, ParserError>(statements@),
            Err(e) => spec_parse_sql(sql@) == Err::<Seq<Statement>, ParserError>(e),
        },
{
    Parser::parse_sql(&GenericDialect {  }, sql)
}

/// The `Display` text of a `ParserError`. The contract names the result.
#[verifier::external_body]
pub(crate) fn error_text(e: &ParserError) -> (r: String)
    ensures
        r@ == spec_error_text(*e),
{
    e.to_string()
}

/// Tells `Statement::Query` from the other statements and hands out its
/// query. The contract names the result.
#[verifier::external_body]
pub(crate) fn statement_query(s: &Statement) -> (r: Option<&Query>)
    ensures
        match r {
            Some(q) => spec_statement_query(*s) == Some(*q),
            None => spec_statement_query(*s) is None,
        },
{
    match s {
        Statement::Query(q) => Some(q.as_ref()),
        _ => None,
    }
}

/// Tells a query whose body is `SetExpr::Select` from the others and hands
/// out the SELECT. The contract names the result.
#[verifier::external_body]
pub(crate) fn query_select(q: &Query) -> (r: Option<&Select>)
    ensures
        match r {
            Some(s) => spec_query_select(*q) == Some(*s),
            None => spec_query_select(*q) is None,
        },
{
    match q.body.as_ref() {
        SetExpr::Select(s) => Some(s.as_ref()),
        _ => None,
    }
}

/// The field `from` of a `Select`: for each entry the `Display` text of its
/// relation, the length of its `joins`, and whether the relation is
/// `TableFactor::Table`. The contract names the result.
#[verifier::external_body]
pub(crate) fn select_tables(s: &Select) -> (r: Vec<(String, usize, bool)>)
    ensures
        spec_counted(r@) == spec_select_tables(*s),
{
    s.from.iter().map(
        |t| (t.relation.to_string(), t.joins.len(), matches!(t.relation, TableFactor::Table { .. })),
    ).collect()
}

/// The field `projection` of a `Select`. The contract names the result.
#[verifier::external_body]
pub(crate) fn select_items(s: &Select) -> (r: &Vec<SelectItem>)
    ensures
        r@ == spec_select_items(*s),
{
    &s.projection
}

/// An item of a select list, with its expression still in the tree.
pub(crate) enum ItemParts<'a> {
    Wildcard,
    QualifiedWildcard,
    Unnamed(&'a Expr),
    Aliased(&'a Expr, String),
}

impl<'a> ItemParts<'a> {
    pub(crate) open spec fn shape(self) -> ItemShape {
        match self {
            ItemParts::Wildcard => ItemShape::Wildcard,
            ItemParts::QualifiedWildcard => ItemShape::QualifiedWildcard,
            ItemParts::Unnamed(e) => ItemShape::Unnamed(*e),
            ItemParts::Aliased(e, alias) => ItemShape::Aliased(*e, alias@),
        }
    }
}

/// Tells the four variants of `SelectItem` apart and hands out the
/// expression and the alias's `value` where there are any. The contract
/// names the result.
#[verifier::external_body]
pub(crate) fn item_parts(item: &SelectItem) -> (r: ItemParts<'_>)
    ensures
        r.shape() == spec_item_shape(*item),
{
    match item {
        SelectItem::Wildcard(_) => ItemParts::Wildcard,
        SelectItem::QualifiedWildcard(..) => ItemParts::QualifiedWildcard,
        SelectItem::UnnamedExpr(e) => ItemParts::Unnamed(e),
        SelectItem::ExprWithAlias { expr, alias } => ItemParts::Aliased(expr, alias.value.clone()),
    }
}

/// The `Display` text of an `Expr`. The contract names the result.
#[verifier::external_body]
pub(crate) fn expr_text(e: &Expr) -> (r: String)
    ensures
        r@ == spec_expr_text(*e),
{
    e.to_string()
}

/// The view of a call: the name and the argument texts.
pub open spec fn spec_call_view(c: Option<(String, Option<Vec<String>>)>) -> Option<
    (Seq<char>, Option<Seq<Seq<char>>>),
> {
    match c {
        Some((name, args)) => Some((name@, spec_opt_texts(args))),
        None => None,
    }
}

/// Tells `Expr::Function` from the other expressions and hands out the
/// `Display` text of its name and, where its arguments are
/// `FunctionArguments::List`, the `Display` text of each. The contract
/// names the result.
#[verifier::external_body]
pub(crate) fn expr_call(e: &Expr) -> (r: Option<(String, Option<Vec<String>>)>)
    ensures
        spec_call_view(r) == spec_expr_call(*e),
{
    match e {
        Expr::Function(f) => Some(
            (
                f.name.to_string(),
                match &f.args {
                    FunctionArguments::List(l) => Some(l.args.iter().map(|a| a.to_string()).collect()),
                    _ => None,
                },
            ),
        ),
        _ => None,
    }
}

/// An expression taken apart at its top, with its parts still in the tree.
pub(crate) enum ExprParts<'a> {
    Name,
    Literal,
    Unary(&'a Expr),
    Binary(&'a Expr, &'a Expr),
    Call,
    Other,
}

impl<'a> ExprParts<'a> {
    pub(crate) open spec fn shape(self) -> ExprShape {
        match self {
            ExprParts::Name => ExprShape::Name,
            ExprParts::Literal => ExprShape::Literal,
            ExprParts::Unary(e) => ExprShape::Unary(*e),
            ExprParts::Binary(l, r) => ExprShape::Binary(*l, *r),
            ExprParts::Call => ExprShape::Call,
            ExprParts::Other => ExprShape::Other,
        }
    }
}

/// Tells the variants of `Expr` apart: `Identifier` and
/// `CompoundIdentifier` are names, `Value` is a literal, `UnaryOp` and
/// `BinaryOp` hand out their operands, `Function` is a call, and every
/// other variant is `Other`. The contract names the result.
#[verifier::external_body]
pub(crate) fn expr_parts(e: &Expr) -> (r: ExprParts<'_>)
    ensures
        r.shape() == spec_expr_shape(*e),
{
    match e {
        Expr::Identifier(_) => ExprParts::Name,
        Expr::CompoundIdentifier(_) => ExprParts::Name,
        Expr::Value(_) => ExprParts::Literal,
        Expr::UnaryOp { expr, .. } => ExprParts::Unary(expr),
        Expr::BinaryOp { left, right, .. } => ExprParts::Binary(left, right),
        Expr::Function(_) => ExprParts::Call,
        _ => ExprParts::Other,
    }
}

/// The field `selection` of a `Select`. The contract names the result.
#[verifier::external_body]
pub(crate) fn select_selection(s: &Select) -> (r: Option<&Expr>)
    ensures
        match r {
            Some(e) => spec_select_selection(*s) == Some(*e),
            None => spec_select_selection(*s) is None,
        },
{
    s.selection.as_ref()
}

/// The expressions behind references.
pub open spec fn spec_exprs(v: Seq<&Expr>) -> Seq<Expr> {
    Seq::new(v.len(), |i: int| *v[i])
}

/// The expressions behind optional references.
pub open spec fn spec_opt_exprs(v: Option<Vec<&Expr>>) -> Option<Seq<Expr>> {
    match v {
        Some(list) => Some(spec_exprs(list@)),
        None => None,
    }
}

/// The expressions behind references, with their flags.
pub open spec fn spec_ordered(v: Seq<(&Expr, Option<bool>)>) -> Seq<(Expr, Option<bool>)> {
    Seq::new(v.len(), |i: int| (*v[i].0, v[i].1))
}

/// The field `group_by` of a `Select`: the expressions of
/// `GroupByExpr::Expressions`, none for `GroupByExpr::All`. The contract
/// names the result.
#[verifier::external_body]
pub(crate) fn select_group_by(s: &Select) -> (r: Option<Vec<&Expr>>)
    ensures
        spec_opt_exprs(r) == spec_select_group_by(*s),
{
    match &s.group_by {
        GroupByExpr::All(_) => None,
        GroupByExpr::Expressions(exprs, _) => Some(exprs.iter().collect()),
    }
}

/// The field `having` of a `Select`. The contract names the result.
#[verifier::external_body]
pub(crate) fn select_having(s: &Select) -> (r: Option<&Expr>)
    ensures
        match r {
            Some(e) => spec_select_having(*s) == Some(*e),
            None => spec_select_having(*s) is None,
        },
{
    s.having.as_ref()
}

/// The field `order_by` of a `Query`: each of its expressions with the
/// field `asc`; empty when there is no ORDER BY. The contract names the
/// result.
#[verifier::external_body]
pub(crate) fn query_order_by(q: &Query) -> (r: Vec<(&Expr, Option<bool>)>)
    ensures
        spec_ordered(r@) == spec_query_order_by(*q),
{
    q.order_by.iter().flat_map(|o| o.exprs.iter()).map(|o| (&o.expr, o.asc)).collect()
}

/// The `Display` text of a `Query`. The contract names the result.
#[verifier::external_body]
pub(crate) fn query_text(q: &Query) -> (r: String)
    ensures
        r@ == spec_query_text(*q),
{
    q.to_string()
}

/// Whether the field `with` of a `Query` holds anything. The contract
/// names the result.
#[verifier::external_body]
pub(crate) fn query_has_with(q: &Query) -> (r: bool)
    ensures
        r == spec_query_has_with(*q),
{
    q.with.is_some()
}

/// An argument of a call, with its expression still in the tree.
pub(crate) enum ArgParts<'a> {
    Wildcard,
    Unnamed(&'a Expr),
    Other,
}

impl<'a> ArgParts<'a> {
    pub(crate) open spec fn shape(self) -> ArgShape {
        match self {
            ArgParts::Wildcard => ArgShape::Wildcard,
            ArgParts::Unnamed(e) => ArgShape::Unnamed(*e),
            ArgParts::Other => ArgShape::Other,
        }
    }
}

/// The shapes of arguments.
pub(crate) open spec fn spec_arg_shapes(v: Option<Vec<ArgParts<'_>>>) -> Option<Seq<ArgShape>> {
    match v {
        Some(list) => Some(Seq::new(list@.len(), |i: int| list@[i].shape())),
        None => None,
    }
}

/// For `Expr::Function` with `FunctionArguments::List`, the arguments of
/// the list: `FunctionArg::Unnamed` of `FunctionArgExpr::Expr` hands out
/// its expression, of `FunctionArgExpr::Wildcard` is a wildcard, and every
/// other argument is `Other`. None for any other expression. The contract
/// names the result.
#[verifier::external_body]
pub(crate) fn call_arguments(e: &Expr) -> (r: Option<Vec<ArgParts<'_>>>)
    ensures
        spec_arg_shapes(r) == spec_call_arguments(*e),
{
    let Expr::Function(f) = e else { return None };
    let FunctionArguments::List(l) = &f.args else { return None };
    Some(l.args.iter().map(|a| match a {
        FunctionArg::Unnamed(FunctionArgExpr::Expr(x)) => ArgParts::Unnamed(x),
        FunctionArg::Unnamed(FunctionArgExpr::Wildcard) => ArgParts::Wildcard,
        _ => ArgParts::Other,
    }).collect())
}

/// The view of a limit.
pub open spec fn spec_limit_view(l: Option<Option<String>>) -> Option<Option<Seq<char>>> {
    match l {
        Some(n) => Some(crate::query::spec_opt_text(n)),
        None => None,
    }
}

/// The field `limit` of a `Query`. The contract names the result.
#[verifier::external_body]
pub(crate) fn query_limit(q: &Query) -> (r: Option<&Expr>)
    ensures
        match r {
            Some(e) => spec_query_limit(*q) == Some(*e),
            None => spec_query_limit(*q) is None,
        },
{
    q.limit.as_ref()
}

/// Tells `Expr::Value` of `Value::Number` from the other expressions and
/// hands out the text of the number. The contract names the result.
#[verifier::external_body]
pub(crate) fn number_text(e: &Expr) -> (r: Option<String>)
    ensures
        crate::query::spec_opt_text(r) == spec_number_text(*e),
{
    match e {
        Expr::Value(Value::Number(n, _)) => Some(n.clone()),
        _ => None,
    }
}

/// `str::to_uppercase`. The contract names the result.
#[verifier::external_body]
pub(crate) fn uppercase(s: &str) -> (r: String)
    ensures
        r@ == spec_uppercase(s@),
{
    s.to_uppercase()
}

} // verus!
