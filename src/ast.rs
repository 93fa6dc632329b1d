use vstd::prelude::*;

verus! {

/// A binary operator of the expression grammar.
#[derive(Clone, Copy, Debug, PartialEq, Eq, Structural)]
pub enum BinaryOperator {
    Or,
    And,
    Equals,
    NotEquals,
    Less,
    Greater,
    Add,
    Subtract,
    Multiply,
    Divide,
}

/// A scalar expression.
#[derive(Debug, PartialEq, Eq)]
pub enum Expression {
    Column { table: Option<String>, name: String },
    Literal(String),
    Binary { left: Box<Expression>, op: BinaryOperator, right: Box<Expression> },
}

/// The mathematical value of an `Expression`.
pub enum ExprModel {
    Column { table: Option<Seq<char>>, name: Seq<char> },
    Literal(Seq<char>),
    Binary { left: Box<ExprModel>, op: BinaryOperator, right: Box<ExprModel> },
}

pub open spec fn opt_text(o: Option<String>) -> Option<Seq<char>> {
    match o {
        Some(s) => Some(s@),
        None => None,
    }
}

impl View for Expression {
    type V = ExprModel;

    open spec fn view(&self) -> ExprModel
        decreases self,
    {
        match self {
            Expression::Column { table, name } => ExprModel::Column { table: opt_text(*table), name: name@ },
            Expression::Literal(text) => ExprModel::Literal(text@),
            Expression::Binary { left, op, right } => ExprModel::Binary {
                left: Box::new((**left).view()),
                op: *op,
                right: Box::new((**right).view()),
            },
        }
    }
}

/// A table reference. `table_no` is left for a later binding phase to fill in.
#[derive(Clone, Debug, PartialEq, Eq)]
pub struct Table {
    pub name: String,
    pub alias: Option<String>,
    pub table_no: Option<usize>,
}

pub struct TableModel {
    pub name: Seq<char>,
    pub alias: Option<Seq<char>>,
    pub table_no: Option<usize>,
}

impl View for Table {
    type V = TableModel;

    open spec fn view(&self) -> TableModel {
        TableModel { name: self.name@, alias: opt_text(self.alias), table_no: self.table_no }
    }
}

/// One join qualifier keyword.
#[derive(Clone, Copy, Debug, PartialEq, Eq, Structural)]
pub enum JoinVariant {
    Inner,
    Outer,
    Left,
}

/// The set of qualifiers written before a join.
#[derive(Clone, Copy, Debug, PartialEq, Eq, Structural)]
pub struct JoinType {
    pub inner: bool,
    pub outer: bool,
    pub left: bool,
}

impl JoinType {
    /// Whether `v` is in the set.
    pub open spec fn has(self, v: JoinVariant) -> bool {
        match v {
            JoinVariant::Inner => self.inner,
            JoinVariant::Outer => self.outer,
            JoinVariant::Left => self.left,
        }
    }

    pub open spec fn is_empty(self) -> bool {
        !self.inner && !self.outer && !self.left
    }

    /// The set with `v` added.
    pub open spec fn added(self, v: JoinVariant) -> JoinType {
        match v {
            JoinVariant::Inner => JoinType { inner: true, ..self },
            JoinVariant::Outer => JoinType { outer: true, ..self },
            JoinVariant::Left => JoinType { left: true, ..self },
        }
    }

    /// The empty set.
    pub fn new() -> (r: JoinType)
        ensures
            r.is_empty(),
    {
        JoinType { inner: false, outer: false, left: false }
    }

    /// The set with `v` added.
    pub fn with(self, v: JoinVariant) -> (r: JoinType)
        ensures
            r == self.added(v),
            forall|w: JoinVariant| #[trigger] r.has(w) == (self.has(w) || w == v),
    {
        match v {
            JoinVariant::Inner => JoinType { inner: true, ..self },
            JoinVariant::Outer => JoinType { outer: true, ..self },
            JoinVariant::Left => JoinType { left: true, ..self },
        }
    }

    /// Whether `v` is in the set.
    pub fn contains(self, v: JoinVariant) -> (r: bool)
        ensures
            r == self.has(v),
    {
        match v {
            JoinVariant::Inner => self.inner,
            JoinVariant::Outer => self.outer,
            JoinVariant::Left => self.left,
        }
    }
}

/// A join: its qualifiers, the joined table and the optional `ON` predicate.
#[derive(Debug, PartialEq, Eq)]
pub struct Join {
    pub join_type: JoinType,
    pub table: Table,
    pub on: Option<Expression>,
}

pub struct JoinModel {
    pub join_type: JoinType,
    pub table: TableModel,
    pub on: Option<ExprModel>,
}

pub open spec fn opt_expr(o: Option<Expression>) -> Option<ExprModel> {
    match o {
        Some(e) => Some(e@),
        None => None,
    }
}

impl View for Join {
    type V = JoinModel;

    open spec fn view(&self) -> JoinModel {
        JoinModel { join_type: self.join_type, table: self.table@, on: opt_expr(self.on) }
    }
}

/// A `FROM` clause. `joins` is `None` when no join follows the table, never empty.
#[derive(Debug, PartialEq, Eq)]
pub struct FromClause {
    pub table: Table,
    pub joins: Option<Vec<Join>>,
}

pub struct FromModel {
    pub table: TableModel,
    pub joins: Option<Seq<JoinModel>>,
}

pub open spec fn joins_model(v: Seq<Join>) -> Seq<JoinModel> {
    v.map_values(|j: Join| j@)
}

impl View for FromClause {
    type V = FromModel;

    open spec fn view(&self) -> FromModel {
        FromModel {
            table: self.table@,
            joins: match self.joins {
                Some(v) => Some(joins_model(v@)),
                None => None,
            },
        }
    }
}

/// The direction of one `ORDER BY` key.
#[derive(Clone, Copy, Debug, PartialEq, Eq, Structural)]
pub enum Direction {
    Ascending,
    Descending,
}

} // verus!
