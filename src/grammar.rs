use vstd::prelude::*;

verus! {

/// A value together with the byte range of the source it was read from.
#[derive(Debug, Clone)]
pub struct Spanned<T> {
    pub value: T,
    pub start: usize,
    pub end: usize,
}

/// A datalog program: its declarations, in order.
#[derive(Debug)]
pub struct Program {
    pub rules: Vec<Declaration>,
}

#[derive(Debug)]
pub enum Declaration {
    Input(Ident, RustSnippet),
    Output(Ident, RustSnippet),
    /// A relation exchanged with other nodes: the pipeline that sends
    /// `(NodeID, Data)` pairs, then the one that receives `Data` values.
    Async(Ident, RustSnippet, RustSnippet),
    Rule(Rule),
}

/// Rust code quoted between backticks.
#[derive(Debug, Clone)]
pub struct RustSnippet {
    pub code: Spanned<String>,
}

#[derive(Debug)]
pub struct Rule {
    pub target: TargetRelationExpr,
    pub rule_type: RuleType,
    pub sources: Vec<Atom>,
}

#[derive(Debug, Clone, Copy, PartialEq, Eq, Structural)]
pub enum RuleType {
    Sync,
    NextTick,
    Async,
}

#[derive(Debug)]
pub enum Atom {
    /// A relation, negated where the flag is set.
    Relation(bool, InputRelationExpr),
    Predicate(PredicateExpr),
}

#[derive(Debug)]
pub struct InputRelationExpr {
    pub name: Ident,
    pub fields: Vec<Ident>,
}

#[derive(Debug)]
pub struct TargetRelationExpr {
    pub name: Ident,
    pub at_node: Option<AtNode>,
    pub fields: Vec<TargetExpr>,
}

#[derive(Debug)]
pub struct AtNode {
    pub node: TargetExpr,
}

#[derive(Debug)]
pub enum TargetExpr {
    Expr(ValueExpr),
    Aggregation(Aggregation),
}

#[derive(Debug)]
pub struct Aggregation {
    pub tpe: AggregationType,
    pub ident: Ident,
}

#[derive(Debug, Clone, Copy, PartialEq, Eq, Structural)]
pub enum AggregationType {
    Min,
    Max,
    Sum,
    Count,
    Choose,
}

#[derive(Clone, PartialEq, Eq, Hash, Ord, PartialOrd, Debug)]
pub struct Ident {
    pub name: String,
}

#[derive(Debug, Clone, Copy, PartialEq, Eq, Structural)]
pub enum BoolOp {
    Lt,
    LtEq,
    Gt,
    GtEq,
    Eq,
}

#[derive(Debug)]
pub struct PredicateExpr {
    pub left: Ident,
    pub op: BoolOp,
    pub right: Ident,
}

#[derive(Debug)]
pub enum ValueExpr {
    Ident(Ident),
    Integer(i64),
    Add(Box<ValueExpr>, Box<ValueExpr>),
    Sub(Box<ValueExpr>, Box<ValueExpr>),
}

/// The names of the identifiers in a value expression, left to right.
pub open spec fn value_ident_names(e: ValueExpr) -> Seq<Seq<char>>
    decreases e,
{
    match e {
        ValueExpr::Ident(i) => seq![i.name@],
        ValueExpr::Integer(_) => Seq::empty(),
        ValueExpr::Add(l, r) => value_ident_names(*l) + value_ident_names(*r),
        ValueExpr::Sub(l, r) => value_ident_names(*l) + value_ident_names(*r),
    }
}

/// The names of the identifiers in a target expression, left to right.
pub open spec fn target_ident_names(e: TargetExpr) -> Seq<Seq<char>> {
    match e {
        TargetExpr::Expr(v) => value_ident_names(v),
        TargetExpr::Aggregation(a) => seq![a.ident.name@],
    }
}

/// The names of a list of identifier references.
pub open spec fn names(v: Seq<&Ident>) -> Seq<Seq<char>> {
    v.map_values(|i: &Ident| i.name@)
}

impl TargetExpr {
    /// The identifiers the expression mentions, left to right.
    pub fn idents(&self) -> (r: Vec<&Ident>)
        ensures
            names(r@) == target_ident_names(*self),
    {
        match self {
            TargetExpr::Expr(e) => e.idents(),
            TargetExpr::Aggregation(a) => {
                let r = vec![&a.ident];
                assert(names(r@) =~= target_ident_names(*self));
                r
            },
        }
    }
}

impl ValueExpr {
    /// The identifiers the expression mentions, left to right.
    pub fn idents(&self) -> (r: Vec<&Ident>)
        ensures
            names(r@) == value_ident_names(*self),
        decreases self,
    {
        match self {
            ValueExpr::Ident(i) => {
                let r = vec![i];
                assert(names(r@) =~= value_ident_names(*self));
                r
            },
            ValueExpr::Integer(_) => {
                let r: Vec<&Ident> = Vec::new();
                assert(names(r@) =~= value_ident_names(*self));
                r
            },
            ValueExpr::Add(l, r) => {
                let mut idents = l.idents();
                let mut rest = r.idents();
                let ghost a = idents@;
                let ghost b = rest@;
                idents.append(&mut rest);
                assert(names(idents@) =~= names(a) + names(b));
                idents
            },
            ValueExpr::Sub(l, r) => {
                let mut idents = l.idents();
                let mut rest = r.idents();
                let ghost a = idents@;
                let ghost b = rest@;
                idents.append(&mut rest);
                assert(names(idents@) =~= names(a) + names(b));
                idents
            },
        }
    }
}

} // verus!
