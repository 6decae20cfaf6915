use vstd::prelude::*;
use std::rc::Rc;
use crate::tokens::{LiteralModel, LiteralValue, Token, TokenModel};

verus! {

#[derive(Debug, Clone, Copy, PartialEq, Eq, Structural)]
pub enum BinaryOperator {
    BangEqual,
    EqualEqual,
    Greater,
    GreaterEqual,
    Less,
    LessEqual,
    Minus,
    Plus,
    Slash,
    Star,
}

#[derive(Debug, Clone, Copy, PartialEq, Eq, Structural)]
pub enum LogicalOperator {
    And,
    Or,
}

#[derive(Debug, Clone, Copy, PartialEq, Eq, Structural)]
pub enum UnaryOperator {
    Bang,
    Minus,
}

/// An expression.  Every variant keeps the token that errors are reported at.
#[derive(Debug)]
#[allow(inconsistent_fields)]
pub enum Expr {
    Binary { token: Token, operator: BinaryOperator, left: Box<Expr>, right: Box<Expr> },
    Unary { token: Token, operator: UnaryOperator, right: Box<Expr> },
    Literal { token: Token, value: LiteralValue },
    Grouping { expr: Box<Expr> },
    Variable { token: Token },
    Assignment { token: Token, value: Box<Expr> },
    Logical { token: Token, operator: LogicalOperator, left: Box<Expr>, right: Box<Expr> },
    /// `token` is the closing parenthesis of the call.
    Call { callee: Box<Expr>, arguments: Vec<Expr>, token: Token },
    Get { object: Box<Expr>, name: Token },
    SetProperty { object: Box<Expr>, name: Token, value: Box<Expr> },
    This { keyword: Token },
    Super { keyword: Token, method: Token },
}

/// A function or method declaration.
#[derive(Debug)]
pub struct FunDeclStatement {
    pub name: Token,
    pub parameters: Vec<Token>,
    pub body: Vec<Statement>,
}

/// A statement.  A function declaration is shared with the function values
/// that are made from it, which may outlive the program that declared them.
#[derive(Debug)]
#[allow(inconsistent_fields)]
pub enum Statement {
    ExpressionStatement { expression: Expr },
    PrintStatement { token: Token, value: Expr },
    VarDeclStatement { token: Token, initializer: Option<Expr> },
    BlockStatement { statements: Vec<Statement> },
    IfStatement { condition: Expr, then_branch: Box<Statement>, else_branch: Option<Box<Statement>> },
    WhileStatement { condition: Expr, body: Box<Statement> },
    FunDeclStatement { declaration: Rc<FunDeclStatement> },
    ReturnStatement { keyword: Token, value: Option<Expr> },
    ClassDeclStatement { name: Token, methods: Vec<Rc<FunDeclStatement>>, superclass: Option<Token> },
}

/// What an `Expr` stands for.
#[allow(inconsistent_fields)]
pub enum ExprModel {
    Binary { token: TokenModel, operator: BinaryOperator, left: Box<ExprModel>, right: Box<ExprModel> },
    Unary { token: TokenModel, operator: UnaryOperator, right: Box<ExprModel> },
    Literal { token: TokenModel, value: LiteralModel },
    Grouping { expr: Box<ExprModel> },
    Variable { token: TokenModel },
    Assignment { token: TokenModel, value: Box<ExprModel> },
    Logical { token: TokenModel, operator: LogicalOperator, left: Box<ExprModel>, right: Box<ExprModel> },
    Call { callee: Box<ExprModel>, arguments: Seq<ExprModel>, token: TokenModel },
    Get { object: Box<ExprModel>, name: TokenModel },
    SetProperty { object: Box<ExprModel>, name: TokenModel, value: Box<ExprModel> },
    This { keyword: TokenModel },
    Super { keyword: TokenModel, method: TokenModel },
}

/// What a `FunDeclStatement` stands for.
pub struct FunDeclModel {
    pub name: TokenModel,
    pub parameters: Seq<TokenModel>,
    pub body: Seq<StmtModel>,
}

/// What a `Statement` stands for.
#[allow(inconsistent_fields)]
pub enum StmtModel {
    Expression { expression: ExprModel },
    Print { token: TokenModel, value: ExprModel },
    VarDecl { token: TokenModel, initializer: Option<ExprModel> },
    Block { statements: Seq<StmtModel> },
    If { condition: ExprModel, then_branch: Box<StmtModel>, else_branch: Option<Box<StmtModel>> },
    While { condition: ExprModel, body: Box<StmtModel> },
    FunDecl { declaration: FunDeclModel },
    Return { keyword: TokenModel, value: Option<ExprModel> },
    ClassDecl { name: TokenModel, methods: Seq<FunDeclModel>, superclass: Option<TokenModel> },
}

pub open spec fn expr_view(e: Expr) -> ExprModel
    decreases e, 0nat,
{
    match e {
        Expr::Binary { token, operator, left, right } => ExprModel::Binary {
            token: token@,
            operator,
            left: Box::new(expr_view(*left)),
            right: Box::new(expr_view(*right)),
        },
        Expr::Unary { token, operator, right } => ExprModel::Unary {
            token: token@,
            operator,
            right: Box::new(expr_view(*right)),
        },
        Expr::Literal { token, value } => ExprModel::Literal { token: token@, value: value@ },
        Expr::Grouping { expr } => ExprModel::Grouping { expr: Box::new(expr_view(*expr)) },
        Expr::Variable { token } => ExprModel::Variable { token: token@ },
        Expr::Assignment { token, value } => ExprModel::Assignment {
            token: token@,
            value: Box::new(expr_view(*value)),
        },
        Expr::Logical { token, operator, left, right } => ExprModel::Logical {
            token: token@,
            operator,
            left: Box::new(expr_view(*left)),
            right: Box::new(expr_view(*right)),
        },
        Expr::Call { callee, arguments, token } => ExprModel::Call {
            callee: Box::new(expr_view(*callee)),
            arguments: exprs_view(arguments),
            token: token@,
        },
        Expr::Get { object, name } => ExprModel::Get {
            object: Box::new(expr_view(*object)),
            name: name@,
        },
        Expr::SetProperty { object, name, value } => ExprModel::SetProperty {
            object: Box::new(expr_view(*object)),
            name: name@,
            value: Box::new(expr_view(*value)),
        },
        Expr::This { keyword } => ExprModel::This { keyword: keyword@ },
        Expr::Super { keyword, method } => ExprModel::Super { keyword: keyword@, method: method@ },
    }
}

/// The models of a list of expressions, in order.
pub open spec fn exprs_view(list: Vec<Expr>) -> Seq<ExprModel>
    decreases list, 1nat,
{
    Seq::new(
        list.len() as nat,
        |i: int|
            if 0 <= i < list.len() {
                expr_view(list[i])
            } else {
                arbitrary()
            },
    )
}

impl View for Expr {
    type V = ExprModel;

    open spec fn view(&self) -> ExprModel {
        expr_view(*self)
    }
}

pub open spec fn option_expr_view(e: Option<Expr>) -> Option<ExprModel> {
    match e {
        Some(e) => Some(e@),
        None => None,
    }
}

pub open spec fn option_token_view(t: Option<Token>) -> Option<TokenModel> {
    match t {
        Some(t) => Some(t@),
        None => None,
    }
}

pub open spec fn stmt_view(s: Statement) -> StmtModel
    decreases s, 0nat,
{
    match s {
        Statement::ExpressionStatement { expression } => StmtModel::Expression { expression: expression@ },
        Statement::PrintStatement { token, value } => StmtModel::Print { token: token@, value: value@ },
        Statement::VarDeclStatement { token, initializer } => StmtModel::VarDecl {
            token: token@,
            initializer: option_expr_view(initializer),
        },
        Statement::BlockStatement { statements } => StmtModel::Block { statements: stmts_view(statements) },
        Statement::IfStatement { condition, then_branch, else_branch } => StmtModel::If {
            condition: condition@,
            then_branch: Box::new(stmt_view(*then_branch)),
            else_branch: match else_branch {
                Some(b) => Some(Box::new(stmt_view(*b))),
                None => None,
            },
        },
        Statement::WhileStatement { condition, body } => StmtModel::While {
            condition: condition@,
            body: Box::new(stmt_view(*body)),
        },
        Statement::FunDeclStatement { declaration } => StmtModel::FunDecl { declaration: decl_view(*declaration) },
        Statement::ReturnStatement { keyword, value } => StmtModel::Return {
            keyword: keyword@,
            value: option_expr_view(value),
        },
        Statement::ClassDeclStatement { name, methods, superclass } => StmtModel::ClassDecl {
            name: name@,
            methods: decls_view(methods),
            superclass: option_token_view(superclass),
        },
    }
}

/// The models of a list of statements, in order.
pub open spec fn stmts_view(list: Vec<Statement>) -> Seq<StmtModel>
    decreases list, 1nat,
{
    Seq::new(
        list.len() as nat,
        |i: int|
            if 0 <= i < list.len() {
                stmt_view(list[i])
            } else {
                arbitrary()
            },
    )
}

/// The models of a list of declarations, in order.
pub open spec fn decls_view(list: Vec<Rc<FunDeclStatement>>) -> Seq<FunDeclModel>
    decreases list, 3nat,
{
    Seq::new(
        list.len() as nat,
        |i: int|
            if 0 <= i < list.len() {
                decl_view(*list[i])
            } else {
                arbitrary()
            },
    )
}

pub open spec fn decl_view(d: FunDeclStatement) -> FunDeclModel
    decreases d, 2nat,
{
    FunDeclModel {
        name: d.name@,
        parameters: crate::tokens::token_views(d.parameters@),
        body: stmts_view(d.body),
    }
}

impl View for Statement {
    type V = StmtModel;

    open spec fn view(&self) -> StmtModel {
        stmt_view(*self)
    }
}

impl View for FunDeclStatement {
    type V = FunDeclModel;

    open spec fn view(&self) -> FunDeclModel {
        decl_view(*self)
    }
}

/// A list that got one more expression stands for one more model.
pub proof fn lemma_exprs_view_push(before: Vec<Expr>, after: Vec<Expr>, e: Expr)
    requires
        after@ == before@.push(e),
    ensures
        exprs_view(after) == exprs_view(before).push(e@),
{
    assert(exprs_view(after) =~= exprs_view(before).push(e@));
}

/// A list that got one more statement stands for one more model.
pub proof fn lemma_stmts_view_push(before: Vec<Statement>, after: Vec<Statement>, s: Statement)
    requires
        after@ == before@.push(s),
    ensures
        stmts_view(after) == stmts_view(before).push(s@),
{
    assert(stmts_view(after) =~= stmts_view(before).push(s@));
}

/// A list that got one more declaration stands for one more model.
pub proof fn lemma_decls_view_push(
    before: Vec<Rc<FunDeclStatement>>,
    after: Vec<Rc<FunDeclStatement>>,
    d: Rc<FunDeclStatement>,
)
    requires
        after@ == before@.push(d),
    ensures
        decls_view(after) == decls_view(before).push((*d)@),
{
    assert(decls_view(after) =~= decls_view(before).push((*d)@));
}

} // verus!
