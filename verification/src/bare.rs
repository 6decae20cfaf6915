use vstd::prelude::*;
use crate::ast::{ExprModel, FunDeclModel, StmtModel};
use crate::error::LoxError;
use crate::grammar::{
    arguments, assignment, block, block_rest, call, call_rest, chain, chain_rest, class_declaration,
    closed_expression, counted, declaration, desugared, expression, expression_statement,
    for_condition, for_increment, for_initializer, for_statement, fun_declaration, function,
    guarded_statement, if_statement, joint_at, kind_at, lemma_synchronize_advances, methods_rest,
    parameters, primary, print_statement, program, return_statement, room, statement, synchronize,
    unary, var_declaration, while_statement, FunctionKind, Parsed,
};
use crate::printing::{
    plain, print_arguments, print_block, print_expr, print_function, print_methods,
    print_parameters, print_statements, print_stmt, printing_gives_back_the_tokens, mark, structural,
};
use crate::tokens::{TokenModel, TokenType};

verus! {

/// A token without its place in the source: a structural token becomes the
/// mark of its kind, any other token loses its line and its id.
pub open spec fn bare_token(t: TokenModel) -> TokenModel {
    if structural(t.kind) {
        mark(t.kind)
    } else {
        TokenModel { kind: t.kind, lexeme: t.lexeme, literal: t.literal, line: 0, id: 0 }
    }
}

/// The tokens without their places in the source.
pub open spec fn bare_tokens(ts: Seq<TokenModel>) -> Seq<TokenModel> {
    Seq::new(ts.len(), |i: int| bare_token(ts[i]))
}

/// An expression whose tokens have lost their places in the source.
pub open spec fn bare_expr(e: ExprModel) -> ExprModel
    decreases e, 0nat,
{
    match e {
        ExprModel::Binary { token, operator, left, right } => ExprModel::Binary {
            token: bare_token(token),
            operator,
            left: Box::new(bare_expr(*left)),
            right: Box::new(bare_expr(*right)),
        },
        ExprModel::Unary { token, operator, right } => ExprModel::Unary {
            token: bare_token(token),
            operator,
            right: Box::new(bare_expr(*right)),
        },
        ExprModel::Literal { token, value } => ExprModel::Literal { token: bare_token(token), value },
        ExprModel::Grouping { expr } => ExprModel::Grouping { expr: Box::new(bare_expr(*expr)) },
        ExprModel::Variable { token } => ExprModel::Variable { token: bare_token(token) },
        ExprModel::Assignment { token, value } => ExprModel::Assignment {
            token: bare_token(token),
            value: Box::new(bare_expr(*value)),
        },
        ExprModel::Logical { token, operator, left, right } => ExprModel::Logical {
            token: bare_token(token),
            operator,
            left: Box::new(bare_expr(*left)),
            right: Box::new(bare_expr(*right)),
        },
        ExprModel::Call { callee, arguments, token } => ExprModel::Call {
            callee: Box::new(bare_expr(*callee)),
            arguments: bare_exprs(arguments),
            token: bare_token(token),
        },
        ExprModel::Get { object, name } => ExprModel::Get {
            object: Box::new(bare_expr(*object)),
            name: bare_token(name),
        },
        ExprModel::SetProperty { object, name, value } => ExprModel::SetProperty {
            object: Box::new(bare_expr(*object)),
            name: bare_token(name),
            value: Box::new(bare_expr(*value)),
        },
        ExprModel::This { keyword } => ExprModel::This { keyword: bare_token(keyword) },
        ExprModel::Super { keyword, method } => ExprModel::Super {
            keyword: bare_token(keyword),
            method: bare_token(method),
        },
    }
}

/// The expressions of a list, bare.
pub open spec fn bare_exprs(list: Seq<ExprModel>) -> Seq<ExprModel>
    decreases list, 1nat,
{
    Seq::new(
        list.len(),
        |i: int|
            if 0 <= i < list.len() {
                bare_expr(list[i])
            } else {
                arbitrary()
            },
    )
}

pub open spec fn bare_option(e: Option<ExprModel>) -> Option<ExprModel> {
    match e {
        Some(e) => Some(bare_expr(e)),
        None => None,
    }
}

/// A statement whose tokens have lost their places in the source.
pub open spec fn bare_stmt(s: StmtModel) -> StmtModel
    decreases s, 0nat,
{
    match s {
        StmtModel::Expression { expression } => StmtModel::Expression { expression: bare_expr(expression) },
        StmtModel::Print { token, value } => StmtModel::Print {
            token: bare_token(token),
            value: bare_expr(value),
        },
        StmtModel::VarDecl { token, initializer } => StmtModel::VarDecl {
            token: bare_token(token),
            initializer: bare_option(initializer),
        },
        StmtModel::Block { statements } => StmtModel::Block { statements: bare_stmts(statements) },
        StmtModel::If { condition, then_branch, else_branch } => StmtModel::If {
            condition: bare_expr(condition),
            then_branch: Box::new(bare_stmt(*then_branch)),
            else_branch: match else_branch {
                Some(other) => Some(Box::new(bare_stmt(*other))),
                None => None,
            },
        },
        StmtModel::While { condition, body } => StmtModel::While {
            condition: bare_expr(condition),
            body: Box::new(bare_stmt(*body)),
        },
        StmtModel::FunDecl { declaration } => StmtModel::FunDecl { declaration: bare_function(declaration) },
        StmtModel::Return { keyword, value } => StmtModel::Return {
            keyword: bare_token(keyword),
            value: bare_option(value),
        },
        StmtModel::ClassDecl { name, methods, superclass } => StmtModel::ClassDecl {
            name: bare_token(name),
            methods: bare_functions(methods),
            superclass: match superclass {
                Some(above) => Some(bare_token(above)),
                None => None,
            },
        },
    }
}

/// The statements of a list, bare.
pub open spec fn bare_stmts(list: Seq<StmtModel>) -> Seq<StmtModel>
    decreases list, 1nat,
{
    Seq::new(
        list.len(),
        |i: int|
            if 0 <= i < list.len() {
                bare_stmt(list[i])
            } else {
                arbitrary()
            },
    )
}

/// A function whose tokens have lost their places in the source.
pub open spec fn bare_function(d: FunDeclModel) -> FunDeclModel
    decreases d, 0nat,
{
    FunDeclModel {
        name: bare_token(d.name),
        parameters: bare_tokens(d.parameters),
        body: bare_stmts(d.body),
    }
}

/// The functions of a list, bare.
pub open spec fn bare_functions(list: Seq<FunDeclModel>) -> Seq<FunDeclModel>
    decreases list, 1nat,
{
    Seq::new(
        list.len(),
        |i: int|
            if 0 <= i < list.len() {
                bare_function(list[i])
            } else {
                arbitrary()
            },
    )
}

pub proof fn lemma_bare_tokens_push(list: Seq<TokenModel>, t: TokenModel)
    ensures
        bare_tokens(list.push(t)) == bare_tokens(list).push(bare_token(t)),
{
    assert(bare_tokens(list.push(t)) =~= bare_tokens(list).push(bare_token(t)));
}

pub proof fn lemma_bare_exprs_push(list: Seq<ExprModel>, e: ExprModel)
    ensures
        bare_exprs(list.push(e)) == bare_exprs(list).push(bare_expr(e)),
{
    assert(bare_exprs(list.push(e)) =~= bare_exprs(list).push(bare_expr(e)));
}

pub proof fn lemma_bare_stmts_push(list: Seq<StmtModel>, s: StmtModel)
    ensures
        bare_stmts(list.push(s)) == bare_stmts(list).push(bare_stmt(s)),
{
    assert(bare_stmts(list.push(s)) =~= bare_stmts(list).push(bare_stmt(s)));
}

pub proof fn lemma_bare_functions_push(list: Seq<FunDeclModel>, d: FunDeclModel)
    ensures
        bare_functions(list.push(d)) == bare_functions(list).push(bare_function(d)),
{
    assert(bare_functions(list.push(d)) =~= bare_functions(list).push(bare_function(d)));
}

/// The second rule did on the bare tokens what the first did on the tokens:
/// it consumed as many, recorded as many errors, and failed likewise or read
/// the bare tree.
pub open spec fn mirrors<T>(
    p: Parsed<T>,
    q: Parsed<T>,
    e1: Seq<LoxError>,
    e2: Seq<LoxError>,
    image: spec_fn(T) -> T,
) -> bool {
    &&& q.used == p.used
    &&& q.errors.len() - e2.len() == p.errors.len() - e1.len()
    &&& match p.result {
        Ok(x) => q.result == Ok::<T, LoxError>(image(x)),
        Err(_) => q.result is Err,
    }
}

/// Bare tokens have the kinds of the tokens.
pub proof fn lemma_bare_kind(a: Seq<TokenModel>, pos: int)
    ensures
        kind_at(bare_tokens(a), pos) == kind_at(a, pos),
        room(bare_tokens(a), pos) == room(a, pos),
        0 <= pos < a.len() ==> bare_tokens(a)[pos] == bare_token(a[pos]),
{
}

// What follows shows, rule by rule as the grammar has them, that a rule does
// on the bare tokens what it does on the tokens.

pub proof fn lemma_parameters_bare(
    a: Seq<TokenModel>,
    pos: int,
    so_far: Seq<TokenModel>,
    e1: Seq<LoxError>,
    e2: Seq<LoxError>,
)
    ensures
        mirrors(
            parameters(a, pos, so_far, e1),
            parameters(bare_tokens(a), pos, bare_tokens(so_far), e2),
            e1,
            e2,
            |list: Seq<TokenModel>| bare_tokens(list),
        ),
    decreases room(a, pos),
{
    let b = bare_tokens(a);
    lemma_bare_kind(a, pos);
    lemma_bare_kind(a, pos + 1);
    if kind_at(a, pos) == TokenType::Identifier {
        lemma_bare_tokens_push(so_far, a[pos]);
        if kind_at(a, pos + 1) == TokenType::Comma {
            lemma_parameters_bare(
                a,
                pos + 2,
                so_far.push(a[pos]),
                counted(a, pos, so_far.len(), e1),
                counted(b, pos, so_far.len(), e2),
            );
        }
    }
}

pub proof fn lemma_synchronize_bare(a: Seq<TokenModel>, pos: int)
    ensures
        synchronize(bare_tokens(a), pos) == synchronize(a, pos),
    decreases room(a, pos),
{
    lemma_bare_kind(a, pos);
    lemma_bare_kind(a, pos + 1);
    if kind_at(a, pos) != TokenType::EOF && a[pos].kind != TokenType::Semicolon
        && !crate::grammar::starts_statement(kind_at(a, pos + 1)) {
        lemma_synchronize_bare(a, pos + 1);
    }
}

pub proof fn lemma_primary_bare(a: Seq<TokenModel>, pos: int, e1: Seq<LoxError>, e2: Seq<LoxError>)
    ensures
        mirrors(primary(a, pos, e1), primary(bare_tokens(a), pos, e2), e1, e2, |e: ExprModel| bare_expr(e)),
    decreases room(a, pos), 0nat,
{
    lemma_bare_kind(a, pos);
    lemma_bare_kind(a, pos + 1);
    lemma_bare_kind(a, pos + 2);
    if kind_at(a, pos) == TokenType::LeftParen {
        lemma_expression_bare(a, pos + 1, e1, e2);
        lemma_bare_kind(a, pos + 1 + expression(a, pos + 1, e1).used);
    }
}

pub proof fn lemma_call_rest_bare(
    a: Seq<TokenModel>,
    pos: int,
    callee: ExprModel,
    e1: Seq<LoxError>,
    e2: Seq<LoxError>,
)
    ensures
        mirrors(
            call_rest(a, pos, callee, e1),
            call_rest(bare_tokens(a), pos, bare_expr(callee), e2),
            e1,
            e2,
            |e: ExprModel| bare_expr(e),
        ),
    decreases room(a, pos), 1nat,
{
    let b = bare_tokens(a);
    lemma_bare_kind(a, pos);
    lemma_bare_kind(a, pos + 1);
    let kind = kind_at(a, pos);
    if kind == TokenType::LeftParen {
        if kind_at(a, pos + 1) == TokenType::RightParen {
            let made = ExprModel::Call { callee: Box::new(callee), arguments: Seq::empty(), token: a[pos + 1] };
            assert(bare_exprs(Seq::<ExprModel>::empty()) =~= Seq::<ExprModel>::empty());
            lemma_call_rest_bare(a, pos + 2, made, e1, e2);
        } else {
            assert(bare_exprs(Seq::<ExprModel>::empty()) =~= Seq::<ExprModel>::empty());
            lemma_arguments_bare(a, pos + 1, Seq::empty(), e1, e2);
            let args = arguments(a, pos + 1, Seq::empty(), e1);
            let args2 = arguments(b, pos + 1, Seq::empty(), e2);
            match args.result {
                Err(_) => {},
                Ok(list) => {
                    let close = pos + 1 + args.used;
                    lemma_bare_kind(a, close);
                    if kind_at(a, close) == TokenType::RightParen {
                        let made = ExprModel::Call { callee: Box::new(callee), arguments: list, token: a[close] };
                        lemma_call_rest_bare(a, close + 1, made, args.errors, args2.errors);
                    }
                },
            }
        }
    } else if kind == TokenType::Dot {
        if kind_at(a, pos + 1) == TokenType::Identifier {
            let made = ExprModel::Get { object: Box::new(callee), name: a[pos + 1] };
            lemma_call_rest_bare(a, pos + 2, made, e1, e2);
        }
    }
}

pub proof fn lemma_call_bare(a: Seq<TokenModel>, pos: int, e1: Seq<LoxError>, e2: Seq<LoxError>)
    ensures
        mirrors(call(a, pos, e1), call(bare_tokens(a), pos, e2), e1, e2, |e: ExprModel| bare_expr(e)),
    decreases room(a, pos), 2nat,
{
    lemma_primary_bare(a, pos, e1, e2);
    let first = primary(a, pos, e1);
    let first2 = primary(bare_tokens(a), pos, e2);
    match first.result {
        Err(_) => {},
        Ok(callee) => {
            lemma_call_rest_bare(a, pos + first.used, callee, first.errors, first2.errors);
        },
    }
}

pub proof fn lemma_unary_bare(a: Seq<TokenModel>, pos: int, e1: Seq<LoxError>, e2: Seq<LoxError>)
    ensures
        mirrors(unary(a, pos, e1), unary(bare_tokens(a), pos, e2), e1, e2, |e: ExprModel| bare_expr(e)),
    decreases room(a, pos), 3nat,
{
    lemma_bare_kind(a, pos);
    let kind = kind_at(a, pos);
    if kind == TokenType::Bang || kind == TokenType::Minus {
        lemma_unary_bare(a, pos + 1, e1, e2);
    } else {
        lemma_call_bare(a, pos, e1, e2);
    }
}

pub proof fn lemma_chain_rest_bare(
    a: Seq<TokenModel>,
    pos: int,
    level: nat,
    left: ExprModel,
    e1: Seq<LoxError>,
    e2: Seq<LoxError>,
)
    ensures
        mirrors(
            chain_rest(a, pos, level, left, e1),
            chain_rest(bare_tokens(a), pos, level, bare_expr(left), e2),
            e1,
            e2,
            |e: ExprModel| bare_expr(e),
        ),
    decreases room(a, pos), 4 + 2 * level,
{
    let b = bare_tokens(a);
    lemma_bare_kind(a, pos);
    match joint_at(level, kind_at(a, pos)) {
        None => {},
        Some(joint) => {
            lemma_chain_bare(a, pos + 1, (level - 1) as nat, e1, e2);
            let right = chain(a, pos + 1, (level - 1) as nat, e1);
            let right2 = chain(b, pos + 1, (level - 1) as nat, e2);
            match right.result {
                Err(_) => {},
                Ok(e) => {
                    let made = crate::grammar::joined(joint, a[pos], left, e);
                    lemma_chain_rest_bare(a, pos + 1 + right.used, level, made, right.errors, right2.errors);
                },
            }
        },
    }
}

pub proof fn lemma_chain_bare(a: Seq<TokenModel>, pos: int, level: nat, e1: Seq<LoxError>, e2: Seq<LoxError>)
    ensures
        mirrors(
            chain(a, pos, level, e1),
            chain(bare_tokens(a), pos, level, e2),
            e1,
            e2,
            |e: ExprModel| bare_expr(e),
        ),
    decreases room(a, pos), 5 + 2 * level,
{
    if level == 0 {
        lemma_unary_bare(a, pos, e1, e2);
    } else {
        lemma_chain_bare(a, pos, (level - 1) as nat, e1, e2);
        let first = chain(a, pos, (level - 1) as nat, e1);
        let first2 = chain(bare_tokens(a), pos, (level - 1) as nat, e2);
        match first.result {
            Err(_) => {},
            Ok(left) => {
                lemma_chain_rest_bare(a, pos + first.used, level, left, first.errors, first2.errors);
            },
        }
    }
}

pub proof fn lemma_assignment_bare(a: Seq<TokenModel>, pos: int, e1: Seq<LoxError>, e2: Seq<LoxError>)
    ensures
        mirrors(assignment(a, pos, e1), assignment(bare_tokens(a), pos, e2), e1, e2, |e: ExprModel| bare_expr(e)),
    decreases room(a, pos), 18nat,
{
    let b = bare_tokens(a);
    lemma_chain_bare(a, pos, 6, e1, e2);
    let target = chain(a, pos, 6, e1);
    let target2 = chain(b, pos, 6, e2);
    match target.result {
        Err(_) => {},
        Ok(expr) => {
            lemma_bare_kind(a, pos + target.used);
            if kind_at(a, pos + target.used) == TokenType::Equal {
                lemma_assignment_bare(a, pos + target.used + 1, target.errors, target2.errors);
            }
        },
    }
}

pub proof fn lemma_expression_bare(a: Seq<TokenModel>, pos: int, e1: Seq<LoxError>, e2: Seq<LoxError>)
    ensures
        mirrors(expression(a, pos, e1), expression(bare_tokens(a), pos, e2), e1, e2, |e: ExprModel| bare_expr(e)),
    decreases room(a, pos), 19nat,
{
    lemma_assignment_bare(a, pos, e1, e2);
}

pub proof fn lemma_arguments_bare(
    a: Seq<TokenModel>,
    pos: int,
    so_far: Seq<ExprModel>,
    e1: Seq<LoxError>,
    e2: Seq<LoxError>,
)
    ensures
        mirrors(
            arguments(a, pos, so_far, e1),
            arguments(bare_tokens(a), pos, bare_exprs(so_far), e2),
            e1,
            e2,
            |list: Seq<ExprModel>| bare_exprs(list),
        ),
    decreases room(a, pos), 20nat,
{
    let b = bare_tokens(a);
    let c1 = counted(a, pos, so_far.len(), e1);
    let c2 = counted(b, pos, so_far.len(), e2);
    lemma_expression_bare(a, pos, c1, c2);
    let next = expression(a, pos, c1);
    let next2 = expression(b, pos, c2);
    match next.result {
        Err(_) => {},
        Ok(e) => {
            lemma_bare_exprs_push(so_far, e);
            lemma_bare_kind(a, pos + next.used);
            if kind_at(a, pos + next.used) == TokenType::Comma {
                lemma_arguments_bare(a, pos + next.used + 1, so_far.push(e), next.errors, next2.errors);
            }
        },
    }
}

pub proof fn lemma_closed_expression_bare(
    a: Seq<TokenModel>,
    pos: int,
    closing: TokenType,
    message: &'static str,
    e1: Seq<LoxError>,
    e2: Seq<LoxError>,
)
    ensures
        mirrors(
            closed_expression(a, pos, closing, message, e1),
            closed_expression(bare_tokens(a), pos, closing, message, e2),
            e1,
            e2,
            |e: ExprModel| bare_expr(e),
        ),
{
    reveal(closed_expression);
    lemma_expression_bare(a, pos, e1, e2);
    lemma_bare_kind(a, pos + expression(a, pos, e1).used);
}

pub proof fn lemma_expression_statement_bare(a: Seq<TokenModel>, pos: int, e1: Seq<LoxError>, e2: Seq<LoxError>)
    ensures
        mirrors(
            expression_statement(a, pos, e1),
            expression_statement(bare_tokens(a), pos, e2),
            e1,
            e2,
            |s: StmtModel| bare_stmt(s),
        ),
{
    reveal(expression_statement);
    lemma_closed_expression_bare(a, pos, TokenType::Semicolon, "expected ';' after statement", e1, e2);
}

pub proof fn lemma_print_statement_bare(a: Seq<TokenModel>, pos: int, e1: Seq<LoxError>, e2: Seq<LoxError>)
    requires
        0 <= pos < a.len(),
    ensures
        mirrors(
            print_statement(a, pos, e1),
            print_statement(bare_tokens(a), pos, e2),
            e1,
            e2,
            |s: StmtModel| bare_stmt(s),
        ),
{
    reveal(print_statement);
    lemma_bare_kind(a, pos);
    lemma_closed_expression_bare(a, pos + 1, TokenType::Semicolon, "expected ';' after statement", e1, e2);
}

pub proof fn lemma_return_statement_bare(a: Seq<TokenModel>, pos: int, e1: Seq<LoxError>, e2: Seq<LoxError>)
    requires
        0 <= pos < a.len(),
    ensures
        mirrors(
            return_statement(a, pos, e1),
            return_statement(bare_tokens(a), pos, e2),
            e1,
            e2,
            |s: StmtModel| bare_stmt(s),
        ),
{
    reveal(return_statement);
    lemma_bare_kind(a, pos);
    lemma_bare_kind(a, pos + 1);
    lemma_closed_expression_bare(
        a,
        pos + 1,
        TokenType::Semicolon,
        "expected ';' after return statement",
        e1,
        e2,
    );
}

pub proof fn lemma_var_declaration_bare(a: Seq<TokenModel>, pos: int, e1: Seq<LoxError>, e2: Seq<LoxError>)
    requires
        0 <= pos,
    ensures
        mirrors(
            var_declaration(a, pos, e1),
            var_declaration(bare_tokens(a), pos, e2),
            e1,
            e2,
            |s: StmtModel| bare_stmt(s),
        ),
{
    reveal(var_declaration);
    lemma_bare_kind(a, pos + 1);
    lemma_bare_kind(a, pos + 2);
    lemma_closed_expression_bare(
        a,
        pos + 3,
        TokenType::Semicolon,
        "expected ';' after variable declaration",
        e1,
        e2,
    );
}

pub proof fn lemma_block_rest_bare(
    a: Seq<TokenModel>,
    pos: int,
    so_far: Seq<StmtModel>,
    e1: Seq<LoxError>,
    e2: Seq<LoxError>,
)
    requires
        0 <= pos,
    ensures
        mirrors(
            block_rest(a, pos, so_far, e1),
            block_rest(bare_tokens(a), pos, bare_stmts(so_far), e2),
            e1,
            e2,
            |list: Seq<StmtModel>| bare_stmts(list),
        ),
    decreases room(a, pos), 31nat,
{
    let b = bare_tokens(a);
    lemma_bare_kind(a, pos);
    let kind = kind_at(a, pos);
    if kind != TokenType::RightBrace && kind != TokenType::EOF {
        lemma_declaration_bare(a, pos, e1, e2);
        let next = declaration(a, pos, e1);
        let next2 = declaration(b, pos, e2);
        match next.result {
            Err(_) => {},
            Ok(s) => {
                if next.used > 0 {
                    lemma_bare_stmts_push(so_far, s);
                    lemma_block_rest_bare(a, pos + next.used, so_far.push(s), next.errors, next2.errors);
                }
            },
        }
    }
}

pub proof fn lemma_block_bare(a: Seq<TokenModel>, pos: int, e1: Seq<LoxError>, e2: Seq<LoxError>)
    requires
        0 <= pos,
    ensures
        mirrors(
            block(a, pos, e1),
            block(bare_tokens(a), pos, e2),
            e1,
            e2,
            |list: Seq<StmtModel>| bare_stmts(list),
        ),
    decreases room(a, pos), 22nat,
{
    lemma_bare_kind(a, pos);
    if kind_at(a, pos) == TokenType::LeftBrace {
        assert(bare_stmts(Seq::<StmtModel>::empty()) =~= Seq::<StmtModel>::empty());
        lemma_block_rest_bare(a, pos + 1, Seq::empty(), e1, e2);
    }
}

pub proof fn lemma_guarded_statement_bare(
    a: Seq<TokenModel>,
    pos: int,
    open_message: &'static str,
    close_message: &'static str,
    e1: Seq<LoxError>,
    e2: Seq<LoxError>,
)
    requires
        0 <= pos < a.len(),
    ensures
        mirrors(
            guarded_statement(a, pos, open_message, close_message, e1),
            guarded_statement(bare_tokens(a), pos, open_message, close_message, e2),
            e1,
            e2,
            |pair: (ExprModel, StmtModel)| (bare_expr(pair.0), bare_stmt(pair.1)),
        ),
    decreases room(a, pos), 22nat,
{
    let b = bare_tokens(a);
    lemma_bare_kind(a, pos + 1);
    if kind_at(a, pos + 1) == TokenType::LeftParen {
        lemma_closed_expression_bare(a, pos + 2, TokenType::RightParen, close_message, e1, e2);
        let condition = closed_expression(a, pos + 2, TokenType::RightParen, close_message, e1);
        let condition2 = closed_expression(b, pos + 2, TokenType::RightParen, close_message, e2);
        match condition.result {
            Err(_) => {},
            Ok(c) => {
                lemma_statement_bare(a, pos + 2 + condition.used, condition.errors, condition2.errors);
            },
        }
    }
}

pub proof fn lemma_if_statement_bare(a: Seq<TokenModel>, pos: int, e1: Seq<LoxError>, e2: Seq<LoxError>)
    requires
        0 <= pos < a.len(),
    ensures
        mirrors(
            if_statement(a, pos, e1),
            if_statement(bare_tokens(a), pos, e2),
            e1,
            e2,
            |s: StmtModel| bare_stmt(s),
        ),
    decreases room(a, pos), 23nat,
{
    let b = bare_tokens(a);
    let open_message = "expected '(' after if";
    let close_message = "expected ')' after if condition";
    lemma_guarded_statement_bare(a, pos, open_message, close_message, e1, e2);
    let head = guarded_statement(a, pos, open_message, close_message, e1);
    let head2 = guarded_statement(b, pos, open_message, close_message, e2);
    match head.result {
        Err(_) => {},
        Ok((condition, then_branch)) => {
            lemma_bare_kind(a, pos + head.used);
            if kind_at(a, pos + head.used) == TokenType::Else {
                lemma_statement_bare(a, pos + head.used + 1, head.errors, head2.errors);
            }
        },
    }
}

pub proof fn lemma_while_statement_bare(a: Seq<TokenModel>, pos: int, e1: Seq<LoxError>, e2: Seq<LoxError>)
    requires
        0 <= pos < a.len(),
    ensures
        mirrors(
            while_statement(a, pos, e1),
            while_statement(bare_tokens(a), pos, e2),
            e1,
            e2,
            |s: StmtModel| bare_stmt(s),
        ),
    decreases room(a, pos), 23nat,
{
    lemma_guarded_statement_bare(
        a,
        pos,
        "expected '(' after while",
        "expected ')' after while condition",
        e1,
        e2,
    );
}

pub proof fn lemma_for_initializer_bare(a: Seq<TokenModel>, pos: int, e1: Seq<LoxError>, e2: Seq<LoxError>)
    requires
        0 <= pos,
    ensures
        mirrors(
            for_initializer(a, pos, e1),
            for_initializer(bare_tokens(a), pos, e2),
            e1,
            e2,
            |s: Option<StmtModel>|
                match s {
                    Some(s) => Some(bare_stmt(s)),
                    None => None,
                },
        ),
{
    reveal(for_initializer);
    lemma_bare_kind(a, pos);
    if kind_at(a, pos) == TokenType::Var {
        lemma_var_declaration_bare(a, pos, e1, e2);
    } else if kind_at(a, pos) != TokenType::Semicolon {
        lemma_expression_statement_bare(a, pos, e1, e2);
    }
}

pub proof fn lemma_for_condition_bare(a: Seq<TokenModel>, pos: int, e1: Seq<LoxError>, e2: Seq<LoxError>)
    requires
        0 <= pos,
    ensures
        mirrors(
            for_condition(a, pos, e1),
            for_condition(bare_tokens(a), pos, e2),
            e1,
            e2,
            |e: ExprModel| bare_expr(e),
        ),
{
    reveal(for_condition);
    lemma_bare_kind(a, pos);
    lemma_closed_expression_bare(a, pos, TokenType::Semicolon, "expected ';' after for condition", e1, e2);
}

pub proof fn lemma_for_increment_bare(a: Seq<TokenModel>, pos: int, e1: Seq<LoxError>, e2: Seq<LoxError>)
    requires
        0 <= pos,
    ensures
        mirrors(
            for_increment(a, pos, e1),
            for_increment(bare_tokens(a), pos, e2),
            e1,
            e2,
            |e: Option<ExprModel>| bare_option(e),
        ),
{
    reveal(for_increment);
    lemma_bare_kind(a, pos);
    lemma_closed_expression_bare(a, pos, TokenType::RightParen, "expected ')' after for clause", e1, e2);
}

/// The loop that a bare `for` stands for is the bare loop.
pub proof fn lemma_desugared_bare(
    initializer: Option<StmtModel>,
    condition: ExprModel,
    increment: Option<ExprModel>,
    body: StmtModel,
)
    ensures
        bare_stmt(desugared(initializer, condition, increment, body)) == desugared(
            match initializer {
                Some(s) => Some(bare_stmt(s)),
                None => None,
            },
            bare_expr(condition),
            bare_option(increment),
            bare_stmt(body),
        ),
{
    let repeated = match increment {
        Some(expression) => StmtModel::While {
            condition,
            body: Box::new(
                StmtModel::Block { statements: seq![body, StmtModel::Expression { expression }] },
            ),
        },
        None => StmtModel::While { condition, body: Box::new(body) },
    };
    match increment {
        Some(expression) => {
            let inner = seq![body, StmtModel::Expression { expression }];
            assert(bare_stmts(inner) =~= seq![
                bare_stmt(body),
                StmtModel::Expression { expression: bare_expr(expression) },
            ]);
            assert(bare_stmt(StmtModel::Block { statements: inner }) == StmtModel::Block {
                statements: bare_stmts(inner),
            });
        },
        None => {},
    }
    match initializer {
        Some(first) => {
            let outer = seq![first, repeated];
            assert(bare_stmts(outer) =~= seq![bare_stmt(first), bare_stmt(repeated)]);
        },
        None => {},
    }
}

pub proof fn lemma_for_statement_bare(a: Seq<TokenModel>, pos: int, e1: Seq<LoxError>, e2: Seq<LoxError>)
    requires
        0 <= pos < a.len(),
    ensures
        mirrors(
            for_statement(a, pos, e1),
            for_statement(bare_tokens(a), pos, e2),
            e1,
            e2,
            |s: StmtModel| bare_stmt(s),
        ),
    decreases room(a, pos), 24nat,
{
    let b = bare_tokens(a);
    lemma_bare_kind(a, pos + 1);
    if kind_at(a, pos + 1) == TokenType::LeftParen {
        lemma_for_initializer_bare(a, pos + 2, e1, e2);
        let first = for_initializer(a, pos + 2, e1);
        let first2 = for_initializer(b, pos + 2, e2);
        match first.result {
            Err(_) => {},
            Ok(initializer) => {
                let at_condition = pos + 2 + first.used;
                lemma_for_condition_bare(a, at_condition, first.errors, first2.errors);
                let second = for_condition(a, at_condition, first.errors);
                let second2 = for_condition(b, at_condition, first2.errors);
                match second.result {
                    Err(_) => {},
                    Ok(condition) => {
                        let at_increment = at_condition + second.used;
                        lemma_for_increment_bare(a, at_increment, second.errors, second2.errors);
                        let third = for_increment(a, at_increment, second.errors);
                        let third2 = for_increment(b, at_increment, second2.errors);
                        match third.result {
                            Err(_) => {},
                            Ok(increment) => {
                                let at_body = at_increment + third.used;
                                lemma_statement_bare(a, at_body, third.errors, third2.errors);
                                let last = statement(a, at_body, third.errors);
                                match last.result {
                                    Err(_) => {},
                                    Ok(body) => {
                                        lemma_desugared_bare(initializer, condition, increment, body);
                                    },
                                }
                            },
                        }
                    },
                }
            },
        }
    }
}

pub proof fn lemma_statement_bare(a: Seq<TokenModel>, pos: int, e1: Seq<LoxError>, e2: Seq<LoxError>)
    requires
        0 <= pos,
    ensures
        mirrors(statement(a, pos, e1), statement(bare_tokens(a), pos, e2), e1, e2, |s: StmtModel| bare_stmt(s)),
    decreases room(a, pos), 25nat,
{
    lemma_bare_kind(a, pos);
    let kind = kind_at(a, pos);
    if kind == TokenType::Print {
        lemma_print_statement_bare(a, pos, e1, e2);
    } else if kind == TokenType::LeftBrace {
        lemma_block_bare(a, pos, e1, e2);
    } else if kind == TokenType::If {
        lemma_if_statement_bare(a, pos, e1, e2);
    } else if kind == TokenType::While {
        lemma_while_statement_bare(a, pos, e1, e2);
    } else if kind == TokenType::For {
        lemma_for_statement_bare(a, pos, e1, e2);
    } else if kind == TokenType::Return {
        lemma_return_statement_bare(a, pos, e1, e2);
    } else {
        lemma_expression_statement_bare(a, pos, e1, e2);
    }
}

pub proof fn lemma_function_bare(
    a: Seq<TokenModel>,
    pos: int,
    kind: FunctionKind,
    e1: Seq<LoxError>,
    e2: Seq<LoxError>,
)
    requires
        0 <= pos,
    ensures
        mirrors(
            function(a, pos, kind, e1),
            function(bare_tokens(a), pos, kind, e2),
            e1,
            e2,
            |d: FunDeclModel| bare_function(d),
        ),
    decreases room(a, pos), 23nat,
{
    let b = bare_tokens(a);
    lemma_bare_kind(a, pos);
    lemma_bare_kind(a, pos + 1);
    lemma_bare_kind(a, pos + 2);
    if kind_at(a, pos) == TokenType::Identifier && kind_at(a, pos + 1) == TokenType::LeftParen {
        assert(bare_tokens(Seq::<TokenModel>::empty()) =~= Seq::<TokenModel>::empty());
        if kind_at(a, pos + 2) != TokenType::RightParen {
            lemma_parameters_bare(a, pos + 2, Seq::empty(), e1, e2);
        }
        let list = if kind_at(a, pos + 2) == TokenType::RightParen {
            crate::grammar::done(Seq::<TokenModel>::empty(), 0, e1)
        } else {
            parameters(a, pos + 2, Seq::empty(), e1)
        };
        let list2 = if kind_at(b, pos + 2) == TokenType::RightParen {
            crate::grammar::done(Seq::<TokenModel>::empty(), 0, e2)
        } else {
            parameters(b, pos + 2, Seq::empty(), e2)
        };
        match list.result {
            Err(_) => {},
            Ok(names) => {
                let at_close = pos + 2 + list.used;
                lemma_bare_kind(a, at_close);
                lemma_bare_kind(a, at_close + 1);
                if kind_at(a, at_close) == TokenType::RightParen && kind_at(a, at_close + 1)
                    == TokenType::LeftBrace {
                    lemma_block_bare(a, at_close + 1, list.errors, list2.errors);
                }
            },
        }
    }
}

pub proof fn lemma_fun_declaration_bare(a: Seq<TokenModel>, pos: int, e1: Seq<LoxError>, e2: Seq<LoxError>)
    requires
        0 <= pos,
    ensures
        mirrors(
            fun_declaration(a, pos, e1),
            fun_declaration(bare_tokens(a), pos, e2),
            e1,
            e2,
            |s: StmtModel| bare_stmt(s),
        ),
    decreases room(a, pos), 24nat,
{
    lemma_function_bare(a, pos + 1, FunctionKind::Function, e1, e2);
}

pub proof fn lemma_methods_rest_bare(
    a: Seq<TokenModel>,
    pos: int,
    so_far: Seq<FunDeclModel>,
    e1: Seq<LoxError>,
    e2: Seq<LoxError>,
)
    requires
        0 <= pos,
    ensures
        mirrors(
            methods_rest(a, pos, so_far, e1),
            methods_rest(bare_tokens(a), pos, bare_functions(so_far), e2),
            e1,
            e2,
            |list: Seq<FunDeclModel>| bare_functions(list),
        ),
    decreases room(a, pos), 24nat,
{
    let b = bare_tokens(a);
    lemma_bare_kind(a, pos);
    let kind = kind_at(a, pos);
    if kind != TokenType::RightBrace && kind != TokenType::EOF {
        lemma_function_bare(a, pos, FunctionKind::Method, e1, e2);
        let next = function(a, pos, FunctionKind::Method, e1);
        let next2 = function(b, pos, FunctionKind::Method, e2);
        match next.result {
            Err(_) => {},
            Ok(method) => {
                if next.used > 0 {
                    lemma_bare_functions_push(so_far, method);
                    lemma_methods_rest_bare(a, pos + next.used, so_far.push(method), next.errors, next2.errors);
                }
            },
        }
    }
}

pub proof fn lemma_class_declaration_bare(a: Seq<TokenModel>, pos: int, e1: Seq<LoxError>, e2: Seq<LoxError>)
    requires
        0 <= pos,
    ensures
        mirrors(
            class_declaration(a, pos, e1),
            class_declaration(bare_tokens(a), pos, e2),
            e1,
            e2,
            |s: StmtModel| bare_stmt(s),
        ),
    decreases room(a, pos), 25nat,
{
    lemma_bare_kind(a, pos + 1);
    lemma_bare_kind(a, pos + 2);
    lemma_bare_kind(a, pos + 3);
    lemma_bare_kind(a, pos + 4);
    if kind_at(a, pos + 1) == TokenType::Identifier && !(kind_at(a, pos + 2) == TokenType::Less
        && kind_at(a, pos + 3) != TokenType::Identifier) {
        let at_brace: nat = if kind_at(a, pos + 2) == TokenType::Less {
            4
        } else {
            2
        };
        if kind_at(a, pos + at_brace) == TokenType::LeftBrace {
            assert(bare_functions(Seq::<FunDeclModel>::empty()) =~= Seq::<FunDeclModel>::empty());
            lemma_methods_rest_bare(a, pos + at_brace + 1, Seq::empty(), e1, e2);
        }
    }
}

pub proof fn lemma_declaration_bare(a: Seq<TokenModel>, pos: int, e1: Seq<LoxError>, e2: Seq<LoxError>)
    requires
        0 <= pos,
    ensures
        mirrors(
            declaration(a, pos, e1),
            declaration(bare_tokens(a), pos, e2),
            e1,
            e2,
            |s: StmtModel| bare_stmt(s),
        ),
    decreases room(a, pos), 30nat,
{
    lemma_bare_kind(a, pos);
    let kind = kind_at(a, pos);
    if kind == TokenType::Class {
        lemma_class_declaration_bare(a, pos, e1, e2);
    } else if kind == TokenType::Var {
        lemma_var_declaration_bare(a, pos, e1, e2);
    } else if kind == TokenType::Fun {
        lemma_fun_declaration_bare(a, pos, e1, e2);
    } else {
        lemma_statement_bare(a, pos, e1, e2);
    }
}

/// A parse of the bare tokens reads the bare statements, ends at the same
/// place and meets as many errors.
pub proof fn lemma_program_bare(
    a: Seq<TokenModel>,
    pos: int,
    so_far: Seq<StmtModel>,
    e1: Seq<LoxError>,
    e2: Seq<LoxError>,
)
    requires
        0 <= pos,
    ensures
        program(bare_tokens(a), pos, bare_stmts(so_far), e2).statements == bare_stmts(
            program(a, pos, so_far, e1).statements,
        ),
        program(bare_tokens(a), pos, bare_stmts(so_far), e2).end == program(a, pos, so_far, e1).end,
        program(bare_tokens(a), pos, bare_stmts(so_far), e2).errors.len() - e2.len() == program(
            a,
            pos,
            so_far,
            e1,
        ).errors.len() - e1.len(),
    decreases room(a, pos),
{
    let b = bare_tokens(a);
    lemma_bare_kind(a, pos);
    if kind_at(a, pos) != TokenType::EOF {
        lemma_declaration_bare(a, pos, e1, e2);
        let next = declaration(a, pos, e1);
        let next2 = declaration(b, pos, e2);
        match next.result {
            Ok(s) => {
                if next.used > 0 {
                    lemma_bare_stmts_push(so_far, s);
                    lemma_program_bare(a, pos + next.used, so_far.push(s), next.errors, next2.errors);
                }
            },
            Err(e) => {
                lemma_synchronize_advances(a, pos + next.used);
                lemma_synchronize_bare(a, pos + next.used);
                let skipped = synchronize(a, pos + next.used);
                lemma_program_bare(
                    a,
                    pos + next.used + skipped,
                    so_far,
                    next.errors.push(e),
                    next2.errors.push(next2.result->Err_0),
                );
            },
        }
    }
}

pub proof fn lemma_bare_tokens_add(x: Seq<TokenModel>, y: Seq<TokenModel>)
    ensures
        bare_tokens(x + y) == bare_tokens(x) + bare_tokens(y),
{
    assert(bare_tokens(x + y) =~= bare_tokens(x) + bare_tokens(y));
}

/// Bare tokens are plain, if the tokens hold no `for`.
pub proof fn lemma_bare_tokens_are_plain(ts: Seq<TokenModel>)
    requires
        forall|i: int| 0 <= i < ts.len() ==> (#[trigger] ts[i]).kind != TokenType::For,
    ensures
        plain(bare_tokens(ts)),
{
    assert forall|i: int| 0 <= i < bare_tokens(ts).len() implies (#[trigger] bare_tokens(ts)[i]).kind
        != TokenType::For && (structural(bare_tokens(ts)[i].kind) ==> bare_tokens(ts)[i] == mark(
        bare_tokens(ts)[i].kind,
    )) by {
        assert(bare_tokens(ts)[i] == bare_token(ts[i]));
    }
}

// What follows shows that a bare tree is printed as the bare tokens of the
// tree.

/// The bare expression is written with the bare tokens of the expression.
pub proof fn lemma_print_bare_expr(e: ExprModel)
    ensures
        print_expr(bare_expr(e)) == bare_tokens(print_expr(e)),
    decreases e, 0nat,
{
    match e {
        ExprModel::Binary { token, left, right, .. } => {
            lemma_print_bare_expr(*left);
            lemma_print_bare_expr(*right);
            lemma_bare_tokens_push(print_expr(*left), token);
            lemma_bare_tokens_add(print_expr(*left).push(token), print_expr(*right));
        },
        ExprModel::Logical { token, left, right, .. } => {
            lemma_print_bare_expr(*left);
            lemma_print_bare_expr(*right);
            lemma_bare_tokens_push(print_expr(*left), token);
            lemma_bare_tokens_add(print_expr(*left).push(token), print_expr(*right));
        },
        ExprModel::Unary { token, right, .. } => {
            lemma_print_bare_expr(*right);
            lemma_bare_tokens_add(seq![token], print_expr(*right));
            assert(bare_tokens(seq![token]) =~= seq![bare_token(token)]);
        },
        ExprModel::Literal { token, .. } => {
            assert(bare_tokens(seq![token]) =~= seq![bare_token(token)]);
        },
        ExprModel::Grouping { expr } => {
            lemma_print_bare_expr(*expr);
            let open = seq![mark(TokenType::LeftParen)];
            lemma_bare_tokens_add(open, print_expr(*expr));
            lemma_bare_tokens_push(open + print_expr(*expr), mark(TokenType::RightParen));
            assert(bare_tokens(open) =~= open);
        },
        ExprModel::Variable { token } => {
            assert(bare_tokens(seq![token]) =~= seq![bare_token(token)]);
        },
        ExprModel::Assignment { token, value } => {
            lemma_print_bare_expr(*value);
            let head = seq![token, mark(TokenType::Equal)];
            lemma_bare_tokens_add(head, print_expr(*value));
            assert(bare_tokens(head) =~= seq![bare_token(token), mark(TokenType::Equal)]);
        },
        ExprModel::Call { callee, arguments, token } => {
            lemma_print_bare_expr(*callee);
            lemma_print_bare_arguments(arguments, arguments.len());
            let head = print_expr(*callee).push(mark(TokenType::LeftParen));
            lemma_bare_tokens_push(print_expr(*callee), mark(TokenType::LeftParen));
            lemma_bare_tokens_add(head, print_arguments(arguments, arguments.len()));
            lemma_bare_tokens_push(head + print_arguments(arguments, arguments.len()), token);
        },
        ExprModel::Get { object, name } => {
            lemma_print_bare_expr(*object);
            lemma_bare_tokens_push(print_expr(*object), mark(TokenType::Dot));
            lemma_bare_tokens_push(print_expr(*object).push(mark(TokenType::Dot)), name);
        },
        ExprModel::SetProperty { object, name, value } => {
            lemma_print_bare_expr(*object);
            lemma_print_bare_expr(*value);
            let first = print_expr(*object).push(mark(TokenType::Dot));
            lemma_bare_tokens_push(print_expr(*object), mark(TokenType::Dot));
            lemma_bare_tokens_push(first, name);
            lemma_bare_tokens_push(first.push(name), mark(TokenType::Equal));
            lemma_bare_tokens_add(first.push(name).push(mark(TokenType::Equal)), print_expr(*value));
        },
        ExprModel::This { keyword } => {
            assert(bare_tokens(seq![keyword]) =~= seq![bare_token(keyword)]);
        },
        ExprModel::Super { keyword, method } => {
            assert(bare_tokens(seq![keyword, mark(TokenType::Dot), method]) =~= seq![
                bare_token(keyword),
                mark(TokenType::Dot),
                bare_token(method),
            ]);
        },
    }
}

pub proof fn lemma_print_bare_arguments(list: Seq<ExprModel>, n: nat)
    requires
        n <= list.len(),
    ensures
        print_arguments(bare_exprs(list), n) == bare_tokens(print_arguments(list, n)),
    decreases list, n,
{
    if n == 0 {
        assert(bare_tokens(Seq::<TokenModel>::empty()) =~= Seq::<TokenModel>::empty());
    } else if n == 1 {
        lemma_print_bare_expr(list[0]);
    } else {
        lemma_print_bare_arguments(list, (n - 1) as nat);
        lemma_print_bare_expr(list[n - 1]);
        let before = print_arguments(list, (n - 1) as nat);
        lemma_bare_tokens_push(before, mark(TokenType::Comma));
        lemma_bare_tokens_add(before.push(mark(TokenType::Comma)), print_expr(list[n - 1]));
    }
}

pub proof fn lemma_print_bare_parameters(list: Seq<TokenModel>, n: nat)
    requires
        n <= list.len(),
    ensures
        print_parameters(bare_tokens(list), n) == bare_tokens(print_parameters(list, n)),
    decreases n,
{
    if n == 0 {
        assert(bare_tokens(Seq::<TokenModel>::empty()) =~= Seq::<TokenModel>::empty());
    } else if n == 1 {
        assert(bare_tokens(seq![list[0]]) =~= seq![bare_token(list[0])]);
    } else {
        lemma_print_bare_parameters(list, (n - 1) as nat);
        let before = print_parameters(list, (n - 1) as nat);
        lemma_bare_tokens_push(before, mark(TokenType::Comma));
        lemma_bare_tokens_push(before.push(mark(TokenType::Comma)), list[n - 1]);
    }
}

/// The bare statement is written with the bare tokens of the statement.
pub proof fn lemma_print_bare_stmt(s: StmtModel)
    ensures
        print_stmt(bare_stmt(s)) == bare_tokens(print_stmt(s)),
    decreases s, 0nat,
{
    match s {
        StmtModel::Expression { expression } => {
            lemma_print_bare_expr(expression);
            lemma_bare_tokens_push(print_expr(expression), mark(TokenType::Semicolon));
        },
        StmtModel::Print { token, value } => {
            lemma_print_bare_expr(value);
            lemma_bare_tokens_add(seq![token], print_expr(value));
            lemma_bare_tokens_push(seq![token] + print_expr(value), mark(TokenType::Semicolon));
            assert(bare_tokens(seq![token]) =~= seq![bare_token(token)]);
        },
        StmtModel::VarDecl { token, initializer } => {
            match initializer {
                Some(e) => {
                    lemma_print_bare_expr(e);
                    let head = seq![mark(TokenType::Var), token, mark(TokenType::Equal)];
                    lemma_bare_tokens_add(head, print_expr(e));
                    lemma_bare_tokens_push(head + print_expr(e), mark(TokenType::Semicolon));
                    assert(bare_tokens(head) =~= seq![
                        mark(TokenType::Var),
                        bare_token(token),
                        mark(TokenType::Equal),
                    ]);
                },
                None => {
                    assert(bare_tokens(seq![mark(TokenType::Var), token, mark(TokenType::Semicolon)]) =~= seq![
                        mark(TokenType::Var),
                        bare_token(token),
                        mark(TokenType::Semicolon),
                    ]);
                },
            }
        },
        StmtModel::Block { statements } => {
            lemma_print_bare_block(statements);
        },
        StmtModel::If { condition, then_branch, else_branch } => {
            lemma_print_bare_expr(condition);
            lemma_print_bare_stmt(*then_branch);
            let open = seq![mark(TokenType::If), mark(TokenType::LeftParen)];
            assert(bare_tokens(open) =~= open);
            lemma_bare_tokens_add(open, print_expr(condition));
            lemma_bare_tokens_push(open + print_expr(condition), mark(TokenType::RightParen));
            let test = (open + print_expr(condition)).push(mark(TokenType::RightParen));
            lemma_bare_tokens_add(test, print_stmt(*then_branch));
            match else_branch {
                Some(other) => {
                    lemma_print_bare_stmt(*other);
                    let head = test + print_stmt(*then_branch);
                    lemma_bare_tokens_push(head, mark(TokenType::Else));
                    lemma_bare_tokens_add(head.push(mark(TokenType::Else)), print_stmt(*other));
                },
                None => {},
            }
        },
        StmtModel::While { condition, body } => {
            lemma_print_bare_expr(condition);
            lemma_print_bare_stmt(*body);
            let open = seq![mark(TokenType::While), mark(TokenType::LeftParen)];
            assert(bare_tokens(open) =~= open);
            lemma_bare_tokens_add(open, print_expr(condition));
            lemma_bare_tokens_push(open + print_expr(condition), mark(TokenType::RightParen));
            lemma_bare_tokens_add(
                (open + print_expr(condition)).push(mark(TokenType::RightParen)),
                print_stmt(*body),
            );
        },
        StmtModel::FunDecl { declaration } => {
            lemma_print_bare_function(declaration);
            let head = seq![mark(TokenType::Fun)];
            assert(bare_tokens(head) =~= head);
            lemma_bare_tokens_add(head, print_function(declaration));
        },
        StmtModel::Return { keyword, value } => {
            match value {
                Some(e) => {
                    lemma_print_bare_expr(e);
                    lemma_bare_tokens_add(seq![keyword], print_expr(e));
                    lemma_bare_tokens_push(seq![keyword] + print_expr(e), mark(TokenType::Semicolon));
                    assert(bare_tokens(seq![keyword]) =~= seq![bare_token(keyword)]);
                },
                None => {
                    assert(bare_tokens(seq![keyword, mark(TokenType::Semicolon)]) =~= seq![
                        bare_token(keyword),
                        mark(TokenType::Semicolon),
                    ]);
                },
            }
        },
        StmtModel::ClassDecl { name, methods, superclass } => {
            lemma_print_bare_methods(methods, methods.len());
            let head = match superclass {
                Some(above) => seq![mark(TokenType::Class), name, mark(TokenType::Less), above],
                None => seq![mark(TokenType::Class), name],
            };
            let bare_head = match superclass {
                Some(above) => seq![
                    mark(TokenType::Class),
                    bare_token(name),
                    mark(TokenType::Less),
                    bare_token(above),
                ],
                None => seq![mark(TokenType::Class), bare_token(name)],
            };
            assert(bare_tokens(head) =~= bare_head);
            lemma_bare_tokens_push(head, mark(TokenType::LeftBrace));
            lemma_bare_tokens_add(head.push(mark(TokenType::LeftBrace)), print_methods(methods, methods.len()));
            lemma_bare_tokens_push(
                head.push(mark(TokenType::LeftBrace)) + print_methods(methods, methods.len()),
                mark(TokenType::RightBrace),
            );
        },
    }
}

pub proof fn lemma_print_bare_statements(list: Seq<StmtModel>, n: nat)
    requires
        n <= list.len(),
    ensures
        print_statements(bare_stmts(list), n) == bare_tokens(print_statements(list, n)),
    decreases list, n,
{
    if n == 0 {
        assert(bare_tokens(Seq::<TokenModel>::empty()) =~= Seq::<TokenModel>::empty());
    } else {
        lemma_print_bare_statements(list, (n - 1) as nat);
        lemma_print_bare_stmt(list[n - 1]);
        lemma_bare_tokens_add(print_statements(list, (n - 1) as nat), print_stmt(list[n - 1]));
    }
}

pub proof fn lemma_print_bare_block(list: Seq<StmtModel>)
    ensures
        print_block(bare_stmts(list)) == bare_tokens(print_block(list)),
    decreases list, list.len() + 1,
{
    lemma_print_bare_statements(list, list.len());
    let open = seq![mark(TokenType::LeftBrace)];
    assert(bare_tokens(open) =~= open);
    lemma_bare_tokens_add(open, print_statements(list, list.len()));
    lemma_bare_tokens_push(open + print_statements(list, list.len()), mark(TokenType::RightBrace));
}

pub proof fn lemma_print_bare_function(d: FunDeclModel)
    ensures
        print_function(bare_function(d)) == bare_tokens(print_function(d)),
    decreases d, 0nat,
{
    lemma_print_bare_parameters(d.parameters, d.parameters.len());
    lemma_print_bare_block(d.body);
    let head = seq![d.name, mark(TokenType::LeftParen)];
    assert(bare_tokens(head) =~= seq![bare_token(d.name), mark(TokenType::LeftParen)]);
    let names = print_parameters(d.parameters, d.parameters.len());
    lemma_bare_tokens_add(head, names);
    lemma_bare_tokens_push(head + names, mark(TokenType::RightParen));
    lemma_bare_tokens_add((head + names).push(mark(TokenType::RightParen)), print_block(d.body));
}

pub proof fn lemma_print_bare_methods(list: Seq<FunDeclModel>, n: nat)
    requires
        n <= list.len(),
    ensures
        print_methods(bare_functions(list), n) == bare_tokens(print_methods(list, n)),
    decreases list, n,
{
    if n == 0 {
        assert(bare_tokens(Seq::<TokenModel>::empty()) =~= Seq::<TokenModel>::empty());
    } else {
        lemma_print_bare_methods(list, (n - 1) as nat);
        lemma_print_bare_function(list[n - 1]);
        lemma_bare_tokens_add(print_methods(list, (n - 1) as nat), print_function(list[n - 1]));
    }
}

/// A program that was read without an error, printed and read again, gives
/// the same tree but for the places of its tokens in the source: the printed
/// tokens, followed by what followed the program in the tokens that it was
/// read from (the `EOF`), are read without an error, and the statements read
/// from them are, bare, the bare statements of the program.  This holds of
/// tokens without a `for`, which the tree does not keep.
pub proof fn printing_and_parsing_again_gives_the_same_bare_tree(ts: Seq<TokenModel>)
    requires
        forall|i: int| 0 <= i < ts.len() ==> (#[trigger] ts[i]).kind != TokenType::For,
    ensures
        ({
            let first = program(ts, 0, Seq::empty(), Seq::empty());
            let printed = print_statements(first.statements, first.statements.len());
            let again = program(printed + ts.subrange(first.end, ts.len() as int), 0, Seq::empty(), Seq::empty());
            first.errors.len() == 0 ==> 0 <= first.end <= ts.len() && again.errors.len() == 0 && bare_stmts(
                again.statements,
            ) == bare_stmts(first.statements)
        }),
{
    let none = Seq::<LoxError>::empty();
    let first = program(ts, 0, Seq::empty(), none);
    if first.errors.len() == 0 {
        let bare = bare_tokens(ts);
        assert(bare_stmts(Seq::<StmtModel>::empty()) =~= Seq::<StmtModel>::empty());
        lemma_bare_tokens_are_plain(ts);
        lemma_program_bare(ts, 0, Seq::empty(), none, none);
        let bare_first = program(bare, 0, Seq::empty(), none);
        assert(bare_first.statements == bare_stmts(first.statements));
        assert(bare_first.errors.len() == 0);
        printing_gives_back_the_tokens(bare);
        let end = first.end;
        assert(0 <= end <= ts.len());
        lemma_print_bare_statements(first.statements, first.statements.len());
        let printed = print_statements(first.statements, first.statements.len());
        assert(bare_stmts(first.statements).len() == first.statements.len());
        assert(bare_tokens(printed) == bare.subrange(0, end));
        let rest = ts.subrange(end, ts.len() as int);
        let text = printed + rest;
        lemma_bare_tokens_add(printed, rest);
        assert(bare_tokens(rest) =~= bare.subrange(end, bare.len() as int));
        assert(bare_tokens(text) =~= bare);
        lemma_program_bare(text, 0, Seq::empty(), none, none);
    }
}

} // verus!
