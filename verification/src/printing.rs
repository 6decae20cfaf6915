use vstd::prelude::*;
use std::rc::Rc;
use crate::ast::{
    decls_view, exprs_view, stmts_view, Expr, ExprModel, FunDeclModel, FunDeclStatement, Statement,
    StmtModel,
};
use crate::error::LoxError;
use crate::grammar::{
    arguments, assignment, block, block_rest, call, call_rest, chain, chain_rest, class_declaration,
    closed_expression, declaration, expression, expression_statement, fun_declaration, function,
    guarded_statement, if_statement, joint_at, kind_at, methods_rest, parameters, primary,
    print_statement, program, return_statement, statement, unary, var_declaration, while_statement,
    FunctionKind, Parsed,
};
use crate::tokens::{token_views, Token, TokenModel, TokenType};

verus! {

/// The token that stands for a kind of punctuation or keyword where the
/// tree keeps none: its kind alone tells it.
pub open spec fn mark(kind: TokenType) -> TokenModel {
    TokenModel { kind, lexeme: spelling(kind), literal: None, line: 0, id: 0 }
}

/// How a structural token is spelled.
pub open spec fn spelling(kind: TokenType) -> Seq<char> {
    match kind {
        TokenType::LeftParen => "("@,
        TokenType::RightParen => ")"@,
        TokenType::LeftBrace => "{"@,
        TokenType::RightBrace => "}"@,
        TokenType::Comma => ","@,
        TokenType::Dot => "."@,
        TokenType::Semicolon => ";"@,
        TokenType::Equal => "="@,
        TokenType::Less => "<"@,
        TokenType::Var => "var"@,
        TokenType::Fun => "fun"@,
        TokenType::Class => "class"@,
        TokenType::If => "if"@,
        TokenType::Else => "else"@,
        TokenType::While => "while"@,
        _ => Seq::empty(),
    }
}

/// The kinds of token that give a program its structure and may be left out
/// of the tree.
pub open spec fn structural(kind: TokenType) -> bool {
    match kind {
        TokenType::LeftParen => true,
        TokenType::RightParen => true,
        TokenType::LeftBrace => true,
        TokenType::RightBrace => true,
        TokenType::Comma => true,
        TokenType::Dot => true,
        TokenType::Semicolon => true,
        TokenType::Equal => true,
        TokenType::Less => true,
        TokenType::Var => true,
        TokenType::Fun => true,
        TokenType::Class => true,
        TokenType::If => true,
        TokenType::Else => true,
        TokenType::While => true,
        _ => false,
    }
}

/// The tokens have no `for`, and every structural token is the mark of its
/// kind: nothing is lost where the tree leaves such a token out.
pub open spec fn plain(ts: Seq<TokenModel>) -> bool {
    forall|i: int|
        0 <= i < ts.len() ==> (#[trigger] ts[i]).kind != TokenType::For && (structural(ts[i].kind)
            ==> ts[i] == mark(ts[i].kind))
}

/// The tokens that an expression is written with.
pub open spec fn print_expr(e: ExprModel) -> Seq<TokenModel>
    decreases e, 0nat,
{
    match e {
        ExprModel::Binary { token, left, right, .. } => print_expr(*left).push(token) + print_expr(*right),
        ExprModel::Logical { token, left, right, .. } => print_expr(*left).push(token) + print_expr(*right),
        ExprModel::Unary { token, right, .. } => seq![token] + print_expr(*right),
        ExprModel::Literal { token, .. } => seq![token],
        ExprModel::Grouping { expr } => (seq![mark(TokenType::LeftParen)] + print_expr(*expr)).push(
            mark(TokenType::RightParen),
        ),
        ExprModel::Variable { token } => seq![token],
        ExprModel::Assignment { token, value } => seq![token, mark(TokenType::Equal)] + print_expr(*value),
        ExprModel::Call { callee, arguments, token } => (print_expr(*callee).push(
            mark(TokenType::LeftParen),
        ) + print_arguments(arguments, arguments.len())).push(token),
        ExprModel::Get { object, name } => print_expr(*object).push(mark(TokenType::Dot)).push(name),
        ExprModel::SetProperty { object, name, value } => print_expr(*object).push(
            mark(TokenType::Dot),
        ).push(name).push(mark(TokenType::Equal)) + print_expr(*value),
        ExprModel::This { keyword } => seq![keyword],
        ExprModel::Super { keyword, method } => seq![keyword, mark(TokenType::Dot), method],
    }
}

/// The tokens of the first `n` arguments of a call, with commas between them.
pub open spec fn print_arguments(list: Seq<ExprModel>, n: nat) -> Seq<TokenModel>
    decreases list, n,
{
    if n == 0 || n > list.len() {
        Seq::empty()
    } else if n == 1 {
        print_expr(list[0])
    } else {
        print_arguments(list, (n - 1) as nat).push(mark(TokenType::Comma)) + print_expr(list[n - 1])
    }
}

/// The tokens of the first `n` parameters, with commas between them.
pub open spec fn print_parameters(list: Seq<TokenModel>, n: nat) -> Seq<TokenModel>
    decreases n,
{
    if n == 0 || n > list.len() {
        Seq::empty()
    } else if n == 1 {
        seq![list[0]]
    } else {
        print_parameters(list, (n - 1) as nat).push(mark(TokenType::Comma)).push(list[n - 1])
    }
}

/// The tokens that a statement is written with.
pub open spec fn print_stmt(s: StmtModel) -> Seq<TokenModel>
    decreases s, 0nat,
{
    match s {
        StmtModel::Expression { expression } => print_expr(expression).push(mark(TokenType::Semicolon)),
        StmtModel::Print { token, value } => (seq![token] + print_expr(value)).push(
            mark(TokenType::Semicolon),
        ),
        StmtModel::VarDecl { token, initializer } => match initializer {
            Some(e) => (seq![mark(TokenType::Var), token, mark(TokenType::Equal)] + print_expr(e)).push(
                mark(TokenType::Semicolon),
            ),
            None => seq![mark(TokenType::Var), token, mark(TokenType::Semicolon)],
        },
        StmtModel::Block { statements } => print_block(statements),
        StmtModel::If { condition, then_branch, else_branch } => {
            let head = (seq![mark(TokenType::If), mark(TokenType::LeftParen)] + print_expr(condition)).push(
                mark(TokenType::RightParen),
            ) + print_stmt(*then_branch);
            match else_branch {
                Some(other) => head.push(mark(TokenType::Else)) + print_stmt(*other),
                None => head,
            }
        },
        StmtModel::While { condition, body } => (seq![
            mark(TokenType::While),
            mark(TokenType::LeftParen),
        ] + print_expr(condition)).push(mark(TokenType::RightParen)) + print_stmt(*body),
        StmtModel::FunDecl { declaration } => seq![mark(TokenType::Fun)] + print_function(declaration),
        StmtModel::Return { keyword, value } => match value {
            Some(e) => (seq![keyword] + print_expr(e)).push(mark(TokenType::Semicolon)),
            None => seq![keyword, mark(TokenType::Semicolon)],
        },
        StmtModel::ClassDecl { name, methods, superclass } => {
            let head = match superclass {
                Some(above) => seq![mark(TokenType::Class), name, mark(TokenType::Less), above],
                None => seq![mark(TokenType::Class), name],
            };
            (head.push(mark(TokenType::LeftBrace)) + print_methods(methods, methods.len())).push(
                mark(TokenType::RightBrace),
            )
        },
    }
}

/// The tokens of the first `n` statements, one after the other.
pub open spec fn print_statements(list: Seq<StmtModel>, n: nat) -> Seq<TokenModel>
    decreases list, n,
{
    if n == 0 || n > list.len() {
        Seq::empty()
    } else {
        print_statements(list, (n - 1) as nat) + print_stmt(list[n - 1])
    }
}

/// The tokens of a block: its statements between braces.
pub open spec fn print_block(list: Seq<StmtModel>) -> Seq<TokenModel>
    decreases list, list.len() + 1,
{
    (seq![mark(TokenType::LeftBrace)] + print_statements(list, list.len())).push(
        mark(TokenType::RightBrace),
    )
}

/// The tokens of a function without the `fun` in front: name, parameters
/// and body.
pub open spec fn print_function(declaration: FunDeclModel) -> Seq<TokenModel>
    decreases declaration, 0nat,
{
    (seq![declaration.name, mark(TokenType::LeftParen)] + print_parameters(
        declaration.parameters,
        declaration.parameters.len(),
    )).push(mark(TokenType::RightParen)) + print_block(declaration.body)
}

/// The tokens of the first `n` methods of a class, one after the other.
pub open spec fn print_methods(list: Seq<FunDeclModel>, n: nat) -> Seq<TokenModel>
    decreases list, n,
{
    if n == 0 || n > list.len() {
        Seq::empty()
    } else {
        print_methods(list, (n - 1) as nat) + print_function(list[n - 1])
    }
}

/// The later list of errors holds the earlier one at its start.
pub open spec fn grown(before: Seq<LoxError>, after: Seq<LoxError>) -> bool {
    &&& before.len() <= after.len()
    &&& forall|i: int| 0 <= i < before.len() ==> after[i] == before[i]
}

/// A rule recorded no error and read a tree.
pub open spec fn clean<T>(p: Parsed<T>, errors: Seq<LoxError>) -> bool {
    p.result is Ok && p.errors == errors
}

/// What a rule consumed is the text: the rule only adds to the errors, and
/// where it read a tree from plain tokens without recording an error, the
/// tokens from `pos` on that it consumed are `text`.
pub open spec fn reads<T>(
    ts: Seq<TokenModel>,
    pos: int,
    errors: Seq<LoxError>,
    p: Parsed<T>,
    text: Seq<TokenModel>,
) -> bool {
    &&& grown(errors, p.errors)
    &&& plain(ts) && clean(p, errors) ==> pos + p.used <= ts.len() && text == ts.subrange(
        pos,
        pos + p.used,
    )
}

pub open spec fn expr_text(p: Parsed<ExprModel>) -> Seq<TokenModel> {
    match p.result {
        Ok(e) => print_expr(e),
        Err(_) => Seq::empty(),
    }
}

pub open spec fn arguments_text(p: Parsed<Seq<ExprModel>>) -> Seq<TokenModel> {
    match p.result {
        Ok(list) => print_arguments(list, list.len()),
        Err(_) => Seq::empty(),
    }
}

/// The text of a list that follows the text of the items before it: behind
/// a comma, unless there are none before.
pub open spec fn joined_text(before: Seq<TokenModel>, first: bool, rest: Seq<TokenModel>) -> Seq<TokenModel> {
    if first {
        rest
    } else {
        before.push(mark(TokenType::Comma)) + rest
    }
}

/// The first arguments of a list are printed alike whatever follows them.
pub proof fn lemma_print_arguments_of_prefix(list: Seq<ExprModel>, longer: Seq<ExprModel>, n: nat)
    requires
        n <= list.len() <= longer.len(),
        forall|i: int| 0 <= i < list.len() ==> longer[i] == list[i],
    ensures
        print_arguments(longer, n) == print_arguments(list, n),
    decreases n,
{
    if n > 1 {
        lemma_print_arguments_of_prefix(list, longer, (n - 1) as nat);
    }
}

pub proof fn lemma_print_arguments_push(list: Seq<ExprModel>, e: ExprModel)
    ensures
        print_arguments(list.push(e), list.len() + 1) == joined_text(
            print_arguments(list, list.len()),
            list.len() == 0,
            print_expr(e),
        ),
{
    lemma_print_arguments_of_prefix(list, list.push(e), list.len());
}

/// A stretch of tokens is made of its two parts.
pub proof fn lemma_split(ts: Seq<TokenModel>, from: int, middle: int, to: int)
    requires
        0 <= from <= middle <= to <= ts.len(),
    ensures
        ts.subrange(from, to) == ts.subrange(from, middle) + ts.subrange(middle, to),
{
    assert(ts.subrange(from, to) =~= ts.subrange(from, middle) + ts.subrange(middle, to));
}

/// A stretch of one token is that token.
pub proof fn lemma_one(ts: Seq<TokenModel>, at: int)
    requires
        0 <= at < ts.len(),
    ensures
        ts.subrange(at, at + 1) == seq![ts[at]],
{
    assert(ts.subrange(at, at + 1) =~= seq![ts[at]]);
}

// What follows shows, rule by rule as the grammar has them, that a rule only
// adds to the errors and that the tree that it reads from plain tokens is
// printed as the tokens that it consumed.

#[verifier::rlimit(60)]
pub proof fn lemma_primary_reads(ts: Seq<TokenModel>, pos: int, errors: Seq<LoxError>)
    requires
        0 <= pos,
    ensures
        reads(ts, pos, errors, primary(ts, pos, errors), expr_text(primary(ts, pos, errors))),
    decreases crate::grammar::room(ts, pos), 0nat,
{
    let p = primary(ts, pos, errors);
    let kind = kind_at(ts, pos);
    if kind == TokenType::LeftParen {
        lemma_expression_reads(ts, pos + 1, errors);
        let inner = expression(ts, pos + 1, errors);
        if plain(ts) && clean(p, errors) {
            let e = inner.result->Ok_0;
            let close = pos + 1 + inner.used;
            assert(inner.errors =~= errors);
            if plain(ts) {
                assert(ts[pos] == mark(TokenType::LeftParen));
            }
            if plain(ts) {
                assert(ts[close] == mark(TokenType::RightParen));
            }
            lemma_one(ts, pos);
            lemma_one(ts, close);
            lemma_split(ts, pos, pos + 1, close + 1);
            lemma_split(ts, pos + 1, close, close + 1);
            assert(expr_text(p) == (seq![mark(TokenType::LeftParen)] + print_expr(e)).push(
                mark(TokenType::RightParen),
            ));
            assert(expr_text(p) =~= seq![ts[pos]] + (print_expr(e) + seq![ts[close]]));
        }
    } else if kind == TokenType::Super {
        if plain(ts) && clean(p, errors) {
            if plain(ts) {
                assert(ts[pos + 1] == mark(TokenType::Dot));
            }
            assert(expr_text(p) =~= ts.subrange(pos, pos + 3));
        }
    } else if kind == TokenType::This || kind == TokenType::Identifier {
        assert(expr_text(p) =~= ts.subrange(pos, pos + 1));
    } else if kind == TokenType::False || kind == TokenType::True || kind == TokenType::Number || kind
        == TokenType::String || kind == TokenType::Nil {
        if plain(ts) && clean(p, errors) {
            assert(expr_text(p) =~= ts.subrange(pos, pos + 1));
        }
    }
}

/// What `call_rest` reads behind a callee.
pub open spec fn reads_behind(
    ts: Seq<TokenModel>,
    pos: int,
    errors: Seq<LoxError>,
    p: Parsed<ExprModel>,
    before: ExprModel,
) -> bool {
    &&& grown(errors, p.errors)
    &&& plain(ts) && clean(p, errors) && pos <= ts.len() ==> pos + p.used <= ts.len() && expr_text(p)
        == print_expr(before) + ts.subrange(pos, pos + p.used)
}

/// The step of `call_rest` and `chain_rest`: the rest is read behind a tree
/// that was made of the tree before and of the tokens up to `next`.
pub proof fn lemma_behind_step(
    ts: Seq<TokenModel>,
    pos: int,
    next: int,
    errors: Seq<LoxError>,
    before: ExprModel,
    made: ExprModel,
    rest: Parsed<ExprModel>,
    p: Parsed<ExprModel>,
)
    requires
        plain(ts),
        0 <= pos <= next <= ts.len(),
        print_expr(made) == print_expr(before) + ts.subrange(pos, next),
        reads_behind(ts, next, errors, rest, made),
        p.result == rest.result,
        p.errors == rest.errors,
        p.used == rest.used + (next - pos),
    ensures
        reads_behind(ts, pos, errors, p, before),
{
    if plain(ts) && clean(p, errors) && pos <= ts.len() {
        lemma_split(ts, pos, next, next + rest.used);
        assert(expr_text(p) =~= print_expr(before) + ts.subrange(pos, pos + p.used));
    }
}

#[verifier::rlimit(60)]
pub proof fn lemma_call_rest_reads(ts: Seq<TokenModel>, pos: int, callee: ExprModel, errors: Seq<LoxError>)
    requires
        0 <= pos,
    ensures
        reads_behind(ts, pos, errors, call_rest(ts, pos, callee, errors), callee),
    decreases crate::grammar::room(ts, pos), 1nat,
{
    let p = call_rest(ts, pos, callee, errors);
    let head = print_expr(callee);
    let kind = kind_at(ts, pos);
    if kind == TokenType::LeftParen {
        if kind_at(ts, pos + 1) == TokenType::RightParen {
            let made = ExprModel::Call { callee: Box::new(callee), arguments: Seq::empty(), token: ts[pos + 1] };
            lemma_call_rest_reads(ts, pos + 2, made, errors);
            let rest = call_rest(ts, pos + 2, made, errors);
            if plain(ts) {
                assert(ts[pos] == mark(TokenType::LeftParen));
                assert(print_arguments(Seq::<ExprModel>::empty(), 0) =~= Seq::<TokenModel>::empty());
                assert(print_expr(made) =~= head + ts.subrange(pos, pos + 2));
                lemma_behind_step(ts, pos, pos + 2, errors, callee, made, rest, p);
            }
        } else {
            lemma_arguments_reads(ts, pos + 1, Seq::empty(), errors);
            let args = arguments(ts, pos + 1, Seq::empty(), errors);
            match args.result {
                Err(_) => {},
                Ok(list) => {
                    let close = pos + 1 + args.used;
                    if kind_at(ts, close) == TokenType::RightParen {
                        let made = ExprModel::Call { callee: Box::new(callee), arguments: list, token: ts[close] };
                        lemma_call_rest_reads(ts, close + 1, made, args.errors);
                        let rest = call_rest(ts, close + 1, made, args.errors);
                        if plain(ts) && clean(p, errors) {
                            assert(args.errors =~= errors);
                            if plain(ts) {
                                assert(ts[pos] == mark(TokenType::LeftParen));
                            }
                            assert(print_arguments(list, list.len()) == ts.subrange(pos + 1, close));
                            lemma_one(ts, pos);
                            lemma_one(ts, close);
                            lemma_split(ts, pos, pos + 1, close + 1);
                            lemma_split(ts, pos + 1, close, close + 1);
                            assert(print_expr(made) == (head.push(mark(TokenType::LeftParen))
                                + print_arguments(list, list.len())).push(ts[close]));
                            assert(print_expr(made) =~= head + (seq![ts[pos]] + (ts.subrange(pos + 1, close)
                                + seq![ts[close]])));
                            lemma_behind_step(ts, pos, close + 1, errors, callee, made, rest, p);
                        }
                    }
                },
            }
        }
    } else if kind == TokenType::Dot {
        if kind_at(ts, pos + 1) == TokenType::Identifier {
            let made = ExprModel::Get { object: Box::new(callee), name: ts[pos + 1] };
            lemma_call_rest_reads(ts, pos + 2, made, errors);
            let rest = call_rest(ts, pos + 2, made, errors);
            if plain(ts) {
                assert(ts[pos] == mark(TokenType::Dot));
                assert(print_expr(made) =~= head + ts.subrange(pos, pos + 2));
                lemma_behind_step(ts, pos, pos + 2, errors, callee, made, rest, p);
            }
        }
    } else if pos <= ts.len() {
        assert(head =~= head + ts.subrange(pos, pos));
    }
}

#[verifier::rlimit(60)]
pub proof fn lemma_call_reads(ts: Seq<TokenModel>, pos: int, errors: Seq<LoxError>)
    requires
        0 <= pos,
    ensures
        reads(ts, pos, errors, call(ts, pos, errors), expr_text(call(ts, pos, errors))),
    decreases crate::grammar::room(ts, pos), 2nat,
{
    lemma_primary_reads(ts, pos, errors);
    let first = primary(ts, pos, errors);
    match first.result {
        Err(_) => {},
        Ok(callee) => {
            lemma_call_rest_reads(ts, pos + first.used, callee, first.errors);
            let rest = call_rest(ts, pos + first.used, callee, first.errors);
            let p = call(ts, pos, errors);
            if plain(ts) && clean(p, errors) {
                assert(first.errors =~= errors);
                lemma_split(ts, pos, pos + first.used, pos + first.used + rest.used);
            }
        },
    }
}

pub proof fn lemma_unary_reads(ts: Seq<TokenModel>, pos: int, errors: Seq<LoxError>)
    requires
        0 <= pos,
    ensures
        reads(ts, pos, errors, unary(ts, pos, errors), expr_text(unary(ts, pos, errors))),
    decreases crate::grammar::room(ts, pos), 3nat,
{
    let p = unary(ts, pos, errors);
    let kind = kind_at(ts, pos);
    if kind == TokenType::Bang || kind == TokenType::Minus {
        lemma_unary_reads(ts, pos + 1, errors);
        let right = unary(ts, pos + 1, errors);
        if plain(ts) && clean(p, errors) {
            lemma_one(ts, pos);
            lemma_split(ts, pos, pos + 1, pos + 1 + right.used);
        }
    } else {
        lemma_call_reads(ts, pos, errors);
    }
}

#[verifier::rlimit(60)]
pub proof fn lemma_chain_rest_reads(
    ts: Seq<TokenModel>,
    pos: int,
    level: nat,
    left: ExprModel,
    errors: Seq<LoxError>,
)
    requires
        0 <= pos,
    ensures
        reads_behind(ts, pos, errors, chain_rest(ts, pos, level, left, errors), left),
    decreases crate::grammar::room(ts, pos), 4 + 2 * level,
{
    let p = chain_rest(ts, pos, level, left, errors);
    match joint_at(level, kind_at(ts, pos)) {
        None => {
            if pos <= ts.len() {
                assert(print_expr(left) =~= print_expr(left) + ts.subrange(pos, pos));
            }
        },
        Some(joint) => {
            lemma_chain_reads(ts, pos + 1, (level - 1) as nat, errors);
            let right = chain(ts, pos + 1, (level - 1) as nat, errors);
            match right.result {
                Err(_) => {},
                Ok(e) => {
                    let next = pos + 1 + right.used;
                    let made = crate::grammar::joined(joint, ts[pos], left, e);
                    lemma_chain_rest_reads(ts, next, level, made, right.errors);
                    let rest = chain_rest(ts, next, level, made, right.errors);
                    if plain(ts) && clean(p, errors) {
                        assert(right.errors =~= errors);
                        lemma_one(ts, pos);
                        lemma_split(ts, pos, pos + 1, next);
                        assert(print_expr(made) == print_expr(left).push(ts[pos]) + print_expr(e));
                        assert(print_expr(made) =~= print_expr(left) + (seq![ts[pos]] + print_expr(e)));
                        lemma_behind_step(ts, pos, next, errors, left, made, rest, p);
                    }
                },
            }
        },
    }
}

pub proof fn lemma_chain_reads(ts: Seq<TokenModel>, pos: int, level: nat, errors: Seq<LoxError>)
    requires
        0 <= pos,
    ensures
        reads(ts, pos, errors, chain(ts, pos, level, errors), expr_text(chain(ts, pos, level, errors))),
    decreases crate::grammar::room(ts, pos), 5 + 2 * level,
{
    if level == 0 {
        lemma_unary_reads(ts, pos, errors);
    } else {
        lemma_chain_reads(ts, pos, (level - 1) as nat, errors);
        let first = chain(ts, pos, (level - 1) as nat, errors);
        match first.result {
            Err(_) => {},
            Ok(left) => {
                lemma_chain_rest_reads(ts, pos + first.used, level, left, first.errors);
                let rest = chain_rest(ts, pos + first.used, level, left, first.errors);
                let p = chain(ts, pos, level, errors);
                if plain(ts) && clean(p, errors) {
                    assert(first.errors =~= errors);
                    lemma_split(ts, pos, pos + first.used, pos + first.used + rest.used);
                }
            },
        }
    }
}

#[verifier::rlimit(60)]
pub proof fn lemma_assignment_reads(ts: Seq<TokenModel>, pos: int, errors: Seq<LoxError>)
    requires
        0 <= pos,
    ensures
        reads(ts, pos, errors, assignment(ts, pos, errors), expr_text(assignment(ts, pos, errors))),
    decreases crate::grammar::room(ts, pos), 18nat,
{
    lemma_chain_reads(ts, pos, 6, errors);
    let target = chain(ts, pos, 6, errors);
    let p = assignment(ts, pos, errors);
    match target.result {
        Err(_) => {},
        Ok(expr) => {
            let at_equal = pos + target.used;
            if kind_at(ts, at_equal) == TokenType::Equal {
                lemma_assignment_reads(ts, at_equal + 1, target.errors);
                let value = assignment(ts, at_equal + 1, target.errors);
                if plain(ts) && clean(p, errors) {
                    let v = value.result->Ok_0;
                    assert(value.errors =~= errors);
                    assert(target.errors =~= errors);
                    if plain(ts) {
                        assert(ts[at_equal] == mark(TokenType::Equal));
                    }
                    let end = at_equal + 1 + value.used;
                    lemma_one(ts, at_equal);
                    lemma_split(ts, pos, at_equal, end);
                    lemma_split(ts, at_equal, at_equal + 1, end);
                    assert(print_expr(expr) == ts.subrange(pos, at_equal));
                    assert(print_expr(v) == ts.subrange(at_equal + 1, end));
                    match expr {
                        ExprModel::Variable { token } => {
                            assert(print_expr(expr) == seq![token]);
                            assert(expr_text(p) == seq![token, mark(TokenType::Equal)] + print_expr(v));
                            assert(expr_text(p) =~= print_expr(expr) + (seq![ts[at_equal]] + print_expr(v)));
                        },
                        ExprModel::Get { object, name } => {
                            assert(print_expr(expr) == print_expr(*object).push(mark(TokenType::Dot)).push(
                                name,
                            ));
                            assert(expr_text(p) == print_expr(*object).push(mark(TokenType::Dot)).push(
                                name,
                            ).push(mark(TokenType::Equal)) + print_expr(v));
                            assert(expr_text(p) =~= print_expr(expr) + (seq![ts[at_equal]] + print_expr(v)));
                        },
                        _ => {
                            assert(p.errors.len() == value.errors.len() + 1);
                        },
                    }
                }
            }
        },
    }
}

pub proof fn lemma_expression_reads(ts: Seq<TokenModel>, pos: int, errors: Seq<LoxError>)
    requires
        0 <= pos,
    ensures
        reads(ts, pos, errors, expression(ts, pos, errors), expr_text(expression(ts, pos, errors))),
    decreases crate::grammar::room(ts, pos), 19nat,
{
    lemma_assignment_reads(ts, pos, errors);
}

#[verifier::rlimit(60)]
pub proof fn lemma_arguments_reads(
    ts: Seq<TokenModel>,
    pos: int,
    so_far: Seq<ExprModel>,
    errors: Seq<LoxError>,
)
    requires
        0 <= pos,
    ensures
        grown(errors, arguments(ts, pos, so_far, errors).errors),
        plain(ts) && clean(arguments(ts, pos, so_far, errors), errors) ==> pos + arguments(
            ts,
            pos,
            so_far,
            errors,
        ).used <= ts.len() && arguments_text(arguments(ts, pos, so_far, errors)) == joined_text(
            print_arguments(so_far, so_far.len()),
            so_far.len() == 0,
            ts.subrange(pos, pos + arguments(ts, pos, so_far, errors).used),
        ),
    decreases crate::grammar::room(ts, pos), 20nat,
{
    let counted = crate::grammar::counted(ts, pos, so_far.len(), errors);
    lemma_expression_reads(ts, pos, counted);
    let next = expression(ts, pos, counted);
    let p = arguments(ts, pos, so_far, errors);
    let before = print_arguments(so_far, so_far.len());
    match next.result {
        Err(_) => {},
        Ok(e) => {
            lemma_print_arguments_push(so_far, e);
            let at_comma = pos + next.used;
            if kind_at(ts, at_comma) == TokenType::Comma {
                lemma_arguments_reads(ts, at_comma + 1, so_far.push(e), next.errors);
                let rest = arguments(ts, at_comma + 1, so_far.push(e), next.errors);
                if plain(ts) && clean(p, errors) {
                    assert(next.errors =~= errors);
                    assert(counted =~= errors);
                    if plain(ts) {
                        assert(ts[at_comma] == mark(TokenType::Comma));
                    }
                    let end = at_comma + 1 + rest.used;
                    lemma_one(ts, at_comma);
                    lemma_split(ts, pos, at_comma, end);
                    lemma_split(ts, at_comma, at_comma + 1, end);
                    let longer = print_arguments(so_far.push(e), so_far.len() + 1);
                    assert(longer == joined_text(before, so_far.len() == 0, ts.subrange(pos, at_comma)));
                    assert(arguments_text(p) == longer.push(mark(TokenType::Comma)) + ts.subrange(
                        at_comma + 1,
                        end,
                    ));
                    if so_far.len() == 0 {
                        assert(arguments_text(p) =~= ts.subrange(pos, at_comma) + (seq![ts[at_comma]]
                            + ts.subrange(at_comma + 1, end)));
                    } else {
                        assert(arguments_text(p) =~= before.push(mark(TokenType::Comma)) + (ts.subrange(
                            pos,
                            at_comma,
                        ) + (seq![ts[at_comma]] + ts.subrange(at_comma + 1, end))));
                    }
                }
            } else {
                if plain(ts) && clean(p, errors) {
                    assert(counted =~= errors);
                }
            }
        },
    }
}

pub proof fn lemma_print_parameters_of_prefix(list: Seq<TokenModel>, longer: Seq<TokenModel>, n: nat)
    requires
        n <= list.len() <= longer.len(),
        forall|i: int| 0 <= i < list.len() ==> longer[i] == list[i],
    ensures
        print_parameters(longer, n) == print_parameters(list, n),
    decreases n,
{
    if n > 1 {
        lemma_print_parameters_of_prefix(list, longer, (n - 1) as nat);
    }
}

pub proof fn lemma_print_parameters_push(list: Seq<TokenModel>, t: TokenModel)
    ensures
        print_parameters(list.push(t), list.len() + 1) == joined_text(
            print_parameters(list, list.len()),
            list.len() == 0,
            seq![t],
        ),
{
    lemma_print_parameters_of_prefix(list, list.push(t), list.len());
    if list.len() > 0 {
        assert(print_parameters(list.push(t), list.len() + 1) =~= print_parameters(list, list.len()).push(
            mark(TokenType::Comma),
        ) + seq![t]);
    }
}

pub proof fn lemma_print_statements_of_prefix(list: Seq<StmtModel>, longer: Seq<StmtModel>, n: nat)
    requires
        n <= list.len() <= longer.len(),
        forall|i: int| 0 <= i < list.len() ==> longer[i] == list[i],
    ensures
        print_statements(longer, n) == print_statements(list, n),
    decreases n,
{
    if n > 0 {
        lemma_print_statements_of_prefix(list, longer, (n - 1) as nat);
    }
}

pub proof fn lemma_print_statements_push(list: Seq<StmtModel>, s: StmtModel)
    ensures
        print_statements(list.push(s), list.len() + 1) == print_statements(list, list.len()) + print_stmt(s),
{
    lemma_print_statements_of_prefix(list, list.push(s), list.len());
}

pub proof fn lemma_print_methods_of_prefix(list: Seq<FunDeclModel>, longer: Seq<FunDeclModel>, n: nat)
    requires
        n <= list.len() <= longer.len(),
        forall|i: int| 0 <= i < list.len() ==> longer[i] == list[i],
    ensures
        print_methods(longer, n) == print_methods(list, n),
    decreases n,
{
    if n > 0 {
        lemma_print_methods_of_prefix(list, longer, (n - 1) as nat);
    }
}

pub proof fn lemma_print_methods_push(list: Seq<FunDeclModel>, d: FunDeclModel)
    ensures
        print_methods(list.push(d), list.len() + 1) == print_methods(list, list.len()) + print_function(d),
{
    lemma_print_methods_of_prefix(list, list.push(d), list.len());
}

#[verifier::rlimit(60)]
pub proof fn lemma_parameters_reads(
    ts: Seq<TokenModel>,
    pos: int,
    so_far: Seq<TokenModel>,
    errors: Seq<LoxError>,
)
    requires
        0 <= pos,
    ensures
        grown(errors, parameters(ts, pos, so_far, errors).errors),
        plain(ts) && clean(parameters(ts, pos, so_far, errors), errors) ==> pos + parameters(
            ts,
            pos,
            so_far,
            errors,
        ).used <= ts.len() && (match parameters(ts, pos, so_far, errors).result {
            Ok(list) => print_parameters(list, list.len()) == joined_text(
                print_parameters(so_far, so_far.len()),
                so_far.len() == 0,
                ts.subrange(pos, pos + parameters(ts, pos, so_far, errors).used),
            ),
            Err(_) => true,
        }),
    decreases crate::grammar::room(ts, pos),
{
    let counted = crate::grammar::counted(ts, pos, so_far.len(), errors);
    let p = parameters(ts, pos, so_far, errors);
    let before = print_parameters(so_far, so_far.len());
    if kind_at(ts, pos) == TokenType::Identifier {
        lemma_print_parameters_push(so_far, ts[pos]);
        lemma_one(ts, pos);
        if kind_at(ts, pos + 1) == TokenType::Comma {
            lemma_parameters_reads(ts, pos + 2, so_far.push(ts[pos]), counted);
            let rest = parameters(ts, pos + 2, so_far.push(ts[pos]), counted);
            if plain(ts) && clean(p, errors) {
                assert(counted =~= errors);
                if plain(ts) {
                    assert(ts[pos + 1] == mark(TokenType::Comma));
                }
                let end = pos + 2 + rest.used;
                lemma_one(ts, pos + 1);
                lemma_split(ts, pos, pos + 1, end);
                lemma_split(ts, pos + 1, pos + 2, end);
                let list = p.result->Ok_0;
                let longer = print_parameters(so_far.push(ts[pos]), so_far.len() + 1);
                assert(print_parameters(list, list.len()) == longer.push(mark(TokenType::Comma)) + ts.subrange(
                    pos + 2,
                    end,
                ));
                if so_far.len() == 0 {
                    assert(print_parameters(list, list.len()) =~= seq![ts[pos]] + (seq![ts[pos + 1]]
                        + ts.subrange(pos + 2, end)));
                } else {
                    assert(print_parameters(list, list.len()) =~= before.push(mark(TokenType::Comma)) + (
                    seq![ts[pos]] + (seq![ts[pos + 1]] + ts.subrange(pos + 2, end))));
                }
            }
        } else {
            if plain(ts) && clean(p, errors) {
                assert(counted =~= errors);
            }
        }
    }
}

pub open spec fn stmt_text(p: Parsed<StmtModel>) -> Seq<TokenModel> {
    match p.result {
        Ok(s) => print_stmt(s),
        Err(_) => Seq::empty(),
    }
}

#[verifier::rlimit(60)]
pub proof fn lemma_closed_expression_reads(
    ts: Seq<TokenModel>,
    pos: int,
    closing: TokenType,
    message: &'static str,
    errors: Seq<LoxError>,
)
    requires
        0 <= pos,
        structural(closing),
    ensures
        reads(
            ts,
            pos,
            errors,
            closed_expression(ts, pos, closing, message, errors),
            expr_text(closed_expression(ts, pos, closing, message, errors)).push(mark(closing)),
        ),
{
    reveal(closed_expression);
    lemma_expression_reads(ts, pos, errors);
    let inner = expression(ts, pos, errors);
    let p = closed_expression(ts, pos, closing, message, errors);
    if plain(ts) && clean(p, errors) {
        let close = pos + inner.used;
        assert(ts[close] == mark(closing));
        lemma_one(ts, close);
        lemma_split(ts, pos, close, close + 1);
        assert(expr_text(p).push(mark(closing)) =~= expr_text(p) + seq![ts[close]]);
    }
}

/// What `block_rest` and `methods_rest` read behind the items before: the
/// rest of the items and the closing brace.
pub open spec fn reads_to_brace<T>(
    ts: Seq<TokenModel>,
    pos: int,
    errors: Seq<LoxError>,
    p: Parsed<T>,
    before: Seq<TokenModel>,
    whole: Seq<TokenModel>,
) -> bool {
    &&& grown(errors, p.errors)
    &&& plain(ts) && clean(p, errors) ==> pos + p.used <= ts.len() && whole.push(
        mark(TokenType::RightBrace),
    ) == before + ts.subrange(pos, pos + p.used)
}

pub open spec fn statements_text(p: Parsed<Seq<StmtModel>>) -> Seq<TokenModel> {
    match p.result {
        Ok(list) => print_statements(list, list.len()),
        Err(_) => Seq::empty(),
    }
}

pub open spec fn methods_text(p: Parsed<Seq<FunDeclModel>>) -> Seq<TokenModel> {
    match p.result {
        Ok(list) => print_methods(list, list.len()),
        Err(_) => Seq::empty(),
    }
}

pub open spec fn block_text(p: Parsed<Seq<StmtModel>>) -> Seq<TokenModel> {
    match p.result {
        Ok(list) => print_block(list),
        Err(_) => Seq::empty(),
    }
}

pub open spec fn function_text(p: Parsed<FunDeclModel>) -> Seq<TokenModel> {
    match p.result {
        Ok(d) => print_function(d),
        Err(_) => Seq::empty(),
    }
}

pub open spec fn guarded_text(p: Parsed<(ExprModel, StmtModel)>) -> Seq<TokenModel> {
    match p.result {
        Ok((c, s)) => (seq![mark(TokenType::LeftParen)] + print_expr(c)).push(mark(TokenType::RightParen))
            + print_stmt(s),
        Err(_) => Seq::empty(),
    }
}

#[verifier::rlimit(60)]
pub proof fn lemma_expression_statement_reads(ts: Seq<TokenModel>, pos: int, errors: Seq<LoxError>)
    requires
        0 <= pos,
    ensures
        reads(ts, pos, errors, expression_statement(ts, pos, errors), stmt_text(expression_statement(ts, pos, errors))),
{
    reveal(expression_statement);
    lemma_closed_expression_reads(ts, pos, TokenType::Semicolon, "expected ';' after statement", errors);
}

#[verifier::rlimit(60)]
pub proof fn lemma_print_statement_reads(ts: Seq<TokenModel>, pos: int, errors: Seq<LoxError>)
    requires
        0 <= pos < ts.len(),
    ensures
        reads(ts, pos, errors, print_statement(ts, pos, errors), stmt_text(print_statement(ts, pos, errors))),
{
    reveal(print_statement);
    lemma_closed_expression_reads(ts, pos + 1, TokenType::Semicolon, "expected ';' after statement", errors);
    let inner = closed_expression(ts, pos + 1, TokenType::Semicolon, "expected ';' after statement", errors);
    let p = print_statement(ts, pos, errors);
    if plain(ts) && clean(p, errors) {
        let v = inner.result->Ok_0;
        lemma_one(ts, pos);
        lemma_split(ts, pos, pos + 1, pos + 1 + inner.used);
        assert(stmt_text(p) =~= seq![ts[pos]] + print_expr(v).push(mark(TokenType::Semicolon)));
    }
}

#[verifier::rlimit(60)]
pub proof fn lemma_return_statement_reads(ts: Seq<TokenModel>, pos: int, errors: Seq<LoxError>)
    requires
        0 <= pos < ts.len(),
    ensures
        reads(ts, pos, errors, return_statement(ts, pos, errors), stmt_text(return_statement(ts, pos, errors))),
{
    reveal(return_statement);
    let p = return_statement(ts, pos, errors);
    if kind_at(ts, pos + 1) == TokenType::Semicolon {
        if plain(ts) {
            assert(ts[pos + 1] == mark(TokenType::Semicolon));
            assert(stmt_text(p) =~= ts.subrange(pos, pos + 2));
        }
    } else {
        lemma_closed_expression_reads(
            ts,
            pos + 1,
            TokenType::Semicolon,
            "expected ';' after return statement",
            errors,
        );
        let inner = closed_expression(
            ts,
            pos + 1,
            TokenType::Semicolon,
            "expected ';' after return statement",
            errors,
        );
        if plain(ts) && clean(p, errors) {
            let v = inner.result->Ok_0;
            lemma_one(ts, pos);
            lemma_split(ts, pos, pos + 1, pos + 1 + inner.used);
            assert(stmt_text(p) =~= seq![ts[pos]] + print_expr(v).push(mark(TokenType::Semicolon)));
        }
    }
}

#[verifier::rlimit(60)]
pub proof fn lemma_var_declaration_reads(ts: Seq<TokenModel>, pos: int, errors: Seq<LoxError>)
    requires
        0 <= pos,
        kind_at(ts, pos) == TokenType::Var,
    ensures
        reads(ts, pos, errors, var_declaration(ts, pos, errors), stmt_text(var_declaration(ts, pos, errors))),
{
    reveal(var_declaration);
    let p = var_declaration(ts, pos, errors);
    if plain(ts) {
        assert(ts[pos] == mark(TokenType::Var));
    }
    if kind_at(ts, pos + 1) == TokenType::Identifier {
        if kind_at(ts, pos + 2) == TokenType::Equal {
            lemma_closed_expression_reads(
                ts,
                pos + 3,
                TokenType::Semicolon,
                "expected ';' after variable declaration",
                errors,
            );
            let inner = closed_expression(
                ts,
                pos + 3,
                TokenType::Semicolon,
                "expected ';' after variable declaration",
                errors,
            );
            if plain(ts) && clean(p, errors) {
                let v = inner.result->Ok_0;
                if plain(ts) {
                    assert(ts[pos + 2] == mark(TokenType::Equal));
                }
                lemma_split(ts, pos, pos + 3, pos + 3 + inner.used);
                assert(ts.subrange(pos, pos + 3) =~= seq![ts[pos], ts[pos + 1], ts[pos + 2]]);
                assert(stmt_text(p) =~= seq![ts[pos], ts[pos + 1], ts[pos + 2]] + print_expr(v).push(
                    mark(TokenType::Semicolon),
                ));
            }
        } else if kind_at(ts, pos + 2) == TokenType::Semicolon {
            if plain(ts) {
                assert(ts[pos + 2] == mark(TokenType::Semicolon));
                assert(stmt_text(p) =~= ts.subrange(pos, pos + 3));
            }
        }
    }
}

#[verifier::rlimit(60)]
pub proof fn lemma_block_rest_reads(
    ts: Seq<TokenModel>,
    pos: int,
    so_far: Seq<StmtModel>,
    errors: Seq<LoxError>,
)
    requires
        0 <= pos,
    ensures
        reads_to_brace(
            ts,
            pos,
            errors,
            block_rest(ts, pos, so_far, errors),
            print_statements(so_far, so_far.len()),
            statements_text(block_rest(ts, pos, so_far, errors)),
        ),
    decreases crate::grammar::room(ts, pos), 31nat,
{
    let p = block_rest(ts, pos, so_far, errors);
    let before = print_statements(so_far, so_far.len());
    let kind = kind_at(ts, pos);
    if kind == TokenType::RightBrace {
        if plain(ts) {
            assert(ts[pos] == mark(TokenType::RightBrace));
            lemma_one(ts, pos);
            assert(before.push(mark(TokenType::RightBrace)) =~= before + seq![ts[pos]]);
        }
    } else if kind != TokenType::EOF {
        lemma_declaration_reads(ts, pos, errors);
        let next = declaration(ts, pos, errors);
        match next.result {
            Err(_) => {},
            Ok(s) => {
                if next.used > 0 {
                    lemma_print_statements_push(so_far, s);
                    lemma_block_rest_reads(ts, pos + next.used, so_far.push(s), next.errors);
                    let rest = block_rest(ts, pos + next.used, so_far.push(s), next.errors);
                    if plain(ts) && clean(p, errors) {
                        assert(next.errors =~= errors);
                        let middle = pos + next.used;
                        lemma_split(ts, pos, middle, middle + rest.used);
                        assert(statements_text(p).push(mark(TokenType::RightBrace)) == (before + print_stmt(
                            s,
                        )) + ts.subrange(middle, middle + rest.used));
                        assert(statements_text(p).push(mark(TokenType::RightBrace)) =~= before + (
                        ts.subrange(pos, middle) + ts.subrange(middle, middle + rest.used)));
                    }
                }
            },
        }
    }
}

#[verifier::rlimit(60)]
pub proof fn lemma_block_reads(ts: Seq<TokenModel>, pos: int, errors: Seq<LoxError>)
    requires
        0 <= pos,
    ensures
        reads(ts, pos, errors, block(ts, pos, errors), block_text(block(ts, pos, errors))),
    decreases crate::grammar::room(ts, pos), 22nat,
{
    let p = block(ts, pos, errors);
    if kind_at(ts, pos) == TokenType::LeftBrace {
        lemma_block_rest_reads(ts, pos + 1, Seq::empty(), errors);
        let rest = block_rest(ts, pos + 1, Seq::empty(), errors);
        if plain(ts) && clean(p, errors) {
            let list = p.result->Ok_0;
            if plain(ts) {
                assert(ts[pos] == mark(TokenType::LeftBrace));
            }
            lemma_one(ts, pos);
            lemma_split(ts, pos, pos + 1, pos + 1 + rest.used);
            assert(print_statements(Seq::<StmtModel>::empty(), 0) =~= Seq::<TokenModel>::empty());
            assert(print_statements(list, list.len()).push(mark(TokenType::RightBrace)) =~= ts.subrange(
                pos + 1,
                pos + 1 + rest.used,
            ));
            assert(block_text(p) =~= seq![ts[pos]] + print_statements(list, list.len()).push(
                mark(TokenType::RightBrace),
            ));
        }
    }
}

#[verifier::rlimit(60)]
pub proof fn lemma_guarded_statement_reads(
    ts: Seq<TokenModel>,
    pos: int,
    open_message: &'static str,
    close_message: &'static str,
    errors: Seq<LoxError>,
)
    requires
        0 <= pos < ts.len(),
    ensures
        grown(errors, guarded_statement(ts, pos, open_message, close_message, errors).errors),
        plain(ts) && clean(guarded_statement(ts, pos, open_message, close_message, errors), errors) ==> pos
            + guarded_statement(ts, pos, open_message, close_message, errors).used <= ts.len()
            && guarded_statement(ts, pos, open_message, close_message, errors).used >= 1 && guarded_text(
            guarded_statement(ts, pos, open_message, close_message, errors),
        ) == ts.subrange(
            pos + 1,
            pos + guarded_statement(ts, pos, open_message, close_message, errors).used,
        ),
    decreases crate::grammar::room(ts, pos), 22nat,
{
    let p = guarded_statement(ts, pos, open_message, close_message, errors);
    if kind_at(ts, pos + 1) == TokenType::LeftParen {
        lemma_closed_expression_reads(ts, pos + 2, TokenType::RightParen, close_message, errors);
        let condition = closed_expression(ts, pos + 2, TokenType::RightParen, close_message, errors);
        match condition.result {
            Err(_) => {},
            Ok(c) => {
                let at_body = pos + 2 + condition.used;
                lemma_statement_reads(ts, at_body, condition.errors);
                let body = statement(ts, at_body, condition.errors);
                if plain(ts) && clean(p, errors) {
                    let s = body.result->Ok_0;
                    assert(body.errors =~= errors);
                    assert(condition.errors =~= errors);
                    if plain(ts) {
                        assert(ts[pos + 1] == mark(TokenType::LeftParen));
                    }
                    let end = at_body + body.used;
                    lemma_one(ts, pos + 1);
                    lemma_split(ts, pos + 1, pos + 2, end);
                    lemma_split(ts, pos + 2, at_body, end);
                    assert(print_expr(c).push(mark(TokenType::RightParen)) == ts.subrange(pos + 2, at_body));
                    assert(guarded_text(p) =~= seq![ts[pos + 1]] + (print_expr(c).push(
                        mark(TokenType::RightParen),
                    ) + print_stmt(s)));
                }
            },
        }
    }
}

#[verifier::rlimit(60)]
pub proof fn lemma_if_statement_reads(ts: Seq<TokenModel>, pos: int, errors: Seq<LoxError>)
    requires
        0 <= pos,
        kind_at(ts, pos) == TokenType::If,
    ensures
        reads(ts, pos, errors, if_statement(ts, pos, errors), stmt_text(if_statement(ts, pos, errors))),
    decreases crate::grammar::room(ts, pos), 23nat,
{
    let open_message = "expected '(' after if";
    let close_message = "expected ')' after if condition";
    lemma_guarded_statement_reads(ts, pos, open_message, close_message, errors);
    let head = guarded_statement(ts, pos, open_message, close_message, errors);
    let p = if_statement(ts, pos, errors);
    if plain(ts) {
        assert(ts[pos] == mark(TokenType::If));
    }
    match head.result {
        Err(_) => {},
        Ok((condition, then_branch)) => {
            let at_else = pos + head.used;
            lemma_one(ts, pos);
            if kind_at(ts, at_else) == TokenType::Else {
                lemma_statement_reads(ts, at_else + 1, head.errors);
                let other = statement(ts, at_else + 1, head.errors);
                if plain(ts) && clean(p, errors) {
                    let e = other.result->Ok_0;
                    assert(other.errors =~= errors);
                    assert(head.errors =~= errors);
                    if plain(ts) {
                        assert(ts[at_else] == mark(TokenType::Else));
                    }
                    let end = at_else + 1 + other.used;
                    lemma_one(ts, at_else);
                    lemma_split(ts, pos, pos + 1, end);
                    lemma_split(ts, pos + 1, at_else, end);
                    lemma_split(ts, at_else, at_else + 1, end);
                    assert(stmt_text(p) =~= seq![ts[pos]] + (guarded_text(head) + (seq![ts[at_else]]
                        + print_stmt(e))));
                }
            } else {
                if plain(ts) && clean(p, errors) {
                    lemma_split(ts, pos, pos + 1, at_else);
                    assert(stmt_text(p) =~= seq![ts[pos]] + guarded_text(head));
                }
            }
        },
    }
}

#[verifier::rlimit(60)]
pub proof fn lemma_while_statement_reads(ts: Seq<TokenModel>, pos: int, errors: Seq<LoxError>)
    requires
        0 <= pos,
        kind_at(ts, pos) == TokenType::While,
    ensures
        reads(ts, pos, errors, while_statement(ts, pos, errors), stmt_text(while_statement(ts, pos, errors))),
    decreases crate::grammar::room(ts, pos), 23nat,
{
    let open_message = "expected '(' after while";
    let close_message = "expected ')' after while condition";
    lemma_guarded_statement_reads(ts, pos, open_message, close_message, errors);
    let head = guarded_statement(ts, pos, open_message, close_message, errors);
    let p = while_statement(ts, pos, errors);
    if plain(ts) {
        assert(ts[pos] == mark(TokenType::While));
    }
    if plain(ts) && clean(p, errors) {
        lemma_one(ts, pos);
        lemma_split(ts, pos, pos + 1, pos + head.used);
        assert(stmt_text(p) =~= seq![ts[pos]] + guarded_text(head));
    }
}

#[verifier::rlimit(60)]
pub proof fn lemma_statement_reads(ts: Seq<TokenModel>, pos: int, errors: Seq<LoxError>)
    requires
        0 <= pos,
    ensures
        reads(ts, pos, errors, statement(ts, pos, errors), stmt_text(statement(ts, pos, errors))),
    decreases crate::grammar::room(ts, pos), 25nat,
{
    let kind = kind_at(ts, pos);
    if kind == TokenType::Print {
        lemma_print_statement_reads(ts, pos, errors);
    } else if kind == TokenType::LeftBrace {
        lemma_block_reads(ts, pos, errors);
    } else if kind == TokenType::If {
        lemma_if_statement_reads(ts, pos, errors);
    } else if kind == TokenType::While {
        lemma_while_statement_reads(ts, pos, errors);
    } else if kind == TokenType::Return {
        lemma_return_statement_reads(ts, pos, errors);
    } else if kind == TokenType::For {
        lemma_for_statement_grows(ts, pos, errors);
    } else {
        lemma_expression_statement_reads(ts, pos, errors);
    }
}

/// The first clause of a `for` only adds to the errors.
pub proof fn lemma_for_initializer_grows(ts: Seq<TokenModel>, pos: int, errors: Seq<LoxError>)
    requires
        0 <= pos,
    ensures
        grown(errors, crate::grammar::for_initializer(ts, pos, errors).errors),
{
    reveal(crate::grammar::for_initializer);
    if kind_at(ts, pos) == TokenType::Var {
        lemma_var_declaration_reads(ts, pos, errors);
    } else if kind_at(ts, pos) != TokenType::Semicolon {
        lemma_expression_statement_reads(ts, pos, errors);
    }
}

/// The second clause of a `for` only adds to the errors.
pub proof fn lemma_for_condition_grows(ts: Seq<TokenModel>, pos: int, errors: Seq<LoxError>)
    requires
        0 <= pos,
    ensures
        grown(errors, crate::grammar::for_condition(ts, pos, errors).errors),
{
    reveal(crate::grammar::for_condition);
    lemma_closed_expression_reads(ts, pos, TokenType::Semicolon, "expected ';' after for condition", errors);
}

/// The third clause of a `for` only adds to the errors.
pub proof fn lemma_for_increment_grows(ts: Seq<TokenModel>, pos: int, errors: Seq<LoxError>)
    requires
        0 <= pos,
    ensures
        grown(errors, crate::grammar::for_increment(ts, pos, errors).errors),
{
    reveal(crate::grammar::for_increment);
    lemma_closed_expression_reads(ts, pos, TokenType::RightParen, "expected ')' after for clause", errors);
}

/// A `for` statement only adds to the errors.
pub proof fn lemma_for_statement_grows(ts: Seq<TokenModel>, pos: int, errors: Seq<LoxError>)
    requires
        0 <= pos,
        kind_at(ts, pos) == TokenType::For,
    ensures
        grown(errors, crate::grammar::for_statement(ts, pos, errors).errors),
    decreases crate::grammar::room(ts, pos), 24nat,
{
    if kind_at(ts, pos + 1) == TokenType::LeftParen {
        lemma_for_initializer_grows(ts, pos + 2, errors);
        let first = crate::grammar::for_initializer(ts, pos + 2, errors);
        if first.result is Ok {
            let at_condition = pos + 2 + first.used;
            lemma_for_condition_grows(ts, at_condition, first.errors);
            let second = crate::grammar::for_condition(ts, at_condition, first.errors);
            if second.result is Ok {
                let at_increment = at_condition + second.used;
                lemma_for_increment_grows(ts, at_increment, second.errors);
                let third = crate::grammar::for_increment(ts, at_increment, second.errors);
                if third.result is Ok {
                    lemma_statement_reads(ts, at_increment + third.used, third.errors);
                }
            }
        }
    }
}

#[verifier::rlimit(60)]
pub proof fn lemma_function_reads(ts: Seq<TokenModel>, pos: int, kind: FunctionKind, errors: Seq<LoxError>)
    requires
        0 <= pos,
    ensures
        reads(ts, pos, errors, function(ts, pos, kind, errors), function_text(function(ts, pos, kind, errors))),
    decreases crate::grammar::room(ts, pos), 23nat,
{
    let p = function(ts, pos, kind, errors);
    if kind_at(ts, pos) == TokenType::Identifier && kind_at(ts, pos + 1) == TokenType::LeftParen {
        if plain(ts) {
            assert(ts[pos + 1] == mark(TokenType::LeftParen));
        }
        let list = if kind_at(ts, pos + 2) == TokenType::RightParen {
            crate::grammar::done(Seq::<TokenModel>::empty(), 0, errors)
        } else {
            parameters(ts, pos + 2, Seq::empty(), errors)
        };
        if kind_at(ts, pos + 2) != TokenType::RightParen {
            lemma_parameters_reads(ts, pos + 2, Seq::empty(), errors);
        }
        match list.result {
            Err(_) => {},
            Ok(names) => {
                let at_close = pos + 2 + list.used;
                if kind_at(ts, at_close) == TokenType::RightParen && kind_at(ts, at_close + 1)
                    == TokenType::LeftBrace {
                    lemma_block_reads(ts, at_close + 1, list.errors);
                    let inner = block(ts, at_close + 1, list.errors);
                    if plain(ts) && clean(p, errors) {
                        let body = inner.result->Ok_0;
                        assert(inner.errors =~= errors);
                        assert(list.errors =~= errors);
                        if plain(ts) {
                            assert(ts[at_close] == mark(TokenType::RightParen));
                        }
                        let end = at_close + 1 + inner.used;
                        assert(print_parameters(Seq::<TokenModel>::empty(), 0) =~= Seq::<TokenModel>::empty());
                        assert(print_parameters(names, names.len()) =~= ts.subrange(pos + 2, at_close));
                        lemma_one(ts, at_close);
                        lemma_split(ts, pos, pos + 2, end);
                        lemma_split(ts, pos + 2, at_close, end);
                        lemma_split(ts, at_close, at_close + 1, end);
                        assert(ts.subrange(pos, pos + 2) =~= seq![ts[pos], ts[pos + 1]]);
                        assert(function_text(p) =~= seq![ts[pos], ts[pos + 1]] + (print_parameters(
                            names,
                            names.len(),
                        ) + (seq![ts[at_close]] + print_block(body))));
                    }
                }
            },
        }
    }
}

#[verifier::rlimit(60)]
pub proof fn lemma_fun_declaration_reads(ts: Seq<TokenModel>, pos: int, errors: Seq<LoxError>)
    requires
        0 <= pos,
        kind_at(ts, pos) == TokenType::Fun,
    ensures
        reads(ts, pos, errors, fun_declaration(ts, pos, errors), stmt_text(fun_declaration(ts, pos, errors))),
    decreases crate::grammar::room(ts, pos), 24nat,
{
    lemma_function_reads(ts, pos + 1, FunctionKind::Function, errors);
    let inner = function(ts, pos + 1, FunctionKind::Function, errors);
    let p = fun_declaration(ts, pos, errors);
    if plain(ts) {
        assert(ts[pos] == mark(TokenType::Fun));
    }
    if plain(ts) && clean(p, errors) {
        lemma_one(ts, pos);
        lemma_split(ts, pos, pos + 1, pos + 1 + inner.used);
    }
}

#[verifier::rlimit(60)]
pub proof fn lemma_methods_rest_reads(
    ts: Seq<TokenModel>,
    pos: int,
    so_far: Seq<FunDeclModel>,
    errors: Seq<LoxError>,
)
    requires
        0 <= pos,
    ensures
        reads_to_brace(
            ts,
            pos,
            errors,
            methods_rest(ts, pos, so_far, errors),
            print_methods(so_far, so_far.len()),
            methods_text(methods_rest(ts, pos, so_far, errors)),
        ),
    decreases crate::grammar::room(ts, pos), 24nat,
{
    let p = methods_rest(ts, pos, so_far, errors);
    let before = print_methods(so_far, so_far.len());
    let kind = kind_at(ts, pos);
    if kind == TokenType::RightBrace {
        if plain(ts) {
            assert(ts[pos] == mark(TokenType::RightBrace));
            lemma_one(ts, pos);
            assert(before.push(mark(TokenType::RightBrace)) =~= before + seq![ts[pos]]);
        }
    } else if kind != TokenType::EOF {
        lemma_function_reads(ts, pos, FunctionKind::Method, errors);
        let next = function(ts, pos, FunctionKind::Method, errors);
        match next.result {
            Err(_) => {},
            Ok(method) => {
                if next.used > 0 {
                    lemma_print_methods_push(so_far, method);
                    lemma_methods_rest_reads(ts, pos + next.used, so_far.push(method), next.errors);
                    let rest = methods_rest(ts, pos + next.used, so_far.push(method), next.errors);
                    if plain(ts) && clean(p, errors) {
                        assert(next.errors =~= errors);
                        let middle = pos + next.used;
                        lemma_split(ts, pos, middle, middle + rest.used);
                        assert(methods_text(p).push(mark(TokenType::RightBrace)) == (before + print_function(
                            method,
                        )) + ts.subrange(middle, middle + rest.used));
                        assert(methods_text(p).push(mark(TokenType::RightBrace)) =~= before + (ts.subrange(
                            pos,
                            middle,
                        ) + ts.subrange(middle, middle + rest.used)));
                    }
                }
            },
        }
    }
}

#[verifier::rlimit(60)]
pub proof fn lemma_class_declaration_reads(ts: Seq<TokenModel>, pos: int, errors: Seq<LoxError>)
    requires
        0 <= pos,
        kind_at(ts, pos) == TokenType::Class,
    ensures
        reads(ts, pos, errors, class_declaration(ts, pos, errors), stmt_text(class_declaration(ts, pos, errors))),
    decreases crate::grammar::room(ts, pos), 25nat,
{
    let p = class_declaration(ts, pos, errors);
    if plain(ts) {
        assert(ts[pos] == mark(TokenType::Class));
    }
    if kind_at(ts, pos + 1) == TokenType::Identifier && !(kind_at(ts, pos + 2) == TokenType::Less
        && kind_at(ts, pos + 3) != TokenType::Identifier) {
        let at_brace: nat = if kind_at(ts, pos + 2) == TokenType::Less {
            4
        } else {
            2
        };
        if kind_at(ts, pos + at_brace) == TokenType::LeftBrace {
            lemma_methods_rest_reads(ts, pos + at_brace + 1, Seq::empty(), errors);
            let inner = methods_rest(ts, pos + at_brace + 1, Seq::empty(), errors);
            if plain(ts) && clean(p, errors) {
                let methods = inner.result->Ok_0;
                let start = pos + at_brace + 1;
                let end = start + inner.used;
                if plain(ts) {
                    assert(ts[pos + at_brace] == mark(TokenType::LeftBrace));
                }
                assert(print_methods(Seq::<FunDeclModel>::empty(), 0) =~= Seq::<TokenModel>::empty());
                assert(print_methods(methods, methods.len()).push(mark(TokenType::RightBrace)) =~= ts.subrange(
                    start,
                    end,
                ));
                lemma_split(ts, pos, start, end);
                if kind_at(ts, pos + 2) == TokenType::Less {
                    if plain(ts) {
                        assert(ts[pos + 2] == mark(TokenType::Less));
                    }
                    assert(ts.subrange(pos, start) =~= seq![
                        ts[pos],
                        ts[pos + 1],
                        ts[pos + 2],
                        ts[pos + 3],
                        ts[pos + 4],
                    ]);
                    assert(stmt_text(p) =~= seq![ts[pos], ts[pos + 1], ts[pos + 2], ts[pos + 3], ts[pos + 4]]
                        + print_methods(methods, methods.len()).push(mark(TokenType::RightBrace)));
                } else {
                    assert(ts.subrange(pos, start) =~= seq![ts[pos], ts[pos + 1], ts[pos + 2]]);
                    assert(stmt_text(p) =~= seq![ts[pos], ts[pos + 1], ts[pos + 2]] + print_methods(
                        methods,
                        methods.len(),
                    ).push(mark(TokenType::RightBrace)));
                }
            }
        }
    }
}

#[verifier::rlimit(60)]
pub proof fn lemma_declaration_reads(ts: Seq<TokenModel>, pos: int, errors: Seq<LoxError>)
    requires
        0 <= pos,
    ensures
        reads(ts, pos, errors, declaration(ts, pos, errors), stmt_text(declaration(ts, pos, errors))),
    decreases crate::grammar::room(ts, pos), 30nat,
{
    let kind = kind_at(ts, pos);
    if kind == TokenType::Class {
        lemma_class_declaration_reads(ts, pos, errors);
    } else if kind == TokenType::Var {
        lemma_var_declaration_reads(ts, pos, errors);
    } else if kind == TokenType::Fun {
        lemma_fun_declaration_reads(ts, pos, errors);
    } else {
        lemma_statement_reads(ts, pos, errors);
    }
}

#[verifier::rlimit(60)]
pub proof fn lemma_program_reads(
    ts: Seq<TokenModel>,
    pos: int,
    so_far: Seq<StmtModel>,
    errors: Seq<LoxError>,
)
    requires
        0 <= pos,
    ensures
        grown(errors, program(ts, pos, so_far, errors).errors),
        plain(ts) && pos <= ts.len() && program(ts, pos, so_far, errors).errors == errors ==> pos <= program(
            ts,
            pos,
            so_far,
            errors,
        ).end
            <= ts.len() && kind_at(ts, program(ts, pos, so_far, errors).end) == TokenType::EOF
            && print_statements(
            program(ts, pos, so_far, errors).statements,
            program(ts, pos, so_far, errors).statements.len(),
        ) == print_statements(so_far, so_far.len()) + ts.subrange(
            pos,
            program(ts, pos, so_far, errors).end,
        ),
    decreases crate::grammar::room(ts, pos),
{
    let p = program(ts, pos, so_far, errors);
    let before = print_statements(so_far, so_far.len());
    if kind_at(ts, pos) == TokenType::EOF {
        if pos <= ts.len() {
            assert(before =~= before + ts.subrange(pos, pos));
        }
    } else {
        lemma_declaration_reads(ts, pos, errors);
        crate::grammar::a_declaration_consumes_a_token(ts, pos, errors);
        if plain(ts) && p.errors == errors && declaration(ts, pos, errors).result is Ok {
            lemma_program_grows(
                ts,
                pos + declaration(ts, pos, errors).used,
                so_far.push(declaration(ts, pos, errors).result->Ok_0),
                declaration(ts, pos, errors).errors,
            );
        }
        let next = declaration(ts, pos, errors);
        match next.result {
            Ok(s) => {
                if p.errors == errors && next.used > 0 {
                    lemma_grown_between(errors, next.errors, p.errors, ts, pos, so_far, s);
                }
                if next.errors == errors {
                    let middle = pos + next.used;
                    lemma_print_statements_push(so_far, s);
                    lemma_program_reads(ts, middle, so_far.push(s), next.errors);
                    if plain(ts) && p.errors == errors {
                        lemma_split(ts, pos, middle, p.end);
                        assert(print_statements(p.statements, p.statements.len()) =~= before + (ts.subrange(
                            pos,
                            middle,
                        ) + ts.subrange(middle, p.end)));
                    }
                } else {
                    lemma_program_grows(ts, pos + next.used, so_far.push(s), next.errors);
                }
            },
            Err(e) => {
                crate::grammar::lemma_synchronize_advances(ts, pos + next.used);
                lemma_program_grows(
                    ts,
                    pos + next.used + crate::grammar::synchronize(ts, pos + next.used),
                    so_far,
                    next.errors.push(e),
                );
            },
        }
    }
}

/// Where a parse ends with the errors that a declaration in it started
/// with, the declaration recorded none.
pub proof fn lemma_grown_between(
    errors: Seq<LoxError>,
    middle: Seq<LoxError>,
    last: Seq<LoxError>,
    ts: Seq<TokenModel>,
    pos: int,
    so_far: Seq<StmtModel>,
    s: StmtModel,
)
    requires
        0 <= pos,
        grown(errors, middle),
        declaration(ts, pos, errors).result == Ok::<StmtModel, LoxError>(s),
        declaration(ts, pos, errors).errors == middle,
        declaration(ts, pos, errors).used > 0,
        last == program(ts, pos + declaration(ts, pos, errors).used, so_far.push(s), middle).errors,
        last == errors,
    ensures
        middle == errors,
{
    lemma_program_grows(ts, pos + declaration(ts, pos, errors).used, so_far.push(s), middle);
    assert(middle =~= errors);
}

/// A parse only adds to the errors.
pub proof fn lemma_program_grows(ts: Seq<TokenModel>, pos: int, so_far: Seq<StmtModel>, errors: Seq<LoxError>)
    requires
        0 <= pos,
    ensures
        grown(errors, program(ts, pos, so_far, errors).errors),
    decreases crate::grammar::room(ts, pos),
{
    if kind_at(ts, pos) != TokenType::EOF {
        lemma_declaration_reads(ts, pos, errors);
        let next = declaration(ts, pos, errors);
        match next.result {
            Ok(s) => {
                if next.used > 0 {
                    lemma_program_grows(ts, pos + next.used, so_far.push(s), next.errors);
                }
            },
            Err(e) => {
                crate::grammar::lemma_synchronize_advances(ts, pos + next.used);
                lemma_program_grows(
                    ts,
                    pos + next.used + crate::grammar::synchronize(ts, pos + next.used),
                    so_far,
                    next.errors.push(e),
                );
            },
        }
    }
}

/// The tokens of a program that was read without an error, printed from its
/// tree, are the tokens that it was read from, up to the `EOF` at which the
/// parse ended.  This holds of plain tokens: no `for`, which the tree does
/// not keep, and no structural token that differs from the mark of its kind.
pub proof fn printing_gives_back_the_tokens(ts: Seq<TokenModel>)
    requires
        plain(ts),
    ensures
        ({
            let p = program(ts, 0, Seq::empty(), Seq::empty());
            p.errors.len() == 0 ==> 0 <= p.end <= ts.len() && kind_at(ts, p.end) == TokenType::EOF
                && print_statements(p.statements, p.statements.len()) == ts.subrange(0, p.end)
        }),
{
    lemma_program_reads(ts, 0, Seq::empty(), Seq::empty());
    let p = program(ts, 0, Seq::empty(), Seq::empty());
    if p.errors.len() == 0 {
        assert(p.errors =~= Seq::<LoxError>::empty());
        assert(print_statements(Seq::<StmtModel>::empty(), 0) =~= Seq::<TokenModel>::empty());
        assert(print_statements(p.statements, p.statements.len()) =~= ts.subrange(0, p.end));
    }
}

/// A program that was read without an error, printed and read again, gives
/// the same tree: the printed tokens, followed by what followed the program
/// in the tokens that it was read from (the `EOF`), parse to the same
/// statements, without an error.  This holds of plain tokens.
pub proof fn printing_and_parsing_again_gives_the_same_tree(ts: Seq<TokenModel>)
    requires
        plain(ts),
    ensures
        ({
            let p = program(ts, 0, Seq::empty(), Seq::empty());
            p.errors.len() == 0 ==> program(
                print_statements(p.statements, p.statements.len()) + ts.subrange(p.end, ts.len() as int),
                0,
                Seq::empty(),
                Seq::empty(),
            ) == p
        }),
{
    printing_gives_back_the_tokens(ts);
    let p = program(ts, 0, Seq::empty(), Seq::empty());
    if p.errors.len() == 0 {
        assert(print_statements(p.statements, p.statements.len()) + ts.subrange(p.end, ts.len() as int) =~= ts);
    }
}

/// The mark of a kind of token.
pub fn marked(kind: TokenType) -> (token: Token)
    ensures
        token@ == mark(kind),
{
    let lexeme = match kind {
        TokenType::LeftParen => "(".to_owned(),
        TokenType::RightParen => ")".to_owned(),
        TokenType::LeftBrace => "{".to_owned(),
        TokenType::RightBrace => "}".to_owned(),
        TokenType::Comma => ",".to_owned(),
        TokenType::Dot => ".".to_owned(),
        TokenType::Semicolon => ";".to_owned(),
        TokenType::Equal => "=".to_owned(),
        TokenType::Less => "<".to_owned(),
        TokenType::Var => "var".to_owned(),
        TokenType::Fun => "fun".to_owned(),
        TokenType::Class => "class".to_owned(),
        TokenType::If => "if".to_owned(),
        TokenType::Else => "else".to_owned(),
        TokenType::While => "while".to_owned(),
        _ => String::new(),
    };
    Token { token_type: kind, lexeme, literal: None, line: 0, id: 0 }
}

/// Adds a token to the end of a list.
fn put(out: &mut Vec<Token>, token: Token)
    ensures
        token_views(final(out)@) == token_views(old(out)@).push(token@),
{
    out.push(token);
    assert(token_views(out@) =~= token_views(old(out)@).push(token@));
}

/// Adds the mark of a kind to the end of a list.
fn put_mark(out: &mut Vec<Token>, kind: TokenType)
    ensures
        token_views(final(out)@) == token_views(old(out)@).push(mark(kind)),
{
    put(out, marked(kind));
}

/// Writes an expression: adds its tokens to the end of a list.
pub fn write_expression(e: &Expr, out: &mut Vec<Token>)
    ensures
        token_views(final(out)@) == token_views(old(out)@) + print_expr(e@),
    decreases e, 0nat,
{
    let ghost before = token_views(out@);
    match e {
        Expr::Binary { token, left, right, .. } => {
            write_expression(left, out);
            put(out, token.clone());
            write_expression(right, out);
            assert(token_views(out@) =~= before + print_expr(e@));
        },
        Expr::Logical { token, left, right, .. } => {
            write_expression(left, out);
            put(out, token.clone());
            write_expression(right, out);
            assert(token_views(out@) =~= before + print_expr(e@));
        },
        Expr::Unary { token, right, .. } => {
            put(out, token.clone());
            write_expression(right, out);
            assert(token_views(out@) =~= before + print_expr(e@));
        },
        Expr::Literal { token, .. } => {
            put(out, token.clone());
            assert(token_views(out@) =~= before + print_expr(e@));
        },
        Expr::Grouping { expr } => {
            put_mark(out, TokenType::LeftParen);
            write_expression(expr, out);
            put_mark(out, TokenType::RightParen);
            assert(token_views(out@) =~= before + print_expr(e@));
        },
        Expr::Variable { token } => {
            put(out, token.clone());
            assert(token_views(out@) =~= before + print_expr(e@));
        },
        Expr::Assignment { token, value } => {
            put(out, token.clone());
            put_mark(out, TokenType::Equal);
            write_expression(value, out);
            assert(token_views(out@) =~= before + print_expr(e@));
        },
        Expr::Call { callee, arguments, token } => {
            write_expression(callee, out);
            put_mark(out, TokenType::LeftParen);
            write_arguments(arguments, out);
            put(out, token.clone());
            assert(token_views(out@) =~= before + print_expr(e@));
        },
        Expr::Get { object, name } => {
            write_expression(object, out);
            put_mark(out, TokenType::Dot);
            put(out, name.clone());
            assert(token_views(out@) =~= before + print_expr(e@));
        },
        Expr::SetProperty { object, name, value } => {
            write_expression(object, out);
            put_mark(out, TokenType::Dot);
            put(out, name.clone());
            put_mark(out, TokenType::Equal);
            write_expression(value, out);
            assert(token_views(out@) =~= before + print_expr(e@));
        },
        Expr::This { keyword } => {
            put(out, keyword.clone());
            assert(token_views(out@) =~= before + print_expr(e@));
        },
        Expr::Super { keyword, method } => {
            put(out, keyword.clone());
            put_mark(out, TokenType::Dot);
            put(out, method.clone());
            assert(token_views(out@) =~= before + print_expr(e@));
        },
    }
}

/// Writes the arguments of a call, with commas between them.
fn write_arguments(list: &Vec<Expr>, out: &mut Vec<Token>)
    ensures
        token_views(final(out)@) == token_views(old(out)@) + print_arguments(
            exprs_view(*list),
            list.len() as nat,
        ),
    decreases list, 1nat,
{
    let ghost before = token_views(out@);
    let mut i: usize = 0;
    assert(token_views(out@) =~= before + print_arguments(exprs_view(*list), 0));
    while i < list.len()
        invariant
            i <= list.len(),
            token_views(out@) == before + print_arguments(exprs_view(*list), i as nat),
        decreases list.len() - i,
    {
        let ghost so_far = token_views(out@);
        if i > 0 {
            put_mark(out, TokenType::Comma);
        }
        write_expression(&list[i], out);
        i = i + 1;
        assert(token_views(out@) =~= before + print_arguments(exprs_view(*list), i as nat));
    }
}

/// Writes a statement: adds its tokens to the end of a list.
#[verifier::rlimit(60)]
pub fn write_statement(s: &Statement, out: &mut Vec<Token>)
    ensures
        token_views(final(out)@) == token_views(old(out)@) + print_stmt(s@),
    decreases s, 0nat,
{
    let ghost before = token_views(out@);
    match s {
        Statement::ExpressionStatement { expression } => {
            write_expression(expression, out);
            put_mark(out, TokenType::Semicolon);
            assert(token_views(out@) =~= before + print_stmt(s@));
        },
        Statement::PrintStatement { token, value } => {
            put(out, token.clone());
            write_expression(value, out);
            put_mark(out, TokenType::Semicolon);
            assert(token_views(out@) =~= before + print_stmt(s@));
        },
        Statement::VarDeclStatement { token, initializer } => {
            put_mark(out, TokenType::Var);
            put(out, token.clone());
            match initializer {
                Some(e) => {
                    put_mark(out, TokenType::Equal);
                    write_expression(e, out);
                },
                None => {},
            }
            put_mark(out, TokenType::Semicolon);
            assert(token_views(out@) =~= before + print_stmt(s@));
        },
        Statement::BlockStatement { statements } => {
            write_block(statements, out);
        },
        Statement::IfStatement { condition, then_branch, else_branch } => {
            put_mark(out, TokenType::If);
            put_mark(out, TokenType::LeftParen);
            write_expression(condition, out);
            put_mark(out, TokenType::RightParen);
            write_statement(then_branch, out);
            match else_branch {
                Some(other) => {
                    put_mark(out, TokenType::Else);
                    write_statement(other, out);
                },
                None => {},
            }
            assert(token_views(out@) =~= before + print_stmt(s@));
        },
        Statement::WhileStatement { condition, body } => {
            put_mark(out, TokenType::While);
            put_mark(out, TokenType::LeftParen);
            write_expression(condition, out);
            put_mark(out, TokenType::RightParen);
            write_statement(body, out);
            assert(token_views(out@) =~= before + print_stmt(s@));
        },
        Statement::FunDeclStatement { declaration } => {
            put_mark(out, TokenType::Fun);
            write_function(declaration, out);
            assert(token_views(out@) =~= before + print_stmt(s@));
        },
        Statement::ReturnStatement { keyword, value } => {
            put(out, keyword.clone());
            match value {
                Some(e) => {
                    write_expression(e, out);
                },
                None => {},
            }
            put_mark(out, TokenType::Semicolon);
            assert(token_views(out@) =~= before + print_stmt(s@));
        },
        Statement::ClassDeclStatement { name, methods, superclass } => {
            put_mark(out, TokenType::Class);
            put(out, name.clone());
            match superclass {
                Some(above) => {
                    put_mark(out, TokenType::Less);
                    put(out, above.clone());
                },
                None => {},
            }
            put_mark(out, TokenType::LeftBrace);
            write_methods(methods, out);
            put_mark(out, TokenType::RightBrace);
            assert(token_views(out@) =~= before + print_stmt(s@));
        },
    }
}

/// Writes statements one after the other.
pub fn write_statements(list: &Vec<Statement>, out: &mut Vec<Token>)
    ensures
        token_views(final(out)@) == token_views(old(out)@) + print_statements(
            stmts_view(*list),
            list.len() as nat,
        ),
    decreases list, 1nat,
{
    let ghost before = token_views(out@);
    let mut i: usize = 0;
    assert(token_views(out@) =~= before + print_statements(stmts_view(*list), 0));
    while i < list.len()
        invariant
            i <= list.len(),
            token_views(out@) == before + print_statements(stmts_view(*list), i as nat),
        decreases list.len() - i,
    {
        write_statement(&list[i], out);
        i = i + 1;
        assert(token_views(out@) =~= before + print_statements(stmts_view(*list), i as nat));
    }
}

/// Writes a block: its statements between braces.
fn write_block(list: &Vec<Statement>, out: &mut Vec<Token>)
    ensures
        token_views(final(out)@) == token_views(old(out)@) + print_block(stmts_view(*list)),
    decreases list, 2nat,
{
    let ghost before = token_views(out@);
    put_mark(out, TokenType::LeftBrace);
    write_statements(list, out);
    put_mark(out, TokenType::RightBrace);
    assert(token_views(out@) =~= before + print_block(stmts_view(*list)));
}

/// Writes a function without the `fun` in front.
fn write_function(declaration: &FunDeclStatement, out: &mut Vec<Token>)
    ensures
        token_views(final(out)@) == token_views(old(out)@) + print_function(declaration@),
    decreases declaration, 0nat,
{
    let ghost before = token_views(out@);
    put(out, declaration.name.clone());
    put_mark(out, TokenType::LeftParen);
    let ghost head = token_views(out@);
    let mut i: usize = 0;
    assert(token_views(out@) =~= head + print_parameters(declaration@.parameters, 0));
    while i < declaration.parameters.len()
        invariant
            i <= declaration.parameters.len(),
            token_views(out@) == head + print_parameters(declaration@.parameters, i as nat),
        decreases declaration.parameters.len() - i,
    {
        if i > 0 {
            put_mark(out, TokenType::Comma);
        }
        put(out, declaration.parameters[i].clone());
        i = i + 1;
        assert(token_views(out@) =~= head + print_parameters(declaration@.parameters, i as nat));
    }
    put_mark(out, TokenType::RightParen);
    write_block(&declaration.body, out);
    assert(token_views(out@) =~= before + print_function(declaration@));
}

/// Writes the methods of a class one after the other.
fn write_methods(list: &Vec<Rc<FunDeclStatement>>, out: &mut Vec<Token>)
    ensures
        token_views(final(out)@) == token_views(old(out)@) + print_methods(
            decls_view(*list),
            list.len() as nat,
        ),
    decreases list, 1nat,
{
    let ghost before = token_views(out@);
    let mut i: usize = 0;
    assert(token_views(out@) =~= before + print_methods(decls_view(*list), 0));
    while i < list.len()
        invariant
            i <= list.len(),
            token_views(out@) == before + print_methods(decls_view(*list), i as nat),
        decreases list.len() - i,
    {
        write_function(&list[i], out);
        i = i + 1;
        assert(token_views(out@) =~= before + print_methods(decls_view(*list), i as nat));
    }
}

/// The tokens that a program is written with: those that its tree keeps,
/// and marks where it keeps none.
pub fn write_program(statements: &Vec<Statement>) -> (tokens: Vec<Token>)
    ensures
        token_views(tokens@) == print_statements(stmts_view(*statements), statements.len() as nat),
{
    let mut tokens: Vec<Token> = Vec::new();
    assert(token_views(tokens@) =~= Seq::empty());
    write_statements(statements, &mut tokens);
    assert(token_views(tokens@) =~= print_statements(stmts_view(*statements), statements.len() as nat));
    tokens
}

} // verus!
