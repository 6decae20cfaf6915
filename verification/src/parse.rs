use vstd::prelude::*;
use std::rc::Rc;
use crate::ast::{
    decl_view, decls_view, exprs_view, lemma_decls_view_push, lemma_exprs_view_push,
    lemma_stmts_view_push, stmts_view, Expr, ExprModel, FunDeclModel, FunDeclStatement, Statement,
    StmtModel, UnaryOperator,
};
use crate::error::{LoxError, LoxErrorKind};
use crate::grammar;
use crate::grammar::{
    kind_at, line_at, syntax_error, FunctionKind, Joint, Parsed, Program, MAX_PARAMETERS,
};
use crate::tokens::{token_views, LiteralValue, Token, TokenModel, TokenType};

verus! {

/// The models of the tokens that the parser reads.
pub open spec fn models(tokens: &Vec<Token>) -> Seq<TokenModel> {
    token_views(tokens@)
}

pub open spec fn expr_outcome(r: Result<Expr, LoxError>) -> Result<ExprModel, LoxError> {
    match r {
        Ok(e) => Ok(e@),
        Err(x) => Err(x),
    }
}

pub open spec fn exprs_outcome(r: Result<Vec<Expr>, LoxError>) -> Result<Seq<ExprModel>, LoxError> {
    match r {
        Ok(list) => Ok(exprs_view(list)),
        Err(x) => Err(x),
    }
}

pub open spec fn stmt_outcome(r: Result<Statement, LoxError>) -> Result<StmtModel, LoxError> {
    match r {
        Ok(s) => Ok(s@),
        Err(x) => Err(x),
    }
}

pub open spec fn stmts_outcome(r: Result<Vec<Statement>, LoxError>) -> Result<Seq<StmtModel>, LoxError> {
    match r {
        Ok(list) => Ok(stmts_view(list)),
        Err(x) => Err(x),
    }
}

pub open spec fn decl_outcome(r: Result<FunDeclStatement, LoxError>) -> Result<FunDeclModel, LoxError> {
    match r {
        Ok(d) => Ok(d@),
        Err(x) => Err(x),
    }
}

pub open spec fn decls_outcome(r: Result<Vec<Rc<FunDeclStatement>>, LoxError>) -> Result<
    Seq<FunDeclModel>,
    LoxError,
> {
    match r {
        Ok(list) => Ok(decls_view(list)),
        Err(x) => Err(x),
    }
}

pub open spec fn tokens_outcome(r: Result<Vec<Token>, LoxError>) -> Result<Seq<TokenModel>, LoxError> {
    match r {
        Ok(list) => Ok(token_views(list@)),
        Err(x) => Err(x),
    }
}

/// The parser did what the grammar rule says: it ended with the rule's tree
/// or error, behind the tokens that the rule consumes, with the rule's list
/// of recorded errors.
pub open spec fn agrees<T>(
    outcome: Result<T, LoxError>,
    next: usize,
    errors: Seq<LoxError>,
    pos: usize,
    rule: Parsed<T>,
) -> bool {
    &&& outcome == rule.result
    &&& next == pos + rule.used
    &&& errors == rule.errors
}

fn peek(tokens: &Vec<Token>, pos: usize) -> (kind: TokenType)
    ensures
        kind == kind_at(models(tokens), pos as int),
{
    if pos < tokens.len() {
        tokens[pos].token_type
    } else {
        TokenType::EOF
    }
}

fn error_at(tokens: &Vec<Token>, pos: usize, message: &'static str) -> (error: LoxError)
    ensures
        error == syntax_error(models(tokens), pos as int, message),
{
    let line = if pos < tokens.len() {
        tokens[pos].line
    } else if tokens.len() > 0 {
        tokens[tokens.len() - 1].line
    } else {
        1
    };
    LoxError { message, kind: LoxErrorKind::SyntaxError(line) }
}

fn take(tokens: &Vec<Token>, pos: usize) -> (token: Token)
    requires
        pos < tokens.len(),
    ensures
        token@ == models(tokens)[pos as int],
{
    tokens[pos].clone()
}

fn joint(level: usize, kind: TokenType) -> (found: Option<Joint>)
    ensures
        found == grammar::joint_at(level as nat, kind),
{
    if level == 1 {
        match kind {
            TokenType::Slash => Some(Joint::Binary(crate::ast::BinaryOperator::Slash)),
            TokenType::Star => Some(Joint::Binary(crate::ast::BinaryOperator::Star)),
            _ => None,
        }
    } else if level == 2 {
        match kind {
            TokenType::Minus => Some(Joint::Binary(crate::ast::BinaryOperator::Minus)),
            TokenType::Plus => Some(Joint::Binary(crate::ast::BinaryOperator::Plus)),
            _ => None,
        }
    } else if level == 3 {
        match kind {
            TokenType::Greater => Some(Joint::Binary(crate::ast::BinaryOperator::Greater)),
            TokenType::GreaterEqual => Some(Joint::Binary(crate::ast::BinaryOperator::GreaterEqual)),
            TokenType::Less => Some(Joint::Binary(crate::ast::BinaryOperator::Less)),
            TokenType::LessEqual => Some(Joint::Binary(crate::ast::BinaryOperator::LessEqual)),
            _ => None,
        }
    } else if level == 4 {
        match kind {
            TokenType::BangEqual => Some(Joint::Binary(crate::ast::BinaryOperator::BangEqual)),
            TokenType::EqualEqual => Some(Joint::Binary(crate::ast::BinaryOperator::EqualEqual)),
            _ => None,
        }
    } else if level == 5 {
        match kind {
            TokenType::And => Some(Joint::Logical(crate::ast::LogicalOperator::And)),
            _ => None,
        }
    } else if level == 6 {
        match kind {
            TokenType::Or => Some(Joint::Logical(crate::ast::LogicalOperator::Or)),
            _ => None,
        }
    } else {
        None
    }
}

fn join(joint: Joint, token: Token, left: Expr, right: Expr) -> (e: Expr)
    ensures
        e@ == grammar::joined(joint, token@, left@, right@),
{
    match joint {
        Joint::Binary(operator) => Expr::Binary {
            token,
            operator,
            left: Box::new(left),
            right: Box::new(right),
        },
        Joint::Logical(operator) => Expr::Logical {
            token,
            operator,
            left: Box::new(left),
            right: Box::new(right),
        },
    }
}

fn starts(kind: TokenType) -> (answer: bool)
    ensures
        answer == grammar::starts_statement(kind),
{
    match kind {
        TokenType::Class => true,
        TokenType::Fun => true,
        TokenType::Var => true,
        TokenType::For => true,
        TokenType::If => true,
        TokenType::While => true,
        TokenType::Print => true,
        TokenType::Return => true,
        _ => false,
    }
}

/// The loop that a `for` stands for.
fn desugar(initializer: Option<Statement>, condition: Expr, increment: Option<Expr>, body: Statement) -> (s:
    Statement)
    ensures
        s@ == grammar::desugared(
            crate::parse::option_stmt_view(initializer),
            condition@,
            crate::ast::option_expr_view(increment),
            body@,
        ),
{
    let ghost body_model = body@;
    let repeated = match increment {
        Some(expression) => {
            let ghost increment_model = expression@;
            let mut statements: Vec<Statement> = Vec::new();
            statements.push(body);
            statements.push(Statement::ExpressionStatement { expression });
            assert(stmts_view(statements) =~= seq![
                body_model,
                StmtModel::Expression { expression: increment_model },
            ]);
            let block = Statement::BlockStatement { statements };
            assert(block@ == StmtModel::Block {
                statements: seq![body_model, StmtModel::Expression { expression: increment_model }],
            });
            Statement::WhileStatement { condition, body: Box::new(block) }
        },
        None => Statement::WhileStatement { condition, body: Box::new(body) },
    };
    match initializer {
        Some(first) => {
            let ghost first_model = first@;
            let ghost repeated_model = repeated@;
            let mut statements: Vec<Statement> = Vec::new();
            statements.push(first);
            statements.push(repeated);
            assert(stmts_view(statements) =~= seq![first_model, repeated_model]);
            Statement::BlockStatement { statements }
        },
        None => repeated,
    }
}

pub open spec fn option_stmt_view(s: Option<Statement>) -> Option<StmtModel> {
    match s {
        Some(s) => Some(s@),
        None => None,
    }
}

pub open spec fn option_stmt_outcome(r: Result<Option<Statement>, LoxError>) -> Result<
    Option<StmtModel>,
    LoxError,
> {
    match r {
        Ok(s) => Ok(option_stmt_view(s)),
        Err(x) => Err(x),
    }
}

pub open spec fn option_expr_outcome(r: Result<Option<Expr>, LoxError>) -> Result<
    Option<ExprModel>,
    LoxError,
> {
    match r {
        Ok(e) => Ok(crate::ast::option_expr_view(e)),
        Err(x) => Err(x),
    }
}

pub open spec fn pair_outcome(r: Result<(Expr, Statement), LoxError>) -> Result<
    (ExprModel, StmtModel),
    LoxError,
> {
    match r {
        Ok((e, s)) => Ok((e@, s@)),
        Err(x) => Err(x),
    }
}

/// A recursive-descent parser.  It keeps every syntax error that it meets.
pub struct Parser {
    pub errors: Vec<LoxError>,
}

impl Parser {
    pub fn new() -> (parser: Parser)
        ensures
            parser.errors@.len() == 0,
    {
        Parser { errors: Vec::new() }
    }

    /// program → declaration* EOF
    ///
    /// Reads the tokens up to the first `EOF` (or to their end).  The
    /// statements are those of `grammar::program`; they are handed out only if
    /// the parser holds no error afterwards.
    #[verifier::loop_isolation(false)]
    pub fn parse(&mut self, tokens: &Vec<Token>) -> (res: Result<Vec<Statement>, ()>)
        ensures
            final(self).errors@ == grammar::program(
                models(tokens),
                0,
                Seq::empty(),
                old(self).errors@,
            ).errors,
            match res {
                Ok(statements) => final(self).errors@.len() == 0 && stmts_view(statements)
                    == grammar::program(models(tokens), 0, Seq::empty(), old(self).errors@).statements,
                Err(_) => final(self).errors@.len() > 0,
            },
    {
        let mut statements: Vec<Statement> = Vec::new();
        let mut pos: usize = 0;
        assert(stmts_view(statements) =~= Seq::empty());
        while peek(tokens, pos) != TokenType::EOF
            invariant
                pos <= tokens.len(),
                grammar::program(models(tokens), pos as int, stmts_view(statements), self.errors@)
                    == grammar::program(models(tokens), 0, Seq::empty(), old(self).errors@),
            decreases tokens.len() - pos,
        {
            let (result, next) = self.declaration(tokens, pos);
            match result {
                Ok(s) => {
                    let ghost before = statements;
                    statements.push(s);
                    proof {
                        lemma_stmts_view_push(before, statements, s);
                    }
                    pos = next;
                },
                Err(e) => {
                    self.errors.push(e);
                    proof {
                        grammar::lemma_synchronize_advances(models(tokens), next as int);
                    }
                    pos = self.synchronize(tokens, next);
                },
            }
        }
        if self.errors.len() > 0 {
            Err(())
        } else {
            Ok(statements)
        }
    }

    /// Drops tokens after an error, up to a place where a statement may start.
    fn synchronize(&mut self, tokens: &Vec<Token>, pos: usize) -> (next: usize)
        requires
            pos <= tokens.len(),
        ensures
            next == pos + grammar::synchronize(models(tokens), pos as int),
            next <= tokens.len(),
            final(self).errors == old(self).errors,
    {
        let mut current = pos;
        loop
            invariant
                pos <= current <= tokens.len(),
                (current - pos) + grammar::synchronize(models(tokens), current as int)
                    == grammar::synchronize(models(tokens), pos as int),
                self.errors == old(self).errors,
            decreases tokens.len() - current,
        {
            if peek(tokens, current) == TokenType::EOF {
                return current;
            }
            let kind = tokens[current].token_type;
            current = current + 1;
            if kind == TokenType::Semicolon {
                return current;
            }
            if starts(peek(tokens, current)) {
                return current;
            }
        }
    }

    /// declaration → classDecl | funDecl | varDecl | statement
    fn declaration(&mut self, tokens: &Vec<Token>, pos: usize) -> (out: (Result<Statement, LoxError>, usize))
        requires
            pos <= tokens.len(),
        ensures
            agrees(
                stmt_outcome(out.0),
                out.1,
                final(self).errors@,
                pos,
                grammar::declaration(models(tokens), pos as int, old(self).errors@),
            ),
            out.1 <= tokens.len(),
            out.0 is Ok ==> out.1 > pos,
        decreases tokens.len() - pos, 40nat,
    {
        match peek(tokens, pos) {
            TokenType::Class => self.class_declaration(tokens, pos),
            TokenType::Var => self.var_declaration(tokens, pos),
            TokenType::Fun => self.fun_declaration(tokens, pos),
            _ => self.statement(tokens, pos),
        }
    }

    /// classDecl → "class" IDENT ( "<" IDENT )? "{" function* "}"
    fn class_declaration(&mut self, tokens: &Vec<Token>, pos: usize) -> (out: (
        Result<Statement, LoxError>,
        usize,
    ))
        requires
            pos < tokens.len(),
        ensures
            agrees(
                stmt_outcome(out.0),
                out.1,
                final(self).errors@,
                pos,
                grammar::class_declaration(models(tokens), pos as int, old(self).errors@),
            ),
            out.1 <= tokens.len(),
            out.0 is Ok ==> out.1 > pos,
        decreases tokens.len() - pos, 35nat,
    {
        if peek(tokens, pos + 1) != TokenType::Identifier {
            return (Err(error_at(tokens, pos + 1, "expected class name")), pos + 1);
        }
        let name = take(tokens, pos + 1);
        let superclass;
        let at_brace: usize;
        if peek(tokens, pos + 2) == TokenType::Less {
            if peek(tokens, pos + 3) != TokenType::Identifier {
                return (Err(error_at(tokens, pos + 3, "expected superclass name")), pos + 3);
            }
            superclass = Some(take(tokens, pos + 3));
            at_brace = pos + 4;
        } else {
            superclass = None;
            at_brace = pos + 2;
        }
        if peek(tokens, at_brace) != TokenType::LeftBrace {
            return (Err(error_at(tokens, at_brace, "expected '{' after class declaration")), at_brace);
        }
        match self.methods(tokens, at_brace + 1) {
            (Err(e), next) => (Err(e), next),
            (Ok(methods), next) => (Ok(Statement::ClassDeclStatement { name, methods, superclass }), next),
        }
    }

    /// The methods of a class body up to and with its closing brace.
    #[verifier::loop_isolation(false)]
    fn methods(&mut self, tokens: &Vec<Token>, pos: usize) -> (out: (
        Result<Vec<Rc<FunDeclStatement>>, LoxError>,
        usize,
    ))
        requires
            pos <= tokens.len(),
        ensures
            agrees(
                decls_outcome(out.0),
                out.1,
                final(self).errors@,
                pos,
                grammar::methods_rest(models(tokens), pos as int, Seq::empty(), old(self).errors@),
            ),
            pos <= out.1 <= tokens.len(),
        decreases tokens.len() - pos, 34nat,
    {
        let mut methods: Vec<Rc<FunDeclStatement>> = Vec::new();
        let mut current = pos;
        assert(decls_view(methods) =~= Seq::empty());
        loop
            invariant
                pos <= current <= tokens.len(),
                grammar::methods_rest(
                    models(tokens),
                    current as int,
                    decls_view(methods),
                    self.errors@,
                ).advanced((current - pos) as nat) == grammar::methods_rest(
                    models(tokens),
                    pos as int,
                    Seq::empty(),
                    old(self).errors@,
                ),
            decreases tokens.len() - current,
        {
            match peek(tokens, current) {
                TokenType::RightBrace => {
                    return (Ok(methods), current + 1);
                },
                TokenType::EOF => {
                    return (
                        Err(error_at(tokens, current, "reached EOF while parsing, expected '}'")),
                        current,
                    );
                },
                _ => {},
            }
            let (result, next) = self.function(tokens, current, FunctionKind::Method);
            match result {
                Err(e) => {
                    return (Err(e), next);
                },
                Ok(method) => {
                    let ghost before = methods;
                    let shared = Rc::new(method);
                    methods.push(shared);
                    proof {
                        lemma_decls_view_push(before, methods, shared);
                    }
                    current = next;
                },
            }
        }
    }

    /// funDecl → "fun" function
    fn fun_declaration(&mut self, tokens: &Vec<Token>, pos: usize) -> (out: (
        Result<Statement, LoxError>,
        usize,
    ))
        requires
            pos < tokens.len(),
        ensures
            agrees(
                stmt_outcome(out.0),
                out.1,
                final(self).errors@,
                pos,
                grammar::fun_declaration(models(tokens), pos as int, old(self).errors@),
            ),
            out.1 <= tokens.len(),
            out.0 is Ok ==> out.1 > pos,
        decreases tokens.len() - pos, 34nat,
    {
        match self.function(tokens, pos + 1, FunctionKind::Function) {
            (Err(e), next) => (Err(e), next),
            (Ok(declaration), next) => (
                Ok(Statement::FunDeclStatement { declaration: Rc::new(declaration) }),
                next,
            ),
        }
    }

    /// params → IDENT ( "," IDENT )*
    #[verifier::loop_isolation(false)]
    fn parameters(&mut self, tokens: &Vec<Token>, pos: usize) -> (out: (Result<Vec<Token>, LoxError>, usize))
        requires
            pos <= tokens.len(),
        ensures
            agrees(
                tokens_outcome(out.0),
                out.1,
                final(self).errors@,
                pos,
                grammar::parameters(models(tokens), pos as int, Seq::empty(), old(self).errors@),
            ),
            out.1 <= tokens.len(),
    {
        let mut list: Vec<Token> = Vec::new();
        let mut current = pos;
        assert(token_views(list@) =~= Seq::empty());
        loop
            invariant
                pos <= current <= tokens.len(),
                grammar::parameters(
                    models(tokens),
                    current as int,
                    token_views(list@),
                    self.errors@,
                ).advanced((current - pos) as nat) == grammar::parameters(
                    models(tokens),
                    pos as int,
                    Seq::empty(),
                    old(self).errors@,
                ),
            decreases tokens.len() - current,
        {
            if list.len() > MAX_PARAMETERS {
                self.errors.push(
                    error_at(tokens, current, "can't have > 255 arguments to a function call"),
                );
            }
            if peek(tokens, current) != TokenType::Identifier {
                return (Err(error_at(tokens, current, "expected identifier")), current);
            }
            let ghost before = list@;
            let token = take(tokens, current);
            list.push(token);
            assert(token_views(list@) =~= token_views(before).push(token@));
            if peek(tokens, current + 1) == TokenType::Comma {
                current = current + 2;
            } else {
                return (Ok(list), current + 1);
            }
        }
    }

    /// function → IDENT "(" params? ")" block
    #[verifier::rlimit(60)]
    fn function(&mut self, tokens: &Vec<Token>, pos: usize, kind: FunctionKind) -> (out: (
        Result<FunDeclStatement, LoxError>,
        usize,
    ))
        requires
            pos <= tokens.len(),
        ensures
            agrees(
                decl_outcome(out.0),
                out.1,
                final(self).errors@,
                pos,
                grammar::function(models(tokens), pos as int, kind, old(self).errors@),
            ),
            out.1 <= tokens.len(),
            out.0 is Ok ==> out.1 > pos,
        decreases tokens.len() - pos, 33nat,
    {
        if peek(tokens, pos) != TokenType::Identifier {
            let message = match kind {
                FunctionKind::Function => "expected function name",
                FunctionKind::Method => "expected method name",
            };
            return (Err(error_at(tokens, pos, message)), pos);
        }
        let name = take(tokens, pos);
        if peek(tokens, pos + 1) != TokenType::LeftParen {
            let message = match kind {
                FunctionKind::Function => "expected '(' after function name",
                FunctionKind::Method => "expected '(' after method name",
            };
            return (Err(error_at(tokens, pos + 1, message)), pos + 1);
        }
        let parameters;
        let at_close;
        if peek(tokens, pos + 2) == TokenType::RightParen {
            parameters = Vec::new();
            at_close = pos + 2;
            assert(token_views(parameters@) =~= Seq::empty());
        } else {
            match self.parameters(tokens, pos + 2) {
                (Err(e), next) => {
                    return (Err(e), next);
                },
                (Ok(list), next) => {
                    parameters = list;
                    at_close = next;
                },
            }
        }
        if peek(tokens, at_close) != TokenType::RightParen {
            return (Err(error_at(tokens, at_close, "expected ')' after parameters")), at_close);
        }
        if peek(tokens, at_close + 1) != TokenType::LeftBrace {
            let message = match kind {
                FunctionKind::Function => "expected '{' before function body",
                FunctionKind::Method => "expected '{' before method body",
            };
            return (Err(error_at(tokens, at_close + 1, message)), at_close + 1);
        }
        match self.block(tokens, at_close + 1) {
            (Err(e), next) => (Err(e), next),
            (Ok(body), next) => (Ok(FunDeclStatement { name, parameters, body }), next),
        }
    }

    /// varDecl → "var" IDENT ( "=" expression )? ";"
    fn var_declaration(&mut self, tokens: &Vec<Token>, pos: usize) -> (out: (
        Result<Statement, LoxError>,
        usize,
    ))
        requires
            pos < tokens.len(),
        ensures
            agrees(
                stmt_outcome(out.0),
                out.1,
                final(self).errors@,
                pos,
                grammar::var_declaration(models(tokens), pos as int, old(self).errors@),
            ),
            out.1 <= tokens.len(),
            out.0 is Ok ==> out.1 > pos,
        decreases tokens.len() - pos, 32nat,
    {
        proof {
            reveal(grammar::var_declaration);
        }
        if peek(tokens, pos + 1) != TokenType::Identifier {
            return (Err(error_at(tokens, pos + 1, "expected identifier")), pos + 1);
        }
        let token = take(tokens, pos + 1);
        if peek(tokens, pos + 2) == TokenType::Equal {
            match self.closed_expression(
                tokens,
                pos + 3,
                TokenType::Semicolon,
                "expected ';' after variable declaration",
            ) {
                (Err(e), next) => (Err(e), next),
                (Ok(value), next) => (
                    Ok(Statement::VarDeclStatement { token, initializer: Some(value) }),
                    next,
                ),
            }
        } else if peek(tokens, pos + 2) != TokenType::Semicolon {
            (Err(error_at(tokens, pos + 2, "expected ';' after variable declaration")), pos + 2)
        } else {
            (Ok(Statement::VarDeclStatement { token, initializer: None }), pos + 3)
        }
    }

    /// statement → exprStmt | printStmt | block | ifStmt | whileStmt | forStmt | returnStmt
    fn statement(&mut self, tokens: &Vec<Token>, pos: usize) -> (out: (Result<Statement, LoxError>, usize))
        requires
            pos <= tokens.len(),
        ensures
            agrees(
                stmt_outcome(out.0),
                out.1,
                final(self).errors@,
                pos,
                grammar::statement(models(tokens), pos as int, old(self).errors@),
            ),
            out.1 <= tokens.len(),
            out.0 is Ok ==> out.1 > pos,
        decreases tokens.len() - pos, 35nat,
    {
        match peek(tokens, pos) {
            TokenType::Print => self.print_statement(tokens, pos),
            TokenType::LeftBrace => self.block_statement(tokens, pos),
            TokenType::If => self.if_statement(tokens, pos),
            TokenType::While => self.while_statement(tokens, pos),
            TokenType::For => self.for_statement(tokens, pos),
            TokenType::Return => self.return_statement(tokens, pos),
            _ => self.expression_statement(tokens, pos),
        }
    }

    /// printStmt → "print" expression ";"
    fn print_statement(&mut self, tokens: &Vec<Token>, pos: usize) -> (out: (
        Result<Statement, LoxError>,
        usize,
    ))
        requires
            pos < tokens.len(),
        ensures
            agrees(
                stmt_outcome(out.0),
                out.1,
                final(self).errors@,
                pos,
                grammar::print_statement(models(tokens), pos as int, old(self).errors@),
            ),
            out.1 <= tokens.len(),
            out.0 is Ok ==> out.1 > pos,
        decreases tokens.len() - pos, 32nat,
    {
        proof {
            reveal(grammar::print_statement);
        }
        let token = take(tokens, pos);
        match self.closed_expression(tokens, pos + 1, TokenType::Semicolon, "expected ';' after statement") {
            (Err(e), next) => (Err(e), next),
            (Ok(value), next) => (Ok(Statement::PrintStatement { token, value }), next),
        }
    }

    /// A block as a statement.
    fn block_statement(&mut self, tokens: &Vec<Token>, pos: usize) -> (out: (
        Result<Statement, LoxError>,
        usize,
    ))
        requires
            pos <= tokens.len(),
            kind_at(models(tokens), pos as int) == TokenType::LeftBrace,
        ensures
            agrees(
                stmt_outcome(out.0),
                out.1,
                final(self).errors@,
                pos,
                grammar::statement(models(tokens), pos as int, old(self).errors@),
            ),
            out.1 <= tokens.len(),
            out.0 is Ok ==> out.1 > pos,
        decreases tokens.len() - pos, 33nat,
    {
        match self.block(tokens, pos) {
            (Err(e), next) => (Err(e), next),
            (Ok(statements), next) => (Ok(Statement::BlockStatement { statements }), next),
        }
    }

    /// block → "{" declaration* "}"
    #[verifier::loop_isolation(false)]
    fn block(&mut self, tokens: &Vec<Token>, pos: usize) -> (out: (Result<Vec<Statement>, LoxError>, usize))
        requires
            pos <= tokens.len(),
        ensures
            agrees(
                stmts_outcome(out.0),
                out.1,
                final(self).errors@,
                pos,
                grammar::block(models(tokens), pos as int, old(self).errors@),
            ),
            out.1 <= tokens.len(),
            out.0 is Ok ==> out.1 > pos,
        decreases tokens.len() - pos, 32nat,
    {
        if peek(tokens, pos) != TokenType::LeftBrace {
            return (Err(error_at(tokens, pos, "expected '{'")), pos);
        }
        let mut statements: Vec<Statement> = Vec::new();
        let mut current = pos + 1;
        assert(stmts_view(statements) =~= Seq::empty());
        loop
            invariant
                pos < current <= tokens.len(),
                grammar::block_rest(
                    models(tokens),
                    current as int,
                    stmts_view(statements),
                    self.errors@,
                ).advanced((current - (pos + 1)) as nat) == grammar::block_rest(
                    models(tokens),
                    pos + 1,
                    Seq::empty(),
                    old(self).errors@,
                ),
            decreases tokens.len() - current,
        {
            match peek(tokens, current) {
                TokenType::RightBrace => {
                    return (Ok(statements), current + 1);
                },
                TokenType::EOF => {
                    return (
                        Err(error_at(tokens, current, "reached EOF while parsing, expected '}'")),
                        current,
                    );
                },
                _ => {},
            }
            let (result, next) = self.declaration(tokens, current);
            match result {
                Err(e) => {
                    return (Err(e), next);
                },
                Ok(s) => {
                    let ghost before = statements;
                    statements.push(s);
                    proof {
                        lemma_stmts_view_push(before, statements, s);
                    }
                    current = next;
                },
            }
        }
    }

    /// A condition in parentheses behind a keyword, and the statement after it.
    fn guarded_statement(
        &mut self,
        tokens: &Vec<Token>,
        pos: usize,
        open_message: &'static str,
        close_message: &'static str,
    ) -> (out: (Result<(Expr, Statement), LoxError>, usize))
        requires
            pos < tokens.len(),
        ensures
            agrees(
                pair_outcome(out.0),
                out.1,
                final(self).errors@,
                pos,
                grammar::guarded_statement(
                    models(tokens),
                    pos as int,
                    open_message,
                    close_message,
                    old(self).errors@,
                ),
            ),
            out.1 <= tokens.len(),
            out.0 is Ok ==> out.1 > pos,
        decreases tokens.len() - pos, 32nat,
    {
        if peek(tokens, pos + 1) != TokenType::LeftParen {
            return (Err(error_at(tokens, pos + 1, open_message)), pos + 1);
        }
        match self.closed_expression(tokens, pos + 2, TokenType::RightParen, close_message) {
            (Err(e), next) => (Err(e), next),
            (Ok(condition), next) => match self.statement(tokens, next) {
                (Err(e), last) => (Err(e), last),
                (Ok(body), last) => (Ok((condition, body)), last),
            },
        }
    }

    /// ifStmt → "if" "(" expression ")" statement ( "else" statement )?
    fn if_statement(&mut self, tokens: &Vec<Token>, pos: usize) -> (out: (Result<Statement, LoxError>, usize))
        requires
            pos < tokens.len(),
        ensures
            agrees(
                stmt_outcome(out.0),
                out.1,
                final(self).errors@,
                pos,
                grammar::if_statement(models(tokens), pos as int, old(self).errors@),
            ),
            out.1 <= tokens.len(),
            out.0 is Ok ==> out.1 > pos,
        decreases tokens.len() - pos, 33nat,
    {
        match self.guarded_statement(
            tokens,
            pos,
            "expected '(' after if",
            "expected ')' after if condition",
        ) {
            (Err(e), next) => (Err(e), next),
            (Ok((condition, then_branch)), next) => {
                if peek(tokens, next) != TokenType::Else {
                    (
                        Ok(
                            Statement::IfStatement {
                                condition,
                                then_branch: Box::new(then_branch),
                                else_branch: None,
                            },
                        ),
                        next,
                    )
                } else {
                    match self.statement(tokens, next + 1) {
                        (Err(e), last) => (Err(e), last),
                        (Ok(else_branch), last) => (
                            Ok(
                                Statement::IfStatement {
                                    condition,
                                    then_branch: Box::new(then_branch),
                                    else_branch: Some(Box::new(else_branch)),
                                },
                            ),
                            last,
                        ),
                    }
                }
            },
        }
    }

    /// whileStmt → "while" "(" expression ")" statement
    fn while_statement(&mut self, tokens: &Vec<Token>, pos: usize) -> (out: (
        Result<Statement, LoxError>,
        usize,
    ))
        requires
            pos < tokens.len(),
        ensures
            agrees(
                stmt_outcome(out.0),
                out.1,
                final(self).errors@,
                pos,
                grammar::while_statement(models(tokens), pos as int, old(self).errors@),
            ),
            out.1 <= tokens.len(),
            out.0 is Ok ==> out.1 > pos,
        decreases tokens.len() - pos, 33nat,
    {
        match self.guarded_statement(
            tokens,
            pos,
            "expected '(' after while",
            "expected ')' after while condition",
        ) {
            (Err(e), next) => (Err(e), next),
            (Ok((condition, body)), next) => (
                Ok(Statement::WhileStatement { condition, body: Box::new(body) }),
                next,
            ),
        }
    }

    /// The first clause of a `for`.
    fn for_initializer(&mut self, tokens: &Vec<Token>, pos: usize) -> (out: (
        Result<Option<Statement>, LoxError>,
        usize,
    ))
        requires
            pos <= tokens.len(),
        ensures
            agrees(
                option_stmt_outcome(out.0),
                out.1,
                final(self).errors@,
                pos,
                grammar::for_initializer(models(tokens), pos as int, old(self).errors@),
            ),
            out.1 <= tokens.len(),
        decreases tokens.len() - pos, 33nat,
    {
        proof {
            reveal(grammar::for_initializer);
        }
        match peek(tokens, pos) {
            TokenType::Semicolon => (Ok(None), pos + 1),
            TokenType::Var => match self.var_declaration(tokens, pos) {
                (Err(e), next) => (Err(e), next),
                (Ok(s), next) => (Ok(Some(s)), next),
            },
            _ => match self.expression_statement(tokens, pos) {
                (Err(e), next) => (Err(e), next),
                (Ok(s), next) => (Ok(Some(s)), next),
            },
        }
    }

    /// The second clause of a `for` with its `;`.
    fn for_condition(&mut self, tokens: &Vec<Token>, pos: usize) -> (out: (Result<Expr, LoxError>, usize))
        requires
            pos <= tokens.len(),
        ensures
            agrees(
                expr_outcome(out.0),
                out.1,
                final(self).errors@,
                pos,
                grammar::for_condition(models(tokens), pos as int, old(self).errors@),
            ),
            out.1 <= tokens.len(),
        decreases tokens.len() - pos, 33nat,
    {
        proof {
            reveal(grammar::for_condition);
        }
        if peek(tokens, pos) == TokenType::Semicolon {
            let token = take(tokens, pos);
            (Ok(Expr::Literal { token, value: LiteralValue::BooleanValue(true) }), pos + 1)
        } else {
            self.closed_expression(tokens, pos, TokenType::Semicolon, "expected ';' after for condition")
        }
    }

    /// The third clause of a `for` with the closing parenthesis.
    fn for_increment(&mut self, tokens: &Vec<Token>, pos: usize) -> (out: (
        Result<Option<Expr>, LoxError>,
        usize,
    ))
        requires
            pos <= tokens.len(),
        ensures
            agrees(
                option_expr_outcome(out.0),
                out.1,
                final(self).errors@,
                pos,
                grammar::for_increment(models(tokens), pos as int, old(self).errors@),
            ),
            out.1 <= tokens.len(),
        decreases tokens.len() - pos, 33nat,
    {
        proof {
            reveal(grammar::for_increment);
        }
        if peek(tokens, pos) == TokenType::RightParen {
            (Ok(None), pos + 1)
        } else {
            match self.closed_expression(
                tokens,
                pos,
                TokenType::RightParen,
                "expected ')' after for clause",
            ) {
                (Err(e), next) => (Err(e), next),
                (Ok(e), next) => (Ok(Some(e)), next),
            }
        }
    }

    /// forStmt → "for" "(" ( varDecl | exprStmt | ";" ) expression? ";" expression? ")" statement
    ///
    /// The loop is handed out as the `while` loop that it stands for.
    #[verifier::rlimit(60)]
    fn for_statement(&mut self, tokens: &Vec<Token>, pos: usize) -> (out: (Result<Statement, LoxError>, usize))
        requires
            pos < tokens.len(),
        ensures
            agrees(
                stmt_outcome(out.0),
                out.1,
                final(self).errors@,
                pos,
                grammar::for_statement(models(tokens), pos as int, old(self).errors@),
            ),
            out.1 <= tokens.len(),
            out.0 is Ok ==> out.1 > pos,
        decreases tokens.len() - pos, 34nat,
    {
        if peek(tokens, pos + 1) != TokenType::LeftParen {
            return (Err(error_at(tokens, pos + 1, "expected '(' after for")), pos + 1);
        }
        let (first, at_condition) = self.for_initializer(tokens, pos + 2);
        let initializer = match first {
            Err(e) => {
                return (Err(e), at_condition);
            },
            Ok(s) => s,
        };
        let (second, at_increment) = self.for_condition(tokens, at_condition);
        let condition = match second {
            Err(e) => {
                return (Err(e), at_increment);
            },
            Ok(e) => e,
        };
        let (third, at_body) = self.for_increment(tokens, at_increment);
        let increment = match third {
            Err(e) => {
                return (Err(e), at_body);
            },
            Ok(e) => e,
        };
        let (last, next) = self.statement(tokens, at_body);
        let body = match last {
            Err(e) => {
                return (Err(e), next);
            },
            Ok(s) => s,
        };
        (Ok(desugar(initializer, condition, increment, body)), next)
    }

    /// returnStmt → "return" expression? ";"
    fn return_statement(&mut self, tokens: &Vec<Token>, pos: usize) -> (out: (
        Result<Statement, LoxError>,
        usize,
    ))
        requires
            pos < tokens.len(),
        ensures
            agrees(
                stmt_outcome(out.0),
                out.1,
                final(self).errors@,
                pos,
                grammar::return_statement(models(tokens), pos as int, old(self).errors@),
            ),
            out.1 <= tokens.len(),
            out.0 is Ok ==> out.1 > pos,
        decreases tokens.len() - pos, 32nat,
    {
        proof {
            reveal(grammar::return_statement);
        }
        let keyword = take(tokens, pos);
        if peek(tokens, pos + 1) == TokenType::Semicolon {
            (Ok(Statement::ReturnStatement { keyword, value: None }), pos + 2)
        } else {
            match self.closed_expression(
                tokens,
                pos + 1,
                TokenType::Semicolon,
                "expected ';' after return statement",
            ) {
                (Err(e), next) => (Err(e), next),
                (Ok(value), next) => (Ok(Statement::ReturnStatement { keyword, value: Some(value) }), next),
            }
        }
    }

    /// exprStmt → expression ";"
    fn expression_statement(&mut self, tokens: &Vec<Token>, pos: usize) -> (out: (
        Result<Statement, LoxError>,
        usize,
    ))
        requires
            pos <= tokens.len(),
        ensures
            agrees(
                stmt_outcome(out.0),
                out.1,
                final(self).errors@,
                pos,
                grammar::expression_statement(models(tokens), pos as int, old(self).errors@),
            ),
            out.1 <= tokens.len(),
            out.0 is Ok ==> out.1 > pos,
        decreases tokens.len() - pos, 32nat,
    {
        proof {
            reveal(grammar::expression_statement);
        }
        match self.closed_expression(tokens, pos, TokenType::Semicolon, "expected ';' after statement") {
            (Err(e), next) => (Err(e), next),
            (Ok(expression), next) => (Ok(Statement::ExpressionStatement { expression }), next),
        }
    }

    /// An expression and the token that must close it.
    fn closed_expression(
        &mut self,
        tokens: &Vec<Token>,
        pos: usize,
        closing: TokenType,
        message: &'static str,
    ) -> (out: (Result<Expr, LoxError>, usize))
        requires
            pos <= tokens.len(),
            closing != TokenType::EOF,
        ensures
            agrees(
                expr_outcome(out.0),
                out.1,
                final(self).errors@,
                pos,
                grammar::closed_expression(models(tokens), pos as int, closing, message, old(self).errors@),
            ),
            out.1 <= tokens.len(),
            out.0 is Ok ==> out.1 > pos,
        decreases tokens.len() - pos, 32nat,
    {
        proof {
            reveal(grammar::closed_expression);
        }
        match self.expression(tokens, pos) {
            (Err(e), next) => (Err(e), next),
            (Ok(e), next) => {
                if peek(tokens, next) != closing {
                    (Err(error_at(tokens, next, message)), next)
                } else {
                    (Ok(e), next + 1)
                }
            },
        }
    }

    /// expression → assignment
    fn expression(&mut self, tokens: &Vec<Token>, pos: usize) -> (out: (Result<Expr, LoxError>, usize))
        requires
            pos <= tokens.len(),
        ensures
            agrees(
                expr_outcome(out.0),
                out.1,
                final(self).errors@,
                pos,
                grammar::expression(models(tokens), pos as int, old(self).errors@),
            ),
            out.1 <= tokens.len(),
            out.0 is Ok ==> out.1 > pos,
        decreases tokens.len() - pos, 20nat,
    {
        self.assignment(tokens, pos)
    }

    /// assignment → ( call "." )? IDENT "=" assignment | logicOr
    fn assignment(&mut self, tokens: &Vec<Token>, pos: usize) -> (out: (Result<Expr, LoxError>, usize))
        requires
            pos <= tokens.len(),
        ensures
            agrees(
                expr_outcome(out.0),
                out.1,
                final(self).errors@,
                pos,
                grammar::assignment(models(tokens), pos as int, old(self).errors@),
            ),
            out.1 <= tokens.len(),
            out.0 is Ok ==> out.1 > pos,
        decreases tokens.len() - pos, 19nat,
    {
        let (target, at_equal) = self.chain(tokens, pos, 6);
        let expr = match target {
            Err(e) => {
                return (Err(e), at_equal);
            },
            Ok(expr) => expr,
        };
        if peek(tokens, at_equal) != TokenType::Equal {
            return (Ok(expr), at_equal);
        }
        let (right, next) = self.assignment(tokens, at_equal + 1);
        let value = match right {
            Err(e) => {
                return (Err(e), next);
            },
            Ok(value) => value,
        };
        match expr {
            Expr::Variable { token } => (Ok(Expr::Assignment { token, value: Box::new(value) }), next),
            Expr::Get { object, name } => (
                Ok(Expr::SetProperty { object, name, value: Box::new(value) }),
                next,
            ),
            other => {
                self.errors.push(error_at(tokens, next, "invalid assignment target"));
                (Ok(other), next)
            },
        }
    }

    /// One level of precedence: operands of the level below, joined by the
    /// operators of this level; level 0 is `unary`.
    fn chain(&mut self, tokens: &Vec<Token>, pos: usize, level: usize) -> (out: (
        Result<Expr, LoxError>,
        usize,
    ))
        requires
            pos <= tokens.len(),
            level <= 6,
        ensures
            agrees(
                expr_outcome(out.0),
                out.1,
                final(self).errors@,
                pos,
                grammar::chain(models(tokens), pos as int, level as nat, old(self).errors@),
            ),
            out.1 <= tokens.len(),
            out.0 is Ok ==> out.1 > pos,
        decreases tokens.len() - pos, 5 + 2 * level,
    {
        if level == 0 {
            return self.unary(tokens, pos);
        }
        match self.chain(tokens, pos, level - 1) {
            (Err(e), next) => (Err(e), next),
            (Ok(left), next) => self.chain_rest(tokens, next, level, left),
        }
    }

    /// The operators of one level and their right operands that follow a left
    /// operand.
    fn chain_rest(&mut self, tokens: &Vec<Token>, pos: usize, level: usize, left: Expr) -> (out: (
        Result<Expr, LoxError>,
        usize,
    ))
        requires
            pos <= tokens.len(),
            1 <= level <= 6,
        ensures
            agrees(
                expr_outcome(out.0),
                out.1,
                final(self).errors@,
                pos,
                grammar::chain_rest(models(tokens), pos as int, level as nat, left@, old(self).errors@),
            ),
            pos <= out.1 <= tokens.len(),
        decreases tokens.len() - pos, 4 + 2 * level,
    {
        match joint(level, peek(tokens, pos)) {
            None => (Ok(left), pos),
            Some(found) => {
                let token = take(tokens, pos);
                match self.chain(tokens, pos + 1, level - 1) {
                    (Err(e), next) => (Err(e), next),
                    (Ok(right), next) => self.chain_rest(tokens, next, level, join(found, token, left, right)),
                }
            },
        }
    }

    /// unary → ( "!" | "-" ) unary | call
    fn unary(&mut self, tokens: &Vec<Token>, pos: usize) -> (out: (Result<Expr, LoxError>, usize))
        requires
            pos <= tokens.len(),
        ensures
            agrees(
                expr_outcome(out.0),
                out.1,
                final(self).errors@,
                pos,
                grammar::unary(models(tokens), pos as int, old(self).errors@),
            ),
            out.1 <= tokens.len(),
            out.0 is Ok ==> out.1 > pos,
        decreases tokens.len() - pos, 3nat,
    {
        match peek(tokens, pos) {
            TokenType::Bang => {
                let token = take(tokens, pos);
                match self.unary(tokens, pos + 1) {
                    (Err(e), next) => (Err(e), next),
                    (Ok(right), next) => (
                        Ok(Expr::Unary { token, operator: UnaryOperator::Bang, right: Box::new(right) }),
                        next,
                    ),
                }
            },
            TokenType::Minus => {
                let token = take(tokens, pos);
                match self.unary(tokens, pos + 1) {
                    (Err(e), next) => (Err(e), next),
                    (Ok(right), next) => (
                        Ok(Expr::Unary { token, operator: UnaryOperator::Minus, right: Box::new(right) }),
                        next,
                    ),
                }
            },
            _ => self.call(tokens, pos),
        }
    }

    /// call → primary ( "(" args? ")" | "." IDENT )*
    fn call(&mut self, tokens: &Vec<Token>, pos: usize) -> (out: (Result<Expr, LoxError>, usize))
        requires
            pos <= tokens.len(),
        ensures
            agrees(
                expr_outcome(out.0),
                out.1,
                final(self).errors@,
                pos,
                grammar::call(models(tokens), pos as int, old(self).errors@),
            ),
            out.1 <= tokens.len(),
            out.0 is Ok ==> out.1 > pos,
        decreases tokens.len() - pos, 2nat,
    {
        match self.primary(tokens, pos) {
            (Err(e), next) => (Err(e), next),
            (Ok(callee), next) => self.call_rest(tokens, next, callee),
        }
    }

    /// The calls and property accesses that follow a callee.
    fn call_rest(&mut self, tokens: &Vec<Token>, pos: usize, callee: Expr) -> (out: (
        Result<Expr, LoxError>,
        usize,
    ))
        requires
            pos <= tokens.len(),
        ensures
            agrees(
                expr_outcome(out.0),
                out.1,
                final(self).errors@,
                pos,
                grammar::call_rest(models(tokens), pos as int, callee@, old(self).errors@),
            ),
            pos <= out.1 <= tokens.len(),
        decreases tokens.len() - pos, 1nat,
    {
        match peek(tokens, pos) {
            TokenType::LeftParen => {
                if peek(tokens, pos + 1) == TokenType::RightParen {
                    let token = take(tokens, pos + 1);
                    let arguments: Vec<Expr> = Vec::new();
                    assert(exprs_view(arguments) =~= Seq::empty());
                    self.call_rest(tokens, pos + 2, Expr::Call { callee: Box::new(callee), arguments, token })
                } else {
                    match self.arguments(tokens, pos + 1) {
                        (Err(e), next) => (Err(e), next),
                        (Ok(arguments), next) => {
                            if peek(tokens, next) != TokenType::RightParen {
                                (Err(error_at(tokens, next, "expected ')' after arguments")), next)
                            } else {
                                let token = take(tokens, next);
                                self.call_rest(
                                    tokens,
                                    next + 1,
                                    Expr::Call { callee: Box::new(callee), arguments, token },
                                )
                            }
                        },
                    }
                }
            },
            TokenType::Dot => {
                if peek(tokens, pos + 1) != TokenType::Identifier {
                    (Err(error_at(tokens, pos + 1, "expected identifier after '.'")), pos + 1)
                } else {
                    let name = take(tokens, pos + 1);
                    self.call_rest(tokens, pos + 2, Expr::Get { object: Box::new(callee), name })
                }
            },
            _ => (Ok(callee), pos),
        }
    }

    /// args → expression ( "," expression )*
    #[verifier::loop_isolation(false)]
    fn arguments(&mut self, tokens: &Vec<Token>, pos: usize) -> (out: (Result<Vec<Expr>, LoxError>, usize))
        requires
            pos <= tokens.len(),
        ensures
            agrees(
                exprs_outcome(out.0),
                out.1,
                final(self).errors@,
                pos,
                grammar::arguments(models(tokens), pos as int, Seq::empty(), old(self).errors@),
            ),
            pos <= out.1 <= tokens.len(),
        decreases tokens.len() - pos, 21nat,
    {
        let mut list: Vec<Expr> = Vec::new();
        let mut current = pos;
        assert(exprs_view(list) =~= Seq::empty());
        loop
            invariant
                pos <= current <= tokens.len(),
                grammar::arguments(
                    models(tokens),
                    current as int,
                    exprs_view(list),
                    self.errors@,
                ).advanced((current - pos) as nat) == grammar::arguments(
                    models(tokens),
                    pos as int,
                    Seq::empty(),
                    old(self).errors@,
                ),
            decreases tokens.len() - current,
        {
            if list.len() > MAX_PARAMETERS {
                self.errors.push(
                    error_at(tokens, current, "can't have > 255 arguments to a function call"),
                );
            }
            let (result, next) = self.expression(tokens, current);
            match result {
                Err(e) => {
                    return (Err(e), next);
                },
                Ok(e) => {
                    let ghost before = list;
                    list.push(e);
                    proof {
                        lemma_exprs_view_push(before, list, e);
                    }
                    if peek(tokens, next) == TokenType::Comma {
                        current = next + 1;
                    } else {
                        return (Ok(list), next);
                    }
                },
            }
        }
    }

    /// primary → NUMBER | STRING | "true" | "false" | "nil" | "(" expression ")"
    ///         | "this" | "super" "." IDENT | IDENT
    fn primary(&mut self, tokens: &Vec<Token>, pos: usize) -> (out: (Result<Expr, LoxError>, usize))
        requires
            pos <= tokens.len(),
        ensures
            agrees(
                expr_outcome(out.0),
                out.1,
                final(self).errors@,
                pos,
                grammar::primary(models(tokens), pos as int, old(self).errors@),
            ),
            out.1 <= tokens.len(),
            out.0 is Ok ==> out.1 > pos,
        decreases tokens.len() - pos, 0nat,
    {
        match peek(tokens, pos) {
            TokenType::False | TokenType::True | TokenType::Number | TokenType::String | TokenType::Nil => {
                let token = take(tokens, pos);
                let literal = match &token.literal {
                    Some(value) => Some(value.clone()),
                    None => None,
                };
                match literal {
                    Some(value) => (Ok(Expr::Literal { token, value }), pos + 1),
                    None => (Err(error_at(tokens, pos, "invalid syntax")), pos),
                }
            },
            TokenType::This => {
                let keyword = take(tokens, pos);
                (Ok(Expr::This { keyword }), pos + 1)
            },
            TokenType::Super => {
                let keyword = take(tokens, pos);
                if peek(tokens, pos + 1) != TokenType::Dot {
                    (Err(error_at(tokens, pos + 1, "expected '.' after 'super' keyword")), pos + 1)
                } else if peek(tokens, pos + 2) != TokenType::Identifier {
                    (Err(error_at(tokens, pos + 2, "expected superclass method name after '.'")), pos + 2)
                } else {
                    let method = take(tokens, pos + 2);
                    (Ok(Expr::Super { keyword, method }), pos + 3)
                }
            },
            TokenType::Identifier => {
                let token = take(tokens, pos);
                (Ok(Expr::Variable { token }), pos + 1)
            },
            TokenType::LeftParen => {
                match self.expression(tokens, pos + 1) {
                    (Err(e), next) => (Err(e), next),
                    (Ok(e), next) => {
                        if peek(tokens, next) != TokenType::RightParen {
                            (Err(error_at(tokens, next, "expected ')' after expression")), next)
                        } else {
                            (Ok(Expr::Grouping { expr: Box::new(e) }), next + 1)
                        }
                    },
                }
            },
            _ => (Err(error_at(tokens, pos, "invalid syntax")), pos),
        }
    }
}

} // verus!
