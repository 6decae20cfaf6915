use vstd::prelude::*;
use crate::ast::{BinaryOperator, ExprModel, FunDeclModel, LogicalOperator, StmtModel, UnaryOperator};
use crate::error::{LoxError, LoxErrorKind};
use crate::tokens::{LiteralModel, TokenModel, TokenType};

verus! {

/// The most arguments or parameters that are taken without a complaint.
pub const MAX_PARAMETERS: usize = 255;

/// The kind of the token at `pos`; behind the last token stands `EOF`.
pub open spec fn kind_at(ts: Seq<TokenModel>, pos: int) -> TokenType {
    if 0 <= pos < ts.len() {
        ts[pos].kind
    } else {
        TokenType::EOF
    }
}

/// How many tokens stand at or behind `pos`.
pub open spec fn room(ts: Seq<TokenModel>, pos: int) -> nat {
    if pos < ts.len() {
        (ts.len() - pos) as nat
    } else {
        0
    }
}

/// The line of the token at `pos`; behind the last token, the line of the
/// last token.
pub open spec fn line_at(ts: Seq<TokenModel>, pos: int) -> i32 {
    if 0 <= pos < ts.len() {
        ts[pos].line
    } else if ts.len() > 0 {
        ts[ts.len() - 1].line
    } else {
        1
    }
}

/// A syntax error found at the token at `pos`.
pub open spec fn syntax_error(ts: Seq<TokenModel>, pos: int, message: &'static str) -> LoxError {
    LoxError { message, kind: LoxErrorKind::SyntaxError(line_at(ts, pos)) }
}

/// What one grammar rule makes of the tokens from a position on: the tree or
/// the error that ended the rule, how many tokens it consumed, and the errors
/// recorded so far that did not end a rule.
pub struct Parsed<T> {
    pub result: Result<T, LoxError>,
    pub used: nat,
    pub errors: Seq<LoxError>,
}

impl<T> Parsed<T> {
    /// The same outcome after `n` more tokens were consumed in front of it.
    pub open spec fn advanced(self, n: nat) -> Parsed<T> {
        Parsed { result: self.result, used: self.used + n, errors: self.errors }
    }
}

/// A rule that ends with a tree after `used` tokens.
pub open spec fn done<T>(value: T, used: nat, errors: Seq<LoxError>) -> Parsed<T> {
    Parsed { result: Ok(value), used, errors }
}

/// A rule that fails after `used` tokens, at the token that follows them.
pub open spec fn fail<T>(
    ts: Seq<TokenModel>,
    pos: int,
    used: nat,
    message: &'static str,
    errors: Seq<LoxError>,
) -> Parsed<T> {
    Parsed { result: Err(syntax_error(ts, pos + used, message)), used, errors }
}

/// The failure of an inner rule, handed on by a rule that had consumed
/// `before` tokens in front of it.
pub open spec fn carry<T, U>(inner: Parsed<T>, before: nat) -> Parsed<U> {
    Parsed {
        result: match inner.result {
            Err(e) => Err(e),
            Ok(_) => Err(LoxError { message: "invalid syntax", kind: LoxErrorKind::SyntaxError(0) }),
        },
        used: inner.used + before,
        errors: inner.errors,
    }
}

/// Reported where a rule that repeats another got nothing to repeat on.  It
/// is what makes the repetition end by its form alone; it is never met, since
/// the repeated rules consume a token whenever they succeed
/// (`a_declaration_consumes_a_token`, `a_function_consumes_a_token`).
pub open spec fn stalled<T>(ts: Seq<TokenModel>, pos: int, errors: Seq<LoxError>) -> Parsed<T> {
    fail(ts, pos, 0, "invalid syntax", errors)
}

/// An operator that joins two operands on one level of precedence.
pub enum Joint {
    Binary(BinaryOperator),
    Logical(LogicalOperator),
}

/// The operator that a token of this kind is on the given level of
/// precedence: 1 for `/ *`, 2 for `- +`, 3 for the comparisons, 4 for `!= ==`,
/// 5 for `and`, 6 for `or`.
pub open spec fn joint_at(level: nat, kind: TokenType) -> Option<Joint> {
    if level == 1 {
        match kind {
            TokenType::Slash => Some(Joint::Binary(BinaryOperator::Slash)),
            TokenType::Star => Some(Joint::Binary(BinaryOperator::Star)),
            _ => None,
        }
    } else if level == 2 {
        match kind {
            TokenType::Minus => Some(Joint::Binary(BinaryOperator::Minus)),
            TokenType::Plus => Some(Joint::Binary(BinaryOperator::Plus)),
            _ => None,
        }
    } else if level == 3 {
        match kind {
            TokenType::Greater => Some(Joint::Binary(BinaryOperator::Greater)),
            TokenType::GreaterEqual => Some(Joint::Binary(BinaryOperator::GreaterEqual)),
            TokenType::Less => Some(Joint::Binary(BinaryOperator::Less)),
            TokenType::LessEqual => Some(Joint::Binary(BinaryOperator::LessEqual)),
            _ => None,
        }
    } else if level == 4 {
        match kind {
            TokenType::BangEqual => Some(Joint::Binary(BinaryOperator::BangEqual)),
            TokenType::EqualEqual => Some(Joint::Binary(BinaryOperator::EqualEqual)),
            _ => None,
        }
    } else if level == 5 {
        match kind {
            TokenType::And => Some(Joint::Logical(LogicalOperator::And)),
            _ => None,
        }
    } else if level == 6 {
        match kind {
            TokenType::Or => Some(Joint::Logical(LogicalOperator::Or)),
            _ => None,
        }
    } else {
        None
    }
}

/// Two operands joined by an operator.
pub open spec fn joined(joint: Joint, token: TokenModel, left: ExprModel, right: ExprModel) -> ExprModel {
    match joint {
        Joint::Binary(operator) => ExprModel::Binary {
            token,
            operator,
            left: Box::new(left),
            right: Box::new(right),
        },
        Joint::Logical(operator) => ExprModel::Logical {
            token,
            operator,
            left: Box::new(left),
            right: Box::new(right),
        },
    }
}

/// Whether a function or a method is being read; it decides the wording of
/// the errors.
#[derive(Debug, Clone, Copy, PartialEq, Eq, Structural)]
pub enum FunctionKind {
    Function,
    Method,
}

pub open spec fn name_message(kind: FunctionKind) -> &'static str {
    match kind {
        FunctionKind::Function => "expected function name",
        FunctionKind::Method => "expected method name",
    }
}

pub open spec fn paren_message(kind: FunctionKind) -> &'static str {
    match kind {
        FunctionKind::Function => "expected '(' after function name",
        FunctionKind::Method => "expected '(' after method name",
    }
}

pub open spec fn body_message(kind: FunctionKind) -> &'static str {
    match kind {
        FunctionKind::Function => "expected '{' before function body",
        FunctionKind::Method => "expected '{' before method body",
    }
}

/// The error list after the check of the number of arguments or parameters
/// read so far.
pub open spec fn counted(
    ts: Seq<TokenModel>,
    pos: int,
    so_far: nat,
    errors: Seq<LoxError>,
) -> Seq<LoxError> {
    if so_far > MAX_PARAMETERS {
        errors.push(syntax_error(ts, pos, "can't have > 255 arguments to a function call"))
    } else {
        errors
    }
}

/// params → IDENT ( "," IDENT )*
pub open spec fn parameters(
    ts: Seq<TokenModel>,
    pos: int,
    so_far: Seq<TokenModel>,
    errors: Seq<LoxError>,
) -> Parsed<Seq<TokenModel>>
    decreases room(ts, pos),
{
    let errors = counted(ts, pos, so_far.len(), errors);
    if kind_at(ts, pos) != TokenType::Identifier {
        fail(ts, pos, 0, "expected identifier", errors)
    } else if kind_at(ts, pos + 1) == TokenType::Comma {
        parameters(ts, pos + 2, so_far.push(ts[pos]), errors).advanced(2)
    } else {
        done(so_far.push(ts[pos]), 1, errors)
    }
}

/// Whether a statement may start with a token of this kind; the parser
/// resumes in front of such a token after an error.
pub open spec fn starts_statement(kind: TokenType) -> bool {
    match kind {
        TokenType::Class => true,
        TokenType::Fun => true,
        TokenType::Var => true,
        TokenType::For => true,
        TokenType::If => true,
        TokenType::While => true,
        TokenType::Print => true,
        TokenType::Return => true,
        _ => false,
    }
}

/// How many tokens are dropped after an error at `pos`: up to and with the
/// next `;`, or up to the next token that starts a statement, or up to `EOF`.
pub open spec fn synchronize(ts: Seq<TokenModel>, pos: int) -> nat
    decreases room(ts, pos),
{
    if kind_at(ts, pos) == TokenType::EOF {
        0
    } else if ts[pos].kind == TokenType::Semicolon {
        1
    } else if starts_statement(kind_at(ts, pos + 1)) {
        1
    } else {
        1 + synchronize(ts, pos + 1)
    }
}

/// primary → NUMBER | STRING | "true" | "false" | "nil" | "(" expression ")"
///         | "this" | "super" "." IDENT | IDENT
pub open spec fn primary(ts: Seq<TokenModel>, pos: int, errors: Seq<LoxError>) -> Parsed<ExprModel>
    decreases room(ts, pos), 0nat,
{
    match kind_at(ts, pos) {
        TokenType::False | TokenType::True | TokenType::Number | TokenType::String | TokenType::Nil => {
            match ts[pos].literal {
                Some(value) => done(ExprModel::Literal { token: ts[pos], value }, 1, errors),
                None => fail(ts, pos, 0, "invalid syntax", errors),
            }
        },
        TokenType::This => done(ExprModel::This { keyword: ts[pos] }, 1, errors),
        TokenType::Super => {
            if kind_at(ts, pos + 1) != TokenType::Dot {
                fail(ts, pos, 1, "expected '.' after 'super' keyword", errors)
            } else if kind_at(ts, pos + 2) != TokenType::Identifier {
                fail(ts, pos, 2, "expected superclass method name after '.'", errors)
            } else {
                done(ExprModel::Super { keyword: ts[pos], method: ts[pos + 2] }, 3, errors)
            }
        },
        TokenType::Identifier => done(ExprModel::Variable { token: ts[pos] }, 1, errors),
        TokenType::LeftParen => {
            let inner = expression(ts, pos + 1, errors);
            match inner.result {
                Err(_) => carry(inner, 1),
                Ok(e) => if kind_at(ts, pos + 1 + inner.used) != TokenType::RightParen {
                    fail(ts, pos, 1 + inner.used, "expected ')' after expression", inner.errors)
                } else {
                    done(ExprModel::Grouping { expr: Box::new(e) }, inner.used + 2, inner.errors)
                },
            }
        },
        _ => fail(ts, pos, 0, "invalid syntax", errors),
    }
}

/// The calls and property accesses that follow a callee.
pub open spec fn call_rest(
    ts: Seq<TokenModel>,
    pos: int,
    callee: ExprModel,
    errors: Seq<LoxError>,
) -> Parsed<ExprModel>
    decreases room(ts, pos), 1nat,
{
    match kind_at(ts, pos) {
        TokenType::LeftParen => {
            if kind_at(ts, pos + 1) == TokenType::RightParen {
                call_rest(
                    ts,
                    pos + 2,
                    ExprModel::Call { callee: Box::new(callee), arguments: Seq::empty(), token: ts[pos + 1] },
                    errors,
                ).advanced(2)
            } else {
                let args = arguments(ts, pos + 1, Seq::empty(), errors);
                match args.result {
                    Err(_) => carry(args, 1),
                    Ok(list) => if kind_at(ts, pos + 1 + args.used) != TokenType::RightParen {
                        fail(ts, pos, 1 + args.used, "expected ')' after arguments", args.errors)
                    } else {
                        call_rest(
                            ts,
                            pos + 2 + args.used,
                            ExprModel::Call {
                                callee: Box::new(callee),
                                arguments: list,
                                token: ts[pos + 1 + args.used],
                            },
                            args.errors,
                        ).advanced(2 + args.used)
                    },
                }
            }
        },
        TokenType::Dot => {
            if kind_at(ts, pos + 1) != TokenType::Identifier {
                fail(ts, pos, 1, "expected identifier after '.'", errors)
            } else {
                call_rest(
                    ts,
                    pos + 2,
                    ExprModel::Get { object: Box::new(callee), name: ts[pos + 1] },
                    errors,
                ).advanced(2)
            }
        },
        _ => done(callee, 0, errors),
    }
}

/// call → primary ( "(" args? ")" | "." IDENT )*
pub open spec fn call(ts: Seq<TokenModel>, pos: int, errors: Seq<LoxError>) -> Parsed<ExprModel>
    decreases room(ts, pos), 2nat,
{
    let first = primary(ts, pos, errors);
    match first.result {
        Err(_) => first,
        Ok(callee) => call_rest(ts, pos + first.used, callee, first.errors).advanced(first.used),
    }
}

/// unary → ( "!" | "-" ) unary | call
pub open spec fn unary(ts: Seq<TokenModel>, pos: int, errors: Seq<LoxError>) -> Parsed<ExprModel>
    decreases room(ts, pos), 3nat,
{
    match kind_at(ts, pos) {
        TokenType::Bang => {
            let right = unary(ts, pos + 1, errors);
            match right.result {
                Err(_) => carry(right, 1),
                Ok(e) => done(
                    ExprModel::Unary { token: ts[pos], operator: UnaryOperator::Bang, right: Box::new(e) },
                    right.used + 1,
                    right.errors,
                ),
            }
        },
        TokenType::Minus => {
            let right = unary(ts, pos + 1, errors);
            match right.result {
                Err(_) => carry(right, 1),
                Ok(e) => done(
                    ExprModel::Unary { token: ts[pos], operator: UnaryOperator::Minus, right: Box::new(e) },
                    right.used + 1,
                    right.errors,
                ),
            }
        },
        _ => call(ts, pos, errors),
    }
}

/// The operators of one level and their right operands that follow a left
/// operand; the operators associate to the left.
pub open spec fn chain_rest(
    ts: Seq<TokenModel>,
    pos: int,
    level: nat,
    left: ExprModel,
    errors: Seq<LoxError>,
) -> Parsed<ExprModel>
    decreases room(ts, pos), 4 + 2 * level,
{
    match joint_at(level, kind_at(ts, pos)) {
        None => done(left, 0, errors),
        Some(joint) => {
            let right = chain(ts, pos + 1, (level - 1) as nat, errors);
            match right.result {
                Err(_) => carry(right, 1),
                Ok(e) => chain_rest(
                    ts,
                    pos + 1 + right.used,
                    level,
                    joined(joint, ts[pos], left, e),
                    right.errors,
                ).advanced(1 + right.used),
            }
        },
    }
}

/// One level of precedence: operands of the level below, joined by the
/// operators of this level.  Level 0 is `unary`.
///
/// factor → unary ( ( "/" | "*" ) unary )*, and so on up to
/// logicOr → logicAnd ( "or" logicAnd )*
pub open spec fn chain(ts: Seq<TokenModel>, pos: int, level: nat, errors: Seq<LoxError>) -> Parsed<
    ExprModel,
>
    decreases room(ts, pos), 5 + 2 * level,
{
    if level == 0 {
        unary(ts, pos, errors)
    } else {
        let first = chain(ts, pos, (level - 1) as nat, errors);
        match first.result {
            Err(_) => first,
            Ok(left) => chain_rest(ts, pos + first.used, level, left, first.errors).advanced(first.used),
        }
    }
}

/// assignment → ( call "." )? IDENT "=" assignment | logicOr
///
/// The left side is read as any expression.  Behind an `=`, a variable
/// becomes an assignment and a property access a property write; anything
/// else is recorded as an error and stays as it is.
pub open spec fn assignment(ts: Seq<TokenModel>, pos: int, errors: Seq<LoxError>) -> Parsed<ExprModel>
    decreases room(ts, pos), 18nat,
{
    let target = chain(ts, pos, 6, errors);
    match target.result {
        Err(_) => target,
        Ok(expr) => if kind_at(ts, pos + target.used) != TokenType::Equal {
            target
        } else {
            let value = assignment(ts, pos + target.used + 1, target.errors);
            match value.result {
                Err(_) => carry(value, target.used + 1),
                Ok(v) => {
                    let used = target.used + 1 + value.used;
                    match expr {
                        ExprModel::Variable { token } => done(
                            ExprModel::Assignment { token, value: Box::new(v) },
                            used,
                            value.errors,
                        ),
                        ExprModel::Get { object, name } => done(
                            ExprModel::SetProperty { object, name, value: Box::new(v) },
                            used,
                            value.errors,
                        ),
                        _ => done(
                            expr,
                            used,
                            value.errors.push(syntax_error(ts, pos + used, "invalid assignment target")),
                        ),
                    }
                },
            }
        },
    }
}

/// expression → assignment
pub open spec fn expression(ts: Seq<TokenModel>, pos: int, errors: Seq<LoxError>) -> Parsed<ExprModel>
    decreases room(ts, pos), 19nat,
{
    assignment(ts, pos, errors)
}

/// args → expression ( "," expression )*
pub open spec fn arguments(
    ts: Seq<TokenModel>,
    pos: int,
    so_far: Seq<ExprModel>,
    errors: Seq<LoxError>,
) -> Parsed<Seq<ExprModel>>
    decreases room(ts, pos), 20nat,
{
    let next = expression(ts, pos, counted(ts, pos, so_far.len(), errors));
    match next.result {
        Err(_) => carry(next, 0),
        Ok(e) => if kind_at(ts, pos + next.used) == TokenType::Comma {
            arguments(ts, pos + next.used + 1, so_far.push(e), next.errors).advanced(next.used + 1)
        } else {
            done(so_far.push(e), next.used, next.errors)
        },
    }
}

/// An expression that must be followed by the token `closing`, which is
/// consumed.
#[verifier::opaque]
pub open spec fn closed_expression(
    ts: Seq<TokenModel>,
    pos: int,
    closing: TokenType,
    message: &'static str,
    errors: Seq<LoxError>,
) -> Parsed<ExprModel>
    decreases room(ts, pos), 21nat,
{
    let inner = expression(ts, pos, errors);
    match inner.result {
        Err(_) => inner,
        Ok(e) => if kind_at(ts, pos + inner.used) != closing {
            fail(ts, pos, inner.used, message, inner.errors)
        } else {
            done(e, inner.used + 1, inner.errors)
        },
    }
}

/// exprStmt → expression ";"
#[verifier::opaque]
pub open spec fn expression_statement(ts: Seq<TokenModel>, pos: int, errors: Seq<LoxError>) -> Parsed<
    StmtModel,
>
    decreases room(ts, pos), 22nat,
{
    let inner = closed_expression(ts, pos, TokenType::Semicolon, "expected ';' after statement", errors);
    match inner.result {
        Err(_) => carry(inner, 0),
        Ok(expression) => done(StmtModel::Expression { expression }, inner.used, inner.errors),
    }
}

/// printStmt → "print" expression ";"
#[verifier::opaque]
pub open spec fn print_statement(ts: Seq<TokenModel>, pos: int, errors: Seq<LoxError>) -> Parsed<StmtModel>
    decreases room(ts, pos), 22nat,
{
    let inner = closed_expression(ts, pos + 1, TokenType::Semicolon, "expected ';' after statement", errors);
    match inner.result {
        Err(_) => carry(inner, 1),
        Ok(value) => done(StmtModel::Print { token: ts[pos], value }, inner.used + 1, inner.errors),
    }
}

/// returnStmt → "return" expression? ";"
#[verifier::opaque]
pub open spec fn return_statement(ts: Seq<TokenModel>, pos: int, errors: Seq<LoxError>) -> Parsed<
    StmtModel,
>
    decreases room(ts, pos), 22nat,
{
    if kind_at(ts, pos + 1) == TokenType::Semicolon {
        done(StmtModel::Return { keyword: ts[pos], value: None }, 2, errors)
    } else {
        let inner = closed_expression(
            ts,
            pos + 1,
            TokenType::Semicolon,
            "expected ';' after return statement",
            errors,
        );
        match inner.result {
            Err(_) => carry(inner, 1),
            Ok(value) => done(
                StmtModel::Return { keyword: ts[pos], value: Some(value) },
                inner.used + 1,
                inner.errors,
            ),
        }
    }
}

/// varDecl → "var" IDENT ( "=" expression )? ";"
#[verifier::opaque]
pub open spec fn var_declaration(ts: Seq<TokenModel>, pos: int, errors: Seq<LoxError>) -> Parsed<StmtModel>
    decreases room(ts, pos), 22nat,
{
    if kind_at(ts, pos + 1) != TokenType::Identifier {
        fail(ts, pos, 1, "expected identifier", errors)
    } else if kind_at(ts, pos + 2) == TokenType::Equal {
        let inner = closed_expression(
            ts,
            pos + 3,
            TokenType::Semicolon,
            "expected ';' after variable declaration",
            errors,
        );
        match inner.result {
            Err(_) => carry(inner, 3),
            Ok(value) => done(
                StmtModel::VarDecl { token: ts[pos + 1], initializer: Some(value) },
                inner.used + 3,
                inner.errors,
            ),
        }
    } else if kind_at(ts, pos + 2) != TokenType::Semicolon {
        fail(ts, pos, 2, "expected ';' after variable declaration", errors)
    } else {
        done(StmtModel::VarDecl { token: ts[pos + 1], initializer: None }, 3, errors)
    }
}

/// The declarations of a block up to and with its closing brace.
pub open spec fn block_rest(
    ts: Seq<TokenModel>,
    pos: int,
    so_far: Seq<StmtModel>,
    errors: Seq<LoxError>,
) -> Parsed<Seq<StmtModel>>
    decreases room(ts, pos), 31nat,
{
    match kind_at(ts, pos) {
        TokenType::RightBrace => done(so_far, 1, errors),
        TokenType::EOF => fail(ts, pos, 0, "reached EOF while parsing, expected '}'", errors),
        _ => {
            let next = declaration(ts, pos, errors);
            match next.result {
                Err(_) => carry(next, 0),
                Ok(s) => if next.used == 0 {
                    stalled(ts, pos, next.errors)
                } else {
                    block_rest(ts, pos + next.used, so_far.push(s), next.errors).advanced(next.used)
                },
            }
        },
    }
}

/// block → "{" declaration* "}"
pub open spec fn block(ts: Seq<TokenModel>, pos: int, errors: Seq<LoxError>) -> Parsed<Seq<StmtModel>>
    decreases room(ts, pos), 22nat,
{
    if kind_at(ts, pos) != TokenType::LeftBrace {
        fail(ts, pos, 0, "expected '{'", errors)
    } else {
        block_rest(ts, pos + 1, Seq::empty(), errors).advanced(1)
    }
}

/// A condition in parentheses behind a keyword, and the statement after it.
pub open spec fn guarded_statement(
    ts: Seq<TokenModel>,
    pos: int,
    open_message: &'static str,
    close_message: &'static str,
    errors: Seq<LoxError>,
) -> Parsed<(ExprModel, StmtModel)>
    decreases room(ts, pos), 22nat,
{
    if kind_at(ts, pos + 1) != TokenType::LeftParen {
        fail(ts, pos, 1, open_message, errors)
    } else {
        let condition = closed_expression(ts, pos + 2, TokenType::RightParen, close_message, errors);
        match condition.result {
            Err(_) => carry(condition, 2),
            Ok(c) => {
                let body = statement(ts, pos + 2 + condition.used, condition.errors);
                match body.result {
                    Err(_) => carry(body, 2 + condition.used),
                    Ok(s) => done((c, s), 2 + condition.used + body.used, body.errors),
                }
            },
        }
    }
}

/// ifStmt → "if" "(" expression ")" statement ( "else" statement )?
pub open spec fn if_statement(ts: Seq<TokenModel>, pos: int, errors: Seq<LoxError>) -> Parsed<StmtModel>
    decreases room(ts, pos), 23nat,
{
    let head = guarded_statement(ts, pos, "expected '(' after if", "expected ')' after if condition", errors);
    match head.result {
        Err(_) => carry(head, 0),
        Ok((condition, then_branch)) => if kind_at(ts, pos + head.used) != TokenType::Else {
            done(
                StmtModel::If { condition, then_branch: Box::new(then_branch), else_branch: None },
                head.used,
                head.errors,
            )
        } else {
            let other = statement(ts, pos + head.used + 1, head.errors);
            match other.result {
                Err(_) => carry(other, head.used + 1),
                Ok(else_branch) => done(
                    StmtModel::If {
                        condition,
                        then_branch: Box::new(then_branch),
                        else_branch: Some(Box::new(else_branch)),
                    },
                    head.used + 1 + other.used,
                    other.errors,
                ),
            }
        },
    }
}

/// whileStmt → "while" "(" expression ")" statement
pub open spec fn while_statement(ts: Seq<TokenModel>, pos: int, errors: Seq<LoxError>) -> Parsed<StmtModel>
    decreases room(ts, pos), 23nat,
{
    let head = guarded_statement(
        ts,
        pos,
        "expected '(' after while",
        "expected ')' after while condition",
        errors,
    );
    match head.result {
        Err(_) => carry(head, 0),
        Ok((condition, body)) => done(
            StmtModel::While { condition, body: Box::new(body) },
            head.used,
            head.errors,
        ),
    }
}

/// The first clause of a `for`: a variable declaration, an expression
/// statement, or nothing but the `;`.
#[verifier::opaque]
pub open spec fn for_initializer(ts: Seq<TokenModel>, pos: int, errors: Seq<LoxError>) -> Parsed<
    Option<StmtModel>,
>
    decreases room(ts, pos), 23nat,
{
    match kind_at(ts, pos) {
        TokenType::Semicolon => done(None, 1, errors),
        TokenType::Var => {
            let inner = var_declaration(ts, pos, errors);
            match inner.result {
                Err(_) => carry(inner, 0),
                Ok(s) => done(Some(s), inner.used, inner.errors),
            }
        },
        _ => {
            let inner = expression_statement(ts, pos, errors);
            match inner.result {
                Err(_) => carry(inner, 0),
                Ok(s) => done(Some(s), inner.used, inner.errors),
            }
        },
    }
}

/// The second clause of a `for` with its `;`: a condition, or the literal
/// `true`, carried by the `;`, where there is none.
#[verifier::opaque]
pub open spec fn for_condition(ts: Seq<TokenModel>, pos: int, errors: Seq<LoxError>) -> Parsed<ExprModel>
    decreases room(ts, pos), 23nat,
{
    if kind_at(ts, pos) == TokenType::Semicolon {
        done(ExprModel::Literal { token: ts[pos], value: LiteralModel::Boolean(true) }, 1, errors)
    } else {
        closed_expression(ts, pos, TokenType::Semicolon, "expected ';' after for condition", errors)
    }
}

/// The third clause of a `for` with the closing parenthesis: an increment,
/// or none.
#[verifier::opaque]
pub open spec fn for_increment(ts: Seq<TokenModel>, pos: int, errors: Seq<LoxError>) -> Parsed<
    Option<ExprModel>,
>
    decreases room(ts, pos), 23nat,
{
    if kind_at(ts, pos) == TokenType::RightParen {
        done(None, 1, errors)
    } else {
        let inner = closed_expression(
            ts,
            pos,
            TokenType::RightParen,
            "expected ')' after for clause",
            errors,
        );
        match inner.result {
            Err(_) => carry(inner, 0),
            Ok(e) => done(Some(e), inner.used, inner.errors),
        }
    }
}

/// The loop that a `for` stands for: the body, followed by the increment if
/// there is one, is repeated while the condition holds; an initializer runs
/// first, in a block of its own around the loop.
pub open spec fn desugared(
    initializer: Option<StmtModel>,
    condition: ExprModel,
    increment: Option<ExprModel>,
    body: StmtModel,
) -> StmtModel {
    let repeated = match increment {
        Some(expression) => StmtModel::While {
            condition,
            body: Box::new(
                StmtModel::Block { statements: seq![body, StmtModel::Expression { expression }] },
            ),
        },
        None => StmtModel::While { condition, body: Box::new(body) },
    };
    match initializer {
        Some(first) => StmtModel::Block { statements: seq![first, repeated] },
        None => repeated,
    }
}

/// forStmt → "for" "(" ( varDecl | exprStmt | ";" ) expression? ";" expression? ")" statement
pub open spec fn for_statement(ts: Seq<TokenModel>, pos: int, errors: Seq<LoxError>) -> Parsed<StmtModel>
    decreases room(ts, pos), 24nat,
{
    if kind_at(ts, pos + 1) != TokenType::LeftParen {
        fail(ts, pos, 1, "expected '(' after for", errors)
    } else {
        let first = for_initializer(ts, pos + 2, errors);
        match first.result {
            Err(_) => carry(first, 2),
            Ok(initializer) => {
                let at_condition = 2 + first.used;
                let second = for_condition(ts, pos + at_condition, first.errors);
                match second.result {
                    Err(_) => carry(second, at_condition),
                    Ok(condition) => {
                        let at_increment = at_condition + second.used;
                        let third = for_increment(ts, pos + at_increment, second.errors);
                        match third.result {
                            Err(_) => carry(third, at_increment),
                            Ok(increment) => {
                                let at_body = at_increment + third.used;
                                let last = statement(ts, pos + at_body, third.errors);
                                match last.result {
                                    Err(_) => carry(last, at_body),
                                    Ok(body) => done(
                                        desugared(initializer, condition, increment, body),
                                        at_body + last.used,
                                        last.errors,
                                    ),
                                }
                            },
                        }
                    },
                }
            },
        }
    }
}

/// statement → exprStmt | printStmt | block | ifStmt | whileStmt | forStmt | returnStmt
pub open spec fn statement(ts: Seq<TokenModel>, pos: int, errors: Seq<LoxError>) -> Parsed<StmtModel>
    decreases room(ts, pos), 25nat,
{
    match kind_at(ts, pos) {
        TokenType::Print => print_statement(ts, pos, errors),
        TokenType::LeftBrace => {
            let inner = block(ts, pos, errors);
            match inner.result {
                Err(_) => carry(inner, 0),
                Ok(statements) => done(StmtModel::Block { statements }, inner.used, inner.errors),
            }
        },
        TokenType::If => if_statement(ts, pos, errors),
        TokenType::While => while_statement(ts, pos, errors),
        TokenType::For => for_statement(ts, pos, errors),
        TokenType::Return => return_statement(ts, pos, errors),
        _ => expression_statement(ts, pos, errors),
    }
}

/// function → IDENT "(" params? ")" block
pub open spec fn function(
    ts: Seq<TokenModel>,
    pos: int,
    kind: FunctionKind,
    errors: Seq<LoxError>,
) -> Parsed<FunDeclModel>
    decreases room(ts, pos), 23nat,
{
    if kind_at(ts, pos) != TokenType::Identifier {
        fail(ts, pos, 0, name_message(kind), errors)
    } else if kind_at(ts, pos + 1) != TokenType::LeftParen {
        fail(ts, pos, 1, paren_message(kind), errors)
    } else {
        let list = if kind_at(ts, pos + 2) == TokenType::RightParen {
            done(Seq::empty(), 0, errors)
        } else {
            parameters(ts, pos + 2, Seq::empty(), errors)
        };
        match list.result {
            Err(_) => carry(list, 2),
            Ok(parameters) => {
                let at_close = 2 + list.used;
                if kind_at(ts, pos + at_close) != TokenType::RightParen {
                    fail(ts, pos, at_close, "expected ')' after parameters", list.errors)
                } else if kind_at(ts, pos + at_close + 1) != TokenType::LeftBrace {
                    fail(ts, pos, at_close + 1, body_message(kind), list.errors)
                } else {
                    let inner = block(ts, pos + at_close + 1, list.errors);
                    match inner.result {
                        Err(_) => carry(inner, at_close + 1),
                        Ok(body) => done(
                            FunDeclModel { name: ts[pos], parameters, body },
                            at_close + 1 + inner.used,
                            inner.errors,
                        ),
                    }
                }
            },
        }
    }
}

/// funDecl → "fun" function
pub open spec fn fun_declaration(ts: Seq<TokenModel>, pos: int, errors: Seq<LoxError>) -> Parsed<StmtModel>
    decreases room(ts, pos), 24nat,
{
    let inner = function(ts, pos + 1, FunctionKind::Function, errors);
    match inner.result {
        Err(_) => carry(inner, 1),
        Ok(declaration) => done(StmtModel::FunDecl { declaration }, inner.used + 1, inner.errors),
    }
}

/// The methods of a class body up to and with its closing brace.
pub open spec fn methods_rest(
    ts: Seq<TokenModel>,
    pos: int,
    so_far: Seq<FunDeclModel>,
    errors: Seq<LoxError>,
) -> Parsed<Seq<FunDeclModel>>
    decreases room(ts, pos), 24nat,
{
    match kind_at(ts, pos) {
        TokenType::RightBrace => done(so_far, 1, errors),
        TokenType::EOF => fail(ts, pos, 0, "reached EOF while parsing, expected '}'", errors),
        _ => {
            let next = function(ts, pos, FunctionKind::Method, errors);
            match next.result {
                Err(_) => carry(next, 0),
                Ok(method) => if next.used == 0 {
                    stalled(ts, pos, next.errors)
                } else {
                    methods_rest(ts, pos + next.used, so_far.push(method), next.errors).advanced(
                        next.used,
                    )
                },
            }
        },
    }
}

/// classDecl → "class" IDENT ( "<" IDENT )? "{" function* "}"
pub open spec fn class_declaration(ts: Seq<TokenModel>, pos: int, errors: Seq<LoxError>) -> Parsed<
    StmtModel,
>
    decreases room(ts, pos), 25nat,
{
    if kind_at(ts, pos + 1) != TokenType::Identifier {
        fail(ts, pos, 1, "expected class name", errors)
    } else if kind_at(ts, pos + 2) == TokenType::Less && kind_at(ts, pos + 3) != TokenType::Identifier {
        fail(ts, pos, 3, "expected superclass name", errors)
    } else {
        let superclass = if kind_at(ts, pos + 2) == TokenType::Less {
            Some(ts[pos + 3])
        } else {
            None
        };
        let at_brace: nat = if kind_at(ts, pos + 2) == TokenType::Less {
            4
        } else {
            2
        };
        if kind_at(ts, pos + at_brace) != TokenType::LeftBrace {
            fail(ts, pos, at_brace, "expected '{' after class declaration", errors)
        } else {
            let inner = methods_rest(ts, pos + at_brace + 1, Seq::empty(), errors);
            match inner.result {
                Err(_) => carry(inner, at_brace + 1),
                Ok(methods) => done(
                    StmtModel::ClassDecl { name: ts[pos + 1], methods, superclass },
                    at_brace + 1 + inner.used,
                    inner.errors,
                ),
            }
        }
    }
}

/// declaration → classDecl | funDecl | varDecl | statement
pub open spec fn declaration(ts: Seq<TokenModel>, pos: int, errors: Seq<LoxError>) -> Parsed<StmtModel>
    decreases room(ts, pos), 30nat,
{
    match kind_at(ts, pos) {
        TokenType::Class => class_declaration(ts, pos, errors),
        TokenType::Var => var_declaration(ts, pos, errors),
        TokenType::Fun => fun_declaration(ts, pos, errors),
        _ => statement(ts, pos, errors),
    }
}

/// What a whole parse yields: the statements that were read, every error
/// that was met, and the position of the `EOF` at which the parse ended.
pub struct Program {
    pub statements: Seq<StmtModel>,
    pub errors: Seq<LoxError>,
    pub end: int,
}

pub proof fn lemma_synchronize_advances(ts: Seq<TokenModel>, pos: int)
    requires
        0 <= pos,
    ensures
        pos + synchronize(ts, pos) <= ts.len() || synchronize(ts, pos) == 0,
        kind_at(ts, pos) != TokenType::EOF ==> synchronize(ts, pos) >= 1,
    decreases room(ts, pos),
{
    if kind_at(ts, pos) != TokenType::EOF && ts[pos].kind != TokenType::Semicolon && !starts_statement(
        kind_at(ts, pos + 1),
    ) {
        lemma_synchronize_advances(ts, pos + 1);
    }
}

/// program → declaration* EOF
///
/// A declaration that fails is recorded, and the parser resumes behind the
/// tokens that `synchronize` drops.
pub open spec fn program(
    ts: Seq<TokenModel>,
    pos: int,
    so_far: Seq<StmtModel>,
    errors: Seq<LoxError>,
) -> Program
    decreases room(ts, pos),
{
    if kind_at(ts, pos) == TokenType::EOF {
        Program { statements: so_far, errors, end: pos }
    } else {
        let next = declaration(ts, pos, errors);
        match next.result {
            Ok(s) => if next.used == 0 {
                Program { statements: so_far, errors: next.errors, end: pos }
            } else {
                program(ts, pos + next.used, so_far.push(s), next.errors)
            },
            Err(e) => {
                proof {
                    lemma_synchronize_advances(ts, pos + next.used);
                }
                program(
                    ts,
                    pos + next.used + synchronize(ts, pos + next.used),
                    so_far,
                    next.errors.push(e),
                )
            },
        }
    }
}

/// A declaration that is read consumes at least one token, so that the rules
/// that repeat declarations never stall.
pub proof fn a_declaration_consumes_a_token(ts: Seq<TokenModel>, pos: int, errors: Seq<LoxError>)
    ensures
        declaration(ts, pos, errors).result is Ok ==> declaration(ts, pos, errors).used >= 1,
{
    reveal(var_declaration);
    match kind_at(ts, pos) {
        TokenType::Class => {
            assert(class_declaration(ts, pos, errors).result is Ok ==> class_declaration(
                ts,
                pos,
                errors,
            ).used >= 1);
        },
        TokenType::Var => {
            assert(var_declaration(ts, pos, errors).result is Ok ==> var_declaration(ts, pos, errors).used
                >= 1);
        },
        TokenType::Fun => {
            assert(fun_declaration(ts, pos, errors).result is Ok ==> fun_declaration(ts, pos, errors).used
                >= 1);
        },
        _ => {
            a_statement_consumes_a_token(ts, pos, errors);
        },
    }
}

/// A statement that is read consumes at least one token.
pub proof fn a_statement_consumes_a_token(ts: Seq<TokenModel>, pos: int, errors: Seq<LoxError>)
    ensures
        statement(ts, pos, errors).result is Ok ==> statement(ts, pos, errors).used >= 1,
{
    reveal(closed_expression);
    reveal(expression_statement);
    reveal(print_statement);
    reveal(return_statement);
    match kind_at(ts, pos) {
        TokenType::Print => {
            assert(print_statement(ts, pos, errors).result is Ok ==> print_statement(ts, pos, errors).used
                >= 1);
        },
        TokenType::LeftBrace => {
            assert(block(ts, pos, errors).result is Ok ==> block(ts, pos, errors).used >= 1);
        },
        TokenType::If => {
            let head = guarded_statement(
                ts,
                pos,
                "expected '(' after if",
                "expected ')' after if condition",
                errors,
            );
            assert(head.result is Ok ==> head.used >= 1);
            assert(if_statement(ts, pos, errors).result is Ok ==> if_statement(ts, pos, errors).used >= 1);
        },
        TokenType::While => {
            let head = guarded_statement(
                ts,
                pos,
                "expected '(' after while",
                "expected ')' after while condition",
                errors,
            );
            assert(head.result is Ok ==> head.used >= 1);
            assert(while_statement(ts, pos, errors).result is Ok ==> while_statement(ts, pos, errors).used
                >= 1);
        },
        TokenType::For => {
            assert(for_statement(ts, pos, errors).result is Ok ==> for_statement(ts, pos, errors).used >= 1);
        },
        TokenType::Return => {
            assert(return_statement(ts, pos, errors).result is Ok ==> return_statement(
                ts,
                pos,
                errors,
            ).used >= 1);
        },
        _ => {
            let inner = closed_expression(
                ts,
                pos,
                TokenType::Semicolon,
                "expected ';' after statement",
                errors,
            );
            assert(inner.result is Ok ==> inner.used >= 1);
            assert(expression_statement(ts, pos, errors).result is Ok ==> expression_statement(
                ts,
                pos,
                errors,
            ).used >= 1);
        },
    }
}

/// A function that is read consumes at least one token, so that the rule
/// that repeats methods never stalls.
pub proof fn a_function_consumes_a_token(
    ts: Seq<TokenModel>,
    pos: int,
    kind: FunctionKind,
    errors: Seq<LoxError>,
)
    ensures
        function(ts, pos, kind, errors).result is Ok ==> function(ts, pos, kind, errors).used >= 1,
{
}

} // verus!
