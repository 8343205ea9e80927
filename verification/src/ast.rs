//! The syntax tree: expressions, statements and programs, each with its
//! mathematical model.

use crate::text::{concat, debug_quote, debug_quoted, decimal, i64_to_string, join};
use crate::token::{Token, TokenType, TokenView};
use vstd::prelude::*;
use vstd::string::*;

verus! {

/// An expression. Every variant but the sentinel carries the token it
/// started from.
#[derive(Debug)]
#[allow(inconsistent_fields)]
pub enum Expression {
    Identifier { token: Token, value: String },
    IntegerLiteral { token: Token, value: i32 },
    BooleanLiteral { token: Token, value: bool },
    Prefix { token: Token, operator: String, right: Box<Expression> },
    Infix { token: Token, left: Box<Expression>, operator: String, right: Box<Expression> },
    IfExpression {
        token: Token,
        condition: Box<Expression>,
        consequence: Box<Statement>,
        alternative: Box<Option<Statement>>,
    },
    FuncExpression { token: Token, parameters: Vec<Expression>, body: Box<Statement> },
    CallExpression { token: Token, func: Box<Expression>, args: Vec<Expression> },
    /// Marks the place of an expression that could not be parsed.
    NoExpression,
}

/// A statement.
#[derive(Debug)]
pub enum Statement {
    LetStatement { token: Token, name: Expression, value: Expression },
    ReturnStatement { token: Token, value: Expression },
    ExpressionStatement { token: Token, expression: Expression },
    BlockStatement { token: Token, statements: Vec<Statement> },
}

/// A program: its top-level statements in source order.
pub struct Program<S> {
    pub statements: Vec<S>,
}

/// The mathematical value of an expression.
#[allow(inconsistent_fields)]
pub enum ExprView {
    Identifier { token: TokenView, value: Seq<char> },
    IntegerLiteral { token: TokenView, value: i32 },
    BooleanLiteral { token: TokenView, value: bool },
    Prefix { token: TokenView, operator: Seq<char>, right: Box<ExprView> },
    Infix { token: TokenView, left: Box<ExprView>, operator: Seq<char>, right: Box<ExprView> },
    IfExpression {
        token: TokenView,
        condition: Box<ExprView>,
        consequence: Box<StmtView>,
        alternative: Option<Box<StmtView>>,
    },
    FuncExpression { token: TokenView, parameters: Seq<ExprView>, body: Box<StmtView> },
    CallExpression { token: TokenView, func: Box<ExprView>, args: Seq<ExprView> },
    NoExpression,
}

/// The mathematical value of a statement.
pub enum StmtView {
    LetStatement { token: TokenView, name: ExprView, value: ExprView },
    ReturnStatement { token: TokenView, value: ExprView },
    ExpressionStatement { token: TokenView, expression: ExprView },
    BlockStatement { token: TokenView, statements: Seq<StmtView> },
}

/// The model of an expression, built from the models of its parts.
pub open spec fn expr_model(e: &Expression) -> ExprView
    decreases e,
{
    match e {
        Expression::Identifier { token, value } => ExprView::Identifier {
            token: token@,
            value: value@,
        },
        Expression::IntegerLiteral { token, value } => ExprView::IntegerLiteral {
            token: token@,
            value: *value,
        },
        Expression::BooleanLiteral { token, value } => ExprView::BooleanLiteral {
            token: token@,
            value: *value,
        },
        Expression::Prefix { token, operator, right } => ExprView::Prefix {
            token: token@,
            operator: operator@,
            right: Box::new(expr_model(right)),
        },
        Expression::Infix { token, left, operator, right } => ExprView::Infix {
            token: token@,
            left: Box::new(expr_model(left)),
            operator: operator@,
            right: Box::new(expr_model(right)),
        },
        Expression::IfExpression { token, condition, consequence, alternative } => {
            ExprView::IfExpression {
                token: token@,
                condition: Box::new(expr_model(condition)),
                consequence: Box::new(stmt_model(consequence)),
                alternative: match &**alternative {
                    Some(s) => Some(Box::new(stmt_model(s))),
                    None => None,
                },
            }
        },
        Expression::FuncExpression { token, parameters, body } => ExprView::FuncExpression {
            token: token@,
            parameters: Seq::new(
                parameters.len() as nat,
                |i: int|
                    if 0 <= i < parameters.len() {
                        expr_model(&parameters[i])
                    } else {
                        ExprView::NoExpression
                    },
            ),
            body: Box::new(stmt_model(body)),
        },
        Expression::CallExpression { token, func, args } => ExprView::CallExpression {
            token: token@,
            func: Box::new(expr_model(func)),
            args: Seq::new(
                args.len() as nat,
                |i: int|
                    if 0 <= i < args.len() {
                        expr_model(&args[i])
                    } else {
                        ExprView::NoExpression
                    },
            ),
        },
        Expression::NoExpression => ExprView::NoExpression,
    }
}

/// The model of a statement, built from the models of its parts.
pub open spec fn stmt_model(s: &Statement) -> StmtView
    decreases s,
{
    match s {
        Statement::LetStatement { token, name, value } => StmtView::LetStatement {
            token: token@,
            name: expr_model(name),
            value: expr_model(value),
        },
        Statement::ReturnStatement { token, value } => StmtView::ReturnStatement {
            token: token@,
            value: expr_model(value),
        },
        Statement::ExpressionStatement { token, expression } => StmtView::ExpressionStatement {
            token: token@,
            expression: expr_model(expression),
        },
        Statement::BlockStatement { token, statements } => StmtView::BlockStatement {
            token: token@,
            statements: Seq::new(
                statements.len() as nat,
                |i: int|
                    if 0 <= i < statements.len() {
                        stmt_model(&statements[i])
                    } else {
                        StmtView::BlockStatement { token: token@, statements: Seq::empty() }
                    },
            ),
        },
    }
}

impl View for Expression {
    type V = ExprView;

    open spec fn view(&self) -> ExprView {
        expr_model(self)
    }
}

impl View for Statement {
    type V = StmtView;

    open spec fn view(&self) -> StmtView {
        stmt_model(self)
    }
}

/// The models of a vector of expressions, in order.
pub open spec fn exprs_model(v: &Vec<Expression>) -> Seq<ExprView> {
    Seq::new(v.len() as nat, |i: int| v[i]@)
}

/// The models of a vector of statements, in order.
pub open spec fn stmts_model(v: &Vec<Statement>) -> Seq<StmtView> {
    Seq::new(v.len() as nat, |i: int| v[i]@)
}

impl<S: View> View for Program<S> {
    type V = Seq<S::V>;

    open spec fn view(&self) -> Seq<S::V> {
        Seq::new(self.statements.len() as nat, |i: int| self.statements[i]@)
    }
}

/// The model of a function literal lists the models of its parameters.
pub proof fn lemma_func_model(e: &Expression)
    requires
        e is FuncExpression,
    ensures
        e@ is FuncExpression,
        e@->FuncExpression_token == e->FuncExpression_token@,
        e@->FuncExpression_parameters == exprs_model(&e->FuncExpression_parameters),
        *e@->FuncExpression_body == e->FuncExpression_body@,
{
    assert(e@->FuncExpression_parameters =~= exprs_model(&e->FuncExpression_parameters));
}

/// The model of a call lists the models of its arguments.
pub proof fn lemma_call_model(e: &Expression)
    requires
        e is CallExpression,
    ensures
        e@ is CallExpression,
        e@->CallExpression_token == e->CallExpression_token@,
        *e@->func == e->func@,
        e@->args == exprs_model(&e->args),
{
    assert(e@->args =~= exprs_model(&e->args));
}

/// The model of a block lists the models of its statements.
pub proof fn lemma_block_model(s: &Statement)
    requires
        s is BlockStatement,
    ensures
        s@ is BlockStatement,
        s@->BlockStatement_token == s->BlockStatement_token@,
        s@->statements == stmts_model(&s->statements),
{
    assert(s@->statements =~= stmts_model(&s->statements));
}

/// A deep copy of an expression.
pub fn clone_expression(e: &Expression) -> (r: Expression)
    ensures
        r@ == e@,
    decreases e,
{
    match e {
        Expression::Identifier { token, value } => Expression::Identifier {
            token: token.clone(),
            value: value.clone(),
        },
        Expression::IntegerLiteral { token, value } => Expression::IntegerLiteral {
            token: token.clone(),
            value: *value,
        },
        Expression::BooleanLiteral { token, value } => Expression::BooleanLiteral {
            token: token.clone(),
            value: *value,
        },
        Expression::Prefix { token, operator, right } => Expression::Prefix {
            token: token.clone(),
            operator: operator.clone(),
            right: Box::new(clone_expression(right)),
        },
        Expression::Infix { token, left, operator, right } => Expression::Infix {
            token: token.clone(),
            left: Box::new(clone_expression(left)),
            operator: operator.clone(),
            right: Box::new(clone_expression(right)),
        },
        Expression::IfExpression { token, condition, consequence, alternative } => {
            let alt: Option<Statement> = match &**alternative {
                Some(s) => Some(clone_statement(s)),
                None => None,
            };
            Expression::IfExpression {
                token: token.clone(),
                condition: Box::new(clone_expression(condition)),
                consequence: Box::new(clone_statement(consequence)),
                alternative: Box::new(alt),
            }
        },
        Expression::FuncExpression { token, parameters, body } => {
            let r = Expression::FuncExpression {
                token: token.clone(),
                parameters: clone_expressions(parameters),
                body: Box::new(clone_statement(body)),
            };
            proof {
                lemma_func_model(e);
                lemma_func_model(&r);
            }
            r
        },
        Expression::CallExpression { token, func, args } => {
            let r = Expression::CallExpression {
                token: token.clone(),
                func: Box::new(clone_expression(func)),
                args: clone_expressions(args),
            };
            proof {
                lemma_call_model(e);
                lemma_call_model(&r);
            }
            r
        },
        Expression::NoExpression => Expression::NoExpression,
    }
}

/// A deep copy of a vector of expressions.
pub fn clone_expressions(v: &Vec<Expression>) -> (r: Vec<Expression>)
    ensures
        exprs_model(&r) == exprs_model(v),
    decreases v,
{
    let mut r: Vec<Expression> = Vec::new();
    let mut i: usize = 0;
    while i < v.len()
        invariant
            i <= v.len(),
            r.len() == i,
            forall|j: int| 0 <= j < i ==> r[j]@ == v[j]@,
        decreases v.len() - i,
    {
        r.push(clone_expression(&v[i]));
        i += 1;
    }
    assert(exprs_model(&r) =~= exprs_model(v));
    r
}

/// A deep copy of a statement.
pub fn clone_statement(s: &Statement) -> (r: Statement)
    ensures
        r@ == s@,
    decreases s,
{
    match s {
        Statement::LetStatement { token, name, value } => Statement::LetStatement {
            token: token.clone(),
            name: clone_expression(name),
            value: clone_expression(value),
        },
        Statement::ReturnStatement { token, value } => Statement::ReturnStatement {
            token: token.clone(),
            value: clone_expression(value),
        },
        Statement::ExpressionStatement { token, expression } => Statement::ExpressionStatement {
            token: token.clone(),
            expression: clone_expression(expression),
        },
        Statement::BlockStatement { token, statements } => {
            let r = Statement::BlockStatement {
                token: token.clone(),
                statements: clone_statements(statements),
            };
            proof {
                lemma_block_model(s);
                lemma_block_model(&r);
            }
            r
        },
    }
}

/// A deep copy of a vector of statements.
pub fn clone_statements(v: &Vec<Statement>) -> (r: Vec<Statement>)
    ensures
        stmts_model(&r) == stmts_model(v),
    decreases v,
{
    let mut r: Vec<Statement> = Vec::new();
    let mut i: usize = 0;
    while i < v.len()
        invariant
            i <= v.len(),
            r.len() == i,
            forall|j: int| 0 <= j < i ==> r[j]@ == v[j]@,
        decreases v.len() - i,
    {
        r.push(clone_statement(&v[i]));
        i += 1;
    }
    assert(stmts_model(&r) =~= stmts_model(v));
    r
}

impl Clone for Expression {
    fn clone(&self) -> (r: Self)
        ensures
            r@ == self@,
    {
        clone_expression(self)
    }
}

impl Clone for Statement {
    fn clone(&self) -> (r: Self)
        ensures
            r@ == self@,
    {
        clone_statement(self)
    }
}

/// The statement that a rule starts from, by the kind of its first token:
/// a `let` without a value, a `return` without a value, an empty block, or
/// an expression statement without an expression.
pub open spec fn new_statement(token_type: TokenType) -> StmtView {
    match token_type {
        TokenType::LET => StmtView::LetStatement {
            token: TokenView { kind: TokenType::LET, literal: "let"@ },
            name: ExprView::Identifier {
                token: TokenView { kind: TokenType::LET, literal: "let"@ },
                value: "let"@,
            },
            value: ExprView::NoExpression,
        },
        TokenType::RETURN => StmtView::ReturnStatement {
            token: TokenView { kind: TokenType::RETURN, literal: "return"@ },
            value: ExprView::NoExpression,
        },
        TokenType::BLOCK => StmtView::BlockStatement {
            token: TokenView { kind: TokenType::BLOCK, literal: "block"@ },
            statements: Seq::empty(),
        },
        _ => StmtView::ExpressionStatement {
            token: TokenView { kind: token_type, literal: "\0"@ },
            expression: ExprView::NoExpression,
        },
    }
}

impl ExprView {
    /// The kind of the token an expression started from; the sentinel has
    /// no token and counts as illegal.
    pub open spec fn token_kind(self) -> TokenType {
        match self {
            ExprView::Identifier { token, .. } => token.kind,
            ExprView::IntegerLiteral { token, .. } => token.kind,
            ExprView::BooleanLiteral { token, .. } => token.kind,
            ExprView::Prefix { token, .. } => token.kind,
            ExprView::Infix { token, .. } => token.kind,
            ExprView::IfExpression { token, .. } => token.kind,
            ExprView::FuncExpression { token, .. } => token.kind,
            ExprView::CallExpression { token, .. } => token.kind,
            ExprView::NoExpression => TokenType::ILLEGAL,
        }
    }

    /// The literal text of the token an expression started from; a single
    /// NUL for the sentinel.
    pub open spec fn token_text(self) -> Seq<char> {
        match self {
            ExprView::Identifier { token, .. } => token.literal,
            ExprView::IntegerLiteral { token, .. } => token.literal,
            ExprView::BooleanLiteral { token, .. } => token.literal,
            ExprView::Prefix { token, .. } => token.literal,
            ExprView::Infix { token, .. } => token.literal,
            ExprView::IfExpression { token, .. } => token.literal,
            ExprView::FuncExpression { token, .. } => token.literal,
            ExprView::CallExpression { token, .. } => token.literal,
            ExprView::NoExpression => "\0"@,
        }
    }
}

impl StmtView {
    /// The literal text of a `let` or `return` keyword token; a single NUL
    /// for the other statements.
    pub open spec fn token_text(self) -> Seq<char> {
        match self {
            StmtView::LetStatement { token, .. } => token.literal,
            StmtView::ReturnStatement { token, .. } => token.literal,
            _ => "\0"@,
        }
    }

    /// A `let` with its name replaced; any other statement unchanged.
    pub open spec fn with_let_name(self, ident: ExprView) -> StmtView {
        match self {
            StmtView::LetStatement { token, name, value } => StmtView::LetStatement {
                token,
                name: ident,
                value,
            },
            _ => self,
        }
    }

    /// A `let` or `return` with its value replaced; any other statement
    /// unchanged.
    pub open spec fn with_value(self, expr: ExprView) -> StmtView {
        match self {
            StmtView::LetStatement { token, name, value } => StmtView::LetStatement {
                token,
                name,
                value: expr,
            },
            StmtView::ReturnStatement { token, value } => StmtView::ReturnStatement {
                token,
                value: expr,
            },
            _ => self,
        }
    }

    /// An expression statement with its expression replaced and its token
    /// kind set to that of the expression; any other statement unchanged.
    pub open spec fn with_expression(self, expr: ExprView) -> StmtView {
        match self {
            StmtView::ExpressionStatement { token, expression } => StmtView::ExpressionStatement {
                token: TokenView { kind: expr.token_kind(), literal: token.literal },
                expression: expr,
            },
            _ => self,
        }
    }

    /// An expression statement with its token text set to that of its
    /// expression; any other statement unchanged.
    pub open spec fn with_expression_literal(self) -> StmtView {
        match self {
            StmtView::ExpressionStatement { token, expression } => StmtView::ExpressionStatement {
                token: TokenView { kind: token.kind, literal: expression.token_text() },
                expression,
            },
            _ => self,
        }
    }

    /// A block with its token replaced; any other statement unchanged.
    pub open spec fn with_block_token(self, blk_token: TokenView) -> StmtView {
        match self {
            StmtView::BlockStatement { token, statements } => StmtView::BlockStatement {
                token: blk_token,
                statements,
            },
            _ => self,
        }
    }

    /// A block with one more statement at its end; any other statement
    /// unchanged.
    pub open spec fn with_block_stmt(self, stmt: StmtView) -> StmtView {
        match self {
            StmtView::BlockStatement { token, statements } => StmtView::BlockStatement {
                token,
                statements: statements.push(stmt),
            },
            _ => self,
        }
    }
}

impl Expression {
    /// The kind of the token the expression started from.
    pub fn get_token(&self) -> (kind: TokenType)
        ensures
            kind == self@.token_kind(),
    {
        match self {
            Expression::Identifier { token, .. } => token.token_type,
            Expression::IntegerLiteral { token, .. } => token.token_type,
            Expression::BooleanLiteral { token, .. } => token.token_type,
            Expression::Prefix { token, .. } => token.token_type,
            Expression::Infix { token, .. } => token.token_type,
            Expression::IfExpression { token, .. } => token.token_type,
            Expression::FuncExpression { token, .. } => token.token_type,
            Expression::CallExpression { token, .. } => token.token_type,
            Expression::NoExpression => TokenType::ILLEGAL,
        }
    }
}

impl Statement {
    /// The statement that a rule starts from, by the kind of its first token.
    pub fn new(token_type: TokenType) -> (stmt: Statement)
        ensures
            stmt@ == new_statement(token_type),
    {
        match token_type {
            TokenType::LET => {
                let stmt = Statement::LetStatement {
                    token: Token { token_type: TokenType::LET, literal: String::from_str("let") },
                    name: Expression::Identifier {
                        token: Token {
                            token_type: TokenType::LET,
                            literal: String::from_str("let"),
                        },
                        value: String::from_str("let"),
                    },
                    value: Expression::NoExpression,
                };
                assert(stmt@ == new_statement(token_type)) by {
                    reveal_with_fuel(stmt_model, 2);
                    reveal_with_fuel(expr_model, 2);
                }
                stmt
            },
            TokenType::RETURN => {
                let stmt = Statement::ReturnStatement {
                    token: Token {
                        token_type: TokenType::RETURN,
                        literal: String::from_str("return"),
                    },
                    value: Expression::NoExpression,
                };
                assert(stmt@ == new_statement(token_type)) by {
                    reveal_with_fuel(stmt_model, 2);
                    reveal_with_fuel(expr_model, 2);
                }
                stmt
            },
            TokenType::BLOCK => {
                let stmt = Statement::BlockStatement {
                    token: Token {
                        token_type: TokenType::BLOCK,
                        literal: String::from_str("block"),
                    },
                    statements: Vec::new(),
                };
                proof {
                    lemma_block_model(&stmt);
                    assert(stmts_model(&stmt->statements) =~= Seq::empty());
                    assert(stmt@ == new_statement(token_type));
                }
                stmt
            },
            token_type => {
                let stmt = Statement::ExpressionStatement {
                    token: Token { token_type, literal: String::from_str("\0") },
                    expression: Expression::NoExpression,
                };
                assert(stmt@ == new_statement(token_type)) by {
                    reveal_with_fuel(stmt_model, 2);
                    reveal_with_fuel(expr_model, 2);
                }
                stmt
            },
        }
    }

    /// Sets the name of a `let`; does nothing to any other statement.
    pub fn set_let_name(&mut self, ident: Expression)
        ensures
            final(self)@ == old(self)@.with_let_name(ident@),
    {
        match self {
            Statement::LetStatement { name, .. } => *name = ident,
            _ => (),
        }
    }

    /// Sets the value of a `let` or `return`; does nothing to any other
    /// statement.
    pub fn set_value(&mut self, expr_value: Expression)
        ensures
            final(self)@ == old(self)@.with_value(expr_value@),
    {
        match self {
            Statement::LetStatement { value, .. } => *value = expr_value,
            Statement::ReturnStatement { value, .. } => *value = expr_value,
            _ => (),
        }
    }

    /// Sets the expression of an expression statement, and its token kind
    /// to that of the expression; does nothing to any other statement.
    pub fn set_expression(&mut self, expr: Expression)
        ensures
            final(self)@ == old(self)@.with_expression(expr@),
    {
        match self {
            Statement::ExpressionStatement { token, expression } => {
                token.token_type = expr.get_token();
                *expression = expr
            },
            _ => (),
        }
    }

    /// Sets the token text of an expression statement to that of its
    /// expression; does nothing to any other statement.
    pub fn set_expression_literal(&mut self)
        ensures
            final(self)@ == old(self)@.with_expression_literal(),
    {
        match self {
            Statement::ExpressionStatement { token, expression } => {
                token.literal = expression_token_literal(expression).to_owned()
            },
            _ => (),
        }
    }

    /// Sets the token of a block; does nothing to any other statement.
    pub fn set_block_token(&mut self, blk_token: Token)
        ensures
            final(self)@ == old(self)@.with_block_token(blk_token@),
    {
        let ghost before = *self;
        match self {
            Statement::BlockStatement { token, .. } => *token = blk_token,
            _ => (),
        }
        proof {
            if before is BlockStatement {
                lemma_block_model(&before);
                lemma_block_model(self);
            }
        }
    }

    /// Appends a statement to a block; does nothing to any other statement.
    pub fn add_block_stmt(&mut self, stmt: Statement)
        ensures
            final(self)@ == old(self)@.with_block_stmt(stmt@),
    {
        let ghost before = *self;
        match self {
            Statement::BlockStatement { statements, .. } => statements.push(stmt),
            _ => (),
        }
        proof {
            if before is BlockStatement {
                lemma_block_model(&before);
                lemma_block_model(self);
                assert(stmts_model(&self->statements) =~= stmts_model(&before->statements).push(
                    stmt@,
                ));
            }
        }
    }
}

/// The literal text of the token an expression started from.
pub fn expression_token_literal(e: &Expression) -> (r: &str)
    ensures
        r@ == e@.token_text(),
{
    match e {
        Expression::Identifier { token, .. } => token.literal.as_str(),
        Expression::IntegerLiteral { token, .. } => token.literal.as_str(),
        Expression::BooleanLiteral { token, .. } => token.literal.as_str(),
        Expression::Prefix { token, .. } => token.literal.as_str(),
        Expression::Infix { token, .. } => token.literal.as_str(),
        Expression::IfExpression { token, .. } => token.literal.as_str(),
        Expression::FuncExpression { token, .. } => token.literal.as_str(),
        Expression::CallExpression { token, .. } => token.literal.as_str(),
        Expression::NoExpression => "\0",
    }
}

/// Whether an expression is whole: the sentinel stands nowhere in it.
pub open spec fn expr_complete(e: ExprView) -> bool
    decreases e,
{
    match e {
        ExprView::Identifier { .. } => true,
        ExprView::IntegerLiteral { .. } => true,
        ExprView::BooleanLiteral { .. } => true,
        ExprView::Prefix { right, .. } => expr_complete(*right),
        ExprView::Infix { left, right, .. } => expr_complete(*left) && expr_complete(*right),
        ExprView::IfExpression { condition, consequence, alternative, .. } => {
            &&& expr_complete(*condition)
            &&& stmt_complete(*consequence)
            &&& match alternative {
                Some(alt) => stmt_complete(*alt),
                None => true,
            }
        },
        ExprView::FuncExpression { parameters, body, .. } => {
            &&& exprs_complete(parameters)
            &&& stmt_complete(*body)
        },
        ExprView::CallExpression { func, args, .. } => {
            &&& expr_complete(*func)
            &&& exprs_complete(args)
        },
        ExprView::NoExpression => false,
    }
}

/// Whether all expressions of a sequence are whole.
pub open spec fn exprs_complete(v: Seq<ExprView>) -> bool
    decreases v,
{
    forall|i: int| 0 <= i < v.len() ==> expr_complete(#[trigger] v[i])
}

/// Whether a statement is whole: the sentinel stands nowhere in it.
pub open spec fn stmt_complete(s: StmtView) -> bool
    decreases s,
{
    match s {
        StmtView::LetStatement { name, value, .. } => expr_complete(name) && expr_complete(value),
        StmtView::ReturnStatement { value, .. } => expr_complete(value),
        StmtView::ExpressionStatement { expression, .. } => expr_complete(expression),
        StmtView::BlockStatement { statements, .. } => stmts_complete(statements),
    }
}

/// Whether all statements of a sequence are whole.
pub open spec fn stmts_complete(v: Seq<StmtView>) -> bool
    decreases v,
{
    forall|i: int| 0 <= i < v.len() ==> stmt_complete(#[trigger] v[i])
}

/// The fully parenthesised text of an expression.
pub open spec fn render_expr(e: ExprView) -> Seq<char>
    decreases e,
{
    match e {
        ExprView::Identifier { value, .. } => value,
        ExprView::IntegerLiteral { value, .. } => decimal(value as int),
        ExprView::BooleanLiteral { value, .. } => if value {
            "true"@
        } else {
            "false"@
        },
        ExprView::Prefix { operator, right, .. } => "("@ + operator + render_expr(*right) + ")"@,
        ExprView::Infix { left, operator, right, .. } => "("@ + render_expr(*left) + " "@
            + operator + " "@ + render_expr(*right) + ")"@,
        ExprView::IfExpression { condition, consequence, alternative, .. } => "if "@
            + render_expr(*condition) + " "@ + render_stmt(*consequence) + (match alternative {
            Some(alt) => " else "@ + render_stmt(*alt),
            None => Seq::empty(),
        }),
        ExprView::FuncExpression { parameters, body, .. } => "fn("@ + join(
            rendered_exprs(parameters),
            ", "@,
        ) + ") "@ + render_stmt(*body),
        ExprView::CallExpression { func, args, .. } => render_expr(*func) + "("@ + join(
            rendered_exprs(args),
            ", "@,
        ) + ")"@,
        ExprView::NoExpression => "\0"@,
    }
}

/// The text of a statement.
pub open spec fn render_stmt(s: StmtView) -> Seq<char>
    decreases s,
{
    match s {
        StmtView::LetStatement { token, name, value } => token.literal + " "@ + name.token_text()
            + " = "@ + render_expr(value) + ";"@,
        StmtView::ReturnStatement { token, value } => return_text(
            token.literal,
            debug_quoted(render_expr(value)),
        ),
        StmtView::ExpressionStatement { expression, .. } => render_expr(expression),
        StmtView::BlockStatement { statements, .. } => "{ "@ + concat(rendered_stmts(statements))
            + " }"@,
    }
}

/// The text of a `return`: the keyword, a space, the quoted text of the
/// value, and a semicolon.
pub open spec fn return_text(keyword: Seq<char>, quoted: Seq<char>) -> Seq<char> {
    keyword + " "@ + quoted + ";"@
}

/// The texts of a sequence of expressions, in order.
pub open spec fn rendered_exprs(v: Seq<ExprView>) -> Seq<Seq<char>>
    decreases v,
{
    Seq::new(
        v.len(),
        |i: int|
            if 0 <= i < v.len() {
                render_expr(v[i])
            } else {
                Seq::empty()
            },
    )
}

/// The texts of a sequence of statements, in order.
pub open spec fn rendered_stmts(v: Seq<StmtView>) -> Seq<Seq<char>>
    decreases v,
{
    Seq::new(
        v.len(),
        |i: int|
            if 0 <= i < v.len() {
                render_stmt(v[i])
            } else {
                Seq::empty()
            },
    )
}

/// The texts of a sequence of expressions are as many as the expressions,
/// each the text of its expression.
pub proof fn lemma_rendered_exprs(v: Seq<ExprView>)
    ensures
        rendered_exprs(v).len() == v.len(),
        forall|i: int| 0 <= i < v.len() ==> #[trigger] rendered_exprs(v)[i] == render_expr(v[i]),
{
}

/// The texts of a sequence of statements are as many as the statements,
/// each the text of its statement.
pub proof fn lemma_rendered_stmts(v: Seq<StmtView>)
    ensures
        rendered_stmts(v).len() == v.len(),
        forall|i: int| 0 <= i < v.len() ==> #[trigger] rendered_stmts(v)[i] == render_stmt(v[i]),
{
}

/// Renders the text of a `return` from its keyword and the quoted text of
/// its value.
pub fn render_return(keyword: &str, quoted: &str) -> (r: String)
    ensures
        r@ == return_text(keyword@, quoted@),
{
    let mut out = String::from_str(keyword);
    out.append(" ");
    out.append(quoted);
    out.append(";");
    out
}

/// Renders an expression as fully parenthesised text.
pub fn render_expression(e: &Expression) -> (r: String)
    ensures
        r@ == render_expr(e@),
    decreases e,
{
    match e {
        Expression::Identifier { value, .. } => value.clone(),
        Expression::IntegerLiteral { value, .. } => i64_to_string(*value as i64),
        Expression::BooleanLiteral { value, .. } => if *value {
            String::from_str("true")
        } else {
            String::from_str("false")
        },
        Expression::Prefix { operator, right, .. } => {
            let inner = render_expression(right);
            let mut out = String::from_str("(");
            out.append(operator.as_str());
            out.append(inner.as_str());
            out.append(")");
            out
        },
        Expression::Infix { left, operator, right, .. } => {
            let l = render_expression(left);
            let r = render_expression(right);
            let mut out = String::from_str("(");
            out.append(l.as_str());
            out.append(" ");
            out.append(operator.as_str());
            out.append(" ");
            out.append(r.as_str());
            out.append(")");
            out
        },
        Expression::IfExpression { condition, consequence, alternative, .. } => {
            let c = render_expression(condition);
            let body = render_statement(consequence);
            let mut out = String::from_str("if ");
            out.append(c.as_str());
            out.append(" ");
            out.append(body.as_str());
            match &**alternative {
                Some(alt) => {
                    let a = render_statement(alt);
                    let ghost before = out@;
                    out.append(" else ");
                    out.append(a.as_str());
                    assert(out@ =~= before + (" else "@ + a@));
                },
                None => {
                    assert(out@ =~= out@ + Seq::<char>::empty());
                },
            }
            out
        },
        Expression::FuncExpression { parameters, body, .. } => {
            let list = render_expression_list(parameters);
            let b = render_statement(body);
            let mut out = String::from_str("fn(");
            out.append(list.as_str());
            out.append(") ");
            out.append(b.as_str());
            proof {
                lemma_func_model(e);
            }
            out
        },
        Expression::CallExpression { func, args, .. } => {
            let mut out = render_expression(func);
            let list = render_expression_list(args);
            out.append("(");
            out.append(list.as_str());
            out.append(")");
            proof {
                lemma_call_model(e);
            }
            out
        },
        Expression::NoExpression => String::from_str("\0"),
    }
}

/// Renders expressions one after another, separated by a comma and a space.
pub fn render_expression_list(v: &Vec<Expression>) -> (r: String)
    ensures
        r@ == join(rendered_exprs(exprs_model(v)), ", "@),
    decreases v,
{
    let ghost parts = rendered_exprs(exprs_model(v));
    proof {
        lemma_rendered_exprs(exprs_model(v));
    }
    let mut out = String::new();
    let mut i: usize = 0;
    while i < v.len()
        invariant
            i <= v.len(),
            parts == rendered_exprs(exprs_model(v)),
            parts.len() == v.len(),
            forall|k: int| 0 <= k < v.len() ==> #[trigger] parts[k] == render_expr(v[k]@),
            out@ == join(parts.take(i as int), ", "@),
        decreases v.len() - i,
    {
        let piece = render_expression(&v[i]);
        if i != 0 {
            out.append(", ");
        }
        out.append(piece.as_str());
        proof {
            assert(parts.take(i + 1).drop_last() =~= parts.take(i as int));
            assert(parts.take(i + 1).last() == piece@);
            if i == 0 {
                assert(out@ =~= piece@);
            }
        }
        i += 1;
    }
    assert(parts.take(v.len() as int) =~= parts);
    out
}

/// Renders a statement as text.
pub fn render_statement(s: &Statement) -> (r: String)
    ensures
        r@ == render_stmt(s@),
    decreases s,
{
    match s {
        Statement::LetStatement { token, name, value } => {
            let v = render_expression(value);
            let mut out = token.literal.clone();
            out.append(" ");
            out.append(expression_token_literal(name));
            out.append(" = ");
            out.append(v.as_str());
            out.append(";");
            out
        },
        Statement::ReturnStatement { token, value } => {
            let v = render_expression(value);
            let quoted = debug_quote(v.as_str());
            render_return(token.literal.as_str(), quoted.as_str())
        },
        Statement::ExpressionStatement { expression, .. } => render_expression(expression),
        Statement::BlockStatement { statements, .. } => {
            let inner = render_statement_list(statements);
            let mut out = String::from_str("{ ");
            out.append(inner.as_str());
            out.append(" }");
            proof {
                lemma_block_model(s);
            }
            out
        },
    }
}

/// Renders statements one after another.
pub fn render_statement_list(v: &Vec<Statement>) -> (r: String)
    ensures
        r@ == concat(rendered_stmts(stmts_model(v))),
    decreases v,
{
    let ghost parts = rendered_stmts(stmts_model(v));
    proof {
        lemma_rendered_stmts(stmts_model(v));
    }
    let mut out = String::new();
    let mut i: usize = 0;
    while i < v.len()
        invariant
            i <= v.len(),
            parts == rendered_stmts(stmts_model(v)),
            parts.len() == v.len(),
            forall|k: int| 0 <= k < v.len() ==> #[trigger] parts[k] == render_stmt(v[k]@),
            out@ == concat(parts.take(i as int)),
        decreases v.len() - i,
    {
        let piece = render_statement(&v[i]);
        out.append(piece.as_str());
        proof {
            assert(parts.take(i + 1).drop_last() =~= parts.take(i as int));
            assert(parts.take(i + 1).last() == piece@);
        }
        i += 1;
    }
    assert(parts.take(v.len() as int) =~= parts);
    out
}

/// What every node of the syntax tree offers: the literal text of its
/// token, and its own text.
pub trait Node {
    /// The literal text of the node's token.
    spec fn token_literal_spec(&self) -> Seq<char>;

    /// The text of the node.
    spec fn to_string_spec(&self) -> Seq<char>;

    /// The literal text of the node's token.
    fn token_literal(&self) -> (r: &str)
        ensures
            r@ == self.token_literal_spec(),
    ;

    /// The text of the node.
    fn to_string(&self) -> (r: String)
        ensures
            r@ == self.to_string_spec(),
    ;
}

impl Node for Expression {
    open spec fn token_literal_spec(&self) -> Seq<char> {
        self@.token_text()
    }

    open spec fn to_string_spec(&self) -> Seq<char> {
        render_expr(self@)
    }

    fn token_literal(&self) -> (r: &str) {
        expression_token_literal(self)
    }

    fn to_string(&self) -> (r: String) {
        render_expression(self)
    }
}

impl Node for Statement {
    open spec fn token_literal_spec(&self) -> Seq<char> {
        self@.token_text()
    }

    open spec fn to_string_spec(&self) -> Seq<char> {
        render_stmt(self@)
    }

    fn token_literal(&self) -> (r: &str) {
        match self {
            Statement::LetStatement { token, .. } => token.literal.as_str(),
            Statement::ReturnStatement { token, .. } => token.literal.as_str(),
            _ => "\0",
        }
    }

    fn to_string(&self) -> (r: String) {
        render_statement(self)
    }
}

} // verus!
