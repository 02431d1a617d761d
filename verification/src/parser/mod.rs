//! The syntax tree and the entry point of the parser.
//!
//! Every tree type has a mathematical view ([`ExpressionView`],
//! [`StatementView`]); the grammar, the emission rules and the evaluation
//! rules are all stated over these views.

use crate::tokenizer::{TokenInfo, TokenView};
use vstd::prelude::*;

pub mod grammar;
pub mod parser;
pub mod visitor;

verus! {

// ---------------------------------------------------------------------------
// Errors
// ---------------------------------------------------------------------------

/// Why parsing stopped. Every error holds the token at which it stopped; some
/// also hold the lexemes of the last three tokens before it, separated by
/// blanks.
#[derive(Debug)]
pub enum ParseError {
    /// A token that fits nowhere; with the lexemes before it.
    UnexpectedToken(TokenInfo, String),
    /// A `for` without its variable or its `in`; with what was expected.
    InvalidFor(TokenInfo, String),
    /// A `let` without its name or its `=`; with the lexemes before it.
    InvalidAssignment(TokenInfo, String),
    /// A block that the tokens end in.
    MissingClosingBrace(TokenInfo),
    /// A parenthesis, an argument list or a parameter list that is not closed.
    MissingClosingParen(TokenInfo),
    /// A construct that must be a block and is none.
    ExpectedOpeningBrace(TokenInfo),
    /// A call into `std` without its argument list.
    ExpectedOpeningParen(TokenInfo),
    /// A `:` or a `<` without the name of a type; with the lexemes before it.
    MissingType(TokenInfo, String),
}

/// The mathematical content of a parse error.
pub enum ParseErrorView {
    UnexpectedToken(TokenView, Seq<char>),
    InvalidFor(TokenView, Seq<char>),
    InvalidAssignment(TokenView, Seq<char>),
    MissingClosingBrace(TokenView),
    MissingClosingParen(TokenView),
    ExpectedOpeningBrace(TokenView),
    ExpectedOpeningParen(TokenView),
    MissingType(TokenView, Seq<char>),
}

impl View for ParseError {
    type V = ParseErrorView;

    open spec fn view(&self) -> ParseErrorView {
        match self {
            ParseError::UnexpectedToken(t, c) => ParseErrorView::UnexpectedToken(t@, c@),
            ParseError::InvalidFor(t, c) => ParseErrorView::InvalidFor(t@, c@),
            ParseError::InvalidAssignment(t, c) => ParseErrorView::InvalidAssignment(t@, c@),
            ParseError::MissingClosingBrace(t) => ParseErrorView::MissingClosingBrace(t@),
            ParseError::MissingClosingParen(t) => ParseErrorView::MissingClosingParen(t@),
            ParseError::ExpectedOpeningBrace(t) => ParseErrorView::ExpectedOpeningBrace(t@),
            ParseError::ExpectedOpeningParen(t) => ParseErrorView::ExpectedOpeningParen(t@),
            ParseError::MissingType(t, c) => ParseErrorView::MissingType(t@, c@),
        }
    }
}

/// The token at which parsing stopped.
pub open spec fn error_token(error: ParseErrorView) -> TokenView {
    match error {
        ParseErrorView::UnexpectedToken(t, _) => t,
        ParseErrorView::InvalidFor(t, _) => t,
        ParseErrorView::InvalidAssignment(t, _) => t,
        ParseErrorView::MissingClosingBrace(t) => t,
        ParseErrorView::MissingClosingParen(t) => t,
        ParseErrorView::ExpectedOpeningBrace(t) => t,
        ParseErrorView::ExpectedOpeningParen(t) => t,
        ParseErrorView::MissingType(t, _) => t,
    }
}

/// What went wrong, without the place.
pub open spec fn error_reason(error: ParseErrorView) -> Seq<char> {
    match error {
        ParseErrorView::UnexpectedToken(t, context) => "unexpected token '"@ + t.lexeme
            + "' after "@ + context,
        ParseErrorView::InvalidFor(t, detail) => "invalid for at '"@ + t.lexeme + "': "@ + detail,
        ParseErrorView::InvalidAssignment(t, context) => "invalid assignment at '"@ + t.lexeme
            + "' after "@ + context,
        ParseErrorView::MissingClosingBrace(t) => "missing closing '}' at '"@ + t.lexeme + "'"@,
        ParseErrorView::MissingClosingParen(t) => "missing closing ')' at '"@ + t.lexeme + "'"@,
        ParseErrorView::ExpectedOpeningBrace(t) => "expected opening '{' at '"@ + t.lexeme + "'"@,
        ParseErrorView::ExpectedOpeningParen(t) => "expected opening '(' at '"@ + t.lexeme + "'"@,
        ParseErrorView::MissingType(t, context) => "missing type at '"@ + t.lexeme + "' after "@
            + context,
    }
}

/// The line that reports a parse error.
pub open spec fn error_message(error: ParseErrorView) -> Seq<char> {
    "Syntax error: "@ + error_reason(error) + " on line "@ + crate::text::decimal(
        error_token(error).start_position.row as int,
    )
}

impl ParseError {
    /// The token at which parsing stopped.
    pub fn token(&self) -> (token: &TokenInfo)
        ensures
            token@ == error_token(self@),
    {
        match self {
            ParseError::UnexpectedToken(t, _) => t,
            ParseError::InvalidFor(t, _) => t,
            ParseError::InvalidAssignment(t, _) => t,
            ParseError::MissingClosingBrace(t) => t,
            ParseError::MissingClosingParen(t) => t,
            ParseError::ExpectedOpeningBrace(t) => t,
            ParseError::ExpectedOpeningParen(t) => t,
            ParseError::MissingType(t, _) => t,
        }
    }

    /// What went wrong, without the place.
    fn reason(&self) -> (text: String)
        ensures
            text@ == error_reason(self@),
    {
        let mut text = String::new();
        match self {
            ParseError::UnexpectedToken(t, context) => {
                text.append("unexpected token '");
                text.append(t.lexeme.as_str());
                text.append("' after ");
                text.append(context.as_str());
            },
            ParseError::InvalidFor(t, detail) => {
                text.append("invalid for at '");
                text.append(t.lexeme.as_str());
                text.append("': ");
                text.append(detail.as_str());
            },
            ParseError::InvalidAssignment(t, context) => {
                text.append("invalid assignment at '");
                text.append(t.lexeme.as_str());
                text.append("' after ");
                text.append(context.as_str());
            },
            ParseError::MissingClosingBrace(t) => {
                text.append("missing closing '}' at '");
                text.append(t.lexeme.as_str());
                text.append("'");
            },
            ParseError::MissingClosingParen(t) => {
                text.append("missing closing ')' at '");
                text.append(t.lexeme.as_str());
                text.append("'");
            },
            ParseError::ExpectedOpeningBrace(t) => {
                text.append("expected opening '{' at '");
                text.append(t.lexeme.as_str());
                text.append("'");
            },
            ParseError::ExpectedOpeningParen(t) => {
                text.append("expected opening '(' at '");
                text.append(t.lexeme.as_str());
                text.append("'");
            },
            ParseError::MissingType(t, context) => {
                text.append("missing type at '");
                text.append(t.lexeme.as_str());
                text.append("' after ");
                text.append(context.as_str());
            },
        }
        assert(text@ =~= error_reason(self@));
        text
    }

    /// The line that reports the error: what went wrong, at which token and
    /// on which line of the source.
    pub fn to_string(&self) -> (text: String)
        ensures
            text@ == error_message(self@),
    {
        let mut text = String::from_str("Syntax error: ");
        let reason = self.reason();
        text.append(reason.as_str());
        text.append(" on line ");
        crate::text::write_decimal(&mut text, self.token().start_position.row as i64);
        assert(text@ =~= error_message(self@));
        text
    }
}

// ---------------------------------------------------------------------------
// Operators
// ---------------------------------------------------------------------------

#[derive(Debug, Clone, Copy, PartialEq, Eq, Structural)]
pub enum ASTUnaryOperatorKind {
    Subtraction,
    BwNot,
}

#[derive(Debug)]
pub struct ASTUnaryOperator {
    pub kind: ASTUnaryOperatorKind,
    pub token: TokenInfo,
}

impl ASTUnaryOperator {
    pub fn new(kind: ASTUnaryOperatorKind, token: TokenInfo) -> (res: Self)
        ensures
            res.kind == kind,
            res.token == token,
    {
        ASTUnaryOperator { kind, token }
    }
}

#[derive(Debug, Clone, Copy, PartialEq, Eq, Structural)]
pub enum ASTBinaryOperatorKind {
    Addition,
    Subtraction,
    Star,
    Division,
    BwAnd,
    BwOr,
    BwXor,
    Equals,
    Inequal,
    LowerThan,
    GreaterThan,
}

/// How tightly a binary operator binds; a higher number binds tighter.
pub open spec fn precedence_of(kind: ASTBinaryOperatorKind) -> u8 {
    match kind {
        ASTBinaryOperatorKind::Star => 19,
        ASTBinaryOperatorKind::Division => 19,
        ASTBinaryOperatorKind::Addition => 18,
        ASTBinaryOperatorKind::Subtraction => 18,
        ASTBinaryOperatorKind::BwAnd => 17,
        ASTBinaryOperatorKind::BwXor => 16,
        ASTBinaryOperatorKind::BwOr => 15,
        ASTBinaryOperatorKind::Equals => 30,
        ASTBinaryOperatorKind::Inequal => 30,
        ASTBinaryOperatorKind::LowerThan => 29,
        ASTBinaryOperatorKind::GreaterThan => 29,
    }
}

#[derive(Debug)]
pub struct ASTBinaryOperator {
    pub kind: ASTBinaryOperatorKind,
    pub token: TokenInfo,
}

impl ASTBinaryOperator {
    pub fn new(kind: ASTBinaryOperatorKind, token: TokenInfo) -> (res: Self)
        ensures
            res.kind == kind,
            res.token == token,
    {
        ASTBinaryOperator { kind, token }
    }

    pub fn precedence(&self) -> (p: u8)
        ensures
            p == precedence_of(self.kind),
    {
        match self.kind {
            ASTBinaryOperatorKind::Star => 19,
            ASTBinaryOperatorKind::Division => 19,
            ASTBinaryOperatorKind::Addition => 18,
            ASTBinaryOperatorKind::Subtraction => 18,
            ASTBinaryOperatorKind::BwAnd => 17,
            ASTBinaryOperatorKind::BwXor => 16,
            ASTBinaryOperatorKind::BwOr => 15,
            ASTBinaryOperatorKind::Equals => 30,
            ASTBinaryOperatorKind::Inequal => 30,
            ASTBinaryOperatorKind::LowerThan => 29,
            ASTBinaryOperatorKind::GreaterThan => 29,
        }
    }
}

// ---------------------------------------------------------------------------
// Expressions
// ---------------------------------------------------------------------------

#[derive(Debug)]
pub struct ASTNumberExpression {
    pub num: TokenInfo,
}

#[derive(Debug)]
pub struct ASTStringExpression {
    pub token: TokenInfo,
}

#[derive(Debug)]
pub struct ASTBinaryExpression {
    pub left: Box<ASTExpression>,
    pub operator: ASTBinaryOperator,
    pub right: Box<ASTExpression>,
}

#[derive(Debug)]
pub struct ASTUnaryExpression {
    pub operator: ASTUnaryOperator,
    pub operand: Box<ASTExpression>,
}

#[derive(Debug)]
pub struct ASTParenthesizedExpression {
    pub expression: Box<ASTExpression>,
}

#[derive(Debug)]
pub struct ASTVariableExpression {
    pub identifier: TokenInfo,
}

impl ASTVariableExpression {
    pub fn identifier(&self) -> (name: &str)
        ensures
            name@ == self.identifier.lexeme@,
    {
        self.identifier.lexeme.as_str()
    }
}

#[derive(Debug)]
pub struct ASTAssignmentExpression {
    pub identifier: TokenInfo,
    pub expression: Box<ASTExpression>,
}

#[derive(Debug)]
pub struct ASTArrayAssignmentExpression {
    pub identifier: TokenInfo,
    pub index_expression: Box<ASTExpression>,
    pub expression: Box<ASTExpression>,
}

#[derive(Debug)]
pub struct ASTBooleanExpression {
    pub value: bool,
    pub token: TokenInfo,
}

#[derive(Debug)]
pub struct ASTCallExpression {
    pub identifier: TokenInfo,
    pub arguments: Vec<ASTExpression>,
}

#[derive(Debug)]
pub struct ASTStdCallExpression {
    pub std_keyword: TokenInfo,
    pub double_colon: TokenInfo,
    pub identifier: TokenInfo,
    pub arguments: Vec<ASTExpression>,
}

#[derive(Debug)]
pub struct ASTRangeExpression {
    pub start: Box<ASTExpression>,
    pub end: Box<ASTExpression>,
}

#[derive(Debug)]
pub struct ASTArrayExpression {
    pub elements: Vec<ASTExpression>,
}

#[derive(Debug)]
pub struct ASTArrayIndexExpression {
    pub array: Box<ASTExpression>,
    pub index: Box<ASTExpression>,
}

#[derive(Debug)]
pub struct ASTTypeAnnotationExpression {
    pub base: TokenInfo,
    pub generics: Vec<TokenInfo>,
}

#[derive(Debug)]
pub enum ASTExpressionKind {
    Number(ASTNumberExpression),
    String(ASTStringExpression),
    Binary(ASTBinaryExpression),
    Unary(ASTUnaryExpression),
    Parenthesized(ASTParenthesizedExpression),
    Variable(ASTVariableExpression),
    Assignment(ASTAssignmentExpression),
    ArrayAssignment(ASTArrayAssignmentExpression),
    Boolean(ASTBooleanExpression),
    Call(ASTCallExpression),
    StdCall(ASTStdCallExpression),
    Range(ASTRangeExpression),
    Array(ASTArrayExpression),
    ArrayIndex(ASTArrayIndexExpression),
    TypeAnnotation(ASTTypeAnnotationExpression),
}

#[derive(Debug)]
pub struct ASTExpression {
    pub kind: ASTExpressionKind,
}

/// The mathematical content of an expression.
#[allow(inconsistent_fields)]
pub enum ExpressionView {
    Number { token: TokenView },
    String { token: TokenView },
    Binary {
        kind: ASTBinaryOperatorKind,
        token: TokenView,
        left: Box<ExpressionView>,
        right: Box<ExpressionView>,
    },
    Unary { kind: ASTUnaryOperatorKind, token: TokenView, operand: Box<ExpressionView> },
    Parenthesized { expression: Box<ExpressionView> },
    Variable { identifier: TokenView },
    Assignment { identifier: TokenView, expression: Box<ExpressionView> },
    ArrayAssignment {
        identifier: TokenView,
        index_expression: Box<ExpressionView>,
        expression: Box<ExpressionView>,
    },
    Boolean { value: bool, token: TokenView },
    Call { identifier: TokenView, arguments: Seq<ExpressionView> },
    StdCall {
        std_keyword: TokenView,
        double_colon: TokenView,
        identifier: TokenView,
        arguments: Seq<ExpressionView>,
    },
    Range { start: Box<ExpressionView>, end: Box<ExpressionView> },
    Array { elements: Seq<ExpressionView> },
    ArrayIndex { array: Box<ExpressionView>, index: Box<ExpressionView> },
    TypeAnnotation { base: TokenView, generics: Seq<TokenView> },
}

/// The views of a list of expressions, in order.
pub open spec fn expression_views(list: Seq<ASTExpression>) -> Seq<ExpressionView>
    decreases list,
{
    Seq::new(
        list.len(),
        |i: int|
            if 0 <= i < list.len() {
                expression_view(list[i])
            } else {
                arbitrary()
            },
    )
}

impl View for ASTExpression {
    type V = ExpressionView;

    open spec fn view(&self) -> ExpressionView {
        expression_view(*self)
    }
}

/// The view of an expression: the same tree over token views and sequences.
pub open spec fn expression_view(expression: ASTExpression) -> ExpressionView
    decreases expression,
{
    {
        match expression.kind {
            ASTExpressionKind::Number(e) => ExpressionView::Number { token: e.num@ },
            ASTExpressionKind::String(e) => ExpressionView::String { token: e.token@ },
            ASTExpressionKind::Binary(e) => ExpressionView::Binary {
                kind: e.operator.kind,
                token: e.operator.token@,
                left: Box::new(expression_view(*e.left)),
                right: Box::new(expression_view(*e.right)),
            },
            ASTExpressionKind::Unary(e) => ExpressionView::Unary {
                kind: e.operator.kind,
                token: e.operator.token@,
                operand: Box::new(expression_view(*e.operand)),
            },
            ASTExpressionKind::Parenthesized(e) => ExpressionView::Parenthesized {
                expression: Box::new(expression_view(*e.expression)),
            },
            ASTExpressionKind::Variable(e) => ExpressionView::Variable {
                identifier: e.identifier@,
            },
            ASTExpressionKind::Assignment(e) => ExpressionView::Assignment {
                identifier: e.identifier@,
                expression: Box::new(expression_view(*e.expression)),
            },
            ASTExpressionKind::ArrayAssignment(e) => ExpressionView::ArrayAssignment {
                identifier: e.identifier@,
                index_expression: Box::new(expression_view(*e.index_expression)),
                expression: Box::new(expression_view(*e.expression)),
            },
            ASTExpressionKind::Boolean(e) => ExpressionView::Boolean {
                value: e.value,
                token: e.token@,
            },
            ASTExpressionKind::Call(e) => ExpressionView::Call {
                identifier: e.identifier@,
                arguments: expression_views(e.arguments@),
            },
            ASTExpressionKind::StdCall(e) => ExpressionView::StdCall {
                std_keyword: e.std_keyword@,
                double_colon: e.double_colon@,
                identifier: e.identifier@,
                arguments: expression_views(e.arguments@),
            },
            ASTExpressionKind::Range(e) => ExpressionView::Range {
                start: Box::new(expression_view(*e.start)),
                end: Box::new(expression_view(*e.end)),
            },
            ASTExpressionKind::Array(e) => ExpressionView::Array {
                elements: expression_views(e.elements@),
            },
            ASTExpressionKind::ArrayIndex(e) => ExpressionView::ArrayIndex {
                array: Box::new(expression_view(*e.array)),
                index: Box::new(expression_view(*e.index)),
            },
            ASTExpressionKind::TypeAnnotation(e) => ExpressionView::TypeAnnotation {
                base: e.base@,
                generics: crate::tokenizer::token_views(e.generics@),
            },
        }
    }
}


impl ASTExpression {
    pub fn new(kind: ASTExpressionKind) -> (res: Self)
        ensures
            res.kind == kind,
    {
        ASTExpression { kind }
    }

    pub fn range(start: Box<ASTExpression>, end: Box<ASTExpression>) -> (res: Self)
        ensures
            res@ == (ExpressionView::Range { start: Box::new((*start)@), end: Box::new((*end)@) }),
    {
        Self { kind: ASTExpressionKind::Range(ASTRangeExpression { start, end }) }
    }

    pub fn number(num: TokenInfo) -> (res: Self)
        ensures
            res@ == (ExpressionView::Number { token: num@ }),
    {
        ASTExpression::new(ASTExpressionKind::Number(ASTNumberExpression { num }))
    }

    pub fn binary(operator: ASTBinaryOperator, left: ASTExpression, right: ASTExpression) -> (res:
        Self)
        ensures
            res@ == (ExpressionView::Binary {
                kind: operator.kind,
                token: operator.token@,
                left: Box::new(left@),
                right: Box::new(right@),
            }),
    {
        ASTExpression::new(
            ASTExpressionKind::Binary(
                ASTBinaryExpression { left: Box::new(left), operator, right: Box::new(right) },
            ),
        )
    }

    pub fn parenthesized(expression: ASTExpression) -> (res: Self)
        ensures
            res@ == (ExpressionView::Parenthesized { expression: Box::new(expression@) }),
    {
        ASTExpression::new(
            ASTExpressionKind::Parenthesized(
                ASTParenthesizedExpression { expression: Box::new(expression) },
            ),
        )
    }

    pub fn identifier(identifier: TokenInfo) -> (res: Self)
        ensures
            res@ == (ExpressionView::Variable { identifier: identifier@ }),
    {
        ASTExpression::new(ASTExpressionKind::Variable(ASTVariableExpression { identifier }))
    }

    pub fn unary(operator: ASTUnaryOperator, operand: ASTExpression) -> (res: Self)
        ensures
            res@ == (ExpressionView::Unary {
                kind: operator.kind,
                token: operator.token@,
                operand: Box::new(operand@),
            }),
    {
        ASTExpression::new(
            ASTExpressionKind::Unary(ASTUnaryExpression { operator, operand: Box::new(operand) }),
        )
    }

    pub fn assignment(identifier: TokenInfo, expression: ASTExpression) -> (res: Self)
        ensures
            res@ == (ExpressionView::Assignment {
                identifier: identifier@,
                expression: Box::new(expression@),
            }),
    {
        ASTExpression::new(
            ASTExpressionKind::Assignment(
                ASTAssignmentExpression { identifier, expression: Box::new(expression) },
            ),
        )
    }

    pub fn array_assignment(
        identifier: TokenInfo,
        index_expression: ASTExpression,
        expression: ASTExpression,
    ) -> (res: Self)
        ensures
            res@ == (ExpressionView::ArrayAssignment {
                identifier: identifier@,
                index_expression: Box::new(index_expression@),
                expression: Box::new(expression@),
            }),
    {
        ASTExpression::new(
            ASTExpressionKind::ArrayAssignment(
                ASTArrayAssignmentExpression {
                    identifier,
                    index_expression: Box::new(index_expression),
                    expression: Box::new(expression),
                },
            ),
        )
    }

    pub fn boolean(token: TokenInfo, value: bool) -> (res: Self)
        ensures
            res@ == (ExpressionView::Boolean { value: value, token: token@ }),
    {
        ASTExpression::new(ASTExpressionKind::Boolean(ASTBooleanExpression { token, value }))
    }

    pub fn string(token: TokenInfo) -> (res: Self)
        ensures
            res@ == (ExpressionView::String { token: token@ }),
    {
        ASTExpression::new(ASTExpressionKind::String(ASTStringExpression { token }))
    }

    pub fn call(identifier: TokenInfo, arguments: Vec<ASTExpression>) -> (res: Self)
        ensures
            res@ == (ExpressionView::Call {
                identifier: identifier@,
                arguments: expression_views(arguments@),
            }),
    {
        ASTExpression::new(ASTExpressionKind::Call(ASTCallExpression { identifier, arguments }))
    }

    pub fn std_call(
        std_keyword: TokenInfo,
        double_colon: TokenInfo,
        identifier: TokenInfo,
        arguments: Vec<ASTExpression>,
    ) -> (res: Self)
        ensures
            res@ == (ExpressionView::StdCall {
                std_keyword: std_keyword@,
                double_colon: double_colon@,
                identifier: identifier@,
                arguments: expression_views(arguments@),
            }),
    {
        ASTExpression::new(
            ASTExpressionKind::StdCall(
                ASTStdCallExpression { std_keyword, double_colon, identifier, arguments },
            ),
        )
    }

    pub fn array(elements: Vec<ASTExpression>) -> (res: Self)
        ensures
            res@ == (ExpressionView::Array { elements: expression_views(elements@) }),
    {
        ASTExpression { kind: ASTExpressionKind::Array(ASTArrayExpression { elements }) }
    }

    pub fn array_index(array: Box<ASTExpression>, index: Box<ASTExpression>) -> (res: Self)
        ensures
            res@ == (ExpressionView::ArrayIndex {
                array: Box::new((*array)@),
                index: Box::new((*index)@),
            }),
    {
        ASTExpression { kind: ASTExpressionKind::ArrayIndex(ASTArrayIndexExpression { array, index }) }
    }

    pub fn type_annotation(base: TokenInfo, generics: Vec<TokenInfo>) -> (res: Self)
        ensures
            res@ == (ExpressionView::TypeAnnotation {
                base: base@,
                generics: crate::tokenizer::token_views(generics@),
            }),
    {
        ASTExpression {
            kind: ASTExpressionKind::TypeAnnotation(ASTTypeAnnotationExpression { base, generics }),
        }
    }
}

/// The view of an optional expression.
pub open spec fn optional_view(expression: Option<ASTExpression>) -> Option<ExpressionView> {
    match expression {
        Some(e) => Some(e@),
        None => None,
    }
}

// ---------------------------------------------------------------------------
// Statements
// ---------------------------------------------------------------------------

#[derive(Debug)]
pub struct ASTReturnStatement {
    pub return_keyword: TokenInfo,
    pub return_value: Option<ASTExpression>,
}

#[derive(Debug)]
pub struct FuncDeclParameter {
    pub identifier: TokenInfo,
    pub type_annotation: Option<ASTExpression>,
}

#[derive(Debug)]
pub struct ASTFuncDeclStatement {
    pub identifier: TokenInfo,
    pub parameters: Vec<FuncDeclParameter>,
    pub type_annotation: Option<ASTExpression>,
    pub body: Box<ASTStatement>,
}

#[derive(Debug)]
pub struct ASTWhileStatement {
    pub while_keyword: TokenInfo,
    pub condition: ASTExpression,
    pub body: Box<ASTStatement>,
}

#[derive(Debug)]
pub struct ASTForStatement {
    pub for_keyword: TokenInfo,
    pub identifier: TokenInfo,
    pub type_annotation: Option<ASTExpression>,
    pub iterable: ASTExpression,
    pub body: Box<ASTStatement>,
}

impl ASTForStatement {
    pub fn new(
        for_keyword: TokenInfo,
        identifier: TokenInfo,
        type_annotation: Option<ASTExpression>,
        iterable: ASTExpression,
        body: ASTStatement,
    ) -> (res: Self)
        ensures
            res.for_keyword == for_keyword,
            res.identifier == identifier,
            res.type_annotation == type_annotation,
            res.iterable == iterable,
            *res.body == body,
    {
        ASTForStatement { for_keyword, identifier, type_annotation, iterable, body: Box::new(body) }
    }
}

#[derive(Debug)]
pub struct ASTBlockStatement {
    pub statements: Vec<ASTStatement>,
}

#[derive(Debug)]
pub struct ASTElseStatement {
    pub else_keyword: TokenInfo,
    pub else_statement: Box<ASTStatement>,
}

impl ASTElseStatement {
    pub fn new(else_keyword: TokenInfo, else_statement: ASTStatement) -> (res: Self)
        ensures
            res.else_keyword == else_keyword,
            *res.else_statement == else_statement,
    {
        ASTElseStatement { else_keyword, else_statement: Box::new(else_statement) }
    }
}

#[derive(Debug)]
pub struct ASTIfStatement {
    pub if_keyword: TokenInfo,
    pub condition: ASTExpression,
    pub then_branch: Box<ASTStatement>,
    pub else_branch: Option<ASTElseStatement>,
}

#[derive(Debug)]
pub struct ASTLetStatement {
    pub is_mut: bool,
    pub identifier: TokenInfo,
    pub type_annotation: Option<ASTExpression>,
    pub initializer: ASTExpression,
}

#[derive(Debug)]
pub enum ASTStatementKind {
    Expression(ASTExpression),
    Let(ASTLetStatement),
    If(ASTIfStatement),
    Block(ASTBlockStatement),
    While(ASTWhileStatement),
    FuncDecl(ASTFuncDeclStatement),
    Return(ASTReturnStatement),
    For(ASTForStatement),
}

#[derive(Debug)]
pub struct ASTStatement {
    pub kind: ASTStatementKind,
}

/// The mathematical content of a function parameter.
pub struct ParameterView {
    pub identifier: TokenView,
    pub type_annotation: Option<ExpressionView>,
}

/// The mathematical content of an `else` branch.
pub struct ElseView {
    pub else_keyword: TokenView,
    pub else_statement: Box<StatementView>,
}

/// The mathematical content of a statement.
#[allow(inconsistent_fields)]
pub enum StatementView {
    Expression { expression: ExpressionView },
    Let {
        is_mut: bool,
        identifier: TokenView,
        type_annotation: Option<ExpressionView>,
        initializer: ExpressionView,
    },
    If {
        if_keyword: TokenView,
        condition: ExpressionView,
        then_branch: Box<StatementView>,
        else_branch: Option<ElseView>,
    },
    Block { statements: Seq<StatementView> },
    While { while_keyword: TokenView, condition: ExpressionView, body: Box<StatementView> },
    FuncDecl {
        identifier: TokenView,
        parameters: Seq<ParameterView>,
        type_annotation: Option<ExpressionView>,
        body: Box<StatementView>,
    },
    Return { return_keyword: TokenView, return_value: Option<ExpressionView> },
    For {
        for_keyword: TokenView,
        identifier: TokenView,
        type_annotation: Option<ExpressionView>,
        iterable: ExpressionView,
        body: Box<StatementView>,
    },
}

impl View for FuncDeclParameter {
    type V = ParameterView;

    open spec fn view(&self) -> ParameterView {
        ParameterView {
            identifier: self.identifier@,
            type_annotation: optional_view(self.type_annotation),
        }
    }
}

/// The views of a parameter list, in order.
pub open spec fn parameter_views(list: Seq<FuncDeclParameter>) -> Seq<ParameterView> {
    list.map_values(|p: FuncDeclParameter| p@)
}

/// The views of a list of statements, in order.
pub open spec fn statement_views(list: Seq<ASTStatement>) -> Seq<StatementView>
    decreases list,
{
    Seq::new(
        list.len(),
        |i: int|
            if 0 <= i < list.len() {
                statement_view(list[i])
            } else {
                arbitrary()
            },
    )
}

/// The view of a statement: the same tree over token views and sequences.
pub open spec fn statement_view(statement: ASTStatement) -> StatementView
    decreases statement,
{
    match statement.kind {
        ASTStatementKind::Expression(e) => StatementView::Expression { expression: e@ },
        ASTStatementKind::Let(s) => StatementView::Let {
            is_mut: s.is_mut,
            identifier: s.identifier@,
            type_annotation: optional_view(s.type_annotation),
            initializer: s.initializer@,
        },
        ASTStatementKind::If(s) => StatementView::If {
            if_keyword: s.if_keyword@,
            condition: s.condition@,
            then_branch: Box::new(statement_view(*s.then_branch)),
            else_branch: match s.else_branch {
                Some(other) => Some(
                    ElseView {
                        else_keyword: other.else_keyword@,
                        else_statement: Box::new(statement_view(*other.else_statement)),
                    },
                ),
                None => None,
            },
        },
        ASTStatementKind::Block(s) => StatementView::Block {
            statements: statement_views(s.statements@),
        },
        ASTStatementKind::While(s) => StatementView::While {
            while_keyword: s.while_keyword@,
            condition: s.condition@,
            body: Box::new(statement_view(*s.body)),
        },
        ASTStatementKind::FuncDecl(s) => StatementView::FuncDecl {
            identifier: s.identifier@,
            parameters: parameter_views(s.parameters@),
            type_annotation: optional_view(s.type_annotation),
            body: Box::new(statement_view(*s.body)),
        },
        ASTStatementKind::Return(s) => StatementView::Return {
            return_keyword: s.return_keyword@,
            return_value: optional_view(s.return_value),
        },
        ASTStatementKind::For(s) => StatementView::For {
            for_keyword: s.for_keyword@,
            identifier: s.identifier@,
            type_annotation: optional_view(s.type_annotation),
            iterable: s.iterable@,
            body: Box::new(statement_view(*s.body)),
        },
    }
}

impl View for ASTStatement {
    type V = StatementView;

    open spec fn view(&self) -> StatementView {
        statement_view(*self)
    }
}

impl ASTStatement {
    pub fn new(kind: ASTStatementKind) -> (res: Self)
        ensures
            res.kind == kind,
    {
        ASTStatement { kind }
    }

    pub fn expression(expr: ASTExpression) -> (res: Self)
        ensures
            res@ == (StatementView::Expression { expression: expr@ }),
    {
        ASTStatement::new(ASTStatementKind::Expression(expr))
    }

    pub fn let_statement(
        identifier: TokenInfo,
        type_annotation: Option<ASTExpression>,
        is_mut: bool,
        initializer: ASTExpression,
    ) -> (res: Self)
        ensures
            res@ == (StatementView::Let {
                is_mut: is_mut,
                identifier: identifier@,
                type_annotation: optional_view(type_annotation),
                initializer: initializer@,
            }),
    {
        ASTStatement::new(
            ASTStatementKind::Let(
                ASTLetStatement { identifier, type_annotation, is_mut, initializer },
            ),
        )
    }

    pub fn for_statement(
        for_keyword: TokenInfo,
        identifier: TokenInfo,
        type_annotation: Option<ASTExpression>,
        iterable: ASTExpression,
        body: ASTStatement,
    ) -> (res: Self)
        ensures
            res@ == (StatementView::For {
                for_keyword: for_keyword@,
                identifier: identifier@,
                type_annotation: optional_view(type_annotation),
                iterable: iterable@,
                body: Box::new(body@),
            }),
    {
        ASTStatement::new(
            ASTStatementKind::For(
                ASTForStatement::new(for_keyword, identifier, type_annotation, iterable, body),
            ),
        )
    }

    pub fn if_statement(
        if_keyword: TokenInfo,
        condition: ASTExpression,
        then: ASTStatement,
        else_statement: Option<ASTElseStatement>,
    ) -> (res: Self)
        ensures
            res@ == (StatementView::If {
                if_keyword: if_keyword@,
                condition: condition@,
                then_branch: Box::new(then@),
                else_branch: match else_statement {
                    Some(other) => Some(
                        ElseView {
                            else_keyword: other.else_keyword@,
                            else_statement: Box::new((*other.else_statement)@),
                        },
                    ),
                    None => None,
                },
            }),
    {
        ASTStatement::new(
            ASTStatementKind::If(
                ASTIfStatement {
                    if_keyword,
                    condition,
                    then_branch: Box::new(then),
                    else_branch: else_statement,
                },
            ),
        )
    }

    pub fn block_statement(statements: Vec<ASTStatement>) -> (res: Self)
        ensures
            res@ == (StatementView::Block { statements: statement_views(statements@) }),
    {
        ASTStatement::new(ASTStatementKind::Block(ASTBlockStatement { statements }))
    }

    pub fn while_statement(while_keyword: TokenInfo, condition: ASTExpression, body: ASTStatement) -> (res:
        Self)
        ensures
            res@ == (StatementView::While {
                while_keyword: while_keyword@,
                condition: condition@,
                body: Box::new(body@),
            }),
    {
        ASTStatement::new(
            ASTStatementKind::While(
                ASTWhileStatement { while_keyword, condition, body: Box::new(body) },
            ),
        )
    }

    pub fn return_statement(return_keyword: TokenInfo, return_value: Option<ASTExpression>) -> (res:
        Self)
        ensures
            res@ == (StatementView::Return {
                return_keyword: return_keyword@,
                return_value: optional_view(return_value),
            }),
    {
        ASTStatement::new(
            ASTStatementKind::Return(ASTReturnStatement { return_keyword, return_value }),
        )
    }

    pub fn func_decl_statement(
        identifier: TokenInfo,
        parameters: Vec<FuncDeclParameter>,
        type_annotation: Option<ASTExpression>,
        body: ASTStatement,
    ) -> (res: Self)
        ensures
            res@ == (StatementView::FuncDecl {
                identifier: identifier@,
                parameters: parameter_views(parameters@),
                type_annotation: optional_view(type_annotation),
                body: Box::new(body@),
            }),
    {
        ASTStatement::new(
            ASTStatementKind::FuncDecl(
                ASTFuncDeclStatement { identifier, parameters, type_annotation, body: Box::new(body) },
            ),
        )
    }
}

// ---------------------------------------------------------------------------
// The tree
// ---------------------------------------------------------------------------

/// A program: its top-level statements in source order.
#[derive(Debug)]
pub struct Ast {
    pub statements: Vec<ASTStatement>,
}

impl View for Ast {
    type V = Seq<StatementView>;

    open spec fn view(&self) -> Seq<StatementView> {
        statement_views(self.statements@)
    }
}

impl Ast {
    pub fn new() -> (res: Self)
        ensures
            res@ == Seq::<StatementView>::empty(),
    {
        Self { statements: Vec::new() }
    }

    pub fn add_statement(&mut self, statement: ASTStatement)
        ensures
            final(self)@ == old(self)@.push(statement@),
    {
        self.statements.push(statement);
    }
}

/// Parses a token sequence into a program.
///
/// The result is the program that the grammar reads from the tokens: its
/// top-level statements in order, read up to the final `EOF` record so that
/// no token is left over, or the error of the first token that does not fit.
pub fn parse(tokens: Vec<TokenInfo>) -> (res: Result<Ast, ParseError>)
    requires
        crate::tokenizer::is_token_sequence(crate::tokenizer::token_views(tokens@)),
    ensures
        match res {
            Ok(ast) => grammar::statements(
                crate::tokenizer::token_views(tokens@),
                0,
                Seq::empty(),
            ) == Ok::<(Seq<StatementView>, int), ParseErrorView>((ast@, tokens@.len() - 1)),
            Err(error) => grammar::statements(
                crate::tokenizer::token_views(tokens@),
                0,
                Seq::empty(),
            ) == Err::<(Seq<StatementView>, int), ParseErrorView>(error@),
        },
        match res {
            Ok(ast) => grammar::program(crate::tokenizer::token_views(tokens@)) == Ok::<
                Seq<StatementView>,
                ParseErrorView,
            >(ast@),
            Err(error) => grammar::program(crate::tokenizer::token_views(tokens@)) == Err::<
                Seq<StatementView>,
                ParseErrorView,
            >(error@),
        },
{
    let ghost views = crate::tokenizer::token_views(tokens@);
    let mut ast: Ast = Ast::new();
    let mut parser = parser::Node::new(tokens);
    loop
        invariant
            parser.wf(),
            parser.tokens() == views,
            views == crate::tokenizer::token_views(tokens@),
            grammar::statements(views, 0, Seq::empty()) == grammar::statements(
                views,
                parser.position(),
                ast@,
            ),
        decreases views.len() - parser.position(),
    {
        match parser.next_statement() {
            Ok(Some(statement)) => ast.add_statement(statement),
            Ok(None) => {
                return Ok(ast);
            },
            Err(error) => {
                return Err(error);
            },
        }
    }
}

} // verus!
