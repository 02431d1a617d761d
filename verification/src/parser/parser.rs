//! The recursive-descent parser: a cursor over a token sequence and one
//! method per construct of the grammar.
//!
//! Each method reads the construct that `grammar` defines at the cursor's
//! position: it returns the tree whose view the grammar gives and leaves the
//! cursor behind the construct, or returns the grammar's error.

use crate::parser::grammar::{
    array_expression, array_index, assignment_expression, binary_expression, binary_operator,
    binary_tail, block_items, call_expression, context, expression, expression_list,
    for_statement, function_declaration, generics, if_statement, kind_at, let_statement,
    optional_annotation, optional_parameter_list, parameter_list, primary_expression,
    return_statement, statement, std_call_expression, type_annotation, unary_expression,
    unary_operator, while_statement, Parsed,
};
use crate::parser::{
    expression_views, optional_view, parameter_views, statement_views, ASTBinaryOperator,
    ASTBinaryOperatorKind, ASTElseStatement, ASTExpression, ASTStatement, ASTUnaryOperator,
    ASTUnaryOperatorKind, ExpressionView, FuncDeclParameter, ParameterView, ParseError,
    ParseErrorView, StatementView,
};
use crate::tokenizer::{is_token_sequence, token_views, Token, TokenInfo, TokenView};
use vstd::prelude::*;

verus! {

/// A counter that only goes up.
pub struct Counter {
    value: usize,
}

impl View for Counter {
    type V = usize;

    closed spec fn view(&self) -> usize {
        self.value
    }
}

impl Counter {
    pub fn new() -> (res: Self)
        ensures
            res@ == 0,
    {
        Self { value: 0 }
    }

    pub fn increment(&mut self)
        requires
            old(self)@ < usize::MAX,
        ensures
            final(self)@ == old(self)@ + 1,
    {
        self.value = self.value + 1;
    }

    pub fn get_value(&self) -> (value: usize)
        ensures
            value == self@,
    {
        self.value
    }
}

/// The parser's state: the tokens and the position of the current one.
pub struct Node {
    tokens: Vec<TokenInfo>,
    current: Counter,
}

/// The method returned what the grammar reads: on success the tree with the
/// view and the end position that the grammar gives, else the grammar's
/// error.
pub open spec fn is_expression(
    res: Result<ASTExpression, ParseError>,
    end: int,
    expected: Parsed<ExpressionView>,
) -> bool {
    match res {
        Ok(e) => expected == Ok::<(ExpressionView, int), ParseErrorView>((e@, end)),
        Err(error) => expected == Err::<(ExpressionView, int), ParseErrorView>(error@),
    }
}

/// As `is_expression`, for a statement.
pub open spec fn is_statement(
    res: Result<ASTStatement, ParseError>,
    end: int,
    expected: Parsed<StatementView>,
) -> bool {
    match res {
        Ok(s) => expected == Ok::<(StatementView, int), ParseErrorView>((s@, end)),
        Err(error) => expected == Err::<(StatementView, int), ParseErrorView>(error@),
    }
}

impl Node {
    /// The views of the tokens that the parser reads.
    pub closed spec fn tokens(&self) -> Seq<TokenView> {
        token_views(self.tokens@)
    }

    /// Index of the current token.
    pub closed spec fn position(&self) -> int {
        self.current@ as int
    }

    /// The tokens end in their only `EOF` record and the cursor is on one of
    /// them.
    pub open spec fn wf(&self) -> bool {
        &&& is_token_sequence(self.tokens())
        &&& 0 <= self.position() < self.tokens().len()
    }

    /// The parser reads the same tokens as `before` did and is well formed.
    pub open spec fn follows(&self, before: Node) -> bool {
        &&& self.wf()
        &&& self.tokens() == before.tokens()
    }

    /// As `follows`; after a success the cursor has also moved on.
    pub open spec fn follows_on<T>(&self, before: Node, res: Result<T, ParseError>) -> bool {
        &&& self.follows(before)
        &&& res is Ok ==> before.position() < self.position()
    }

    pub fn new(tokens: Vec<TokenInfo>) -> (res: Self)
        requires
            is_token_sequence(token_views(tokens@)),
        ensures
            res.wf(),
            res.tokens() == token_views(tokens@),
            res.position() == 0,
    {
        Self { tokens, current: Counter::new() }
    }

    /// The cursor is on the `EOF` record.
    pub fn is_at_end(&self) -> (end: bool)
        requires
            self.wf(),
        ensures
            end == (kind_at(self.tokens(), self.position()) == Token::EOF),
            end == (self.position() == self.tokens().len() - 1),
    {
        self.current().token == Token::EOF
    }

    fn peek(&self, offset: usize) -> (token: &TokenInfo)
        requires
            self.wf(),
        ensures
            token@.token == kind_at(self.tokens(), self.position() + offset),
            self.position() + offset < self.tokens().len() ==> token@ == self.tokens()[self.position()
                + offset],
    {
        let at = self.current.get_value();
        if offset >= self.tokens.len() - at {
            &self.tokens[self.tokens.len() - 1]
        } else {
            &self.tokens[at + offset]
        }
    }

    fn current(&self) -> (token: &TokenInfo)
        requires
            self.wf(),
        ensures
            token@ == self.tokens()[self.position()],
            token@.token == kind_at(self.tokens(), self.position()),
    {
        self.peek(0)
    }

    fn consume(&mut self) -> (token: TokenInfo)
        requires
            old(self).wf(),
            kind_at(old(self).tokens(), old(self).position()) != Token::EOF,
        ensures
            final(self).follows(*old(self)),
            final(self).position() == old(self).position() + 1,
            token@ == old(self).tokens()[old(self).position()],
    {
        let at = self.current.get_value();
        assert(at < self.tokens.len());
        let token = self.tokens[at].clone();
        self.current.increment();
        token
    }

    fn consume_and_check(&mut self, kind: Token) -> (token: Option<TokenInfo>)
        requires
            old(self).wf(),
            kind != Token::EOF,
        ensures
            final(self).follows(*old(self)),
            match token {
                Some(t) => {
                    &&& kind_at(old(self).tokens(), old(self).position()) == kind
                    &&& final(self).position() == old(self).position() + 1
                    &&& t@ == old(self).tokens()[old(self).position()]
                },
                None => {
                    &&& kind_at(old(self).tokens(), old(self).position()) != kind
                    &&& final(self).position() == old(self).position()
                },
            },
    {
        if self.current().token == kind {
            Some(self.consume())
        } else {
            None
        }
    }

    fn last_n_token_lexemes(&self) -> (text: String)
        requires
            self.wf(),
        ensures
            text@ == context(self.tokens(), self.position()),
    {
        let at = self.current.get_value();
        let mut text = String::new();
        if at == 1 {
            text.append(self.tokens[0].lexeme.as_str());
        } else if at == 2 {
            text.append(self.tokens[0].lexeme.as_str());
            text.push(' ');
            text.append(self.tokens[1].lexeme.as_str());
        } else if at >= 3 {
            text.append(self.tokens[at - 3].lexeme.as_str());
            text.push(' ');
            text.append(self.tokens[at - 2].lexeme.as_str());
            text.push(' ');
            text.append(self.tokens[at - 1].lexeme.as_str());
        }
        assert(text@ =~= context(self.tokens(), self.position()));
        text
    }

    fn unexpected_token(&self) -> (error: ParseError)
        requires
            self.wf(),
        ensures
            error@ == ParseErrorView::UnexpectedToken(
                self.tokens()[self.position()],
                context(self.tokens(), self.position()),
            ),
    {
        ParseError::UnexpectedToken(self.current().clone(), self.last_n_token_lexemes())
    }

    fn missing_type(&self) -> (error: ParseError)
        requires
            self.wf(),
        ensures
            error@ == ParseErrorView::MissingType(
                self.tokens()[self.position()],
                context(self.tokens(), self.position()),
            ),
    {
        ParseError::MissingType(self.current().clone(), self.last_n_token_lexemes())
    }

    fn invalid_assignment(&self) -> (error: ParseError)
        requires
            self.wf(),
        ensures
            error@ == ParseErrorView::InvalidAssignment(
                self.tokens()[self.position()],
                context(self.tokens(), self.position()),
            ),
    {
        ParseError::InvalidAssignment(self.current().clone(), self.last_n_token_lexemes())
    }

    fn unclosed_list(&self, close: Token) -> (error: ParseError)
        requires
            self.wf(),
        ensures
            error@ == (if close == Token::RightParantheses {
                ParseErrorView::MissingClosingParen(self.tokens()[self.position()])
            } else {
                ParseErrorView::UnexpectedToken(
                    self.tokens()[self.position()],
                    context(self.tokens(), self.position()),
                )
            }),
    {
        if close == Token::RightParantheses {
            ParseError::MissingClosingParen(self.current().clone())
        } else {
            self.unexpected_token()
        }
    }

    // -----------------------------------------------------------------------
    // Type annotations
    // -----------------------------------------------------------------------

    fn parse_type_annotation(&mut self) -> (res: Result<ASTExpression, ParseError>)
        requires
            old(self).wf(),
        ensures
            final(self).follows_on(*old(self), res),
            is_expression(
                res,
                final(self).position(),
                type_annotation(old(self).tokens(), old(self).position()),
            ),
    {
        if self.current().token != Token::Identifier {
            return Err(self.missing_type());
        }
        let base = self.consume();
        let mut list: Vec<TokenInfo> = Vec::new();
        assert(token_views(list@) =~= Seq::<TokenView>::empty());
        if self.current().token != Token::LowerThan {
            return Ok(ASTExpression::type_annotation(base, list));
        }
        self.consume();
        loop
            invariant
                self.follows(*old(self)),
                old(self).position() < self.position(),
                type_annotation(old(self).tokens(), old(self).position()) == generics(
                    self.tokens(),
                    self.position(),
                    base@,
                    token_views(list@),
                ),
            decreases self.tokens().len() - self.position(),
        {
            if self.current().token != Token::Identifier {
                return Err(self.missing_type());
            }
            let ghost seen = token_views(list@);
            let name = self.consume();
            list.push(name);
            assert(token_views(list@) =~= seen.push(name@));
            if self.current().token == Token::Comma {
                self.consume();
            } else if self.current().token == Token::GreaterThan {
                self.consume();
                return Ok(ASTExpression::type_annotation(base, list));
            } else {
                return Err(self.unexpected_token());
            }
        }
    }

    fn parse_optional_annotation(&mut self) -> (res: Result<Option<ASTExpression>, ParseError>)
        requires
            old(self).wf(),
        ensures
            final(self).follows(*old(self)),
            res is Ok ==> old(self).position() <= final(self).position(),
            match res {
                Ok(annotation) => optional_annotation(old(self).tokens(), old(self).position())
                    == Ok::<(Option<ExpressionView>, int), ParseErrorView>(
                    (optional_view(annotation), final(self).position()),
                ),
                Err(error) => optional_annotation(old(self).tokens(), old(self).position()) == Err::<
                    (Option<ExpressionView>, int),
                    ParseErrorView,
                >(error@),
            },
    {
        if self.current().token == Token::Colon {
            self.consume();
            match self.parse_type_annotation() {
                Ok(annotation) => Ok(Some(annotation)),
                Err(error) => Err(error),
            }
        } else {
            Ok(None)
        }
    }

    // -----------------------------------------------------------------------
    // Expressions
    // -----------------------------------------------------------------------

    /// Reads the rest of a list of expressions up to and with `close`.
    fn parse_expression_list(&mut self, close: Token) -> (res: Result<Vec<ASTExpression>, ParseError>)
        requires
            old(self).wf(),
            close == Token::RightParantheses || close == Token::RightSquareBracket,
        ensures
            final(self).follows_on(*old(self), res),
            match res {
                Ok(items) => expression_list(
                    old(self).tokens(),
                    old(self).position(),
                    close,
                    Seq::empty(),
                ) == Ok::<(Seq<ExpressionView>, int), ParseErrorView>(
                    (expression_views(items@), final(self).position()),
                ),
                Err(error) => expression_list(
                    old(self).tokens(),
                    old(self).position(),
                    close,
                    Seq::empty(),
                ) == Err::<(Seq<ExpressionView>, int), ParseErrorView>(error@),
            },
        decreases old(self).tokens().len() - old(self).position(), 6int,
    {
        let mut items: Vec<ASTExpression> = Vec::new();
        assert(expression_views(items@) =~= Seq::<ExpressionView>::empty());
        loop
            invariant
                self.follows(*old(self)),
                old(self).position() <= self.position(),
                close == Token::RightParantheses || close == Token::RightSquareBracket,
                expression_list(old(self).tokens(), old(self).position(), close, Seq::empty())
                    == expression_list(
                    self.tokens(),
                    self.position(),
                    close,
                    expression_views(items@),
                ),
            decreases self.tokens().len() - self.position(),
        {
            let kind = self.current().token;
            if kind == Token::EOF {
                return Err(self.unclosed_list(close));
            }
            if kind == close {
                self.consume();
                return Ok(items);
            }
            let ghost seen = expression_views(items@);
            let item = match self.parse_expression() {
                Ok(item) => item,
                Err(error) => {
                    return Err(error);
                },
            };
            items.push(item);
            assert(expression_views(items@) =~= seen.push(item@));
            let kind = self.current().token;
            if kind == Token::EOF {
                return Err(self.unclosed_list(close));
            } else if kind == close {
                self.consume();
                return Ok(items);
            } else if kind == Token::Comma {
                self.consume();
            } else {
                return Err(self.unclosed_list(close));
            }
        }
    }

    /// Reads an expression: an assignment expression, or two of them with
    /// `..` between.
    fn parse_expression(&mut self) -> (res: Result<ASTExpression, ParseError>)
        requires
            old(self).wf(),
        ensures
            final(self).follows_on(*old(self), res),
            is_expression(
                res,
                final(self).position(),
                expression(old(self).tokens(), old(self).position()),
            ),
        decreases old(self).tokens().len() - old(self).position(), 5int,
    {
        let start = match self.parse_assignment_expression() {
            Ok(start) => start,
            Err(error) => {
                return Err(error);
            },
        };
        self.lookahead_for_range(start)
    }

    /// Reads `.. EXPR` behind `start` where a range follows; else returns
    /// `start` as it is.
    fn lookahead_for_range(&mut self, start: ASTExpression) -> (res: Result<ASTExpression, ParseError>)
        requires
            old(self).wf(),
        ensures
            final(self).follows(*old(self)),
            res is Ok ==> old(self).position() <= final(self).position(),
            match res {
                Ok(e) => if kind_at(old(self).tokens(), old(self).position()) == Token::Range {
                    &&& assignment_expression(old(self).tokens(), old(self).position() + 1) matches Ok(
                        read,
                    )
                    &&& read.1 == final(self).position()
                    &&& e@ == (ExpressionView::Range {
                        start: Box::new(start@),
                        end: Box::new(read.0),
                    })
                } else {
                    e@ == start@ && final(self).position() == old(self).position()
                },
                Err(error) => kind_at(old(self).tokens(), old(self).position()) == Token::Range
                    && assignment_expression(old(self).tokens(), old(self).position() + 1) == Err::<
                    (ExpressionView, int),
                    ParseErrorView,
                >(error@),
            },
        decreases old(self).tokens().len() - old(self).position(), 0int,
    {
        if self.current().token == Token::Range {
            self.consume();
            match self.parse_assignment_expression() {
                Ok(end) => Ok(ASTExpression::range(Box::new(start), Box::new(end))),
                Err(error) => Err(error),
            }
        } else {
            Ok(start)
        }
    }

    fn parse_assignment_expression(&mut self) -> (res: Result<ASTExpression, ParseError>)
        requires
            old(self).wf(),
        ensures
            final(self).follows_on(*old(self), res),
            is_expression(
                res,
                final(self).position(),
                assignment_expression(old(self).tokens(), old(self).position()),
            ),
        decreases old(self).tokens().len() - old(self).position(), 4int,
    {
        if self.current().token == Token::Identifier {
            let next = self.peek(1).token;
            if next == Token::Assignment {
                let identifier = self.consume();
                self.consume();
                return match self.parse_expression() {
                    Ok(value) => Ok(ASTExpression::assignment(identifier, value)),
                    Err(error) => Err(error),
                };
            } else if next == Token::LeftSquareBracket {
                let identifier = self.consume();
                let array = ASTExpression::identifier(identifier.clone());
                let target = match self.parse_array_index_expression(array) {
                    Ok(target) => target,
                    Err(error) => {
                        return Err(error);
                    },
                };
                if self.current().token == Token::Assignment {
                    self.consume();
                    return match self.parse_expression() {
                        Ok(value) => Ok(ASTExpression::array_assignment(identifier, target, value)),
                        Err(error) => Err(error),
                    };
                }
                return self.parse_binary_tail(0, target);
            }
        }
        self.parse_binary_expression(0)
    }

    fn parse_binary_expression(&mut self, precedence: u8) -> (res: Result<ASTExpression, ParseError>)
        requires
            old(self).wf(),
        ensures
            final(self).follows_on(*old(self), res),
            is_expression(
                res,
                final(self).position(),
                binary_expression(old(self).tokens(), old(self).position(), precedence as int),
            ),
        decreases old(self).tokens().len() - old(self).position(), 3int,
    {
        let left = match self.parse_unary_expression() {
            Ok(left) => left,
            Err(error) => {
                return Err(error);
            },
        };
        self.parse_binary_tail(precedence, left)
    }

    /// Reads the operators that follow the operand `left`.
    fn parse_binary_tail(&mut self, precedence: u8, operand: ASTExpression) -> (res: Result<
        ASTExpression,
        ParseError,
    >)
        requires
            old(self).wf(),
        ensures
            final(self).follows(*old(self)),
            res is Ok ==> old(self).position() <= final(self).position(),
            is_expression(
                res,
                final(self).position(),
                binary_tail(old(self).tokens(), old(self).position(), precedence as int, operand@),
            ),
        decreases old(self).tokens().len() - old(self).position(), 0int,
    {
        let ghost first = operand@;
        let mut left = operand;
        loop
            invariant
                self.follows(*old(self)),
                old(self).position() <= self.position(),
                first == operand@,
                binary_tail(old(self).tokens(), old(self).position(), precedence as int, first)
                    == binary_tail(self.tokens(), self.position(), precedence as int, left@),
            decreases self.tokens().len() - self.position(),
        {
            let operator = match self.parse_binary_operator() {
                Some(operator) => operator,
                None => {
                    return Ok(left);
                },
            };
            let operator_precedence = operator.precedence();
            if operator_precedence < precedence {
                return Ok(left);
            }
            self.consume();
            let right = match self.parse_binary_expression(operator_precedence + 1) {
                Ok(right) => right,
                Err(error) => {
                    return Err(error);
                },
            };
            left = ASTExpression::binary(operator, left, right);
        }
    }

    fn parse_binary_operator(&self) -> (res: Option<ASTBinaryOperator>)
        requires
            self.wf(),
        ensures
            match res {
                Some(operator) => binary_operator(kind_at(self.tokens(), self.position())) == Some(
                    operator.kind,
                ) && operator.token@ == self.tokens()[self.position()],
                None => binary_operator(kind_at(self.tokens(), self.position())) is None,
            },
    {
        let token = self.current();
        let kind = match token.token {
            Token::Addition => ASTBinaryOperatorKind::Addition,
            Token::Subtraction => ASTBinaryOperatorKind::Subtraction,
            Token::Star => ASTBinaryOperatorKind::Star,
            Token::Division => ASTBinaryOperatorKind::Division,
            Token::BwAnd => ASTBinaryOperatorKind::BwAnd,
            Token::BwOr => ASTBinaryOperatorKind::BwOr,
            Token::BwXor => ASTBinaryOperatorKind::BwXor,
            Token::Equals => ASTBinaryOperatorKind::Equals,
            Token::Inequal => ASTBinaryOperatorKind::Inequal,
            Token::LowerThan => ASTBinaryOperatorKind::LowerThan,
            Token::GreaterThan => ASTBinaryOperatorKind::GreaterThan,
            _ => {
                return None;
            },
        };
        Some(ASTBinaryOperator::new(kind, token.clone()))
    }

    fn parse_unary_expression(&mut self) -> (res: Result<ASTExpression, ParseError>)
        requires
            old(self).wf(),
        ensures
            final(self).follows_on(*old(self), res),
            is_expression(
                res,
                final(self).position(),
                unary_expression(old(self).tokens(), old(self).position()),
            ),
        decreases old(self).tokens().len() - old(self).position(), 2int,
    {
        match self.parse_unary_operator() {
            Some(operator) => {
                self.consume();
                match self.parse_unary_expression() {
                    Ok(operand) => Ok(ASTExpression::unary(operator, operand)),
                    Err(error) => Err(error),
                }
            },
            None => self.parse_primary_expression(),
        }
    }

    fn parse_unary_operator(&self) -> (res: Option<ASTUnaryOperator>)
        requires
            self.wf(),
        ensures
            match res {
                Some(operator) => unary_operator(kind_at(self.tokens(), self.position())) == Some(
                    operator.kind,
                ) && operator.token@ == self.tokens()[self.position()],
                None => unary_operator(kind_at(self.tokens(), self.position())) is None,
            },
    {
        let token = self.current();
        let kind = match token.token {
            Token::Subtraction => ASTUnaryOperatorKind::Subtraction,
            Token::BwNot => ASTUnaryOperatorKind::BwNot,
            _ => {
                return None;
            },
        };
        Some(ASTUnaryOperator::new(kind, token.clone()))
    }

    fn parse_array_expression(&mut self) -> (res: Result<ASTExpression, ParseError>)
        requires
            old(self).wf(),
        ensures
            final(self).follows_on(*old(self), res),
            is_expression(
                res,
                final(self).position(),
                array_expression(old(self).tokens(), old(self).position()),
            ),
        decreases old(self).tokens().len() - old(self).position(), 0int,
    {
        if self.consume_and_check(Token::LeftSquareBracket).is_none() {
            return Err(self.unexpected_token());
        }
        match self.parse_expression_list(Token::RightSquareBracket) {
            Ok(elements) => Ok(ASTExpression::array(elements)),
            Err(error) => Err(error),
        }
    }

    fn parse_array_index_expression(&mut self, array: ASTExpression) -> (res: Result<
        ASTExpression,
        ParseError,
    >)
        requires
            old(self).wf(),
        ensures
            final(self).follows_on(*old(self), res),
            is_expression(
                res,
                final(self).position(),
                array_index(old(self).tokens(), old(self).position(), array@),
            ),
        decreases old(self).tokens().len() - old(self).position(), 0int,
    {
        if self.consume_and_check(Token::LeftSquareBracket).is_none() {
            return Err(self.unexpected_token());
        }
        let index = match self.parse_expression() {
            Ok(index) => index,
            Err(error) => {
                return Err(error);
            },
        };
        if self.consume_and_check(Token::RightSquareBracket).is_none() {
            return Err(self.unexpected_token());
        }
        Ok(ASTExpression::array_index(Box::new(array), Box::new(index)))
    }

    #[verifier::rlimit(30)]
    fn parse_primary_expression(&mut self) -> (res: Result<ASTExpression, ParseError>)
        requires
            old(self).wf(),
        ensures
            final(self).follows_on(*old(self), res),
            is_expression(
                res,
                final(self).position(),
                primary_expression(old(self).tokens(), old(self).position()),
            ),
        decreases old(self).tokens().len() - old(self).position(), 1int,
    {
        match self.current().token {
            Token::String => Ok(ASTExpression::string(self.consume())),
            Token::Number => Ok(ASTExpression::number(self.consume())),
            Token::LeftParantheses => {
                self.consume();
                let inner = match self.parse_expression() {
                    Ok(inner) => inner,
                    Err(error) => {
                        return Err(error);
                    },
                };
                if self.consume_and_check(Token::RightParantheses).is_none() {
                    return Err(ParseError::MissingClosingParen(self.current().clone()));
                }
                Ok(ASTExpression::parenthesized(inner))
            },
            Token::LeftSquareBracket => self.parse_array_expression(),
            Token::Identifier => {
                let next = self.peek(1).token;
                let identifier = self.consume();
                if next == Token::LeftParantheses {
                    self.parse_call_expression(identifier)
                } else if next == Token::LeftSquareBracket {
                    let array = ASTExpression::identifier(identifier);
                    self.parse_array_index_expression(array)
                } else {
                    Ok(ASTExpression::identifier(identifier))
                }
            },
            Token::Std => {
                let keyword = self.consume();
                let double_colon = match self.consume_and_check(Token::DoubleColon) {
                    Some(token) => token,
                    None => {
                        return Err(self.unexpected_token());
                    },
                };
                let identifier = match self.consume_and_check(Token::Identifier) {
                    Some(token) => token,
                    None => {
                        return Err(self.unexpected_token());
                    },
                };
                self.parse_std_call_expression(keyword, double_colon, identifier)
            },
            _ => Err(self.unexpected_token()),
        }
    }

    #[verifier::rlimit(30)]
    fn parse_call_expression(&mut self, identifier: TokenInfo) -> (res: Result<
        ASTExpression,
        ParseError,
    >)
        requires
            old(self).wf(),
        ensures
            final(self).follows_on(*old(self), res),
            is_expression(
                res,
                final(self).position(),
                call_expression(old(self).tokens(), old(self).position(), identifier@),
            ),
        decreases old(self).tokens().len() - old(self).position(), 0int,
    {
        if self.consume_and_check(Token::LeftParantheses).is_none() {
            return Err(ParseError::ExpectedOpeningParen(self.current().clone()));
        }
        match self.parse_expression_list(Token::RightParantheses) {
            Ok(arguments) => Ok(ASTExpression::call(identifier, arguments)),
            Err(error) => Err(error),
        }
    }

    fn parse_std_call_expression(
        &mut self,
        std_keyword: TokenInfo,
        double_colon: TokenInfo,
        identifier: TokenInfo,
    ) -> (res: Result<ASTExpression, ParseError>)
        requires
            old(self).wf(),
        ensures
            final(self).follows_on(*old(self), res),
            is_expression(
                res,
                final(self).position(),
                std_call_expression(
                    old(self).tokens(),
                    old(self).position(),
                    std_keyword@,
                    double_colon@,
                    identifier@,
                ),
            ),
        decreases old(self).tokens().len() - old(self).position(), 0int,
    {
        if self.consume_and_check(Token::LeftParantheses).is_none() {
            return Err(ParseError::ExpectedOpeningParen(self.current().clone()));
        }
        match self.parse_expression_list(Token::RightParantheses) {
            Ok(arguments) => Ok(
                ASTExpression::std_call(std_keyword, double_colon, identifier, arguments),
            ),
            Err(error) => Err(error),
        }
    }

    // -----------------------------------------------------------------------
    // Statements
    // -----------------------------------------------------------------------

    /// Reads the next top-level statement, or nothing at the end of the
    /// tokens.
    pub fn next_statement(&mut self) -> (res: Result<Option<ASTStatement>, ParseError>)
        requires
            old(self).wf(),
        ensures
            final(self).follows(*old(self)),
            match res {
                Ok(None) => kind_at(old(self).tokens(), old(self).position()) == Token::EOF
                    && final(self).position() == old(self).position(),
                Ok(Some(s)) => {
                    &&& kind_at(old(self).tokens(), old(self).position()) != Token::EOF
                    &&& old(self).position() < final(self).position()
                    &&& statement(old(self).tokens(), old(self).position()) == Ok::<
                        (StatementView, int),
                        ParseErrorView,
                    >((s@, final(self).position()))
                },
                Err(error) => {
                    &&& kind_at(old(self).tokens(), old(self).position()) != Token::EOF
                    &&& statement(old(self).tokens(), old(self).position()) == Err::<
                        (StatementView, int),
                        ParseErrorView,
                    >(error@)
                },
            },
    {
        if self.is_at_end() {
            return Ok(None);
        }
        match self.parse_statement() {
            Ok(statement) => Ok(Some(statement)),
            Err(error) => Err(error),
        }
    }

    /// Reads one statement at the cursor.
    pub fn parse_statement(&mut self) -> (res: Result<ASTStatement, ParseError>)
        requires
            old(self).wf(),
        ensures
            final(self).follows_on(*old(self), res),
            is_statement(
                res,
                final(self).position(),
                statement(old(self).tokens(), old(self).position()),
            ),
        decreases old(self).tokens().len() - old(self).position(), 1int,
    {
        match self.current().token {
            Token::Let => self.parse_let_statement(),
            Token::If => self.parse_if_statement(),
            Token::LeftBraces => self.parse_block_statement(),
            Token::While => self.parse_while_statement(),
            Token::Fn => self.parse_function_declaration(),
            Token::For => self.parse_for_statement(),
            Token::Return => self.parse_return_statement(),
            _ => self.parse_expression_statement(),
        }
    }

    fn parse_return_statement(&mut self) -> (res: Result<ASTStatement, ParseError>)
        requires
            old(self).wf(),
            kind_at(old(self).tokens(), old(self).position()) == Token::Return,
        ensures
            final(self).follows_on(*old(self), res),
            is_statement(
                res,
                final(self).position(),
                return_statement(old(self).tokens(), old(self).position()),
            ),
    {
        let keyword = self.consume();
        let has_value = match self.current().token {
            Token::String => true,
            Token::Number => true,
            Token::LeftParantheses => true,
            Token::LeftSquareBracket => true,
            Token::Identifier => true,
            Token::Std => true,
            Token::Subtraction => true,
            Token::BwNot => true,
            _ => false,
        };
        if has_value {
            match self.parse_expression() {
                Ok(value) => Ok(ASTStatement::return_statement(keyword, Some(value))),
                Err(error) => Err(error),
            }
        } else {
            Ok(ASTStatement::return_statement(keyword, None))
        }
    }

    fn parse_function_declaration(&mut self) -> (res: Result<ASTStatement, ParseError>)
        requires
            old(self).wf(),
            kind_at(old(self).tokens(), old(self).position()) == Token::Fn,
        ensures
            final(self).follows_on(*old(self), res),
            is_statement(
                res,
                final(self).position(),
                function_declaration(old(self).tokens(), old(self).position()),
            ),
        decreases old(self).tokens().len() - old(self).position(), 0int,
    {
        self.consume();
        let identifier = match self.consume_and_check(Token::Identifier) {
            Some(token) => token,
            None => {
                return Err(self.unexpected_token());
            },
        };
        let parameters = match self.parse_optional_parameter_list() {
            Ok(parameters) => parameters,
            Err(error) => {
                return Err(error);
            },
        };
        let return_type = match self.parse_optional_annotation() {
            Ok(annotation) => annotation,
            Err(error) => {
                return Err(error);
            },
        };
        match self.parse_statement() {
            Ok(body) => Ok(
                ASTStatement::func_decl_statement(identifier, parameters, return_type, body),
            ),
            Err(error) => Err(error),
        }
    }

    fn parse_optional_parameter_list(&mut self) -> (res: Result<Vec<FuncDeclParameter>, ParseError>)
        requires
            old(self).wf(),
        ensures
            final(self).follows(*old(self)),
            res is Ok ==> old(self).position() <= final(self).position(),
            match res {
                Ok(parameters) => optional_parameter_list(old(self).tokens(), old(self).position())
                    == Ok::<(Seq<ParameterView>, int), ParseErrorView>(
                    (parameter_views(parameters@), final(self).position()),
                ),
                Err(error) => optional_parameter_list(old(self).tokens(), old(self).position())
                    == Err::<(Seq<ParameterView>, int), ParseErrorView>(error@),
            },
    {
        let mut parameters: Vec<FuncDeclParameter> = Vec::new();
        assert(parameter_views(parameters@) =~= Seq::<ParameterView>::empty());
        if self.current().token != Token::LeftParantheses {
            return Ok(parameters);
        }
        self.consume();
        loop
            invariant
                self.follows(*old(self)),
                old(self).position() < self.position(),
                optional_parameter_list(old(self).tokens(), old(self).position()) == parameter_list(
                    self.tokens(),
                    self.position(),
                    parameter_views(parameters@),
                ),
            decreases self.tokens().len() - self.position(),
        {
            let kind = self.current().token;
            if kind == Token::EOF {
                return Err(ParseError::MissingClosingParen(self.current().clone()));
            }
            if kind == Token::RightParantheses {
                self.consume();
                return Ok(parameters);
            }
            if kind != Token::Identifier {
                return Err(self.unexpected_token());
            }
            let ghost seen = parameter_views(parameters@);
            let identifier = self.consume();
            let type_annotation = match self.parse_optional_annotation() {
                Ok(annotation) => annotation,
                Err(error) => {
                    return Err(error);
                },
            };
            let parameter = FuncDeclParameter { identifier, type_annotation };
            parameters.push(parameter);
            assert(parameter_views(parameters@) =~= seen.push(parameter@));
            if self.current().token == Token::Comma {
                self.consume();
            }
        }
    }

    fn parse_while_statement(&mut self) -> (res: Result<ASTStatement, ParseError>)
        requires
            old(self).wf(),
            kind_at(old(self).tokens(), old(self).position()) == Token::While,
        ensures
            final(self).follows_on(*old(self), res),
            is_statement(
                res,
                final(self).position(),
                while_statement(old(self).tokens(), old(self).position()),
            ),
        decreases old(self).tokens().len() - old(self).position(), 0int,
    {
        let while_keyword = self.consume();
        let condition = match self.parse_expression() {
            Ok(condition) => condition,
            Err(error) => {
                return Err(error);
            },
        };
        match self.parse_statement() {
            Ok(body) => Ok(ASTStatement::while_statement(while_keyword, condition, body)),
            Err(error) => Err(error),
        }
    }

    fn parse_for_statement(&mut self) -> (res: Result<ASTStatement, ParseError>)
        requires
            old(self).wf(),
            kind_at(old(self).tokens(), old(self).position()) == Token::For,
        ensures
            final(self).follows_on(*old(self), res),
            is_statement(
                res,
                final(self).position(),
                for_statement(old(self).tokens(), old(self).position()),
            ),
        decreases old(self).tokens().len() - old(self).position(), 0int,
    {
        let for_keyword = self.consume();
        let identifier = match self.consume_and_check(Token::Identifier) {
            Some(token) => token,
            None => {
                return Err(
                    ParseError::InvalidFor(
                        self.current().clone(),
                        String::from_str("Expected variable declaration"),
                    ),
                );
            },
        };
        let type_annotation = match self.parse_optional_annotation() {
            Ok(annotation) => annotation,
            Err(error) => {
                return Err(error);
            },
        };
        if self.consume_and_check(Token::In).is_none() {
            return Err(
                ParseError::InvalidFor(self.current().clone(), String::from_str("Expected 'in'")),
            );
        }
        let iterable = match self.parse_expression() {
            Ok(iterable) => iterable,
            Err(error) => {
                return Err(error);
            },
        };
        match self.parse_statement() {
            Ok(body) => Ok(
                ASTStatement::for_statement(for_keyword, identifier, type_annotation, iterable, body),
            ),
            Err(error) => Err(error),
        }
    }

    fn parse_block_statement(&mut self) -> (res: Result<ASTStatement, ParseError>)
        requires
            old(self).wf(),
            kind_at(old(self).tokens(), old(self).position()) == Token::LeftBraces,
        ensures
            final(self).follows_on(*old(self), res),
            is_statement(
                res,
                final(self).position(),
                block_items(old(self).tokens(), old(self).position() + 1, Seq::empty()),
            ),
        decreases old(self).tokens().len() - old(self).position(), 0int,
    {
        self.consume();
        let mut statements: Vec<ASTStatement> = Vec::new();
        assert(statement_views(statements@) =~= Seq::<StatementView>::empty());
        loop
            invariant
                self.follows(*old(self)),
                old(self).position() < self.position(),
                block_items(old(self).tokens(), old(self).position() + 1, Seq::empty())
                    == block_items(self.tokens(), self.position(), statement_views(statements@)),
            decreases self.tokens().len() - self.position(),
        {
            let kind = self.current().token;
            if kind == Token::EOF {
                return Err(ParseError::MissingClosingBrace(self.current().clone()));
            }
            if kind == Token::RightBraces {
                self.consume();
                return Ok(ASTStatement::block_statement(statements));
            }
            let ghost seen = statement_views(statements@);
            let item = match self.parse_statement() {
                Ok(item) => item,
                Err(error) => {
                    return Err(error);
                },
            };
            statements.push(item);
            assert(statement_views(statements@) =~= seen.push(item@));
        }
    }

    fn parse_if_statement(&mut self) -> (res: Result<ASTStatement, ParseError>)
        requires
            old(self).wf(),
            kind_at(old(self).tokens(), old(self).position()) == Token::If,
        ensures
            final(self).follows_on(*old(self), res),
            is_statement(
                res,
                final(self).position(),
                if_statement(old(self).tokens(), old(self).position()),
            ),
        decreases old(self).tokens().len() - old(self).position(), 0int,
    {
        let if_keyword = self.consume();
        let condition = match self.parse_expression() {
            Ok(condition) => condition,
            Err(error) => {
                return Err(error);
            },
        };
        let then = match self.parse_statement() {
            Ok(then) => then,
            Err(error) => {
                return Err(error);
            },
        };
        match self.parse_optional_else_statement() {
            Ok(else_statement) => Ok(
                ASTStatement::if_statement(if_keyword, condition, then, else_statement),
            ),
            Err(error) => Err(error),
        }
    }

    fn parse_optional_else_statement(&mut self) -> (res: Result<Option<ASTElseStatement>, ParseError>)
        requires
            old(self).wf(),
        ensures
            final(self).follows(*old(self)),
            res is Ok ==> old(self).position() <= final(self).position(),
            match res {
                Ok(None) => kind_at(old(self).tokens(), old(self).position()) != Token::Else
                    && final(self).position() == old(self).position(),
                Ok(Some(other)) => {
                    &&& kind_at(old(self).tokens(), old(self).position()) == Token::Else
                    &&& other.else_keyword@ == old(self).tokens()[old(self).position()]
                    &&& statement(old(self).tokens(), old(self).position() + 1) == Ok::<
                        (StatementView, int),
                        ParseErrorView,
                    >(((*other.else_statement)@, final(self).position()))
                },
                Err(error) => {
                    &&& kind_at(old(self).tokens(), old(self).position()) == Token::Else
                    &&& statement(old(self).tokens(), old(self).position() + 1) == Err::<
                        (StatementView, int),
                        ParseErrorView,
                    >(error@)
                },
            },
        decreases old(self).tokens().len() - old(self).position(), 0int,
    {
        if self.current().token == Token::Else {
            let else_keyword = self.consume();
            return match self.parse_statement() {
                Ok(else_statement) => Ok(Some(ASTElseStatement::new(else_keyword, else_statement))),
                Err(error) => Err(error),
            };
        }
        Ok(None)
    }

    fn parse_let_statement(&mut self) -> (res: Result<ASTStatement, ParseError>)
        requires
            old(self).wf(),
            kind_at(old(self).tokens(), old(self).position()) == Token::Let,
        ensures
            final(self).follows_on(*old(self), res),
            is_statement(
                res,
                final(self).position(),
                let_statement(old(self).tokens(), old(self).position()),
            ),
    {
        self.consume();
        let is_mut = self.consume_and_check(Token::Mut).is_some();
        let identifier = match self.consume_and_check(Token::Identifier) {
            Some(token) => token,
            None => {
                return Err(self.invalid_assignment());
            },
        };
        let type_annotation = match self.parse_optional_annotation() {
            Ok(annotation) => annotation,
            Err(error) => {
                return Err(error);
            },
        };
        if self.consume_and_check(Token::Assignment).is_none() {
            return Err(self.invalid_assignment());
        }
        match self.parse_expression() {
            Ok(initializer) => Ok(
                ASTStatement::let_statement(identifier, type_annotation, is_mut, initializer),
            ),
            Err(error) => Err(error),
        }
    }

    fn parse_expression_statement(&mut self) -> (res: Result<ASTStatement, ParseError>)
        requires
            old(self).wf(),
        ensures
            final(self).follows_on(*old(self), res),
            match res {
                Ok(s) => {
                    &&& expression(old(self).tokens(), old(self).position()) matches Ok(read)
                    &&& read.1 == final(self).position()
                    &&& s@ == (StatementView::Expression { expression: read.0 })
                },
                Err(error) => expression(old(self).tokens(), old(self).position()) == Err::<
                    (ExpressionView, int),
                    ParseErrorView,
                >(error@),
            },
    {
        match self.parse_expression() {
            Ok(expr) => Ok(ASTStatement::expression(expr)),
            Err(error) => Err(error),
        }
    }

} // impl Node

} // verus!
