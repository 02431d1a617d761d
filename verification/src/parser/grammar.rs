//! The grammar, as functions from a token sequence and a position to a tree
//! and the position after it.
//!
//! Each function reads one construct that starts at `pos`. A successful
//! result holds the construct's view and the position of the first token
//! behind it; a failure holds the error of the first token that does not fit.

use crate::parser::{
    precedence_of, ASTBinaryOperatorKind, ASTUnaryOperatorKind, ElseView, ExpressionView,
    ParameterView, ParseErrorView, StatementView,
};
use crate::tokenizer::{Token, TokenView};
use vstd::prelude::*;

verus! {

/// What reading a construct gives: its view and the position behind it, or
/// the error.
pub type Parsed<T> = Result<(T, int), ParseErrorView>;

/// Kind of the token at `pos`; `EOF` outside the sequence.
pub open spec fn kind_at(tokens: Seq<TokenView>, pos: int) -> Token {
    if 0 <= pos < tokens.len() {
        tokens[pos].token
    } else {
        Token::EOF
    }
}

/// The lexemes of the last three tokens before `pos` (fewer at the start),
/// separated by single blanks.
pub open spec fn context(tokens: Seq<TokenView>, pos: int) -> Seq<char> {
    if pos <= 0 {
        Seq::empty()
    } else if pos == 1 {
        tokens[0].lexeme
    } else if pos == 2 {
        tokens[0].lexeme + seq![' '] + tokens[1].lexeme
    } else {
        tokens[pos - 3].lexeme + seq![' '] + tokens[pos - 2].lexeme + seq![' '] + tokens[pos
            - 1].lexeme
    }
}

/// The failure of a token that fits nowhere.
pub open spec fn unexpected<T>(tokens: Seq<TokenView>, pos: int) -> Parsed<T> {
    Err(ParseErrorView::UnexpectedToken(tokens[pos], context(tokens, pos)))
}

/// `next` lies behind `pos` and within the sequence. A construct holds at
/// least one token, so this is what every successful read gives
/// (`lemma_expression_advances`, `lemma_statement_advances`). The grammar
/// asks it before it reads on from `next`, which makes each definition
/// visibly terminate; the branch that it takes otherwise is never reached.
pub open spec fn advances(tokens: Seq<TokenView>, pos: int, next: int) -> bool {
    pos < next <= tokens.len()
}

/// The binary operator that a token kind denotes.
pub open spec fn binary_operator(kind: Token) -> Option<ASTBinaryOperatorKind> {
    match kind {
        Token::Addition => Some(ASTBinaryOperatorKind::Addition),
        Token::Subtraction => Some(ASTBinaryOperatorKind::Subtraction),
        Token::Star => Some(ASTBinaryOperatorKind::Star),
        Token::Division => Some(ASTBinaryOperatorKind::Division),
        Token::BwAnd => Some(ASTBinaryOperatorKind::BwAnd),
        Token::BwOr => Some(ASTBinaryOperatorKind::BwOr),
        Token::BwXor => Some(ASTBinaryOperatorKind::BwXor),
        Token::Equals => Some(ASTBinaryOperatorKind::Equals),
        Token::Inequal => Some(ASTBinaryOperatorKind::Inequal),
        Token::LowerThan => Some(ASTBinaryOperatorKind::LowerThan),
        Token::GreaterThan => Some(ASTBinaryOperatorKind::GreaterThan),
        _ => None,
    }
}

/// The unary operator that a token kind denotes.
pub open spec fn unary_operator(kind: Token) -> Option<ASTUnaryOperatorKind> {
    match kind {
        Token::Subtraction => Some(ASTUnaryOperatorKind::Subtraction),
        Token::BwNot => Some(ASTUnaryOperatorKind::BwNot),
        _ => None,
    }
}

/// An expression can begin with a token of this kind.
pub open spec fn starts_expression(kind: Token) -> bool {
    kind == Token::String || kind == Token::Number || kind == Token::LeftParantheses || kind
        == Token::LeftSquareBracket || kind == Token::Identifier || kind == Token::Std || kind
        == Token::Subtraction || kind == Token::BwNot
}

// ---------------------------------------------------------------------------
// Type annotations
// ---------------------------------------------------------------------------

/// The rest of a generic argument list: `IDENT [ , IDENT ]* >`.
pub open spec fn generics(
    tokens: Seq<TokenView>,
    pos: int,
    base: TokenView,
    seen: Seq<TokenView>,
) -> Parsed<ExpressionView>
    decreases tokens.len() - pos,
{
    if kind_at(tokens, pos) != Token::Identifier {
        Err(ParseErrorView::MissingType(tokens[pos], context(tokens, pos)))
    } else if kind_at(tokens, pos + 1) == Token::Comma {
        generics(tokens, pos + 2, base, seen.push(tokens[pos]))
    } else if kind_at(tokens, pos + 1) == Token::GreaterThan {
        Ok((ExpressionView::TypeAnnotation { base: base, generics: seen.push(tokens[pos]) }, pos + 2))
    } else {
        unexpected(tokens, pos + 1)
    }
}

/// `IDENT [ < IDENT [ , IDENT ]* > ]?`
pub open spec fn type_annotation(tokens: Seq<TokenView>, pos: int) -> Parsed<ExpressionView> {
    if kind_at(tokens, pos) != Token::Identifier {
        Err(ParseErrorView::MissingType(tokens[pos], context(tokens, pos)))
    } else if kind_at(tokens, pos + 1) == Token::LowerThan {
        generics(tokens, pos + 2, tokens[pos], Seq::empty())
    } else {
        Ok((ExpressionView::TypeAnnotation { base: tokens[pos], generics: Seq::empty() }, pos + 1))
    }
}

/// `[ : TYPEANN ]?`
pub open spec fn optional_annotation(tokens: Seq<TokenView>, pos: int) -> Parsed<
    Option<ExpressionView>,
> {
    if kind_at(tokens, pos) == Token::Colon {
        match type_annotation(tokens, pos + 1) {
            Ok((annotation, next)) => Ok((Some(annotation), next)),
            Err(e) => Err(e),
        }
    } else {
        Ok((None, pos))
    }
}

// ---------------------------------------------------------------------------
// Expressions
// ---------------------------------------------------------------------------

/// The failure of a list that its closing token does not end.
pub open spec fn unclosed<T>(tokens: Seq<TokenView>, pos: int, close: Token) -> Parsed<T> {
    if close == Token::RightParantheses {
        Err(ParseErrorView::MissingClosingParen(tokens[pos]))
    } else {
        unexpected(tokens, pos)
    }
}

/// The rest of a list of expressions behind its opening token:
/// `[ EXPR [ , EXPR ]* [ , ]? ]? close`.
pub open spec fn expression_list(
    tokens: Seq<TokenView>,
    pos: int,
    close: Token,
    seen: Seq<ExpressionView>,
) -> Parsed<Seq<ExpressionView>>
    decreases tokens.len() - pos, 6int,
{
    if kind_at(tokens, pos) == Token::EOF {
        unclosed(tokens, pos, close)
    } else if kind_at(tokens, pos) == close {
        Ok((seen, pos + 1))
    } else {
        match expression(tokens, pos) {
            Err(e) => Err(e),
            Ok((item, next)) => if !advances(tokens, pos, next) {
                unexpected(tokens, pos)
            } else if kind_at(tokens, next) == Token::EOF {
                unclosed(tokens, next, close)
            } else if kind_at(tokens, next) == close {
                Ok((seen.push(item), next + 1))
            } else if kind_at(tokens, next) == Token::Comma {
                expression_list(tokens, next + 1, close, seen.push(item))
            } else {
                unclosed(tokens, next, close)
            },
        }
    }
}

/// `EXPR [ .. EXPR ]?`, each side an assignment expression.
pub open spec fn expression(tokens: Seq<TokenView>, pos: int) -> Parsed<ExpressionView>
    decreases tokens.len() - pos, 5int,
{
    match assignment_expression(tokens, pos) {
        Err(e) => Err(e),
        Ok((start, next)) => if kind_at(tokens, next) == Token::Range {
            if !advances(tokens, pos, next) {
                unexpected(tokens, pos)
            } else {
                match assignment_expression(tokens, next + 1) {
                    Err(e) => Err(e),
                    Ok((end, last)) => Ok(
                        (ExpressionView::Range { start: Box::new(start), end: Box::new(end) }, last),
                    ),
                }
            }
        } else {
            Ok((start, next))
        },
    }
}

/// `IDENT = EXPR`, `IDENT [ EXPR ] = EXPR`, or a binary expression.
pub open spec fn assignment_expression(tokens: Seq<TokenView>, pos: int) -> Parsed<ExpressionView>
    decreases tokens.len() - pos, 4int,
{
    if kind_at(tokens, pos) == Token::Identifier && kind_at(tokens, pos + 1) == Token::Assignment {
        match expression(tokens, pos + 2) {
            Err(e) => Err(e),
            Ok((value, next)) => Ok(
                (
                    ExpressionView::Assignment {
                        identifier: tokens[pos],
                        expression: Box::new(value),
                    },
                    next,
                ),
            ),
        }
    } else if kind_at(tokens, pos) == Token::Identifier && kind_at(tokens, pos + 1)
        == Token::LeftSquareBracket {
        match array_index(tokens, pos + 1, ExpressionView::Variable { identifier: tokens[pos] }) {
            Err(e) => Err(e),
            Ok((target, next)) => if !advances(tokens, pos, next) {
                unexpected(tokens, pos)
            } else if kind_at(tokens, next) == Token::Assignment {
                match expression(tokens, next + 1) {
                    Err(e) => Err(e),
                    Ok((value, last)) => Ok(
                        (
                            ExpressionView::ArrayAssignment {
                                identifier: tokens[pos],
                                index_expression: Box::new(target),
                                expression: Box::new(value),
                            },
                            last,
                        ),
                    ),
                }
            } else {
                binary_tail(tokens, next, 0, target)
            },
        }
    } else {
        binary_expression(tokens, pos, 0)
    }
}

/// A unary expression and the operators of at least the precedence `min`
/// that follow it.
pub open spec fn binary_expression(tokens: Seq<TokenView>, pos: int, min: int) -> Parsed<
    ExpressionView,
>
    decreases tokens.len() - pos, 3int,
{
    match unary_expression(tokens, pos) {
        Err(e) => Err(e),
        Ok((left, next)) => if !advances(tokens, pos, next) {
            unexpected(tokens, pos)
        } else {
            binary_tail(tokens, next, min, left)
        },
    }
}

/// The operators of at least the precedence `min` that follow the operand
/// `left`, each with its right-hand side. The right-hand side holds only
/// operators that bind tighter, so operators of one precedence group to the
/// left.
pub open spec fn binary_tail(tokens: Seq<TokenView>, pos: int, min: int, left: ExpressionView) -> Parsed<
    ExpressionView,
>
    decreases tokens.len() - pos, 0int,
{
    match binary_operator(kind_at(tokens, pos)) {
        Some(kind) => if precedence_of(kind) >= min {
            match binary_expression(tokens, pos + 1, precedence_of(kind) + 1) {
                Err(e) => Err(e),
                Ok((right, next)) => if !advances(tokens, pos, next) {
                    unexpected(tokens, pos)
                } else {
                    binary_tail(
                        tokens,
                        next,
                        min,
                        ExpressionView::Binary {
                            kind: kind,
                            token: tokens[pos],
                            left: Box::new(left),
                            right: Box::new(right),
                        },
                    )
                },
            }
        } else {
            Ok((left, pos))
        },
        None => Ok((left, pos)),
    }
}

/// `[ - | ~ ]* PRIMARY`
pub open spec fn unary_expression(tokens: Seq<TokenView>, pos: int) -> Parsed<ExpressionView>
    decreases tokens.len() - pos, 2int,
{
    match unary_operator(kind_at(tokens, pos)) {
        Some(kind) => match unary_expression(tokens, pos + 1) {
            Err(e) => Err(e),
            Ok((operand, next)) => Ok(
                (
                    ExpressionView::Unary {
                        kind: kind,
                        token: tokens[pos],
                        operand: Box::new(operand),
                    },
                    next,
                ),
            ),
        },
        None => primary_expression(tokens, pos),
    }
}

/// `[ EXPR ]` behind the expression `array`; `pos` is at the bracket.
pub open spec fn array_index(tokens: Seq<TokenView>, pos: int, array: ExpressionView) -> Parsed<
    ExpressionView,
>
    decreases tokens.len() - pos, 0int,
{
    if kind_at(tokens, pos) != Token::LeftSquareBracket {
        unexpected(tokens, pos)
    } else {
        match expression(tokens, pos + 1) {
            Err(e) => Err(e),
            Ok((index, next)) => if kind_at(tokens, next) == Token::RightSquareBracket {
                Ok(
                    (
                        ExpressionView::ArrayIndex { array: Box::new(array), index: Box::new(index) },
                        next + 1,
                    ),
                )
            } else {
                unexpected(tokens, next)
            },
        }
    }
}

/// `( arguments )` behind the name of a function; `pos` is at the
/// parenthesis.
pub open spec fn call_expression(tokens: Seq<TokenView>, pos: int, identifier: TokenView) -> Parsed<
    ExpressionView,
>
    decreases tokens.len() - pos, 0int,
{
    if kind_at(tokens, pos) != Token::LeftParantheses {
        Err(ParseErrorView::ExpectedOpeningParen(tokens[pos]))
    } else {
        match expression_list(tokens, pos + 1, Token::RightParantheses, Seq::empty()) {
            Err(e) => Err(e),
            Ok((arguments, next)) => Ok(
                (ExpressionView::Call { identifier: identifier, arguments: arguments }, next),
            ),
        }
    }
}

/// `( arguments )` behind `std :: IDENT`; `pos` is at the parenthesis.
pub open spec fn std_call_expression(
    tokens: Seq<TokenView>,
    pos: int,
    std_keyword: TokenView,
    double_colon: TokenView,
    identifier: TokenView,
) -> Parsed<ExpressionView>
    decreases tokens.len() - pos, 0int,
{
    if kind_at(tokens, pos) != Token::LeftParantheses {
        Err(ParseErrorView::ExpectedOpeningParen(tokens[pos]))
    } else {
        match expression_list(tokens, pos + 1, Token::RightParantheses, Seq::empty()) {
            Err(e) => Err(e),
            Ok((arguments, next)) => Ok(
                (
                    ExpressionView::StdCall {
                        std_keyword: std_keyword,
                        double_colon: double_colon,
                        identifier: identifier,
                        arguments: arguments,
                    },
                    next,
                ),
            ),
        }
    }
}

/// `[ elements ]`; `pos` is at the opening bracket.
pub open spec fn array_expression(tokens: Seq<TokenView>, pos: int) -> Parsed<ExpressionView>
    decreases tokens.len() - pos, 0int,
{
    if kind_at(tokens, pos) != Token::LeftSquareBracket {
        unexpected(tokens, pos)
    } else {
        match expression_list(tokens, pos + 1, Token::RightSquareBracket, Seq::empty()) {
            Err(e) => Err(e),
            Ok((elements, next)) => Ok((ExpressionView::Array { elements: elements }, next)),
        }
    }
}

/// A literal, a parenthesized expression, an array literal, a variable, an
/// indexed variable, a call or a call into `std`.
pub open spec fn primary_expression(tokens: Seq<TokenView>, pos: int) -> Parsed<ExpressionView>
    decreases tokens.len() - pos, 1int,
{
    match kind_at(tokens, pos) {
        Token::String => Ok((ExpressionView::String { token: tokens[pos] }, pos + 1)),
        Token::Number => Ok((ExpressionView::Number { token: tokens[pos] }, pos + 1)),
        Token::LeftParantheses => match expression(tokens, pos + 1) {
            Err(e) => Err(e),
            Ok((inner, next)) => if kind_at(tokens, next) == Token::RightParantheses {
                Ok((ExpressionView::Parenthesized { expression: Box::new(inner) }, next + 1))
            } else {
                Err(ParseErrorView::MissingClosingParen(tokens[next]))
            },
        },
        Token::LeftSquareBracket => array_expression(tokens, pos),
        Token::Identifier => if kind_at(tokens, pos + 1) == Token::LeftParantheses {
            call_expression(tokens, pos + 1, tokens[pos])
        } else if kind_at(tokens, pos + 1) == Token::LeftSquareBracket {
            array_index(tokens, pos + 1, ExpressionView::Variable { identifier: tokens[pos] })
        } else {
            Ok((ExpressionView::Variable { identifier: tokens[pos] }, pos + 1))
        },
        Token::Std => if kind_at(tokens, pos + 1) != Token::DoubleColon {
            unexpected(tokens, pos + 1)
        } else if kind_at(tokens, pos + 2) != Token::Identifier {
            unexpected(tokens, pos + 2)
        } else {
            std_call_expression(tokens, pos + 3, tokens[pos], tokens[pos + 1], tokens[pos + 2])
        },
        _ => unexpected(tokens, pos),
    }
}

// ---------------------------------------------------------------------------
// Statements
// ---------------------------------------------------------------------------

/// `let [ mut ]? IDENT [ : TYPEANN ]? = EXPR`; `pos` is at `let`.
pub open spec fn let_statement(tokens: Seq<TokenView>, pos: int) -> Parsed<StatementView> {
    let is_mut = kind_at(tokens, pos + 1) == Token::Mut;
    let name = if is_mut {
        pos + 2
    } else {
        pos + 1
    };
    if kind_at(tokens, name) != Token::Identifier {
        Err(ParseErrorView::InvalidAssignment(tokens[name], context(tokens, name)))
    } else {
        match optional_annotation(tokens, name + 1) {
            Err(e) => Err(e),
            Ok((annotation, next)) => if kind_at(tokens, next) != Token::Assignment {
                Err(ParseErrorView::InvalidAssignment(tokens[next], context(tokens, next)))
            } else {
                match expression(tokens, next + 1) {
                    Err(e) => Err(e),
                    Ok((initializer, last)) => Ok(
                        (
                            StatementView::Let {
                                is_mut: is_mut,
                                identifier: tokens[name],
                                type_annotation: annotation,
                                initializer: initializer,
                            },
                            last,
                        ),
                    ),
                }
            },
        }
    }
}

/// `return [ EXPR ]?`; `pos` is at `return`. The value is read if the next
/// token can begin an expression.
pub open spec fn return_statement(tokens: Seq<TokenView>, pos: int) -> Parsed<StatementView> {
    if starts_expression(kind_at(tokens, pos + 1)) {
        match expression(tokens, pos + 1) {
            Err(e) => Err(e),
            Ok((value, next)) => Ok(
                (
                    StatementView::Return { return_keyword: tokens[pos], return_value: Some(value) },
                    next,
                ),
            ),
        }
    } else {
        Ok((StatementView::Return { return_keyword: tokens[pos], return_value: None }, pos + 1))
    }
}

/// The rest of a parameter list behind its opening parenthesis:
/// `[ IDENT [ : TYPEANN ]? [ , ]? ]* )`.
pub open spec fn parameter_list(tokens: Seq<TokenView>, pos: int, seen: Seq<ParameterView>) -> Parsed<
    Seq<ParameterView>,
>
    decreases tokens.len() - pos,
{
    if kind_at(tokens, pos) == Token::EOF {
        Err(ParseErrorView::MissingClosingParen(tokens[pos]))
    } else if kind_at(tokens, pos) == Token::RightParantheses {
        Ok((seen, pos + 1))
    } else if kind_at(tokens, pos) != Token::Identifier {
        unexpected(tokens, pos)
    } else {
        match optional_annotation(tokens, pos + 1) {
            Err(e) => Err(e),
            Ok((annotation, next)) => {
                let parameter = ParameterView {
                    identifier: tokens[pos],
                    type_annotation: annotation,
                };
                let after = if kind_at(tokens, next) == Token::Comma {
                    next + 1
                } else {
                    next
                };
                if !advances(tokens, pos, after) {
                    unexpected(tokens, pos)
                } else {
                    parameter_list(tokens, after, seen.push(parameter))
                }
            },
        }
    }
}

/// `[ ( parameters ) ]?`
pub open spec fn optional_parameter_list(tokens: Seq<TokenView>, pos: int) -> Parsed<
    Seq<ParameterView>,
> {
    if kind_at(tokens, pos) == Token::LeftParantheses {
        parameter_list(tokens, pos + 1, Seq::empty())
    } else {
        Ok((Seq::empty(), pos))
    }
}

/// The rest of a block behind its opening brace: `STMT* }`.
pub open spec fn block_items(tokens: Seq<TokenView>, pos: int, seen: Seq<StatementView>) -> Parsed<
    StatementView,
>
    decreases tokens.len() - pos, 2int,
{
    if kind_at(tokens, pos) == Token::EOF {
        Err(ParseErrorView::MissingClosingBrace(tokens[pos]))
    } else if kind_at(tokens, pos) == Token::RightBraces {
        Ok((StatementView::Block { statements: seen }, pos + 1))
    } else {
        match statement(tokens, pos) {
            Err(e) => Err(e),
            Ok((item, next)) => if !advances(tokens, pos, next) {
                unexpected(tokens, pos)
            } else {
                block_items(tokens, next, seen.push(item))
            },
        }
    }
}

/// `if EXPR STMT [ else STMT ]?`; `pos` is at `if`.
pub open spec fn if_statement(tokens: Seq<TokenView>, pos: int) -> Parsed<StatementView>
    decreases tokens.len() - pos, 0int,
{
    match expression(tokens, pos + 1) {
        Err(e) => Err(e),
        Ok((condition, next)) => if !advances(tokens, pos, next) {
            unexpected(tokens, pos)
        } else {
            match statement(tokens, next) {
                Err(e) => Err(e),
                Ok((then, after)) => if kind_at(tokens, after) != Token::Else {
                    Ok(
                        (
                            StatementView::If {
                                if_keyword: tokens[pos],
                                condition: condition,
                                then_branch: Box::new(then),
                                else_branch: None,
                            },
                            after,
                        ),
                    )
                } else if !advances(tokens, pos, after) {
                    unexpected(tokens, pos)
                } else {
                    match statement(tokens, after + 1) {
                        Err(e) => Err(e),
                        Ok((other, last)) => Ok(
                            (
                                StatementView::If {
                                    if_keyword: tokens[pos],
                                    condition: condition,
                                    then_branch: Box::new(then),
                                    else_branch: Some(
                                        ElseView {
                                            else_keyword: tokens[after],
                                            else_statement: Box::new(other),
                                        },
                                    ),
                                },
                                last,
                            ),
                        ),
                    }
                },
            }
        },
    }
}

/// `while EXPR STMT`; `pos` is at `while`.
pub open spec fn while_statement(tokens: Seq<TokenView>, pos: int) -> Parsed<StatementView>
    decreases tokens.len() - pos, 0int,
{
    match expression(tokens, pos + 1) {
        Err(e) => Err(e),
        Ok((condition, next)) => if !advances(tokens, pos, next) {
            unexpected(tokens, pos)
        } else {
            match statement(tokens, next) {
                Err(e) => Err(e),
                Ok((body, last)) => Ok(
                    (
                        StatementView::While {
                            while_keyword: tokens[pos],
                            condition: condition,
                            body: Box::new(body),
                        },
                        last,
                    ),
                ),
            }
        },
    }
}

/// `fn IDENT [ ( parameters ) ]? [ : TYPEANN ]? STMT`; `pos` is at `fn`.
pub open spec fn function_declaration(tokens: Seq<TokenView>, pos: int) -> Parsed<StatementView>
    decreases tokens.len() - pos, 0int,
{
    if kind_at(tokens, pos + 1) != Token::Identifier {
        unexpected(tokens, pos + 1)
    } else {
        match optional_parameter_list(tokens, pos + 2) {
            Err(e) => Err(e),
            Ok((parameters, next)) => match optional_annotation(tokens, next) {
                Err(e) => Err(e),
                Ok((annotation, after)) => if !advances(tokens, pos, after) {
                    unexpected(tokens, pos)
                } else {
                    match statement(tokens, after) {
                        Err(e) => Err(e),
                        Ok((body, last)) => Ok(
                            (
                                StatementView::FuncDecl {
                                    identifier: tokens[pos + 1],
                                    parameters: parameters,
                                    type_annotation: annotation,
                                    body: Box::new(body),
                                },
                                last,
                            ),
                        ),
                    }
                },
            },
        }
    }
}

/// `for IDENT [ : TYPEANN ]? in EXPR STMT`; `pos` is at `for`.
pub open spec fn for_statement(tokens: Seq<TokenView>, pos: int) -> Parsed<StatementView>
    decreases tokens.len() - pos, 0int,
{
    if kind_at(tokens, pos + 1) != Token::Identifier {
        Err(ParseErrorView::InvalidFor(tokens[pos + 1], "Expected variable declaration"@))
    } else {
        match optional_annotation(tokens, pos + 2) {
            Err(e) => Err(e),
            Ok((annotation, next)) => if kind_at(tokens, next) != Token::In {
                Err(ParseErrorView::InvalidFor(tokens[next], "Expected 'in'"@))
            } else {
                match expression(tokens, next + 1) {
                    Err(e) => Err(e),
                    Ok((iterable, after)) => if !advances(tokens, pos, after) {
                        unexpected(tokens, pos)
                    } else {
                        match statement(tokens, after) {
                            Err(e) => Err(e),
                            Ok((body, last)) => Ok(
                                (
                                    StatementView::For {
                                        for_keyword: tokens[pos],
                                        identifier: tokens[pos + 1],
                                        type_annotation: annotation,
                                        iterable: iterable,
                                        body: Box::new(body),
                                    },
                                    last,
                                ),
                            ),
                        }
                    },
                }
            },
        }
    }
}

/// One statement, told by its first token; what starts with no keyword and
/// no brace is an expression statement.
pub open spec fn statement(tokens: Seq<TokenView>, pos: int) -> Parsed<StatementView>
    decreases tokens.len() - pos, 1int,
{
    match kind_at(tokens, pos) {
        Token::Let => let_statement(tokens, pos),
        Token::If => if_statement(tokens, pos),
        Token::LeftBraces => block_items(tokens, pos + 1, Seq::empty()),
        Token::While => while_statement(tokens, pos),
        Token::Fn => function_declaration(tokens, pos),
        Token::For => for_statement(tokens, pos),
        Token::Return => return_statement(tokens, pos),
        _ => match expression(tokens, pos) {
            Err(e) => Err(e),
            Ok((expr, next)) => Ok((StatementView::Expression { expression: expr }, next)),
        },
    }
}

/// The statements from `pos` up to the next `EOF` token, behind those in
/// `seen`, and the position of that `EOF` token.
pub open spec fn statements(tokens: Seq<TokenView>, pos: int, seen: Seq<StatementView>) -> Parsed<
    Seq<StatementView>,
>
    decreases tokens.len() - pos,
{
    if kind_at(tokens, pos) == Token::EOF {
        Ok((seen, pos))
    } else {
        match statement(tokens, pos) {
            Err(e) => Err(e),
            Ok((item, next)) => if !advances(tokens, pos, next) {
                Err(ParseErrorView::UnexpectedToken(tokens[pos], context(tokens, pos)))
            } else {
                statements(tokens, next, seen.push(item))
            },
        }
    }
}

/// The program that a token sequence spells: its top-level statements in
/// order, or the first error.
pub open spec fn program(tokens: Seq<TokenView>) -> Result<Seq<StatementView>, ParseErrorView> {
    match statements(tokens, 0, Seq::empty()) {
        Ok((list, end)) => Ok(list),
        Err(e) => Err(e),
    }
}

// ---------------------------------------------------------------------------
// Every construct holds a token
// ---------------------------------------------------------------------------

/// The position lies within the sequence, and on a token if the sequence
/// ends in `EOF`: an `EOF` token is never read over.
pub open spec fn in_bounds(tokens: Seq<TokenView>, pos: int) -> bool {
    &&& pos <= tokens.len()
    &&& kind_at(tokens, tokens.len() - 1) == Token::EOF ==> pos < tokens.len()
}

/// A successful result lies behind `pos` and in bounds.
pub open spec fn moved<T>(tokens: Seq<TokenView>, pos: int, result: Parsed<T>) -> bool {
    result matches Ok(read) ==> pos < read.1 && in_bounds(tokens, read.1)
}

/// A successful result lies at or behind `pos` and in bounds.
pub open spec fn not_back<T>(tokens: Seq<TokenView>, pos: int, result: Parsed<T>) -> bool {
    result matches Ok(read) ==> pos <= read.1 && in_bounds(tokens, read.1)
}

proof fn lemma_generics_advance(
    tokens: Seq<TokenView>,
    pos: int,
    base: TokenView,
    seen: Seq<TokenView>,
)
    requires
        0 <= pos,
    ensures
        moved(tokens, pos, generics(tokens, pos, base, seen)),
    decreases tokens.len() - pos,
{
    if kind_at(tokens, pos) == Token::Identifier && kind_at(tokens, pos + 1) == Token::Comma {
        lemma_generics_advance(tokens, pos + 2, base, seen.push(tokens[pos]));
    }
}

/// A type annotation that is read holds at least one token; an optional one
/// does not end before it starts.
pub proof fn lemma_annotation_advances(tokens: Seq<TokenView>, pos: int)
    requires
        0 <= pos,
        in_bounds(tokens, pos),
    ensures
        moved(tokens, pos, type_annotation(tokens, pos)),
        not_back(tokens, pos, optional_annotation(tokens, pos)),
{
    if kind_at(tokens, pos) == Token::Identifier && kind_at(tokens, pos + 1) == Token::LowerThan {
        lemma_generics_advance(tokens, pos + 2, tokens[pos], Seq::empty());
    }
    if kind_at(tokens, pos) == Token::Colon {
        if kind_at(tokens, pos + 1) == Token::Identifier && kind_at(tokens, pos + 2)
            == Token::LowerThan {
            lemma_generics_advance(tokens, pos + 3, tokens[pos + 1], Seq::empty());
        }
    }
}

proof fn lemma_expression_list_advances(
    tokens: Seq<TokenView>,
    pos: int,
    close: Token,
    seen: Seq<ExpressionView>,
)
    requires
        0 <= pos,
        close != Token::EOF,
    ensures
        moved(tokens, pos, expression_list(tokens, pos, close, seen)),
    decreases tokens.len() - pos, 6int,
{
    if kind_at(tokens, pos) != Token::EOF && kind_at(tokens, pos) != close {
        lemma_expression_advances(tokens, pos);
        if let Ok((item, next)) = expression(tokens, pos) {
            if kind_at(tokens, next) == Token::Comma && close != Token::Comma {
                lemma_expression_list_advances(tokens, next + 1, close, seen.push(item));
            }
        }
    }
}

/// An expression that is read holds at least one token and ends within the
/// sequence.
pub proof fn lemma_expression_advances(tokens: Seq<TokenView>, pos: int)
    requires
        0 <= pos,
    ensures
        moved(tokens, pos, expression(tokens, pos)),
    decreases tokens.len() - pos, 5int,
{
    lemma_assignment_advances(tokens, pos);
    if let Ok((start, next)) = assignment_expression(tokens, pos) {
        if kind_at(tokens, next) == Token::Range {
            lemma_assignment_advances(tokens, next + 1);
        }
    }
}

proof fn lemma_assignment_advances(tokens: Seq<TokenView>, pos: int)
    requires
        0 <= pos,
    ensures
        moved(tokens, pos, assignment_expression(tokens, pos)),
    decreases tokens.len() - pos, 4int,
{
    if kind_at(tokens, pos) == Token::Identifier && kind_at(tokens, pos + 1) == Token::Assignment {
        lemma_expression_advances(tokens, pos + 2);
    } else if kind_at(tokens, pos) == Token::Identifier && kind_at(tokens, pos + 1)
        == Token::LeftSquareBracket {
        let array = ExpressionView::Variable { identifier: tokens[pos] };
        lemma_array_index_advances(tokens, pos + 1, array);
        if let Ok((target, next)) = array_index(tokens, pos + 1, array) {
            if kind_at(tokens, next) == Token::Assignment {
                lemma_expression_advances(tokens, next + 1);
            } else {
                lemma_binary_tail_advances(tokens, next, 0, target);
            }
        }
    } else {
        lemma_binary_advances(tokens, pos, 0);
    }
}

proof fn lemma_binary_advances(tokens: Seq<TokenView>, pos: int, min: int)
    requires
        0 <= pos,
    ensures
        moved(tokens, pos, binary_expression(tokens, pos, min)),
    decreases tokens.len() - pos, 3int,
{
    lemma_unary_advances(tokens, pos);
    if let Ok((left, next)) = unary_expression(tokens, pos) {
        lemma_binary_tail_advances(tokens, next, min, left);
    }
}

proof fn lemma_binary_tail_advances(tokens: Seq<TokenView>, pos: int, min: int, left: ExpressionView)
    requires
        0 <= pos,
        in_bounds(tokens, pos),
    ensures
        not_back(tokens, pos, binary_tail(tokens, pos, min, left)),
    decreases tokens.len() - pos, 0int,
{
    if let Some(kind) = binary_operator(kind_at(tokens, pos)) {
        if precedence_of(kind) >= min {
            lemma_binary_advances(tokens, pos + 1, precedence_of(kind) + 1);
            if let Ok((right, next)) = binary_expression(tokens, pos + 1, precedence_of(kind) + 1) {
                lemma_binary_tail_advances(
                    tokens,
                    next,
                    min,
                    ExpressionView::Binary {
                        kind: kind,
                        token: tokens[pos],
                        left: Box::new(left),
                        right: Box::new(right),
                    },
                );
            }
        }
    }
}

proof fn lemma_unary_advances(tokens: Seq<TokenView>, pos: int)
    requires
        0 <= pos,
    ensures
        moved(tokens, pos, unary_expression(tokens, pos)),
    decreases tokens.len() - pos, 2int,
{
    if unary_operator(kind_at(tokens, pos)) is Some {
        lemma_unary_advances(tokens, pos + 1);
    } else {
        lemma_primary_advances(tokens, pos);
    }
}

proof fn lemma_array_index_advances(tokens: Seq<TokenView>, pos: int, array: ExpressionView)
    requires
        0 <= pos,
    ensures
        moved(tokens, pos, array_index(tokens, pos, array)),
    decreases tokens.len() - pos, 0int,
{
    if kind_at(tokens, pos) == Token::LeftSquareBracket {
        lemma_expression_advances(tokens, pos + 1);
    }
}

proof fn lemma_primary_advances(tokens: Seq<TokenView>, pos: int)
    requires
        0 <= pos,
    ensures
        moved(tokens, pos, primary_expression(tokens, pos)),
    decreases tokens.len() - pos, 1int,
{
    match kind_at(tokens, pos) {
        Token::LeftParantheses => {
            lemma_expression_advances(tokens, pos + 1);
        },
        Token::LeftSquareBracket => {
            lemma_expression_list_advances(
                tokens,
                pos + 1,
                Token::RightSquareBracket,
                Seq::empty(),
            );
        },
        Token::Identifier => {
            if kind_at(tokens, pos + 1) == Token::LeftParantheses {
                lemma_expression_list_advances(
                    tokens,
                    pos + 2,
                    Token::RightParantheses,
                    Seq::empty(),
                );
            } else if kind_at(tokens, pos + 1) == Token::LeftSquareBracket {
                lemma_array_index_advances(
                    tokens,
                    pos + 1,
                    ExpressionView::Variable { identifier: tokens[pos] },
                );
            }
        },
        Token::Std => {
            if kind_at(tokens, pos + 1) == Token::DoubleColon && kind_at(tokens, pos + 2)
                == Token::Identifier && kind_at(tokens, pos + 3) == Token::LeftParantheses {
                lemma_expression_list_advances(
                    tokens,
                    pos + 4,
                    Token::RightParantheses,
                    Seq::empty(),
                );
            }
        },
        _ => {},
    }
}

proof fn lemma_parameter_list_advances(tokens: Seq<TokenView>, pos: int, seen: Seq<ParameterView>)
    requires
        0 <= pos,
    ensures
        moved(tokens, pos, parameter_list(tokens, pos, seen)),
    decreases tokens.len() - pos,
{
    if kind_at(tokens, pos) == Token::Identifier {
        lemma_annotation_advances(tokens, pos + 1);
        if let Ok((annotation, next)) = optional_annotation(tokens, pos + 1) {
            let after = if kind_at(tokens, next) == Token::Comma {
                next + 1
            } else {
                next
            };
            lemma_parameter_list_advances(
                tokens,
                after,
                seen.push(ParameterView { identifier: tokens[pos], type_annotation: annotation }),
            );
        }
    }
}

proof fn lemma_block_items_advance(tokens: Seq<TokenView>, pos: int, seen: Seq<StatementView>)
    requires
        0 <= pos,
    ensures
        moved(tokens, pos, block_items(tokens, pos, seen)),
    decreases tokens.len() - pos, 2int,
{
    if kind_at(tokens, pos) != Token::EOF && kind_at(tokens, pos) != Token::RightBraces {
        lemma_statement_advances(tokens, pos);
        if let Ok((item, next)) = statement(tokens, pos) {
            lemma_block_items_advance(tokens, next, seen.push(item));
        }
    }
}

/// A statement that is read holds at least one token and ends within the
/// sequence.
pub proof fn lemma_statement_advances(tokens: Seq<TokenView>, pos: int)
    requires
        0 <= pos,
    ensures
        moved(tokens, pos, statement(tokens, pos)),
    decreases tokens.len() - pos, 1int,
{
    match kind_at(tokens, pos) {
        Token::Let => {
            let name = if kind_at(tokens, pos + 1) == Token::Mut {
                pos + 2
            } else {
                pos + 1
            };
            if kind_at(tokens, name) == Token::Identifier {
                lemma_annotation_advances(tokens, name + 1);
                if let Ok((annotation, next)) = optional_annotation(tokens, name + 1) {
                    if kind_at(tokens, next) == Token::Assignment {
                        lemma_expression_advances(tokens, next + 1);
                    }
                }
            }
        },
        Token::If => {
            lemma_expression_advances(tokens, pos + 1);
            if let Ok((condition, next)) = expression(tokens, pos + 1) {
                lemma_statement_advances(tokens, next);
                if let Ok((then, after)) = statement(tokens, next) {
                    if kind_at(tokens, after) == Token::Else {
                        lemma_statement_advances(tokens, after + 1);
                    }
                }
            }
        },
        Token::LeftBraces => {
            lemma_block_items_advance(tokens, pos + 1, Seq::empty());
        },
        Token::While => {
            lemma_expression_advances(tokens, pos + 1);
            if let Ok((condition, next)) = expression(tokens, pos + 1) {
                lemma_statement_advances(tokens, next);
            }
        },
        Token::Fn => {
            if kind_at(tokens, pos + 1) == Token::Identifier {
                if kind_at(tokens, pos + 2) == Token::LeftParantheses {
                    lemma_parameter_list_advances(tokens, pos + 3, Seq::empty());
                }
                if let Ok((parameters, next)) = optional_parameter_list(tokens, pos + 2) {
                    lemma_annotation_advances(tokens, next);
                    if let Ok((annotation, after)) = optional_annotation(tokens, next) {
                        lemma_statement_advances(tokens, after);
                    }
                }
            }
        },
        Token::For => {
            if kind_at(tokens, pos + 1) == Token::Identifier {
                lemma_annotation_advances(tokens, pos + 2);
                if let Ok((annotation, next)) = optional_annotation(tokens, pos + 2) {
                    if kind_at(tokens, next) == Token::In {
                        lemma_expression_advances(tokens, next + 1);
                        if let Ok((iterable, after)) = expression(tokens, next + 1) {
                            lemma_statement_advances(tokens, after);
                        }
                    }
                }
            }
        },
        Token::Return => {
            if starts_expression(kind_at(tokens, pos + 1)) {
                lemma_expression_advances(tokens, pos + 1);
            }
        },
        _ => {
            lemma_expression_advances(tokens, pos);
        },
    }
}

proof fn lemma_statements_end_at_eof(tokens: Seq<TokenView>, pos: int, seen: Seq<StatementView>)
    requires
        0 <= pos,
        in_bounds(tokens, pos),
    ensures
        statements(tokens, pos, seen) matches Ok(read) ==> pos <= read.1 && in_bounds(
            tokens,
            read.1,
        ) && kind_at(tokens, read.1) == Token::EOF,
    decreases tokens.len() - pos,
{
    if kind_at(tokens, pos) != Token::EOF {
        lemma_statement_advances(tokens, pos);
        if let Ok((item, next)) = statement(tokens, pos) {
            lemma_statements_end_at_eof(tokens, next, seen.push(item));
        }
    }
}

/// A program that is read leaves no token over: reading ends on the final
/// `EOF` token of a token sequence, so every token before it belongs to a
/// statement of the program.
pub proof fn lemma_program_reads_every_token(tokens: Seq<TokenView>)
    requires
        crate::tokenizer::is_token_sequence(tokens),
    ensures
        statements(tokens, 0, Seq::empty()) matches Ok(read) ==> read.1 == tokens.len() - 1,
{
    lemma_statements_end_at_eof(tokens, 0, Seq::empty());
}

} // verus!
