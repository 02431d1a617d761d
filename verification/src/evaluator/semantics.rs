//! What the interpreter computes, as functions from the views of the tree
//! and a state to the next state.
//!
//! A state holds the variables, the value of the expression evaluated last,
//! the lines printed so far and the functions declared so far. Evaluation
//! goes through a program statement by statement and stops at the first
//! error. A call evaluates the body of the function in a state of its own;
//! `depth` says how many calls may still nest, which bounds every
//! evaluation.

use crate::parser::{
    ASTBinaryOperatorKind, ASTUnaryOperatorKind, ExpressionView, ParameterView, StatementView,
};
use crate::text::decimal;
use vstd::prelude::*;

verus! {

/// A value of the interpreted language.
pub enum Value {
    Number(i64),
    String(Seq<char>),
    Array(Seq<Value>),
}

/// A variable and its value.
pub struct Binding {
    pub name: Seq<char>,
    pub value: Value,
}

/// The interpreter's state.
pub struct State {
    /// The variables, in the order in which they were first bound.
    pub variables: Seq<Binding>,
    /// The value of the expression evaluated last, if any was.
    pub last_value: Option<Value>,
    /// The lines printed so far.
    pub output: Seq<Seq<char>>,
    /// The function declarations met so far.
    pub functions: Seq<StatementView>,
}

/// Why evaluation stopped.
pub enum InterpreterErrorView {
    UndefinedVariable(Seq<char>),
    TypeMismatch(Seq<char>, Seq<char>),
    UnsupportedStdCall(Seq<char>),
    UnsupportedStatement(Seq<char>),
    IndexOutOfRange,
    DivisionByZero,
}

/// The line that reports an error of the interpreter.
pub open spec fn error_message(error: InterpreterErrorView) -> Seq<char> {
    match error {
        InterpreterErrorView::UndefinedVariable(name) => "Runtime error: undefined variable "@
            + name,
        InterpreterErrorView::TypeMismatch(expected, found) => "Runtime error: expected "@
            + expected + ", found "@ + found,
        InterpreterErrorView::UnsupportedStdCall(name) => "Runtime error: unsupported std call "@
            + name,
        InterpreterErrorView::UnsupportedStatement(kind) => "Runtime error: unsupported statement "@
            + kind,
        InterpreterErrorView::IndexOutOfRange => "Runtime error: index out of range"@,
        InterpreterErrorView::DivisionByZero => "Runtime error: division by zero"@,
    }
}

/// The outcome of a step: the next state or the error.
pub type Step = Result<State, InterpreterErrorView>;

/// The outcome of evaluating for a value: the value and the next state, or
/// the error.
pub type Evaluated<T> = Result<(T, State), InterpreterErrorView>;

/// The state before anything is evaluated.
pub open spec fn initial() -> State {
    State {
        variables: Seq::empty(),
        last_value: None,
        output: Seq::empty(),
        functions: Seq::empty(),
    }
}

// ---------------------------------------------------------------------------
// Variables
// ---------------------------------------------------------------------------

/// Index of the variable `name` among the first `n` bindings, if it is
/// there.
pub open spec fn position_of(variables: Seq<Binding>, name: Seq<char>, n: int) -> Option<int>
    decreases n,
{
    if n <= 0 {
        None
    } else {
        match position_of(variables, name, n - 1) {
            Some(i) => Some(i),
            None => if variables[n - 1].name == name {
                Some(n - 1)
            } else {
                None
            },
        }
    }
}

/// The value of the variable `name`, if it is bound.
pub open spec fn lookup(variables: Seq<Binding>, name: Seq<char>) -> Option<Value> {
    match position_of(variables, name, variables.len() as int) {
        Some(i) => Some(variables[i].value),
        None => None,
    }
}

/// The variables with `name` bound to `value`: in the place of its earlier
/// binding, or behind all others.
pub open spec fn bind(variables: Seq<Binding>, name: Seq<char>, value: Value) -> Seq<Binding> {
    match position_of(variables, name, variables.len() as int) {
        Some(i) => variables.update(i, Binding { name: name, value: value }),
        None => variables.push(Binding { name: name, value: value }),
    }
}

// ---------------------------------------------------------------------------
// Numbers and text
// ---------------------------------------------------------------------------

/// The value of a decimal digit; zero for any other character.
pub open spec fn digit_value(c: char) -> int {
    if '0' <= c <= '9' {
        c as int - '0' as int
    } else {
        0
    }
}

/// Every character is a decimal digit.
pub open spec fn all_digits(text: Seq<char>) -> bool {
    forall|i: int| 0 <= i < text.len() ==> '0' <= #[trigger] text[i] <= '9'
}

/// The number that the first `n` characters spell in decimal.
pub open spec fn decimal_value(text: Seq<char>, n: int) -> int
    decreases n,
{
    if n <= 0 {
        0
    } else {
        decimal_value(text, n - 1) * 10 + digit_value(text[n - 1])
    }
}

/// The number that a lexeme spells: it is made of decimal digits, at least
/// one, and its value fits in 64 bits.
pub open spec fn number_of(lexeme: Seq<char>) -> Option<i64> {
    if lexeme.len() > 0 && all_digits(lexeme) && decimal_value(lexeme, lexeme.len() as int)
        <= i64::MAX {
        Some(decimal_value(lexeme, lexeme.len() as int) as i64)
    } else {
        None
    }
}

/// The first `n` values of a list as text, separated by `, `.
pub open spec fn render_list(list: Seq<Value>, n: int) -> Seq<char>
    decreases list, n,
{
    if n <= 0 || n > list.len() {
        Seq::empty()
    } else if n == 1 {
        render(list[0])
    } else {
        render_list(list, n - 1) + ", "@ + render(list[n - 1])
    }
}

/// A value as text: a number in decimal, a string as it is, an array as its
/// elements in square brackets.
pub open spec fn render(value: Value) -> Seq<char>
    decreases value, 0int,
{
    match value {
        Value::Number(n) => decimal(n as int),
        Value::String(s) => s,
        Value::Array(elements) => "["@ + render_list(elements, elements.len() as int) + "]"@,
    }
}

/// The first `n` values of a list as text, separated by blanks: a printed
/// line.
pub open spec fn printed(list: Seq<Value>, n: int) -> Seq<char>
    decreases n,
{
    if n <= 0 {
        Seq::empty()
    } else if n == 1 {
        render(list[0])
    } else {
        printed(list, n - 1) + " "@ + render(list[n - 1])
    }
}

/// What a value is called in an error.
pub open spec fn kind_name(value: Option<Value>) -> Seq<char> {
    match value {
        Some(Value::Number(_)) => "number"@,
        Some(Value::String(_)) => "string"@,
        Some(Value::Array(_)) => "array"@,
        None => "nothing"@,
    }
}

/// The failure of a value that is of another kind than expected.
pub open spec fn mismatch<T>(expected: Seq<char>, found: Option<Value>) -> Result<
    T,
    InterpreterErrorView,
> {
    Err(InterpreterErrorView::TypeMismatch(expected, kind_name(found)))
}

// ---------------------------------------------------------------------------
// Operations
// ---------------------------------------------------------------------------

/// The result of a unary operator; arithmetic wraps around.
pub open spec fn unary_result(kind: ASTUnaryOperatorKind, operand: i64) -> i64 {
    match kind {
        ASTUnaryOperatorKind::Subtraction => 0i64.wrapping_sub(operand),
        ASTUnaryOperatorKind::BwNot => !operand,
    }
}

/// The result of a binary operator; arithmetic wraps around, a comparison
/// gives one or zero, and division by zero is an error.
pub open spec fn binary_result(kind: ASTBinaryOperatorKind, left: i64, right: i64) -> Result<
    i64,
    InterpreterErrorView,
> {
    match kind {
        ASTBinaryOperatorKind::Addition => Ok(left.wrapping_add(right)),
        ASTBinaryOperatorKind::Subtraction => Ok(left.wrapping_sub(right)),
        ASTBinaryOperatorKind::Star => Ok(left.wrapping_mul(right)),
        ASTBinaryOperatorKind::Division => if right == 0 {
            Err(InterpreterErrorView::DivisionByZero)
        } else {
            match left.checked_div(right) {
                Some(quotient) => Ok(quotient),
                None => Ok(i64::MIN),
            }
        },
        ASTBinaryOperatorKind::BwAnd => Ok(left & right),
        ASTBinaryOperatorKind::BwOr => Ok(left | right),
        ASTBinaryOperatorKind::BwXor => Ok(left ^ right),
        ASTBinaryOperatorKind::Equals => Ok(
            if left == right {
                1i64
            } else {
                0i64
            },
        ),
        ASTBinaryOperatorKind::Inequal => Ok(
            if left != right {
                1i64
            } else {
                0i64
            },
        ),
        ASTBinaryOperatorKind::LowerThan => Ok(
            if left < right {
                1i64
            } else {
                0i64
            },
        ),
        ASTBinaryOperatorKind::GreaterThan => Ok(
            if left > right {
                1i64
            } else {
                0i64
            },
        ),
    }
}

/// The numbers from `start` up to, not including, `end`.
pub open spec fn range_values(start: i64, end: i64) -> Seq<Value> {
    if end <= start {
        Seq::empty()
    } else {
        Seq::new((end - start) as nat, |i: int| Value::Number((start + i) as i64))
    }
}

/// The element of an array at an index.
pub open spec fn element_at(elements: Seq<Value>, index: i64) -> Result<Value, InterpreterErrorView> {
    if 0 <= index < elements.len() {
        Ok(elements[index as int])
    } else {
        Err(InterpreterErrorView::IndexOutOfRange)
    }
}

/// The array with the element at an index replaced.
pub open spec fn store_element(elements: Seq<Value>, index: i64, value: Value) -> Result<
    Seq<Value>,
    InterpreterErrorView,
> {
    if 0 <= index < elements.len() {
        Ok(elements.update(index as int, value))
    } else {
        Err(InterpreterErrorView::IndexOutOfRange)
    }
}

/// The failure of a construct that the interpreter does not evaluate.
pub open spec fn unsupported<T>(kind: Seq<char>) -> Result<T, InterpreterErrorView> {
    Err(InterpreterErrorView::UnsupportedStatement(kind))
}

// ---------------------------------------------------------------------------
// Functions
// ---------------------------------------------------------------------------

/// The statement declares the function `name`.
pub open spec fn declares(statement: StatementView, name: Seq<char>) -> bool {
    match statement {
        StatementView::FuncDecl { identifier, parameters, type_annotation, body } => identifier.lexeme
            == name,
        _ => false,
    }
}

/// Index of the last declaration of the function `name` among the first
/// `n` declarations, if there is one.
pub open spec fn declaration_index(functions: Seq<StatementView>, name: Seq<char>, n: int) -> Option<
    int,
>
    decreases n,
{
    if n <= 0 {
        None
    } else if declares(functions[n - 1], name) {
        Some(n - 1)
    } else {
        declaration_index(functions, name, n - 1)
    }
}

/// The declaration that a call of `name` goes to: the last one of that
/// name.
pub open spec fn declaration_of(functions: Seq<StatementView>, name: Seq<char>) -> Option<
    StatementView,
> {
    match declaration_index(functions, name, functions.len() as int) {
        Some(i) => Some(functions[i]),
        None => None,
    }
}

/// The variables of a call: the first `n` parameters, each bound to the
/// argument in its place.
pub open spec fn arguments_bound(parameters: Seq<ParameterView>, values: Seq<Value>, n: int) -> Seq<
    Binding,
>
    decreases n,
{
    if n <= 0 {
        Seq::empty()
    } else {
        bind(
            arguments_bound(parameters, values, n - 1),
            parameters[n - 1].identifier.lexeme,
            values[n - 1],
        )
    }
}

/// The state in which the body of a called function starts: its parameters
/// are its only variables, no value is evaluated yet, and it goes on
/// printing where the caller stopped and knows the functions that the
/// caller knows.
pub open spec fn frame(parameters: Seq<ParameterView>, values: Seq<Value>, caller: State) -> State {
    State {
        variables: arguments_bound(parameters, values, parameters.len() as int),
        last_value: None,
        output: caller.output,
        functions: caller.functions,
    }
}

/// The caller's state after a call has returned: the value that the body
/// evaluated last is the value of the call, what the body printed stays
/// printed, and the caller's variables and functions are untouched.
pub open spec fn returned(caller: State, done: State) -> State {
    State { last_value: done.last_value, output: done.output, ..caller }
}

// ---------------------------------------------------------------------------
// Expressions
// ---------------------------------------------------------------------------

/// The state with `value` as the value evaluated last.
pub open spec fn with_value(state: State, value: Value) -> State {
    State { last_value: Some(value), ..state }
}

/// The state with `name` bound to `value`.
pub open spec fn with_binding(state: State, name: Seq<char>, value: Value) -> State {
    State { variables: bind(state.variables, name, value), ..state }
}

/// The values of the expressions of a list from index `i` on, evaluated in
/// order, behind those in `seen`.
pub open spec fn evaluate_list(
    list: Seq<ExpressionView>,
    i: int,
    state: State,
    seen: Seq<Value>,
    depth: nat,
) -> Evaluated<Seq<Value>>
    decreases depth, 0int, list, list.len() - i,
{
    if i < 0 || i >= list.len() {
        Ok((seen, state))
    } else {
        match evaluate_expression(list[i], state, depth) {
            Err(e) => Err(e),
            Ok((value, next)) => evaluate_list(list, i + 1, next, seen.push(value), depth),
        }
    }
}

/// The value of an expression: what evaluating it leaves as the value
/// evaluated last.
pub open spec fn evaluate_expression(e: ExpressionView, state: State, depth: nat) -> Evaluated<Value>
    decreases depth, 0int, e, 1int,
{
    match visit_expression(e, state, depth) {
        Err(error) => Err(error),
        Ok(next) => match next.last_value {
            Some(value) => Ok((value, next)),
            None => mismatch("value"@, None),
        },
    }
}

/// An expression evaluated for a number.
pub open spec fn evaluate_number(e: ExpressionView, state: State, depth: nat) -> Evaluated<i64>
    decreases depth, 0int, e, 2int,
{
    match evaluate_expression(e, state, depth) {
        Err(error) => Err(error),
        Ok((Value::Number(n), next)) => Ok((n, next)),
        Ok((other, next)) => mismatch("number"@, Some(other)),
    }
}

/// The state after an expression is evaluated.
pub open spec fn visit_expression(e: ExpressionView, state: State, depth: nat) -> Step
    decreases depth, 0int, e, 0int,
{
    match e {
        ExpressionView::Number { token } => match number_of(token.lexeme) {
            Some(n) => Ok(with_value(state, Value::Number(n))),
            None => Err(InterpreterErrorView::TypeMismatch("number"@, token.lexeme)),
        },
        ExpressionView::String { token } => Ok(with_value(state, Value::String(token.lexeme))),
        ExpressionView::Variable { identifier } => match lookup(
            state.variables,
            identifier.lexeme,
        ) {
            Some(value) => Ok(with_value(state, value)),
            None => Err(InterpreterErrorView::UndefinedVariable(identifier.lexeme)),
        },
        ExpressionView::Unary { kind, token, operand } => match evaluate_number(*operand, state, depth) {
            Err(error) => Err(error),
            Ok((n, next)) => Ok(with_value(next, Value::Number(unary_result(kind, n)))),
        },
        ExpressionView::Binary { kind, token, left, right } => match evaluate_number(*left, state, depth) {
            Err(error) => Err(error),
            Ok((l, middle)) => match evaluate_number(*right, middle, depth) {
                Err(error) => Err(error),
                Ok((r, next)) => match binary_result(kind, l, r) {
                    Err(error) => Err(error),
                    Ok(n) => Ok(with_value(next, Value::Number(n))),
                },
            },
        },
        ExpressionView::Parenthesized { expression } => visit_expression(*expression, state, depth),
        ExpressionView::Assignment { identifier, expression } => match evaluate_expression(
            *expression,
            state,
            depth,
        ) {
            Err(error) => Err(error),
            Ok((value, next)) => Ok(
                with_value(with_binding(next, identifier.lexeme, value), value),
            ),
        },
        ExpressionView::ArrayAssignment { identifier, index_expression, expression } => match *index_expression {
            ExpressionView::ArrayIndex { array, index } => match *array {
                ExpressionView::Variable { identifier: name } => match lookup(
                    state.variables,
                    name.lexeme,
                ) {
                    None => Err(InterpreterErrorView::UndefinedVariable(name.lexeme)),
                    Some(Value::Array(elements)) => match evaluate_number(*index, state, depth) {
                        Err(error) => Err(error),
                        Ok((i, middle)) => match evaluate_expression(*expression, middle, depth) {
                            Err(error) => Err(error),
                            Ok((value, next)) => match store_element(elements, i, value) {
                                Err(error) => Err(error),
                                Ok(stored) => Ok(
                                    with_value(
                                        with_binding(next, name.lexeme, Value::Array(stored)),
                                        value,
                                    ),
                                ),
                            },
                        },
                    },
                    Some(other) => mismatch("array"@, Some(other)),
                },
                _ => unsupported("ArrayAssignment"@),
            },
            _ => unsupported("ArrayAssignment"@),
        },
        ExpressionView::Range { start, end } => match evaluate_number(*start, state, depth) {
            Err(error) => Err(error),
            Ok((first, middle)) => match evaluate_number(*end, middle, depth) {
                Err(error) => Err(error),
                Ok((last, next)) => Ok(with_value(next, Value::Array(range_values(first, last)))),
            },
        },
        ExpressionView::Array { elements } => match evaluate_list(elements, 0, state, Seq::empty(), depth) {
            Err(error) => Err(error),
            Ok((values, next)) => Ok(with_value(next, Value::Array(values))),
        },
        ExpressionView::ArrayIndex { array, index } => match evaluate_expression(*array, state, depth) {
            Err(error) => Err(error),
            Ok((Value::Array(elements), middle)) => match evaluate_number(*index, middle, depth) {
                Err(error) => Err(error),
                Ok((i, next)) => match element_at(elements, i) {
                    Err(error) => Err(error),
                    Ok(value) => Ok(with_value(next, value)),
                },
            },
            Ok((other, middle)) => mismatch("array"@, Some(other)),
        },
        ExpressionView::StdCall { std_keyword, double_colon, identifier, arguments } => if identifier.lexeme
            == "println"@ {
            match evaluate_list(arguments, 0, state, Seq::empty(), depth) {
                Err(error) => Err(error),
                Ok((values, next)) => Ok(
                    State {
                        output: next.output.push(printed(values, values.len() as int)),
                        ..next
                    },
                ),
            }
        } else {
            Err(InterpreterErrorView::UnsupportedStdCall(identifier.lexeme))
        },
        ExpressionView::Boolean { value, token } => unsupported("Boolean"@),
        ExpressionView::Call { identifier, arguments } => match evaluate_list(
            arguments,
            0,
            state,
            Seq::empty(),
            depth,
        ) {
            Err(error) => Err(error),
            Ok((values, next)) => match declaration_of(next.functions, identifier.lexeme) {
                Some(StatementView::FuncDecl { identifier: name, parameters, type_annotation, body }) => {
                    if parameters.len() != values.len() {
                        Err(InterpreterErrorView::TypeMismatch("arguments"@, identifier.lexeme))
                    } else if depth == 0 {
                        unsupported("Call"@)
                    } else {
                        match visit_statement(
                            *body,
                            frame(parameters, values, next),
                            (depth - 1) as nat,
                        ) {
                            Err(error) => Err(error),
                            Ok(done) => Ok(returned(next, done)),
                        }
                    }
                },
                _ => Err(InterpreterErrorView::UndefinedVariable(identifier.lexeme)),
            },
        },
        ExpressionView::TypeAnnotation { base, generics } => unsupported("TypeAnnotation"@),
    }
}

// ---------------------------------------------------------------------------
// Statements
// ---------------------------------------------------------------------------

/// The state after the statements of a list from index `i` on, in order.
pub open spec fn visit_block(list: Seq<StatementView>, i: int, state: State, depth: nat) -> Step
    decreases depth, 1int, list, list.len() - i,
{
    if i < 0 || i >= list.len() {
        Ok(state)
    } else {
        match visit_statement(list[i], state, depth) {
            Err(error) => Err(error),
            Ok(next) => visit_block(list, i + 1, next, depth),
        }
    }
}

/// The state after the body of a `for` has run for the elements from index
/// `i` on, each bound to `name` in its turn.
pub open spec fn iterate(
    body: StatementView,
    name: Seq<char>,
    elements: Seq<Value>,
    i: int,
    state: State,
    depth: nat,
) -> Step
    decreases depth, 1int, body, elements.len() - i + 1,
{
    if i < 0 || i >= elements.len() {
        Ok(state)
    } else {
        match visit_statement(body, with_binding(state, name, elements[i]), depth) {
            Err(error) => Err(error),
            Ok(next) => iterate(body, name, elements, i + 1, next, depth),
        }
    }
}

/// The state after a statement.
pub open spec fn visit_statement(s: StatementView, state: State, depth: nat) -> Step
    decreases depth, 1int, s, 0int,
{
    match s {
        StatementView::Expression { expression } => visit_expression(expression, state, depth),
        StatementView::Let { is_mut, identifier, type_annotation, initializer } => match evaluate_expression(
            initializer,
            state,
            depth,
        ) {
            Err(error) => Err(error),
            Ok((value, next)) => Ok(with_binding(next, identifier.lexeme, value)),
        },
        StatementView::If { if_keyword, condition, then_branch, else_branch } => match evaluate_number(
            condition,
            state,
            depth,
        ) {
            Err(error) => Err(error),
            Ok((n, next)) => if n != 0 {
                visit_statement(*then_branch, next, depth)
            } else {
                match else_branch {
                    Some(other) => visit_statement(*other.else_statement, next, depth),
                    None => Ok(next),
                }
            },
        },
        StatementView::Block { statements } => visit_block(statements, 0, state, depth),
        StatementView::For { for_keyword, identifier, type_annotation, iterable, body } => match evaluate_expression(
            iterable,
            state,
            depth,
        ) {
            Err(error) => Err(error),
            Ok((Value::Array(elements), next)) => iterate(*body, identifier.lexeme, elements, 0, next, depth),
            Ok((other, next)) => mismatch("array"@, Some(other)),
        },
        StatementView::Return { return_keyword, return_value } => match return_value {
            Some(value) => visit_expression(value, state, depth),
            None => Ok(state),
        },
        StatementView::FuncDecl { identifier, parameters, type_annotation, body } => Ok(
            State { functions: state.functions.push(s), ..state },
        ),
        StatementView::While { while_keyword, condition, body } => unsupported("While"@),
    }
}

/// The outcome of a further statement: an error stays what it is.
pub open spec fn and_statement(before: Step, s: StatementView, depth: nat) -> Step {
    match before {
        Ok(state) => visit_statement(s, state, depth),
        Err(error) => Err(error),
    }
}

/// The state after the first `n` statements of a program, from `state`.
pub open spec fn run(program: Seq<StatementView>, n: int, state: State, depth: nat) -> Step
    decreases n,
{
    if n <= 0 {
        Ok(state)
    } else {
        and_statement(run(program, n - 1, state, depth), program[n - 1], depth)
    }
}

/// The text of the value evaluated last; no text if no value was
/// evaluated.
pub open spec fn result_text(state: State) -> Seq<char> {
    match state.last_value {
        Some(value) => render(value),
        None => Seq::empty(),
    }
}

/// How deep calls may nest when a program is interpreted.
pub const MAX_CALL_DEPTH: usize = 64;

/// What interpreting a program gives: the value evaluated last, as text, or
/// the first error.
pub open spec fn interpreted(program: Seq<StatementView>) -> Result<Seq<char>, InterpreterErrorView> {
    match run(program, program.len() as int, initial(), MAX_CALL_DEPTH as nat) {
        Err(error) => Err(error),
        Ok(state) => Ok(result_text(state)),
    }
}

/// Evaluation stops at the first error: once some statements have failed,
/// any more of them fail in the same way.
pub proof fn lemma_run_stops(
    program: Seq<StatementView>,
    n: int,
    m: int,
    state: State,
    depth: nat,
)
    requires
        0 <= n <= m,
        run(program, n, state, depth) is Err,
    ensures
        run(program, m, state, depth) == run(program, n, state, depth),
    decreases m,
{
    if n < m {
        lemma_run_stops(program, n, m - 1, state, depth);
    }
}

// ---------------------------------------------------------------------------
// Laws of the state
// ---------------------------------------------------------------------------

/// Where a variable is found, it stands there, and nowhere before.
pub proof fn lemma_position_of(variables: Seq<Binding>, name: Seq<char>, n: int)
    requires
        0 <= n <= variables.len(),
    ensures
        match position_of(variables, name, n) {
            Some(i) => 0 <= i < n && variables[i].name == name && forall|j: int|
                0 <= j < i ==> (#[trigger] variables[j]).name != name,
            None => forall|j: int| 0 <= j < n ==> (#[trigger] variables[j]).name != name,
        },
    decreases n,
{
    if n > 0 {
        lemma_position_of(variables, name, n - 1);
    }
}

/// The position of a variable is the same in two lists that have the same
/// names.
proof fn lemma_position_by_names(a: Seq<Binding>, b: Seq<Binding>, name: Seq<char>, n: int)
    requires
        0 <= n <= a.len(),
        n <= b.len(),
        forall|j: int| 0 <= j < n ==> (#[trigger] a[j]).name == b[j].name,
    ensures
        position_of(a, name, n) == position_of(b, name, n),
    decreases n,
{
    if n > 0 {
        lemma_position_by_names(a, b, name, n - 1);
    }
}

/// A variable that was bound has the value it was bound to, and binding it
/// changes no other variable.
pub proof fn lemma_lookup_after_bind(
    variables: Seq<Binding>,
    name: Seq<char>,
    value: Value,
    other: Seq<char>,
)
    ensures
        lookup(bind(variables, name, value), name) == Some(value),
        other != name ==> lookup(bind(variables, name, value), other) == lookup(variables, other),
{
    let n = variables.len() as int;
    let bound = bind(variables, name, value);
    lemma_position_of(variables, name, n);
    lemma_position_of(variables, other, n);
    match position_of(variables, name, n) {
        Some(i) => {
            assert forall|j: int| 0 <= j < n implies (#[trigger] variables[j]).name == bound[j].name by {}
            lemma_position_by_names(variables, bound, name, n);
            lemma_position_by_names(variables, bound, other, n);
        },
        None => {
            assert forall|j: int| 0 <= j < n implies (#[trigger] variables[j]).name == bound[j].name by {}
            lemma_position_by_names(variables, bound, name, n);
            lemma_position_by_names(variables, bound, other, n);
            lemma_position_of(bound, other, n);
            lemma_position_of(bound, other, n + 1);
        },
    }
}

/// An assignment to an element of an array is seen when the element is
/// read: with the array stored under its name again, the name holds the
/// array as written, the element at the index is the value assigned, and
/// every other element is as before.
pub proof fn lemma_stored_element_is_read(
    variables: Seq<Binding>,
    name: Seq<char>,
    elements: Seq<Value>,
    index: i64,
    value: Value,
)
    requires
        0 <= index < elements.len(),
    ensures
        store_element(elements, index, value) matches Ok(stored) && {
            &&& lookup(bind(variables, name, Value::Array(stored)), name) == Some(Value::Array(stored))
            &&& element_at(stored, index) == Ok::<Value, InterpreterErrorView>(value)
            &&& forall|other: i64|
                0 <= other < elements.len() && other != index ==> #[trigger] element_at(stored, other)
                    == element_at(elements, other)
        },
{
    let stored = elements.update(index as int, value);
    lemma_lookup_after_bind(variables, name, Value::Array(stored), name);
}

/// A range is half open: it holds its start and every number up to, but
/// not, its end.
pub proof fn lemma_range_is_half_open(start: i64, end: i64)
    requires
        start <= end,
    ensures
        range_values(start, end).len() == end - start,
        forall|i: int|
            0 <= i < end - start ==> #[trigger] range_values(start, end)[i] == Value::Number(
                (start + i) as i64,
            ),
{
}

} // verus!
