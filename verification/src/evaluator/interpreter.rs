//! The interpreter: a walk over the tree that evaluates it against a set of
//! variables.

use crate::evaluator::semantics;
use crate::evaluator::semantics::{
    all_digits, binary_result, bind, decimal_value, evaluate_list, kind_name, lookup, number_of,
    position_of, printed, range_values, render, render_list, with_binding, with_value, Binding,
    Evaluated, InterpreterErrorView, State, Step, Value, MAX_CALL_DEPTH,
};
use crate::parser::visitor::{after_statements, ASTVisitor};
use crate::parser::{
    expression_view, expression_views, parameter_views, statement_view, statement_views,
    ASTArrayAssignmentExpression, ASTCallExpression, FuncDeclParameter,
    ASTArrayExpression, ASTArrayIndexExpression, ASTAssignmentExpression, ASTBinaryExpression,
    ASTBinaryOperatorKind, ASTBlockStatement, ASTExpression, ASTExpressionKind, ASTForStatement,
    ASTFuncDeclStatement, ASTIfStatement, ASTLetStatement, ASTRangeExpression,
    ASTReturnStatement, ASTStatement, ASTStatementKind, ASTStdCallExpression,
    ASTUnaryExpression, ASTUnaryOperatorKind, ExpressionView, StatementView,
};
use crate::text::write_decimal;
use vstd::prelude::*;

verus! {

/// A value of the interpreted language.
#[derive(Debug)]
pub enum VariableType {
    Number(i64),
    String(String),
    Array(Vec<VariableType>),
}

/// The views of a list of values, in order.
pub open spec fn values_view(list: Seq<VariableType>) -> Seq<Value>
    decreases list,
{
    Seq::new(
        list.len(),
        |i: int|
            if 0 <= i < list.len() {
                value_view(list[i])
            } else {
                arbitrary()
            },
    )
}

/// The view of a value.
pub open spec fn value_view(value: VariableType) -> Value
    decreases value,
{
    match value {
        VariableType::Number(n) => Value::Number(n),
        VariableType::String(s) => Value::String(s@),
        VariableType::Array(elements) => Value::Array(values_view(elements@)),
    }
}

impl View for VariableType {
    type V = Value;

    open spec fn view(&self) -> Value {
        value_view(*self)
    }
}

/// The view of a value that may be missing.
pub open spec fn optional_value(value: Option<VariableType>) -> Option<Value> {
    match value {
        Some(v) => Some(v@),
        None => None,
    }
}

impl VariableType {
    /// A copy of the value.
    pub fn duplicate(&self) -> (res: Self)
        ensures
            res@ == self@,
        decreases self, 0int,
    {
        match self {
            VariableType::Number(n) => VariableType::Number(*n),
            VariableType::String(s) => VariableType::String(s.clone()),
            VariableType::Array(elements) => VariableType::Array(duplicate_list(elements)),
        }
    }

    /// The value as text: a number in decimal, a string as it is, an array
    /// as its elements in square brackets.
    pub fn to_string(&self) -> (text: String)
        ensures
            text@ == render(self@),
    {
        let mut text = String::new();
        self.write(&mut text);
        text
    }

    /// Appends the value as text.
    fn write(&self, out: &mut String)
        ensures
            final(out)@ == old(out)@ + render(self@),
        decreases self, 0int,
    {
        match self {
            VariableType::Number(n) => write_decimal(out, *n),
            VariableType::String(s) => out.append(s.as_str()),
            VariableType::Array(elements) => {
                out.append("[");
                write_list(elements, out);
                out.append("]");
                assert(out@ =~= old(out)@ + render(self@));
            },
        }
    }
}

/// A copy of a list of values.
fn duplicate_list(list: &Vec<VariableType>) -> (copy: Vec<VariableType>)
    ensures
        values_view(copy@) == values_view(list@),
    decreases list, 1int,
{
    let mut copy: Vec<VariableType> = Vec::new();
    let mut i: usize = 0;
    while i < list.len()
        invariant
            i <= list@.len(),
            copy@.len() == i,
            forall|j: int| 0 <= j < i ==> copy@[j]@ == list@[j]@,
        decreases list@.len() - i,
    {
        copy.push(list[i].duplicate());
        i = i + 1;
    }
    assert(values_view(copy@) =~= values_view(list@));
    copy
}

/// Appends the values of a list as text, separated by `, `.
fn write_list(list: &Vec<VariableType>, out: &mut String)
    ensures
        final(out)@ == old(out)@ + render_list(values_view(list@), list@.len() as int),
    decreases list, 1int,
{
    let ghost views = values_view(list@);
    let mut i: usize = 0;
    assert(out@ =~= old(out)@ + render_list(views, 0));
    while i < list.len()
        invariant
            i <= list@.len(),
            views == values_view(list@),
            out@ == old(out)@ + render_list(views, i as int),
        decreases list@.len() - i,
    {
        if i > 0 {
            out.append(", ");
        }
        list[i].write(out);
        i = i + 1;
        assert(out@ =~= old(out)@ + render_list(views, i as int));
    }
}

/// Reads a lexeme as a decimal number; nothing if it is not made of digits
/// or does not fit in 64 bits.
pub fn parse_number(lexeme: &str) -> (res: Option<i64>)
    ensures
        res == number_of(lexeme@),
{
    let len = lexeme.unicode_len();
    if len == 0 {
        return None;
    }
    let mut value: i64 = 0;
    let mut i: usize = 0;
    while i < len
        invariant
            i <= len,
            len == lexeme@.len(),
            value == decimal_value(lexeme@, i as int),
            all_digits(lexeme@.subrange(0, i as int)),
        decreases len - i,
    {
        let c = lexeme.get_char(i);
        if c < '0' || c > '9' {
            return None;
        }
        let d = (c as u32 - 48) as i64;
        proof {
            lemma_decimal_value_grows(lexeme@, i + 1, len as int);
        }
        if value > (i64::MAX - d) / 10 {
            return None;
        }
        value = value * 10 + d;
        i = i + 1;
        assert(all_digits(lexeme@.subrange(0, i as int))) by {
            assert forall|j: int| 0 <= j < i implies '0' <= #[trigger] lexeme@.subrange(
                0,
                i as int,
            )[j] <= '9' by {
                if j < i - 1 {
                    assert(lexeme@.subrange(0, i - 1)[j] == lexeme@[j]);
                }
            }
        }
    }
    assert(lexeme@.subrange(0, len as int) =~= lexeme@);
    Some(value)
}

/// The number that a prefix spells does not shrink as the prefix grows.
pub proof fn lemma_decimal_value_grows(text: Seq<char>, n: int, m: int)
    requires
        0 <= n <= m,
    ensures
        0 <= decimal_value(text, n) <= decimal_value(text, m),
    decreases m,
{
    if n < m {
        lemma_decimal_value_grows(text, n, m - 1);
    } else if n > 0 {
        lemma_decimal_value_grows(text, n - 1, n - 1);
    }
}

// ---------------------------------------------------------------------------
// Errors and state
// ---------------------------------------------------------------------------

/// Why evaluation stopped.
#[derive(Debug)]
pub enum InterpreterError {
    /// A variable is read that was never bound.
    UndefinedVariable(String),
    /// A value is of another kind than the one expected: what was expected,
    /// what was found.
    TypeMismatch(String, String),
    /// A function of `std` other than `println` is called.
    UnsupportedStdCall(String),
    /// A construct that the interpreter does not evaluate.
    UnsupportedStatement(String),
    /// An array is indexed outside its bounds.
    IndexOutOfRange,
    /// A number is divided by zero.
    DivisionByZero,
}

impl View for InterpreterError {
    type V = InterpreterErrorView;

    open spec fn view(&self) -> InterpreterErrorView {
        match self {
            InterpreterError::UndefinedVariable(name) => InterpreterErrorView::UndefinedVariable(
                name@,
            ),
            InterpreterError::TypeMismatch(expected, found) => InterpreterErrorView::TypeMismatch(
                expected@,
                found@,
            ),
            InterpreterError::UnsupportedStdCall(name) => InterpreterErrorView::UnsupportedStdCall(
                name@,
            ),
            InterpreterError::UnsupportedStatement(kind) => InterpreterErrorView::UnsupportedStatement(
                kind@,
            ),
            InterpreterError::IndexOutOfRange => InterpreterErrorView::IndexOutOfRange,
            InterpreterError::DivisionByZero => InterpreterErrorView::DivisionByZero,
        }
    }
}

impl InterpreterError {
    /// The line that reports the error.
    pub fn to_string(&self) -> (text: String)
        ensures
            text@ == semantics::error_message(self@),
    {
        let mut text = String::new();
        match self {
            InterpreterError::UndefinedVariable(name) => {
                text.append("Runtime error: undefined variable ");
                text.append(name.as_str());
            },
            InterpreterError::TypeMismatch(expected, found) => {
                text.append("Runtime error: expected ");
                text.append(expected.as_str());
                text.append(", found ");
                text.append(found.as_str());
            },
            InterpreterError::UnsupportedStdCall(name) => {
                text.append("Runtime error: unsupported std call ");
                text.append(name.as_str());
            },
            InterpreterError::UnsupportedStatement(kind) => {
                text.append("Runtime error: unsupported statement ");
                text.append(kind.as_str());
            },
            InterpreterError::IndexOutOfRange => {
                text.append("Runtime error: index out of range");
            },
            InterpreterError::DivisionByZero => {
                text.append("Runtime error: division by zero");
            },
        }
        assert(text@ =~= semantics::error_message(self@));
        text
    }
}

/// A variable and its value.
#[derive(Debug)]
pub struct Variable {
    pub name: String,
    pub value: VariableType,
}

impl View for Variable {
    type V = Binding;

    open spec fn view(&self) -> Binding {
        Binding { name: self.name@, value: self.value@ }
    }
}

/// The views of the variables, in order.
pub open spec fn bindings_view(variables: Seq<Variable>) -> Seq<Binding> {
    variables.map_values(|v: Variable| v@)
}

/// The lines as sequences of characters.
pub open spec fn lines_view(lines: Seq<String>) -> Seq<Seq<char>> {
    lines.map_values(|s: String| s@)
}

/// The view of a function declaration: that of the statement that holds
/// it.
pub open spec fn declaration_view(declaration: ASTFuncDeclStatement) -> StatementView {
    statement_view(ASTStatement { kind: ASTStatementKind::FuncDecl(declaration) })
}

/// The views of the declarations, in order.
pub open spec fn declarations_view(declarations: Seq<&ASTFuncDeclStatement>) -> Seq<StatementView> {
    declarations.map_values(|d: &ASTFuncDeclStatement| declaration_view(*d))
}

/// The interpreter: the value evaluated last, the variables, the lines
/// printed and the functions declared.
pub struct ASTInterpreter<'a> {
    pub last_value: Option<VariableType>,
    pub variables: Vec<Variable>,
    pub output: Vec<String>,
    pub functions: Vec<&'a ASTFuncDeclStatement>,
    /// The error at which a program handed over statement by statement has
    /// stopped.
    pub error: Option<InterpreterError>,
    /// How many calls may still nest.
    pub depth: usize,
}

impl<'a> View for ASTInterpreter<'a> {
    type V = State;

    open spec fn view(&self) -> State {
        State {
            variables: bindings_view(self.variables@),
            last_value: optional_value(self.last_value),
            output: lines_view(self.output@),
            functions: declarations_view(self.functions@),
        }
    }
}

/// The method did the step: on success the interpreter is in the state that
/// the semantics give, else the error is the one that they give.
pub open spec fn stepped(res: Result<(), InterpreterError>, after: State, expected: Step) -> bool {
    match res {
        Ok(_) => expected == Ok::<State, InterpreterErrorView>(after),
        Err(error) => expected == Err::<State, InterpreterErrorView>(error@),
    }
}

/// As `stepped`, for a method that returns a value.
pub open spec fn evaluated(
    res: Result<VariableType, InterpreterError>,
    after: State,
    expected: Evaluated<Value>,
) -> bool {
    match res {
        Ok(value) => expected == Ok::<(Value, State), InterpreterErrorView>((value@, after)),
        Err(error) => expected == Err::<(Value, State), InterpreterErrorView>(error@),
    }
}

/// As `stepped`, for a method that returns a number.
pub open spec fn evaluated_number(
    res: Result<i64, InterpreterError>,
    after: State,
    expected: Evaluated<i64>,
) -> bool {
    match res {
        Ok(n) => expected == Ok::<(i64, State), InterpreterErrorView>((n, after)),
        Err(error) => expected == Err::<(i64, State), InterpreterErrorView>(error@),
    }
}

/// Once a variable is found among the first bindings, it is found there
/// among any more.
pub proof fn lemma_position_stays(variables: Seq<Binding>, name: Seq<char>, n: int, m: int)
    requires
        0 <= n <= m,
        position_of(variables, name, n) is Some,
    ensures
        position_of(variables, name, m) == position_of(variables, name, n),
    decreases m,
{
    if n < m {
        lemma_position_stays(variables, name, n, m - 1);
    }
}

/// What the kind of a value is called in an error.
fn kind_name_of(value: &VariableType) -> (name: String)
    ensures
        name@ == kind_name(Some(value@)),
{
    match value {
        VariableType::Number(_) => String::from_str("number"),
        VariableType::String(_) => String::from_str("string"),
        VariableType::Array(_) => String::from_str("array"),
    }
}

/// The error of a value that is of another kind than expected.
fn mismatch_error(expected: &str, found: &VariableType) -> (error: InterpreterError)
    ensures
        error@ == InterpreterErrorView::TypeMismatch(expected@, kind_name(Some(found@))),
{
    InterpreterError::TypeMismatch(String::from_str(expected), kind_name_of(found))
}

impl<'a> ASTInterpreter<'a> {
    pub fn new() -> (res: Self)
        ensures
            res@ == semantics::initial(),
            res.error is None,
            res.depth == MAX_CALL_DEPTH,
    {
        let res = Self {
            last_value: None,
            variables: Vec::new(),
            output: Vec::new(),
            functions: Vec::new(),
            error: None,
            depth: MAX_CALL_DEPTH,
        };
        assert(res@.variables =~= Seq::empty());
        assert(res@.output =~= Seq::empty());
        assert(res@.functions =~= Seq::empty());
        res
    }

    /// Index of a variable among the bindings.
    fn find(&self, name: &String) -> (res: Option<usize>)
        ensures
            match res {
                Some(i) => position_of(self@.variables, name@, self@.variables.len() as int) == Some(
                    i as int,
                ) && i < self.variables@.len(),
                None => position_of(self@.variables, name@, self@.variables.len() as int) is None,
            },
    {
        let mut i: usize = 0;
        while i < self.variables.len()
            invariant
                i <= self.variables@.len(),
                position_of(self@.variables, name@, i as int) is None,
            decreases self.variables@.len() - i,
        {
            if self.variables[i].name == *name {
                proof {
                    assert(self@.variables[i as int].name == name@);
                    lemma_position_stays(
                        self@.variables,
                        name@,
                        i + 1,
                        self@.variables.len() as int,
                    );
                }
                return Some(i);
            }
            i = i + 1;
        }
        None
    }

    /// The value of a variable, if it is bound.
    pub fn get(&self, name: &String) -> (res: Option<VariableType>)
        ensures
            optional_value(res) == lookup(self@.variables, name@),
    {
        match self.find(name) {
            Some(i) => Some(self.variables[i].value.duplicate()),
            None => None,
        }
    }

    /// Binds a variable to a value.
    pub fn set(&mut self, name: String, value: VariableType)
        ensures
            final(self).depth == old(self).depth,
            final(self)@ == with_binding(old(self)@, name@, value@),
    {
        match self.find(&name) {
            Some(i) => {
                self.variables[i] = Variable { name, value };
                assert(self@.variables =~= bind(old(self)@.variables, name@, value@));
            },
            None => {
                self.variables.push(Variable { name, value });
                assert(self@.variables =~= bind(old(self)@.variables, name@, value@));
            },
        }
    }

    /// Takes note of a value as the one evaluated last.
    fn keep(&mut self, value: VariableType)
        ensures
            final(self).depth == old(self).depth,
            final(self)@ == with_value(old(self)@, value@),
    {
        self.last_value = Some(value);
    }

    // -----------------------------------------------------------------------
    // Expressions
    // -----------------------------------------------------------------------

    /// Evaluates an expression for its value.
    fn evaluate_expression(&mut self, expression: &ASTExpression) -> (res: Result<
        VariableType,
        InterpreterError,
    >)
        ensures
            final(self).depth == old(self).depth,
            evaluated(res, final(self)@, semantics::evaluate_expression(expression@, old(self)@, old(self).depth as nat)),
        decreases old(self).depth, 0int, expression, 1int,
    {
        match self.visit_expression(expression) {
            Err(error) => Err(error),
            Ok(_) => match &self.last_value {
                Some(value) => Ok(value.duplicate()),
                None => Err(
                    InterpreterError::TypeMismatch(
                        String::from_str("value"),
                        String::from_str("nothing"),
                    ),
                ),
            },
        }
    }

    /// Evaluates an expression for a number.
    fn evaluate_number(&mut self, expression: &ASTExpression) -> (res: Result<i64, InterpreterError>)
        ensures
            final(self).depth == old(self).depth,
            evaluated_number(
                res,
                final(self)@,
                semantics::evaluate_number(expression@, old(self)@, old(self).depth as nat),
            ),
        decreases old(self).depth, 0int, expression, 2int,
    {
        match self.evaluate_expression(expression) {
            Err(error) => Err(error),
            Ok(VariableType::Number(n)) => Ok(n),
            Ok(other) => Err(mismatch_error("number", &other)),
        }
    }

    /// Evaluates the expressions of a list in order.
    fn evaluate_list(&mut self, list: &Vec<ASTExpression>) -> (res: Result<
        Vec<VariableType>,
        InterpreterError,
    >)
        ensures
            final(self).depth == old(self).depth,
            match res {
                Ok(values) => evaluate_list(expression_views(list@), 0, old(self)@, Seq::empty(), old(self).depth as nat)
                    == Ok::<(Seq<Value>, State), InterpreterErrorView>(
                    (values_view(values@), final(self)@),
                ),
                Err(error) => evaluate_list(expression_views(list@), 0, old(self)@, Seq::empty(), old(self).depth as nat)
                    == Err::<(Seq<Value>, State), InterpreterErrorView>(error@),
            },
        decreases old(self).depth, 0int, list, 3int,
    {
        let ghost views = expression_views(list@);
        let mut values: Vec<VariableType> = Vec::new();
        let mut i: usize = 0;
        assert(values_view(values@) =~= Seq::<Value>::empty());
        while i < list.len()
            invariant
                self.depth == old(self).depth,
                i <= list@.len(),
                views == expression_views(list@),
                evaluate_list(views, 0, old(self)@, Seq::empty(), old(self).depth as nat) == evaluate_list(
                    views,
                    i as int,
                    self@,
                    values_view(values@),
                    old(self).depth as nat,
                ),
            decreases list@.len() - i,
        {
            let ghost seen = values_view(values@);
            match self.evaluate_expression(&list[i]) {
                Err(error) => {
                    return Err(error);
                },
                Ok(value) => {
                    values.push(value);
                    assert(values_view(values@) =~= seen.push(value@));
                },
            }
            i = i + 1;
        }
        Ok(values)
    }

    fn visit_number_expression(&mut self, lexeme: &String) -> (res: Result<(), InterpreterError>)
        ensures
            final(self).depth == old(self).depth,
            stepped(
                res,
                final(self)@,
                match number_of(lexeme@) {
                    Some(n) => Ok(with_value(old(self)@, Value::Number(n))),
                    None => Err(InterpreterErrorView::TypeMismatch("number"@, lexeme@)),
                },
            ),
    {
        match parse_number(lexeme.as_str()) {
            Some(n) => {
                self.keep(VariableType::Number(n));
                Ok(())
            },
            None => Err(InterpreterError::TypeMismatch(String::from_str("number"), lexeme.clone())),
        }
    }

    fn visit_variable_expression(&mut self, name: &String) -> (res: Result<(), InterpreterError>)
        ensures
            final(self).depth == old(self).depth,
            stepped(
                res,
                final(self)@,
                match lookup(old(self)@.variables, name@) {
                    Some(value) => Ok(with_value(old(self)@, value)),
                    None => Err(InterpreterErrorView::UndefinedVariable(name@)),
                },
            ),
    {
        match self.get(name) {
            Some(value) => {
                self.keep(value);
                Ok(())
            },
            None => Err(InterpreterError::UndefinedVariable(name.clone())),
        }
    }

    fn visit_unary_expression(&mut self, unary: &ASTUnaryExpression) -> (res: Result<
        (),
        InterpreterError,
    >)
        ensures
            final(self).depth == old(self).depth,
            stepped(
                res,
                final(self)@,
                semantics::visit_expression(expression_view(ASTExpression { kind: ASTExpressionKind::Unary(*unary) }), old(self)@, old(self).depth as nat),
            ),
        decreases old(self).depth, 0int, unary, 0int,
    {
        let operand = match self.evaluate_number(&unary.operand) {
            Ok(n) => n,
            Err(error) => {
                return Err(error);
            },
        };
        let result = match unary.operator.kind {
            ASTUnaryOperatorKind::Subtraction => 0i64.wrapping_sub(operand),
            ASTUnaryOperatorKind::BwNot => !operand,
        };
        self.keep(VariableType::Number(result));
        Ok(())
    }

    fn visit_binary_expression(&mut self, binary: &ASTBinaryExpression) -> (res: Result<
        (),
        InterpreterError,
    >)
        ensures
            final(self).depth == old(self).depth,
            stepped(
                res,
                final(self)@,
                semantics::visit_expression(expression_view(ASTExpression { kind: ASTExpressionKind::Binary(*binary) }), old(self)@, old(self).depth as nat),
            ),
        decreases old(self).depth, 0int, binary, 0int,
    {
        let left = match self.evaluate_number(&binary.left) {
            Ok(n) => n,
            Err(error) => {
                return Err(error);
            },
        };
        let right = match self.evaluate_number(&binary.right) {
            Ok(n) => n,
            Err(error) => {
                return Err(error);
            },
        };
        let result = match apply_binary(binary.operator.kind, left, right) {
            Ok(n) => n,
            Err(error) => {
                return Err(error);
            },
        };
        self.keep(VariableType::Number(result));
        Ok(())
    }

    fn evaluate_assignment_expression(&mut self, assignment: &ASTAssignmentExpression) -> (res:
        Result<(), InterpreterError>)
        ensures
            final(self).depth == old(self).depth,
            stepped(
                res,
                final(self)@,
                semantics::visit_expression(expression_view(ASTExpression { kind: ASTExpressionKind::Assignment(*assignment) }), old(self)@, old(self).depth as nat),
            ),
        decreases old(self).depth, 0int, assignment, 0int,
    {
        let value = match self.evaluate_expression(&assignment.expression) {
            Ok(value) => value,
            Err(error) => {
                return Err(error);
            },
        };
        self.set(assignment.identifier.lexeme.clone(), value.duplicate());
        self.keep(value);
        Ok(())
    }

    fn evaluate_range_expression(&mut self, range: &ASTRangeExpression) -> (res: Result<
        (),
        InterpreterError,
    >)
        ensures
            final(self).depth == old(self).depth,
            stepped(
                res,
                final(self)@,
                semantics::visit_expression(expression_view(ASTExpression { kind: ASTExpressionKind::Range(*range) }), old(self)@, old(self).depth as nat),
            ),
        decreases old(self).depth, 0int, range, 0int,
    {
        let start = match self.evaluate_number(&range.start) {
            Ok(n) => n,
            Err(error) => {
                return Err(error);
            },
        };
        let end = match self.evaluate_number(&range.end) {
            Ok(n) => n,
            Err(error) => {
                return Err(error);
            },
        };
        self.keep(VariableType::Array(count(start, end)));
        Ok(())
    }

    fn evaluate_array_expression(&mut self, array: &ASTArrayExpression) -> (res: Result<
        (),
        InterpreterError,
    >)
        ensures
            final(self).depth == old(self).depth,
            stepped(
                res,
                final(self)@,
                semantics::visit_expression(expression_view(ASTExpression { kind: ASTExpressionKind::Array(*array) }), old(self)@, old(self).depth as nat),
            ),
        decreases old(self).depth, 0int, array, 0int,
    {
        let elements = match self.evaluate_list(&array.elements) {
            Ok(elements) => elements,
            Err(error) => {
                return Err(error);
            },
        };
        self.keep(VariableType::Array(elements));
        Ok(())
    }

    fn evaluate_array_index_expression(&mut self, index: &ASTArrayIndexExpression) -> (res: Result<
        (),
        InterpreterError,
    >)
        ensures
            final(self).depth == old(self).depth,
            stepped(
                res,
                final(self)@,
                semantics::visit_expression(expression_view(ASTExpression { kind: ASTExpressionKind::ArrayIndex(*index) }), old(self)@, old(self).depth as nat),
            ),
        decreases old(self).depth, 0int, index, 0int,
    {
        let array = match self.evaluate_expression(&index.array) {
            Ok(VariableType::Array(elements)) => elements,
            Ok(other) => {
                return Err(mismatch_error("array", &other));
            },
            Err(error) => {
                return Err(error);
            },
        };
        let at = match self.evaluate_number(&index.index) {
            Ok(n) => n,
            Err(error) => {
                return Err(error);
            },
        };
        if at < 0 || at as u64 >= array.len() as u64 {
            return Err(InterpreterError::IndexOutOfRange);
        }
        self.keep(array[at as usize].duplicate());
        Ok(())
    }

    fn evaluate_array_assignment_expression(
        &mut self,
        assignment: &ASTArrayAssignmentExpression,
    ) -> (res: Result<(), InterpreterError>)
        ensures
            final(self).depth == old(self).depth,
            stepped(
                res,
                final(self)@,
                semantics::visit_expression(expression_view(ASTExpression { kind: ASTExpressionKind::ArrayAssignment(*assignment) }), old(self)@, old(self).depth as nat),
            ),
        decreases old(self).depth, 0int, assignment, 0int,
    {
        let ghost written = expression_view(*assignment.index_expression);
        let target = match &assignment.index_expression.kind {
            ASTExpressionKind::ArrayIndex(target) => target,
            _ => {
                assert(!(written is ArrayIndex));
                return Err(
                    InterpreterError::UnsupportedStatement(String::from_str("ArrayAssignment")),
                );
            },
        };
        let ghost indexed = expression_view(*target.array);
        assert(written == (ExpressionView::ArrayIndex {
            array: Box::new(indexed),
            index: Box::new(expression_view(*target.index)),
        }));
        let name = match &target.array.kind {
            ASTExpressionKind::Variable(variable) => {
                assert(indexed == (ExpressionView::Variable { identifier: variable.identifier@ }));
                &variable.identifier.lexeme
            },
            _ => {
                assert(!(indexed is Variable));
                return Err(
                    InterpreterError::UnsupportedStatement(String::from_str("ArrayAssignment")),
                );
            },
        };
        let mut array = match self.get(name) {
            Some(VariableType::Array(elements)) => elements,
            Some(other) => {
                return Err(mismatch_error("array", &other));
            },
            None => {
                return Err(InterpreterError::UndefinedVariable(name.clone()));
            },
        };
        let at = match self.evaluate_number(&target.index) {
            Ok(n) => n,
            Err(error) => {
                return Err(error);
            },
        };
        let value = match self.evaluate_expression(&assignment.expression) {
            Ok(value) => value,
            Err(error) => {
                return Err(error);
            },
        };
        if at < 0 || at as u64 >= array.len() as u64 {
            return Err(InterpreterError::IndexOutOfRange);
        }
        let ghost before = values_view(array@);
        array[at as usize] = value.duplicate();
        assert(values_view(array@) =~= before.update(at as int, value@));
        self.set(name.clone(), VariableType::Array(array));
        self.keep(value);
        Ok(())
    }

    /// The declaration that a call of `name` goes to.
    fn find_function(&self, name: &String) -> (res: Option<&'a ASTFuncDeclStatement>)
        ensures
            match res {
                Some(declaration) => semantics::declaration_of(self@.functions, name@) == Some(
                    declaration_view(*declaration),
                ),
                None => semantics::declaration_of(self@.functions, name@) is None,
            },
    {
        let mut i = self.functions.len();
        while i > 0
            invariant
                i <= self.functions@.len(),
                semantics::declaration_index(
                    self@.functions,
                    name@,
                    self@.functions.len() as int,
                ) == semantics::declaration_index(self@.functions, name@, i as int),
            decreases i,
        {
            i = i - 1;
            let declaration = self.functions[i];
            assert(self@.functions[i as int] == declaration_view(*declaration));
            if declaration.identifier.lexeme == *name {
                return Some(declaration);
            }
        }
        None
    }

    /// The state in which the body of a called function starts.
    fn enter(&mut self, parameters: &Vec<FuncDeclParameter>, values: &Vec<VariableType>) -> (frame:
        ASTInterpreter<'a>)
        requires
            parameters@.len() == values@.len(),
            old(self).depth > 0,
        ensures
            final(self).depth == old(self).depth,
            frame.depth == old(self).depth - 1,
            frame@ == semantics::frame(
                parameter_views(parameters@),
                values_view(values@),
                old(self)@,
            ),
            final(self)@ == (State { output: Seq::empty(), ..old(self)@ }),
    {
        let mut functions: Vec<&'a ASTFuncDeclStatement> = Vec::new();
        let mut k: usize = 0;
        while k < self.functions.len()
            invariant
                k <= self.functions@.len(),
                functions@ == self.functions@.subrange(0, k as int),
            decreases self.functions@.len() - k,
        {
            functions.push(self.functions[k]);
            k = k + 1;
            assert(functions@ =~= self.functions@.subrange(0, k as int));
        }
        assert(functions@ =~= self.functions@);
        let mut frame = ASTInterpreter {
            last_value: None,
            variables: Vec::new(),
            output: Vec::new(),
            functions,
            error: None,
            depth: self.depth - 1,
        };
        std::mem::swap(&mut frame.output, &mut self.output);
        let ghost names = parameter_views(parameters@);
        let ghost arguments = values_view(values@);
        let mut i: usize = 0;
        assert(frame@.variables =~= semantics::arguments_bound(names, arguments, 0));
        while i < parameters.len()
            invariant
                i <= parameters@.len(),
                parameters@.len() == values@.len(),
                names == parameter_views(parameters@),
                arguments == values_view(values@),
                frame.depth == old(self).depth - 1,
                frame@.variables == semantics::arguments_bound(names, arguments, i as int),
                frame@.last_value is None,
                frame@.output == old(self)@.output,
                frame@.functions == old(self)@.functions,
            decreases parameters@.len() - i,
        {
            frame.set(parameters[i].identifier.lexeme.clone(), values[i].duplicate());
            i = i + 1;
        }
        assert(self@.output =~= Seq::<Seq<char>>::empty());
        frame
    }

    fn visit_call_expression(&mut self, call: &ASTCallExpression) -> (res: Result<
        (),
        InterpreterError,
    >)
        ensures
            final(self).depth == old(self).depth,
            stepped(
                res,
                final(self)@,
                semantics::visit_expression(
                    expression_view(ASTExpression { kind: ASTExpressionKind::Call(*call) }),
                    old(self)@,
                    old(self).depth as nat,
                ),
            ),
        decreases old(self).depth, 0int, call, 0int,
    {
        let values = match self.evaluate_list(&call.arguments) {
            Ok(values) => values,
            Err(error) => {
                return Err(error);
            },
        };
        let declaration = match self.find_function(&call.identifier.lexeme) {
            Some(declaration) => declaration,
            None => {
                return Err(InterpreterError::UndefinedVariable(call.identifier.lexeme.clone()));
            },
        };
        if declaration.parameters.len() != values.len() {
            return Err(
                InterpreterError::TypeMismatch(
                    String::from_str("arguments"),
                    call.identifier.lexeme.clone(),
                ),
            );
        }
        if self.depth == 0 {
            return Err(InterpreterError::UnsupportedStatement(String::from_str("Call")));
        }
        let ghost caller = self@;
        let mut frame = self.enter(&declaration.parameters, &values);
        match frame.visit_statement(&declaration.body) {
            Err(error) => {
                self.output = frame.output;
                return Err(error);
            },
            Ok(_) => {},
        }
        self.output = frame.output;
        self.last_value = frame.last_value;
        assert(self@ == semantics::returned(caller, frame@));
        Ok(())
    }

    fn visit_std_call_expression(&mut self, call: &ASTStdCallExpression) -> (res: Result<
        (),
        InterpreterError,
    >)
        ensures
            final(self).depth == old(self).depth,
            stepped(
                res,
                final(self)@,
                semantics::visit_expression(expression_view(ASTExpression { kind: ASTExpressionKind::StdCall(*call) }), old(self)@, old(self).depth as nat),
            ),
        decreases old(self).depth, 0int, call, 0int,
    {
        if call.identifier.lexeme != String::from_str("println") {
            return Err(InterpreterError::UnsupportedStdCall(call.identifier.lexeme.clone()));
        }
        let values = match self.evaluate_list(&call.arguments) {
            Ok(values) => values,
            Err(error) => {
                return Err(error);
            },
        };
        let ghost lines = self@.output;
        let line = print_line(&values);
        self.output.push(line);
        assert(self@.output =~= lines.push(line@));
        Ok(())
    }

    /// Evaluates an expression.
    pub fn visit_expression(&mut self, expression: &ASTExpression) -> (res: Result<
        (),
        InterpreterError,
    >)
        ensures
            final(self).depth == old(self).depth,
            stepped(res, final(self)@, semantics::visit_expression(expression@, old(self)@, old(self).depth as nat)),
        decreases old(self).depth, 0int, expression, 0int,
    {
        match &expression.kind {
            ASTExpressionKind::Variable(variable) => self.visit_variable_expression(
                &variable.identifier.lexeme,
            ),
            ASTExpressionKind::Number(number) => self.visit_number_expression(&number.num.lexeme),
            ASTExpressionKind::String(string) => {
                self.keep(VariableType::String(string.token.lexeme.clone()));
                Ok(())
            },
            ASTExpressionKind::Unary(unary) => self.visit_unary_expression(unary),
            ASTExpressionKind::Binary(binary) => self.visit_binary_expression(binary),
            ASTExpressionKind::Parenthesized(parenthesized) => self.visit_expression(
                &parenthesized.expression,
            ),
            ASTExpressionKind::StdCall(call) => self.visit_std_call_expression(call),
            ASTExpressionKind::Assignment(assignment) => self.evaluate_assignment_expression(
                assignment,
            ),
            ASTExpressionKind::Range(range) => self.evaluate_range_expression(range),
            ASTExpressionKind::Array(array) => self.evaluate_array_expression(array),
            ASTExpressionKind::ArrayIndex(index) => self.evaluate_array_index_expression(index),
            ASTExpressionKind::ArrayAssignment(assignment) => self.evaluate_array_assignment_expression(
                assignment,
            ),
            ASTExpressionKind::Boolean(_) => Err(
                InterpreterError::UnsupportedStatement(String::from_str("Boolean")),
            ),
            ASTExpressionKind::Call(call) => self.visit_call_expression(call),
            ASTExpressionKind::TypeAnnotation(_) => Err(
                InterpreterError::UnsupportedStatement(String::from_str("TypeAnnotation")),
            ),
        }
    }

    // -----------------------------------------------------------------------
    // Statements
    // -----------------------------------------------------------------------

    fn visit_let_statement(&mut self, let_statement: &ASTLetStatement) -> (res: Result<
        (),
        InterpreterError,
    >)
        ensures
            final(self).depth == old(self).depth,
            stepped(
                res,
                final(self)@,
                semantics::visit_statement(statement_view(ASTStatement { kind: ASTStatementKind::Let(*let_statement) }), old(self)@, old(self).depth as nat),
            ),
        decreases old(self).depth, 1int, let_statement, 0int,
    {
        let value = match self.evaluate_expression(&let_statement.initializer) {
            Ok(value) => value,
            Err(error) => {
                return Err(error);
            },
        };
        self.set(let_statement.identifier.lexeme.clone(), value);
        Ok(())
    }

    fn visit_if_statement(&mut self, if_statement: &'a ASTIfStatement) -> (res: Result<
        (),
        InterpreterError,
    >)
        ensures
            final(self).depth == old(self).depth,
            stepped(
                res,
                final(self)@,
                semantics::visit_statement(statement_view(ASTStatement { kind: ASTStatementKind::If(*if_statement) }), old(self)@, old(self).depth as nat),
            ),
        decreases old(self).depth, 2int, if_statement, 0int,
    {
        let condition = match self.evaluate_number(&if_statement.condition) {
            Ok(n) => n,
            Err(error) => {
                return Err(error);
            },
        };
        if condition != 0 {
            self.visit_statement(&if_statement.then_branch)
        } else {
            match &if_statement.else_branch {
                Some(else_branch) => self.visit_statement(&else_branch.else_statement),
                None => Ok(()),
            }
        }
    }

    /// Evaluates the statements of a list in order.
    fn visit_statements(&mut self, list: &'a Vec<ASTStatement>) -> (res: Result<
        (),
        InterpreterError,
    >)
        ensures
            final(self).depth == old(self).depth,
            stepped(
                res,
                final(self)@,
                semantics::visit_block(statement_views(list@), 0, old(self)@, old(self).depth as nat),
            ),
        decreases old(self).depth, 2int, list, 1int,
    {
        let ghost views = statement_views(list@);
        let mut i: usize = 0;
        while i < list.len()
            invariant
                self.depth == old(self).depth,
                i <= list@.len(),
                views == statement_views(list@),
                semantics::visit_block(views, 0, old(self)@, old(self).depth as nat) == semantics::visit_block(
                    views,
                    i as int,
                    self@,
                    old(self).depth as nat,
                ),
            decreases list@.len() - i,
        {
            match self.visit_statement(&list[i]) {
                Err(error) => {
                    return Err(error);
                },
                Ok(_) => {},
            }
            i = i + 1;
        }
        Ok(())
    }

    fn visit_block_statement(&mut self, block_statement: &'a ASTBlockStatement) -> (res: Result<
        (),
        InterpreterError,
    >)
        ensures
            final(self).depth == old(self).depth,
            stepped(
                res,
                final(self)@,
                semantics::visit_statement(statement_view(ASTStatement { kind: ASTStatementKind::Block(*block_statement) }), old(self)@, old(self).depth as nat),
            ),
        decreases old(self).depth, 2int, block_statement, 0int,
    {
        self.visit_statements(&block_statement.statements)
    }

    /// Records the declaration; the body is evaluated when the function is
    /// called.
    fn visit_func_decl_statement(&mut self, func_decl_statement: &'a ASTFuncDeclStatement) -> (res:
        Result<(), InterpreterError>)
        ensures
            final(self).depth == old(self).depth,
            stepped(
                res,
                final(self)@,
                semantics::visit_statement(statement_view(ASTStatement { kind: ASTStatementKind::FuncDecl(*func_decl_statement) }), old(self)@, old(self).depth as nat),
            ),
    {
        let ghost before = self@.functions;
        self.functions.push(func_decl_statement);
        assert(self@.functions =~= before.push(declaration_view(*func_decl_statement)));
        Ok(())
    }

    fn visit_return_statement(&mut self, return_statement: &ASTReturnStatement) -> (res: Result<
        (),
        InterpreterError,
    >)
        ensures
            final(self).depth == old(self).depth,
            stepped(
                res,
                final(self)@,
                semantics::visit_statement(statement_view(ASTStatement { kind: ASTStatementKind::Return(*return_statement) }), old(self)@, old(self).depth as nat),
            ),
        decreases old(self).depth, 1int, return_statement, 0int,
    {
        match &return_statement.return_value {
            Some(expr) => self.visit_expression(expr),
            None => Ok(()),
        }
    }

    fn visit_for_statement(&mut self, for_statement: &'a ASTForStatement) -> (res: Result<
        (),
        InterpreterError,
    >)
        ensures
            final(self).depth == old(self).depth,
            stepped(
                res,
                final(self)@,
                semantics::visit_statement(statement_view(ASTStatement { kind: ASTStatementKind::For(*for_statement) }), old(self)@, old(self).depth as nat),
            ),
        decreases old(self).depth, 2int, for_statement, 0int,
    {
        let elements = match self.evaluate_expression(&for_statement.iterable) {
            Ok(VariableType::Array(elements)) => elements,
            Ok(other) => {
                return Err(mismatch_error("array", &other));
            },
            Err(error) => {
                return Err(error);
            },
        };
        let ghost start = self@;
        let ghost values = values_view(elements@);
        let ghost body = statement_view(*for_statement.body);
        let ghost name = for_statement.identifier.lexeme@;
        let ghost expected = semantics::visit_statement(
            statement_view(ASTStatement { kind: ASTStatementKind::For(*for_statement) }),
            old(self)@,
            old(self).depth as nat,
        );
        let mut i: usize = 0;
        while i < elements.len()
            invariant
                self.depth == old(self).depth,
                i <= elements@.len(),
                expected == semantics::visit_statement(
                    statement_view(ASTStatement { kind: ASTStatementKind::For(*for_statement) }),
                    old(self)@,
                    old(self).depth as nat,
                ),
                expected == semantics::iterate(body, name, values, 0, start, old(self).depth as nat),
                values == values_view(elements@),
                body == statement_view(*for_statement.body),
                name == for_statement.identifier.lexeme@,
                semantics::iterate(body, name, values, 0, start, old(self).depth as nat) == semantics::iterate(
                    body,
                    name,
                    values,
                    i as int,
                    self@,
                    old(self).depth as nat,
                ),
            decreases elements@.len() - i,
        {
            self.set(for_statement.identifier.lexeme.clone(), elements[i].duplicate());
            match self.visit_statement(&for_statement.body) {
                Err(error) => {
                    return Err(error);
                },
                Ok(_) => {},
            }
            i = i + 1;
        }
        Ok(())
    }

    /// Evaluates a statement.
    pub fn visit_statement(&mut self, statement: &'a ASTStatement) -> (res: Result<
        (),
        InterpreterError,
    >)
        ensures
            final(self).depth == old(self).depth,
            stepped(res, final(self)@, semantics::visit_statement(statement@, old(self)@, old(self).depth as nat)),
        decreases old(self).depth, 2int, statement, 0int,
    {
        match &statement.kind {
            ASTStatementKind::Let(let_statement) => self.visit_let_statement(let_statement),
            ASTStatementKind::If(if_statement) => self.visit_if_statement(if_statement),
            ASTStatementKind::Block(block_statement) => self.visit_block_statement(block_statement),
            ASTStatementKind::FuncDecl(func_decl_statement) => self.visit_func_decl_statement(
                func_decl_statement,
            ),
            ASTStatementKind::Return(return_statement) => self.visit_return_statement(
                return_statement,
            ),
            ASTStatementKind::For(for_statement) => self.visit_for_statement(for_statement),
            ASTStatementKind::Expression(expr_statement) => self.visit_expression(expr_statement),
            ASTStatementKind::While(_) => Err(
                InterpreterError::UnsupportedStatement(String::from_str("While")),
            ),
        }
    }

    /// Evaluates the statements of a program in order.
    pub fn run(&mut self, statements: &'a Vec<ASTStatement>) -> (res: Result<(), InterpreterError>)
        ensures
            final(self).depth == old(self).depth,
            stepped(
                res,
                final(self)@,
                semantics::run(statement_views(statements@), statements@.len() as int, old(self)@, old(self).depth as nat),
            ),
    {
        let ghost views = statement_views(statements@);
        let mut i: usize = 0;
        while i < statements.len()
            invariant
                self.depth == old(self).depth,
                i <= statements@.len(),
                views == statement_views(statements@),
                semantics::run(views, i as int, old(self)@, old(self).depth as nat) == Ok::<State, InterpreterErrorView>(
                    self@,
                ),
            decreases statements@.len() - i,
        {
            match self.visit_statement(&statements[i]) {
                Err(error) => {
                    proof {
                        semantics::lemma_run_stops(
                            views,
                            i + 1,
                            statements@.len() as int,
                            old(self)@,
                            old(self).depth as nat,
                        );
                    }
                    return Err(error);
                },
                Ok(_) => {},
            }
            i = i + 1;
        }
        Ok(())
    }

    /// The value evaluated last as text; no text if there is none.
    pub fn result(&self) -> (text: String)
        ensures
            text@ == semantics::result_text(self@),
    {
        match &self.last_value {
            Some(value) => value.to_string(),
            None => String::new(),
        }
    }

} // impl ASTInterpreter

/// Applies a binary operator to two numbers.
fn apply_binary(kind: ASTBinaryOperatorKind, left: i64, right: i64) -> (res: Result<
    i64,
    InterpreterError,
>)
    ensures
        match res {
            Ok(n) => binary_result(kind, left, right) == Ok::<i64, InterpreterErrorView>(n),
            Err(error) => binary_result(kind, left, right) == Err::<i64, InterpreterErrorView>(
                error@,
            ),
        },
{
    match kind {
        ASTBinaryOperatorKind::Addition => Ok(left.wrapping_add(right)),
        ASTBinaryOperatorKind::Subtraction => Ok(left.wrapping_sub(right)),
        ASTBinaryOperatorKind::Star => Ok(left.wrapping_mul(right)),
        ASTBinaryOperatorKind::Division => {
            if right == 0 {
                Err(InterpreterError::DivisionByZero)
            } else {
                match left.checked_div(right) {
                    Some(quotient) => Ok(quotient),
                    None => Ok(i64::MIN),
                }
            }
        },
        ASTBinaryOperatorKind::BwAnd => Ok(left & right),
        ASTBinaryOperatorKind::BwOr => Ok(left | right),
        ASTBinaryOperatorKind::BwXor => Ok(left ^ right),
        ASTBinaryOperatorKind::Equals => Ok(
            if left == right {
                1
            } else {
                0
            },
        ),
        ASTBinaryOperatorKind::Inequal => Ok(
            if left != right {
                1
            } else {
                0
            },
        ),
        ASTBinaryOperatorKind::LowerThan => Ok(
            if left < right {
                1
            } else {
                0
            },
        ),
        ASTBinaryOperatorKind::GreaterThan => Ok(
            if left > right {
                1
            } else {
                0
            },
        ),
    }
}

/// The numbers from `start` up to, not including, `end`.
fn count(start: i64, end: i64) -> (values: Vec<VariableType>)
    ensures
        values_view(values@) == range_values(start, end),
{
    let mut values: Vec<VariableType> = Vec::new();
    let mut next = start;
    while next < end
        invariant
            start <= next,
            next <= end || end <= start,
            values@.len() == (if end <= start {
                0
            } else {
                next - start
            }),
            forall|j: int| 0 <= j < values@.len() ==> values@[j]@ == Value::Number((start + j) as i64),
        decreases end - next,
    {
        values.push(VariableType::Number(next));
        next = next + 1;
    }
    assert(values_view(values@) =~= range_values(start, end));
    values
}

/// The values as text, separated by blanks.
fn print_line(values: &Vec<VariableType>) -> (line: String)
    ensures
        line@ == printed(values_view(values@), values@.len() as int),
{
    let ghost views = values_view(values@);
    let mut line = String::new();
    let mut i: usize = 0;
    assert(line@ =~= printed(views, 0));
    while i < values.len()
        invariant
            i <= values@.len(),
            views == values_view(values@),
            line@ == printed(views, i as int),
        decreases values@.len() - i,
    {
        if i > 0 {
            line.append(" ");
        }
        let text = values[i].to_string();
        line.append(text.as_str());
        i = i + 1;
        assert(line@ =~= printed(views, i as int));
    }
    line
}

/// The model of an interpreter that is handed a program statement by
/// statement: its state, or the error at which the program has stopped, and
/// how many calls may nest.
pub struct InterpreterModel {
    pub outcome: Step,
    pub depth: nat,
}

impl<'a> ASTVisitor<'a> for ASTInterpreter<'a> {
    type Model = InterpreterModel;

    open spec fn model(&self) -> InterpreterModel {
        InterpreterModel {
            outcome: match self.error {
                Some(error) => Err(error@),
                None => Ok(self@),
            },
            depth: self.depth as nat,
        }
    }

    open spec fn ready(&self) -> bool {
        true
    }

    /// The statement is evaluated, unless the program has stopped.
    open spec fn after_statement(model: InterpreterModel, statement: StatementView) -> InterpreterModel {
        InterpreterModel {
            outcome: semantics::and_statement(model.outcome, statement, model.depth),
            ..model
        }
    }

    open spec fn after_program(model: InterpreterModel) -> InterpreterModel {
        model
    }

    fn visit_statement(&mut self, statement: &'a ASTStatement) {
        if self.error.is_none() {
            match ASTInterpreter::visit_statement(self, statement) {
                Ok(_) => {
                    self.error = None;
                },
                Err(error) => {
                    self.error = Some(error);
                },
            }
        }
    }

    fn finalize(&mut self) {
    }
}

/// Taking the statements of a program one by one runs the program.
pub proof fn lemma_visited_program(state: State, depth: nat, program: Seq<StatementView>, n: int)
    requires
        0 <= n <= program.len(),
    ensures
        after_statements::<ASTInterpreter>(
            InterpreterModel { outcome: Ok(state), depth: depth },
            program,
            n,
        ) == (InterpreterModel { outcome: semantics::run(program, n, state, depth), depth: depth }),
    decreases n,
{
    if n > 0 {
        lemma_visited_program(state, depth, program, n - 1);
    }
}

} // verus!
