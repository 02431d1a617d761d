//! The transpiler: a walk over the tree that appends C++ text to a string
//! and collects the headers that the text needs.

use crate::evaluator::emission;
use crate::evaluator::emission::{
    annotation, cpp_type, generic_list, header_of, includes, is_array_annotation, nothing, plain,
    prelude, Emission,
};
use crate::evaluator::to_cpp::{
    get_library, translate_type, StdEntryView, StdTable, TypeEntryView, TypeTable,
};
use crate::parser::{
    expression_views, optional_view, parameter_views, statement_views, ASTArrayAssignmentExpression,
    ASTArrayExpression, ASTArrayIndexExpression, ASTAssignmentExpression, ASTBinaryExpression,
    ASTBlockStatement, ASTCallExpression, ASTExpression, ASTExpressionKind, ASTForStatement,
    ASTFuncDeclStatement, ASTIfStatement, ASTLetStatement, ASTParenthesizedExpression,
    ASTRangeExpression, ASTReturnStatement, ASTStatement, ASTStatementKind,
    ASTStdCallExpression, ASTUnaryExpression, ASTWhileStatement, FuncDeclParameter,
};
use crate::parser::visitor::{after_statements, ASTVisitor};
use crate::parser::StatementView;
use crate::tokenizer::TokenInfo;
use vstd::prelude::*;

verus! {

/// The transpiler's state: the text emitted so far, the two mapping tables
/// and the headers to be included, in the order of their first occurrence.
pub struct ASTCppTranspiler<'a> {
    pub result: String,
    types: &'a TypeTable,
    std_names: &'a StdTable,
    includes: Vec<String>,
    seen: Ghost<Seq<Seq<char>>>,
}

/// Where the brackets of an array declaration go.
#[derive(PartialEq, Eq, Structural, Clone, Copy)]
enum AfterIdentifier {
    Nothing,
    Array,
}

/// The strings of a list as sequences of characters.
pub open spec fn strings_view(list: Seq<String>) -> Seq<Seq<char>> {
    list.map_values(|s: String| s@)
}

impl<'a> ASTCppTranspiler<'a> {
    /// The type table.
    pub closed spec fn types(&self) -> Seq<TypeEntryView> {
        self.types@
    }

    /// The table of standard-library names.
    pub closed spec fn std_names(&self) -> Seq<StdEntryView> {
        self.std_names@
    }

    /// The text emitted so far: the content of `result`.
    pub closed spec fn text(&self) -> Seq<char> {
        self.result@
    }

    /// Every header that the text emitted so far has asked for, in order and
    /// with repetitions.
    pub closed spec fn headers(&self) -> Seq<Seq<char>> {
        self.seen@
    }

    /// The headers to be included.
    pub closed spec fn include_list(&self) -> Seq<Seq<char>> {
        strings_view(self.includes@)
    }

    /// The headers to be included are the distinct headers asked for, in the
    /// order of their first occurrence.
    pub open spec fn wf(&self) -> bool {
        self.include_list() == includes(self.headers())
    }

    /// The state is `before` with the emission `e` appended.
    pub open spec fn emitted(&self, before: Self, e: Emission) -> bool {
        &&& self.wf()
        &&& self.text() == before.text() + e.text
        &&& self.headers() == before.headers() + e.headers
        &&& self.types() == before.types()
        &&& self.std_names() == before.std_names()
    }

    pub fn new(types: &'a TypeTable, std_names: &'a StdTable) -> (res: Self)
        ensures
            res.wf(),
            res.text() == Seq::<char>::empty(),
            res.headers() == Seq::<Seq<char>>::empty(),
            res.types() == types@,
            res.std_names() == std_names@,
    {
        let res = Self {
            result: String::new(),
            types,
            std_names,
            includes: Vec::new(),
            seen: Ghost(Seq::empty()),
        };
        assert(res.include_list() =~= includes(res.headers()));
        res
    }

    fn add_whitespace(&mut self)
        requires
            old(self).wf(),
        ensures
            final(self).emitted(*old(self), plain(" "@)),
    {
        self.add_text(" ");
    }

    fn add_keyword(&mut self, keyword: &str)
        requires
            old(self).wf(),
        ensures
            final(self).emitted(*old(self), plain(keyword@)),
    {
        self.add_text(keyword);
    }

    fn add_text(&mut self, text: &str)
        requires
            old(self).wf(),
        ensures
            final(self).emitted(*old(self), plain(text@)),
    {
        self.result.append(text);
        assert(self.headers() =~= old(self).headers() + plain(text@).headers);
    }

    fn add_variable(&mut self, variable: &str)
        requires
            old(self).wf(),
        ensures
            final(self).emitted(*old(self), plain(variable@)),
    {
        self.add_text(variable);
    }

    fn add_boolean(&mut self, boolean: bool)
        requires
            old(self).wf(),
        ensures
            final(self).emitted(
                *old(self),
                plain(
                    if boolean {
                        "true"@
                    } else {
                        "false"@
                    },
                ),
            ),
    {
        if boolean {
            self.add_text("true");
        } else {
            self.add_text("false");
        }
    }

    /// The list of headers to be included holds `library`.
    fn is_included(&self, library: &String) -> (found: bool)
        ensures
            found == self.include_list().contains(library@),
    {
        let mut i: usize = 0;
        while i < self.includes.len()
            invariant
                i <= self.includes@.len(),
                forall|j: int| 0 <= j < i ==> self.include_list()[j] != library@,
            decreases self.includes@.len() - i,
        {
            if self.includes[i] == *library {
                assert(self.include_list()[i as int] == library@);
                return true;
            }
            i = i + 1;
        }
        false
    }

    /// Asks for a header: it is added to the list unless it is empty or the
    /// list has it.
    fn add_header(&mut self, library: String)
        requires
            old(self).wf(),
        ensures
            final(self).emitted(
                *old(self),
                Emission { text: Seq::empty(), headers: header_of(library@) },
            ),
    {
        if !library.as_str().is_empty() {
            let ghost before = self.seen@;
            let ghost list = self.include_list();
            if !self.is_included(&library) {
                self.includes.push(library);
                assert(self.include_list() =~= list.push(library@));
            }
            self.seen = Ghost(before.push(library@));
            assert(self.seen@.drop_last() =~= before);
            assert(self.headers() =~= old(self).headers() + header_of(library@));
        } else {
            assert(self.headers() =~= old(self).headers() + header_of(library@));
        }
        assert(self.text() =~= old(self).text() + Seq::<char>::empty());
    }

    /// Emits a type name and asks for its header.
    fn add_cpp_type(&mut self, token: &TokenInfo)
        requires
            old(self).wf(),
        ensures
            final(self).emitted(*old(self), cpp_type(token@, old(self).types())),
    {
        match translate_type(token, self.types) {
            Some(info) => {
                self.add_text(info.name.as_str());
                self.add_header(info.library);
            },
            None => {
                self.add_text(token.lexeme.as_str());
            },
        }
        assert(self.text() =~= old(self).text() + cpp_type(token@, old(self).types()).text);
        assert(self.headers() =~= old(self).headers() + cpp_type(
            token@,
            old(self).types(),
        ).headers);
    }

    /// Emits the generic arguments of a type, separated by `, `.
    fn add_generics(&mut self, generics: &Vec<TokenInfo>)
        requires
            old(self).wf(),
        ensures
            final(self).emitted(
                *old(self),
                generic_list(
                    crate::tokenizer::token_views(generics@),
                    generics@.len() as int,
                    old(self).types(),
                ),
            ),
    {
        let ghost views = crate::tokenizer::token_views(generics@);
        let mut i: usize = 0;
        assert(self.text() =~= old(self).text() + nothing().text);
        assert(self.headers() =~= old(self).headers() + nothing().headers);
        while i < generics.len()
            invariant
                i <= generics@.len(),
                views == crate::tokenizer::token_views(generics@),
                self.emitted(*old(self), generic_list(views, i as int, old(self).types())),
            decreases generics@.len() - i,
        {
            let ghost before = generic_list(views, i as int, old(self).types());
            if i > 0 {
                self.add_text(", ");
            }
            self.add_cpp_type(&generics[i]);
            i = i + 1;
            let ghost after = generic_list(views, i as int, old(self).types());
            assert(self.text() =~= old(self).text() + after.text);
            assert(self.headers() =~= old(self).headers() + after.headers);
        }
    }

    /// Emits a type annotation, `auto` where there is none, and says
    /// whether it declares an array.
    fn add_type_annotation(&mut self, type_annotation: &Option<ASTExpression>) -> (res:
        AfterIdentifier)
        requires
            old(self).wf(),
        ensures
            final(self).emitted(
                *old(self),
                annotation(optional_view(*type_annotation), old(self).types()),
            ),
            (res == AfterIdentifier::Array) == is_array_annotation(
                optional_view(*type_annotation),
                old(self).types(),
            ),
    {
        let ghost expected = annotation(optional_view(*type_annotation), old(self).types());
        let mut after_identifier = AfterIdentifier::Nothing;
        match type_annotation {
            Some(t) => match &t.kind {
                ASTExpressionKind::TypeAnnotation(expr) => {
                    let array = String::from_str("Array");
                    match translate_type(&expr.base, self.types) {
                        Some(info) => {
                            if info.name == array {
                                after_identifier = AfterIdentifier::Array;
                            } else {
                                self.add_text(info.name.as_str());
                            }
                            self.add_header(info.library);
                        },
                        None => {
                            if expr.base.lexeme == array {
                                after_identifier = AfterIdentifier::Array;
                            } else {
                                self.add_text(expr.base.lexeme.as_str());
                            }
                        },
                    }
                    if after_identifier == AfterIdentifier::Array {
                        self.add_generics(&expr.generics);
                    } else if expr.generics.len() > 0 {
                        self.add_text("<");
                        self.add_generics(&expr.generics);
                        self.add_text(">");
                    }
                    assert(self.text() =~= old(self).text() + expected.text);
                    assert(self.headers() =~= old(self).headers() + expected.headers);
                },
                _ => {
                    assert(self.text() =~= old(self).text() + expected.text);
                    assert(self.headers() =~= old(self).headers() + expected.headers);
                },
            },
            None => {
                self.add_text("auto");
            },
        }
        after_identifier
    }

    // -----------------------------------------------------------------------
    // Expressions
    // -----------------------------------------------------------------------

    /// Emits the expressions of a list, separated by `, `.
    fn visit_expression_list(&mut self, list: &Vec<ASTExpression>)
        requires
            old(self).wf(),
        ensures
            final(self).emitted(
                *old(self),
                emission::expression_list(
                    expression_views(list@),
                    list@.len() as int,
                    old(self).types(),
                    old(self).std_names(),
                ),
            ),
        decreases list, 1int,
    {
        let ghost views = expression_views(list@);
        let ghost types = self.types();
        let ghost std_names = self.std_names();
        let mut i: usize = 0;
        assert(self.text() =~= old(self).text() + nothing().text);
        assert(self.headers() =~= old(self).headers() + nothing().headers);
        while i < list.len()
            invariant
                i <= list@.len(),
                views == expression_views(list@),
                types == old(self).types(),
                std_names == old(self).std_names(),
                self.emitted(
                    *old(self),
                    emission::expression_list(views, i as int, types, std_names),
                ),
            decreases list@.len() - i,
        {
            if i > 0 {
                self.add_text(", ");
            }
            self.visit_expression(&list[i]);
            i = i + 1;
            let ghost after = emission::expression_list(views, i as int, types, std_names);
            assert(self.text() =~= old(self).text() + after.text);
            assert(self.headers() =~= old(self).headers() + after.headers);
        }
    }

    /// Emits `left operator right`.
    fn visit_binary_expression(&mut self, binary: &ASTBinaryExpression)
        requires
            old(self).wf(),
        ensures
            final(self).emitted(
                *old(self),
                emission::expression((*binary.left)@, old(self).types(), old(self).std_names()).with(" "@).with(binary.operator.token.lexeme@).with(" "@).and(emission::expression((*binary.right)@, old(self).types(), old(self).std_names())),
            ),
        decreases binary, 0int,
    {
        let ghost types = self.types();
        let ghost std_names = self.std_names();
        let ghost expected = emission::expression((*binary.left)@, types, std_names).with(" "@).with(binary.operator.token.lexeme@).with(" "@).and(emission::expression((*binary.right)@, types, std_names));
        self.visit_expression(&binary.left);
        self.add_whitespace();
        self.add_text(binary.operator.token.lexeme.as_str());
        self.add_whitespace();
        self.visit_expression(&binary.right);
        assert(self.text() =~= old(self).text() + expected.text);
        assert(self.headers() =~= old(self).headers() + expected.headers);
    }

    /// Emits the operator directly before its operand.
    fn visit_unary_expression(&mut self, unary: &ASTUnaryExpression)
        requires
            old(self).wf(),
        ensures
            final(self).emitted(
                *old(self),
                plain(unary.operator.token.lexeme@).and(emission::expression((*unary.operand)@, old(self).types(), old(self).std_names())),
            ),
        decreases unary, 0int,
    {
        let ghost types = self.types();
        let ghost std_names = self.std_names();
        let ghost expected = plain(unary.operator.token.lexeme@).and(emission::expression((*unary.operand)@, types, std_names));
        self.add_text(unary.operator.token.lexeme.as_str());
        self.visit_expression(&unary.operand);
        assert(self.text() =~= old(self).text() + expected.text);
        assert(self.headers() =~= old(self).headers() + expected.headers);
    }

    /// Emits the expression in parentheses.
    fn visit_parenthesized_expression(&mut self, parenthesized: &ASTParenthesizedExpression)
        requires
            old(self).wf(),
        ensures
            final(self).emitted(
                *old(self),
                plain("("@).and(emission::expression((*parenthesized.expression)@, old(self).types(), old(self).std_names())).with(")"@),
            ),
        decreases parenthesized, 0int,
    {
        let ghost types = self.types();
        let ghost std_names = self.std_names();
        let ghost expected = plain("("@).and(emission::expression((*parenthesized.expression)@, types, std_names)).with(")"@);
        self.add_text("(");
        self.visit_expression(&parenthesized.expression);
        self.add_text(")");
        assert(self.text() =~= old(self).text() + expected.text);
        assert(self.headers() =~= old(self).headers() + expected.headers);
    }

    /// Emits `name = value;`.
    fn visit_assignment_expression(&mut self, assignment: &ASTAssignmentExpression)
        requires
            old(self).wf(),
        ensures
            final(self).emitted(
                *old(self),
                plain(assignment.identifier.lexeme@).with(" "@).with("="@).with(" "@).and(emission::expression((*assignment.expression)@, old(self).types(), old(self).std_names())).with(";"@),
            ),
        decreases assignment, 0int,
    {
        let ghost types = self.types();
        let ghost std_names = self.std_names();
        let ghost expected = plain(assignment.identifier.lexeme@).with(" "@).with("="@).with(" "@).and(emission::expression((*assignment.expression)@, types, std_names)).with(";"@);
        self.add_variable(assignment.identifier.lexeme.as_str());
        self.add_whitespace();
        self.add_text("=");
        self.add_whitespace();
        self.visit_expression(&assignment.expression);
        self.add_text(";");
        assert(self.text() =~= old(self).text() + expected.text);
        assert(self.headers() =~= old(self).headers() + expected.headers);
    }

    /// Emits `array[index] = value;`.
    fn visit_array_assignment_expression(&mut self, assignment: &ASTArrayAssignmentExpression)
        requires
            old(self).wf(),
        ensures
            final(self).emitted(
                *old(self),
                emission::expression((*assignment.index_expression)@, old(self).types(), old(self).std_names()).with(" "@).with("="@).with(" "@).and(emission::expression((*assignment.expression)@, old(self).types(), old(self).std_names())).with(";"@),
            ),
        decreases assignment, 0int,
    {
        let ghost types = self.types();
        let ghost std_names = self.std_names();
        let ghost expected = emission::expression((*assignment.index_expression)@, types, std_names).with(" "@).with("="@).with(" "@).and(emission::expression((*assignment.expression)@, types, std_names)).with(";"@);
        self.visit_expression(&assignment.index_expression);
        self.add_whitespace();
        self.add_text("=");
        self.add_whitespace();
        self.visit_expression(&assignment.expression);
        self.add_text(";");
        assert(self.text() =~= old(self).text() + expected.text);
        assert(self.headers() =~= old(self).headers() + expected.headers);
    }

    /// Emits `name(arguments);`.
    fn visit_call_expression(&mut self, call: &ASTCallExpression)
        requires
            old(self).wf(),
        ensures
            final(self).emitted(
                *old(self),
                plain(call.identifier.lexeme@).with("("@).and(emission::expression_list(expression_views(call.arguments@), call.arguments@.len() as int, old(self).types(), old(self).std_names())).with(")"@).with(";"@),
            ),
        decreases call, 0int,
    {
        let ghost types = self.types();
        let ghost std_names = self.std_names();
        let ghost expected = plain(call.identifier.lexeme@).with("("@).and(emission::expression_list(expression_views(call.arguments@), call.arguments@.len() as int, types, std_names)).with(")"@).with(";"@);
        self.add_text(call.identifier.lexeme.as_str());
        self.add_text("(");
        self.visit_expression_list(&call.arguments);
        self.add_text(")");
        self.add_text(";");
        assert(self.text() =~= old(self).text() + expected.text);
        assert(self.headers() =~= old(self).headers() + expected.headers);
    }

    /// Emits `std::name(arguments);` and asks for the header of the name.
    fn visit_std_call_expression(&mut self, call: &ASTStdCallExpression)
        requires
            old(self).wf(),
        ensures
            final(self).emitted(
                *old(self),
                emission::std_name(call.std_keyword@, call.double_colon@, call.identifier@, old(self).std_names()).with("("@).and(emission::expression_list(expression_views(call.arguments@), call.arguments@.len() as int, old(self).types(), old(self).std_names())).with(")"@).with(";"@),
            ),
        decreases call, 0int,
    {
        let ghost types = self.types();
        let ghost std_names = self.std_names();
        let ghost expected = emission::std_name(call.std_keyword@, call.double_colon@, call.identifier@, std_names).with("("@).and(emission::expression_list(expression_views(call.arguments@), call.arguments@.len() as int, types, std_names)).with(")"@).with(";"@);
        let mut name = call.std_keyword.lexeme.clone();
        name.append(call.double_colon.lexeme.as_str());
        name.append(call.identifier.lexeme.as_str());
        self.add_text(name.as_str());
        match get_library(name.as_str(), self.std_names) {
            Some(library) => {
                self.add_header(library);
            },
            None => {},
        }
        self.add_text("(");
        self.visit_expression_list(&call.arguments);
        self.add_text(")");
        self.add_text(";");
        assert(self.text() =~= old(self).text() + expected.text);
        assert(self.headers() =~= old(self).headers() + expected.headers);
    }

    /// Emits the two bounds, one behind the other.
    fn visit_range_expression(&mut self, range: &ASTRangeExpression)
        requires
            old(self).wf(),
        ensures
            final(self).emitted(
                *old(self),
                emission::expression((*range.start)@, old(self).types(), old(self).std_names()).and(emission::expression((*range.end)@, old(self).types(), old(self).std_names())),
            ),
        decreases range, 0int,
    {
        let ghost types = self.types();
        let ghost std_names = self.std_names();
        let ghost expected = emission::expression((*range.start)@, types, std_names).and(emission::expression((*range.end)@, types, std_names));
        self.visit_expression(&range.start);
        self.visit_expression(&range.end);
        assert(self.text() =~= old(self).text() + expected.text);
        assert(self.headers() =~= old(self).headers() + expected.headers);
    }

    /// Emits `{ elements }`.
    fn visit_array_expression(&mut self, array: &ASTArrayExpression)
        requires
            old(self).wf(),
        ensures
            final(self).emitted(
                *old(self),
                plain("{"@).with(" "@).and(emission::expression_list(expression_views(array.elements@), array.elements@.len() as int, old(self).types(), old(self).std_names())).with(" "@).with("}"@),
            ),
        decreases array, 0int,
    {
        let ghost types = self.types();
        let ghost std_names = self.std_names();
        let ghost expected = plain("{"@).with(" "@).and(emission::expression_list(expression_views(array.elements@), array.elements@.len() as int, types, std_names)).with(" "@).with("}"@);
        self.add_text("{");
        self.add_whitespace();
        self.visit_expression_list(&array.elements);
        self.add_whitespace();
        self.add_text("}");
        assert(self.text() =~= old(self).text() + expected.text);
        assert(self.headers() =~= old(self).headers() + expected.headers);
    }

    /// Emits `array[index]`.
    fn visit_array_index_expression(&mut self, index: &ASTArrayIndexExpression)
        requires
            old(self).wf(),
        ensures
            final(self).emitted(
                *old(self),
                emission::expression((*index.array)@, old(self).types(), old(self).std_names()).with("["@).and(emission::expression((*index.index)@, old(self).types(), old(self).std_names())).with("]"@),
            ),
        decreases index, 0int,
    {
        let ghost types = self.types();
        let ghost std_names = self.std_names();
        let ghost expected = emission::expression((*index.array)@, types, std_names).with("["@).and(emission::expression((*index.index)@, types, std_names)).with("]"@);
        self.visit_expression(&index.array);
        self.add_text("[");
        self.visit_expression(&index.index);
        self.add_text("]");
        assert(self.text() =~= old(self).text() + expected.text);
        assert(self.headers() =~= old(self).headers() + expected.headers);
    }

    /// Emits an expression.
    pub fn visit_expression(&mut self, expression: &ASTExpression)
        requires
            old(self).wf(),
        ensures
            final(self).emitted(
                *old(self),
                emission::expression(expression@, old(self).types(), old(self).std_names()),
            ),
        decreases expression, 0int,
    {
        match &expression.kind {
            ASTExpressionKind::Number(number) => self.add_text(number.num.lexeme.as_str()),
            ASTExpressionKind::String(string) => self.add_text(string.token.lexeme.as_str()),
            ASTExpressionKind::Variable(variable) => self.add_variable(variable.identifier()),
            ASTExpressionKind::Boolean(boolean) => self.add_boolean(boolean.value),
            ASTExpressionKind::Binary(binary) => self.visit_binary_expression(binary),
            ASTExpressionKind::Unary(unary) => self.visit_unary_expression(unary),
            ASTExpressionKind::Parenthesized(parenthesized) => self.visit_parenthesized_expression(
                parenthesized,
            ),
            ASTExpressionKind::Assignment(assignment) => self.visit_assignment_expression(assignment),
            ASTExpressionKind::ArrayAssignment(assignment) => self.visit_array_assignment_expression(
                assignment,
            ),
            ASTExpressionKind::Call(call) => self.visit_call_expression(call),
            ASTExpressionKind::StdCall(call) => self.visit_std_call_expression(call),
            ASTExpressionKind::Range(range) => self.visit_range_expression(range),
            ASTExpressionKind::Array(array) => self.visit_array_expression(array),
            ASTExpressionKind::ArrayIndex(index) => self.visit_array_index_expression(index),
            ASTExpressionKind::TypeAnnotation(_) => {
                assert(self.text() =~= old(self).text() + nothing().text);
                assert(self.headers() =~= old(self).headers() + nothing().headers);
            },
        }
    }

    // -----------------------------------------------------------------------
    // Statements
    // -----------------------------------------------------------------------

    /// Emits the names of the parameters, separated by `, `.
    fn add_parameter_names(&mut self, parameters: &Vec<FuncDeclParameter>)
        requires
            old(self).wf(),
        ensures
            final(self).emitted(
                *old(self),
                plain(
                    emission::parameter_names(parameter_views(parameters@), parameters@.len() as int),
                ),
            ),
    {
        let ghost views = parameter_views(parameters@);
        let mut i: usize = 0;
        assert(self.text() =~= old(self).text() + emission::parameter_names(views, 0));
        assert(self.headers() =~= old(self).headers() + Seq::<Seq<char>>::empty());
        while i < parameters.len()
            invariant
                i <= parameters@.len(),
                views == parameter_views(parameters@),
                self.emitted(*old(self), plain(emission::parameter_names(views, i as int))),
            decreases parameters@.len() - i,
        {
            if i != 0 {
                self.add_text(",");
                self.add_whitespace();
            }
            self.add_text(parameters[i].identifier.lexeme.as_str());
            i = i + 1;
            assert(self.text() =~= old(self).text() + emission::parameter_names(views, i as int));
            assert(self.headers() =~= old(self).headers() + Seq::<Seq<char>>::empty());
        }
    }

    /// Emits the statements of a block, each followed by a blank.
    fn visit_block_items(&mut self, list: &Vec<ASTStatement>)
        requires
            old(self).wf(),
        ensures
            final(self).emitted(
                *old(self),
                emission::block_items(
                    statement_views(list@),
                    list@.len() as int,
                    old(self).types(),
                    old(self).std_names(),
                ),
            ),
        decreases list, 1int,
    {
        let ghost views = statement_views(list@);
        let ghost types = self.types();
        let ghost std_names = self.std_names();
        let mut i: usize = 0;
        assert(self.text() =~= old(self).text() + nothing().text);
        assert(self.headers() =~= old(self).headers() + nothing().headers);
        while i < list.len()
            invariant
                i <= list@.len(),
                views == statement_views(list@),
                types == old(self).types(),
                std_names == old(self).std_names(),
                self.emitted(*old(self), emission::block_items(views, i as int, types, std_names)),
            decreases list@.len() - i,
        {
            self.visit_statement(&list[i]);
            self.add_whitespace();
            i = i + 1;
            let ghost after = emission::block_items(views, i as int, types, std_names);
            assert(self.text() =~= old(self).text() + after.text);
            assert(self.headers() =~= old(self).headers() + after.headers);
        }
    }

    /// Emits `type name(parameters) body`; the types of the parameters are not emitted.
    fn visit_func_decl_statement(&mut self, func_decl_statement: &ASTFuncDeclStatement)
        requires
            old(self).wf(),
        ensures
            final(self).emitted(
                *old(self),
                annotation(optional_view(func_decl_statement.type_annotation), old(self).types()).with(" "@).with(func_decl_statement.identifier.lexeme@).with(
                    if func_decl_statement.parameters@.len() == 0 {
                        "()"@
                    } else {
                        "("@ + emission::parameter_names(
                            parameter_views(func_decl_statement.parameters@),
                            func_decl_statement.parameters@.len() as int,
                        ) + ")"@
                    },
                ).with(" "@).and(emission::statement((*func_decl_statement.body)@, old(self).types(), old(self).std_names())),
            ),
        decreases func_decl_statement, 0int,
    {
        let ghost types = self.types();
        let ghost std_names = self.std_names();
        let ghost expected = annotation(optional_view(func_decl_statement.type_annotation), types).with(" "@).with(func_decl_statement.identifier.lexeme@).with(
                    if func_decl_statement.parameters@.len() == 0 {
                        "()"@
                    } else {
                        "("@ + emission::parameter_names(
                            parameter_views(func_decl_statement.parameters@),
                            func_decl_statement.parameters@.len() as int,
                        ) + ")"@
                    },
                ).with(" "@).and(emission::statement((*func_decl_statement.body)@, types, std_names));
        self.add_type_annotation(&func_decl_statement.type_annotation);
        self.add_whitespace();
        self.add_text(func_decl_statement.identifier.lexeme.as_str());
        let are_parameters_empty = func_decl_statement.parameters.len() == 0;
        if !are_parameters_empty {
            self.add_text("(");
        } else {
            self.add_text("()");
            self.add_whitespace();
        }
        self.add_parameter_names(&func_decl_statement.parameters);
        if !are_parameters_empty {
            self.add_text(")");
            self.add_whitespace();
        }
        self.visit_statement(&func_decl_statement.body);
        assert(self.text() =~= old(self).text() + expected.text);
        assert(self.headers() =~= old(self).headers() + expected.headers);
    }

    /// Emits what stands between the loop variable and the closing
    /// parenthesis of a `for`.
    fn add_for_clause(&mut self, identifier: &TokenInfo, iterable: &ASTExpression)
        requires
            old(self).wf(),
        ensures
            final(self).emitted(
                *old(self),
                emission::for_clause(
                    identifier@,
                    iterable@,
                    old(self).types(),
                    old(self).std_names(),
                ),
            ),
        decreases iterable, 1int,
    {
        let ghost expected = emission::for_clause(
            identifier@,
            iterable@,
            self.types(),
            self.std_names(),
        );
        match &iterable.kind {
            ASTExpressionKind::Range(expr) => {
                self.add_text("=");
                self.add_whitespace();
                self.visit_expression(&expr.start);
                self.add_text(";");
                self.add_whitespace();
                self.add_text(identifier.lexeme.as_str());
                self.add_whitespace();
                self.add_text("<");
                self.add_whitespace();
                self.visit_expression(&expr.end);
                self.add_text(";");
                self.add_whitespace();
                self.add_text(identifier.lexeme.as_str());
                self.add_text("++");
                self.add_whitespace();
            },
            ASTExpressionKind::Variable(expr) => {
                self.add_text(":");
                self.add_whitespace();
                self.add_variable(expr.identifier());
                self.add_whitespace();
            },
            _ => {},
        }
        assert(self.text() =~= old(self).text() + expected.text);
        assert(self.headers() =~= old(self).headers() + expected.headers);
    }

    /// Emits a `for` loop: a counting loop over a range, a range-based loop over a variable.
    fn visit_for_statement(&mut self, for_statement: &ASTForStatement)
        requires
            old(self).wf(),
        ensures
            final(self).emitted(
                *old(self),
                plain("for"@).with(" "@).with("("@).with(" "@).and(annotation(optional_view(for_statement.type_annotation), old(self).types())).with(" "@).with(for_statement.identifier.lexeme@).with(" "@).and(
                    emission::for_clause(
                        for_statement.identifier@,
                        for_statement.iterable@,
                        old(self).types(),
                        old(self).std_names(),
                    ),
                ).with(")"@).with(" "@).and(emission::statement((*for_statement.body)@, old(self).types(), old(self).std_names())),
            ),
        decreases for_statement, 0int,
    {
        let ghost types = self.types();
        let ghost std_names = self.std_names();
        let ghost expected = plain("for"@).with(" "@).with("("@).with(" "@).and(annotation(optional_view(for_statement.type_annotation), types)).with(" "@).with(for_statement.identifier.lexeme@).with(" "@).and(
                    emission::for_clause(
                        for_statement.identifier@,
                        for_statement.iterable@,
                        types,
                        std_names,
                    ),
                ).with(")"@).with(" "@).and(emission::statement((*for_statement.body)@, types, std_names));
        self.add_keyword("for");
        self.add_whitespace();
        self.add_text("(");
        self.add_whitespace();
        self.add_type_annotation(&for_statement.type_annotation);
        self.add_whitespace();
        self.add_text(for_statement.identifier.lexeme.as_str());
        self.add_whitespace();
        self.add_for_clause(&for_statement.identifier, &for_statement.iterable);
        self.add_text(")");
        self.add_text(" ");
        self.visit_statement(&for_statement.body);
        assert(self.text() =~= old(self).text() + expected.text);
        assert(self.headers() =~= old(self).headers() + expected.headers);
    }

    /// Emits `return;` or `return value;`.
    fn visit_return_statement(&mut self, return_statement: &ASTReturnStatement)
        requires
            old(self).wf(),
        ensures
            final(self).emitted(
                *old(self),
                (match return_statement.return_value {
                    Some(value) => plain("return"@).with(" "@).and(
                        emission::expression(value@, old(self).types(), old(self).std_names()),
                    ),
                    None => plain("return"@),
                }).with(";"@),
            ),
    {
        self.add_keyword("return");
        match &return_statement.return_value {
            Some(expression) => {
                self.add_whitespace();
                self.visit_expression(expression);
                self.add_text(";");
                let ghost expected = plain("return"@).with(" "@).and(
                    emission::expression(expression@, old(self).types(), old(self).std_names()),
                ).with(";"@);
                assert(self.text() =~= old(self).text() + expected.text);
                assert(self.headers() =~= old(self).headers() + expected.headers);
            },
            None => {
                self.add_text(";");
                let ghost expected = plain("return"@).with(";"@);
                assert(self.text() =~= old(self).text() + expected.text);
                assert(self.headers() =~= old(self).headers() + expected.headers);
            },
        }
    }

    /// Emits `while condition body`.
    fn visit_while_statement(&mut self, while_statement: &ASTWhileStatement)
        requires
            old(self).wf(),
        ensures
            final(self).emitted(
                *old(self),
                plain("while"@).with(" "@).and(emission::expression(while_statement.condition@, old(self).types(), old(self).std_names())).with(" "@).and(emission::statement((*while_statement.body)@, old(self).types(), old(self).std_names())),
            ),
        decreases while_statement, 0int,
    {
        let ghost types = self.types();
        let ghost std_names = self.std_names();
        let ghost expected = plain("while"@).with(" "@).and(emission::expression(while_statement.condition@, types, std_names)).with(" "@).and(emission::statement((*while_statement.body)@, types, std_names));
        self.add_keyword("while");
        self.add_whitespace();
        self.visit_expression(&while_statement.condition);
        self.add_whitespace();
        self.visit_statement(&while_statement.body);
        assert(self.text() =~= old(self).text() + expected.text);
        assert(self.headers() =~= old(self).headers() + expected.headers);
    }

    /// Emits `{ statements }`.
    fn visit_block_statement(&mut self, block_statement: &ASTBlockStatement)
        requires
            old(self).wf(),
        ensures
            final(self).emitted(
                *old(self),
                plain("{"@).with(" "@).and(
                    emission::block_items(
                        statement_views(block_statement.statements@),
                        block_statement.statements@.len() as int,
                        old(self).types(),
                        old(self).std_names(),
                    ),
                ).with("}"@),
            ),
        decreases block_statement, 0int,
    {
        let ghost types = self.types();
        let ghost std_names = self.std_names();
        let ghost expected = plain("{"@).with(" "@).and(
                    emission::block_items(
                        statement_views(block_statement.statements@),
                        block_statement.statements@.len() as int,
                        types,
                        std_names,
                    ),
                ).with("}"@);
        self.add_text("{");
        self.add_whitespace();
        self.visit_block_items(&block_statement.statements);
        self.add_text("}");
        assert(self.text() =~= old(self).text() + expected.text);
        assert(self.headers() =~= old(self).headers() + expected.headers);
    }

    /// Emits `if ( condition ) then `.
    fn add_if_head(&mut self, if_statement: &ASTIfStatement)
        requires
            old(self).wf(),
        ensures
            final(self).emitted(
                *old(self),
                plain("if"@).with(" "@).with("("@).with(" "@).and(
                    emission::expression(
                        if_statement.condition@,
                        old(self).types(),
                        old(self).std_names(),
                    ),
                ).with(" "@).with(")"@).with(" "@).and(
                    emission::statement(
                        (*if_statement.then_branch)@,
                        old(self).types(),
                        old(self).std_names(),
                    ),
                ).with(" "@),
            ),
        decreases if_statement, 0int,
    {
        let ghost types = self.types();
        let ghost std_names = self.std_names();
        let ghost expected = plain("if"@).with(" "@).with("("@).with(" "@).and(
            emission::expression(if_statement.condition@, types, std_names),
        ).with(" "@).with(")"@).with(" "@).and(
            emission::statement((*if_statement.then_branch)@, types, std_names),
        ).with(" "@);
        self.add_keyword("if");
        self.add_whitespace();
        self.add_text("(");
        self.add_whitespace();
        self.visit_expression(&if_statement.condition);
        self.add_whitespace();
        self.add_text(")");
        self.add_whitespace();
        self.visit_statement(&if_statement.then_branch);
        self.add_whitespace();
        assert(self.text() =~= old(self).text() + expected.text);
        assert(self.headers() =~= old(self).headers() + expected.headers);
    }

    /// Emits `if ( condition ) then`, and `else other` where there is one.
    fn visit_if_statement(&mut self, if_statement: &ASTIfStatement)
        requires
            old(self).wf(),
        ensures
            final(self).emitted(
                *old(self),
                emission::statement(
                    crate::parser::statement_view(
                        ASTStatement { kind: ASTStatementKind::If(*if_statement) },
                    ),
                    old(self).types(),
                    old(self).std_names(),
                ),
            ),
        decreases if_statement, 1int,
    {
        let ghost types = self.types();
        let ghost std_names = self.std_names();
        let ghost expected = emission::statement(
            crate::parser::statement_view(ASTStatement { kind: ASTStatementKind::If(*if_statement) }),
            types,
            std_names,
        );
        self.add_if_head(if_statement);
        match &if_statement.else_branch {
            Some(else_branch) => {
                self.add_keyword("else");
                self.add_whitespace();
                self.visit_statement(&else_branch.else_statement);
                assert(self.text() =~= old(self).text() + expected.text);
                assert(self.headers() =~= old(self).headers() + expected.headers);
            },
            None => {},
        }
    }

    /// Emits a declaration: `const` unless mutable, the type, the name, the
    /// brackets of an array, and the initializer.
    #[verifier::rlimit(30)]
    fn visit_let_statement(&mut self, let_statement: &ASTLetStatement)
        requires
            old(self).wf(),
        ensures
            final(self).emitted(
                *old(self),
                emission::statement(
                    crate::parser::statement_view(
                        ASTStatement { kind: ASTStatementKind::Let(*let_statement) },
                    ),
                    old(self).types(),
                    old(self).std_names(),
                ),
            ),
    {
        let ghost types = self.types();
        let ghost std_names = self.std_names();
        let ghost expected = emission::statement(
            crate::parser::statement_view(
                ASTStatement { kind: ASTStatementKind::Let(*let_statement) },
            ),
            types,
            std_names,
        );
        if !let_statement.is_mut {
            self.add_text("const");
            self.add_whitespace();
        }
        match self.add_type_annotation(&let_statement.type_annotation) {
            AfterIdentifier::Array => {
                self.add_whitespace();
                self.add_text(let_statement.identifier.lexeme.as_str());
                self.add_text("[]");
            },
            AfterIdentifier::Nothing => {
                self.add_whitespace();
                self.add_text(let_statement.identifier.lexeme.as_str());
            },
        }
        self.add_whitespace();
        self.add_text("=");
        self.add_whitespace();
        self.visit_expression(&let_statement.initializer);
        self.add_text(";");
        assert(self.text() =~= old(self).text() + expected.text);
        assert(self.headers() =~= old(self).headers() + expected.headers);
    }

    /// Emits a statement.
    pub fn visit_statement(&mut self, statement: &ASTStatement)
        requires
            old(self).wf(),
        ensures
            final(self).emitted(
                *old(self),
                emission::statement(statement@, old(self).types(), old(self).std_names()),
            ),
        decreases statement, 0int,
    {
        match &statement.kind {
            ASTStatementKind::Expression(expr) => self.visit_expression(expr),
            ASTStatementKind::Let(stmt) => self.visit_let_statement(stmt),
            ASTStatementKind::If(stmt) => self.visit_if_statement(stmt),
            ASTStatementKind::Block(stmt) => self.visit_block_statement(stmt),
            ASTStatementKind::While(stmt) => self.visit_while_statement(stmt),
            ASTStatementKind::FuncDecl(stmt) => self.visit_func_decl_statement(stmt),
            ASTStatementKind::Return(stmt) => self.visit_return_statement(stmt),
            ASTStatementKind::For(stmt) => self.visit_for_statement(stmt),
        }
    }

    /// Puts the prelude before the text: one line for each header to be
    /// included, with an empty line between one and the next.
    pub fn finalize(&mut self)
        ensures
            final(self).text() == prelude(
                old(self).include_list(),
                old(self).include_list().len() as int,
            ) + old(self).text(),
            final(self).headers() == old(self).headers(),
            final(self).include_list() == old(self).include_list(),
            final(self).types() == old(self).types(),
            final(self).std_names() == old(self).std_names(),
    {
        let mut out = String::new();
        let mut i: usize = 0;
        let ghost list = self.include_list();
        assert(out@ =~= prelude(list, 0));
        while i < self.includes.len()
            invariant
                i <= self.includes@.len(),
                list == self.include_list(),
                self.text() == old(self).text(),
                out@ == prelude(list, i as int),
            decreases self.includes@.len() - i,
        {
            if i > 0 {
                out.append("
");
            }
            out.append("#include <");
            out.append(self.includes[i].as_str());
            out.append(">
");
            i = i + 1;
            assert(out@ =~= prelude(list, i as int));
        }
        out.append(self.result.as_str());
        self.result = out;
    }

    /// Hands the text out.
    pub fn take_result(self) -> (res: String)
        ensures
            res@ == self.text(),
    {
        self.result
    }

} // impl ASTCppTranspiler

/// The model of a transpiler: what it has emitted, and its tables.
pub struct TranspilerModel {
    pub emitted: Emission,
    pub types: Seq<TypeEntryView>,
    pub std_names: Seq<StdEntryView>,
}

impl<'a, 'b> ASTVisitor<'b> for ASTCppTranspiler<'a> {
    type Model = TranspilerModel;

    open spec fn model(&self) -> TranspilerModel {
        TranspilerModel {
            emitted: Emission { text: self.text(), headers: self.headers() },
            types: self.types(),
            std_names: self.std_names(),
        }
    }

    open spec fn ready(&self) -> bool {
        self.wf()
    }

    /// The emission of the statement is appended.
    open spec fn after_statement(model: TranspilerModel, statement: StatementView) -> TranspilerModel {
        TranspilerModel {
            emitted: model.emitted.and(emission::statement(statement, model.types, model.std_names)),
            ..model
        }
    }

    /// The prelude is put before the text.
    open spec fn after_program(model: TranspilerModel) -> TranspilerModel {
        let list = includes(model.emitted.headers);
        TranspilerModel {
            emitted: Emission {
                text: prelude(list, list.len() as int) + model.emitted.text,
                headers: model.emitted.headers,
            },
            ..model
        }
    }

    fn visit_statement(&mut self, statement: &'b ASTStatement) {
        ASTCppTranspiler::visit_statement(self, statement);
    }

    fn finalize(&mut self) {
        ASTCppTranspiler::finalize(self);
    }
}

/// Taking the statements of a program one by one appends the emission of
/// the program.
pub proof fn lemma_visited_program<'a>(
    model: TranspilerModel,
    program: Seq<StatementView>,
    n: int,
)
    requires
        0 <= n <= program.len(),
    ensures
        after_statements::<ASTCppTranspiler<'a>>(model, program, n) == (TranspilerModel {
            emitted: model.emitted.and(
                emission::statements(program, n, model.types, model.std_names),
            ),
            ..model
        }),
    decreases n,
{
    let expected = model.emitted.and(emission::statements(program, n, model.types, model.std_names));
    let reached = after_statements::<ASTCppTranspiler<'a>>(model, program, n);
    if n > 0 {
        lemma_visited_program(model, program, n - 1);
    }
    assert(reached.emitted.text =~= expected.text);
    assert(reached.emitted.headers =~= expected.headers);
}

} // verus!
