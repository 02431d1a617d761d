//! What the transpiler emits, as functions from the views of the tree to
//! text.
//!
//! The emission of a node is its C++ text together with the headers that the
//! node asks for, in the order in which they come up. The transpiled program
//! is the text of all statements behind one `#include` line for each header,
//! in the order of their first occurrence.

use crate::evaluator::to_cpp::{lookup_library, translated, StdEntryView, TypeEntryView};
use crate::parser::{ExpressionView, ParameterView, StatementView};
use crate::tokenizer::TokenView;
use vstd::prelude::*;

verus! {

/// Text and the headers that it needs.
pub struct Emission {
    pub text: Seq<char>,
    pub headers: Seq<Seq<char>>,
}

impl Emission {
    /// This emission followed by `next`.
    pub open spec fn and(self, next: Emission) -> Emission {
        Emission { text: self.text + next.text, headers: self.headers + next.headers }
    }

    /// This emission followed by text that needs no header.
    pub open spec fn with(self, text: Seq<char>) -> Emission {
        Emission { text: self.text + text, headers: self.headers }
    }
}

/// Text that needs no header.
pub open spec fn plain(text: Seq<char>) -> Emission {
    Emission { text: text, headers: Seq::empty() }
}

/// No text and no header.
pub open spec fn nothing() -> Emission {
    Emission { text: Seq::empty(), headers: Seq::empty() }
}

/// The headers that a table entry asks for: its header, unless that is
/// empty.
pub open spec fn header_of(library: Seq<char>) -> Seq<Seq<char>> {
    if library.len() > 0 {
        seq![library]
    } else {
        Seq::empty()
    }
}

// ---------------------------------------------------------------------------
// Types
// ---------------------------------------------------------------------------

/// A type name: the C++ name and header from the table, or the name as
/// written where the table has no entry.
pub open spec fn cpp_type(token: TokenView, types: Seq<TypeEntryView>) -> Emission {
    match translated(token, types) {
        Some(info) => Emission { text: info.name, headers: header_of(info.library) },
        None => plain(token.lexeme),
    }
}

/// The first `n` generic arguments, separated by `, `.
pub open spec fn generic_list(generics: Seq<TokenView>, n: int, types: Seq<TypeEntryView>) -> Emission
    decreases n,
{
    if n <= 0 {
        nothing()
    } else if n == 1 {
        cpp_type(generics[0], types)
    } else {
        generic_list(generics, n - 1, types).with(", "@).and(cpp_type(generics[n - 1], types))
    }
}

/// The annotation declares an array: its base name, translated, is `Array`.
pub open spec fn is_array_annotation(annotation: Option<ExpressionView>, types: Seq<TypeEntryView>) -> bool {
    match annotation {
        Some(ExpressionView::TypeAnnotation { base, generics }) => cpp_type(base, types).text
            == "Array"@,
        _ => false,
    }
}

/// A type annotation: `auto` where there is none; else the base name with
/// its generic arguments in angle brackets. For an array only the generic
/// arguments are emitted: they are the element type, and the brackets go
/// behind the declared name.
pub open spec fn annotation(annotation: Option<ExpressionView>, types: Seq<TypeEntryView>) -> Emission {
    match annotation {
        None => plain("auto"@),
        Some(ExpressionView::TypeAnnotation { base, generics }) => {
            let name = cpp_type(base, types);
            let arguments = generic_list(generics, generics.len() as int, types);
            if name.text == "Array"@ {
                Emission { text: Seq::empty(), headers: name.headers }.and(arguments)
            } else if generics.len() == 0 {
                name
            } else {
                name.with("<"@).and(arguments).with(">"@)
            }
        },
        Some(_) => nothing(),
    }
}

// ---------------------------------------------------------------------------
// Expressions
// ---------------------------------------------------------------------------

/// The name of a function of the standard library and its header.
pub open spec fn std_name(
    std_keyword: TokenView,
    double_colon: TokenView,
    identifier: TokenView,
    std_names: Seq<StdEntryView>,
) -> Emission {
    let name = std_keyword.lexeme + double_colon.lexeme + identifier.lexeme;
    match lookup_library(std_names, name) {
        Some(library) => Emission { text: name, headers: header_of(library) },
        None => plain(name),
    }
}

/// The first `n` expressions of a list, separated by `, `.
pub open spec fn expression_list(
    list: Seq<ExpressionView>,
    n: int,
    types: Seq<TypeEntryView>,
    std_names: Seq<StdEntryView>,
) -> Emission
    decreases list, n,
{
    if n <= 0 || n > list.len() {
        nothing()
    } else if n == 1 {
        expression(list[0], types, std_names)
    } else {
        expression_list(list, n - 1, types, std_names).with(", "@).and(
            expression(list[n - 1], types, std_names),
        )
    }
}

/// An expression.
pub open spec fn expression(
    e: ExpressionView,
    types: Seq<TypeEntryView>,
    std_names: Seq<StdEntryView>,
) -> Emission
    decreases e, 0int,
{
    match e {
        ExpressionView::Number { token } => plain(token.lexeme),
        ExpressionView::String { token } => plain(token.lexeme),
        ExpressionView::Variable { identifier } => plain(identifier.lexeme),
        ExpressionView::Boolean { value, token } => plain(
            if value {
                "true"@
            } else {
                "false"@
            },
        ),
        ExpressionView::Binary { kind, token, left, right } => expression(
            *left,
            types,
            std_names,
        ).with(" "@).with(token.lexeme).with(" "@).and(expression(*right, types, std_names)),
        ExpressionView::Unary { kind, token, operand } => plain(token.lexeme).and(
            expression(*operand, types, std_names),
        ),
        ExpressionView::Parenthesized { expression: inner } => plain("("@).and(
            expression(*inner, types, std_names),
        ).with(")"@),
        ExpressionView::Assignment { identifier, expression: value } => plain(
            identifier.lexeme,
        ).with(" "@).with("="@).with(" "@).and(expression(*value, types, std_names)).with(";"@),
        ExpressionView::ArrayAssignment { identifier, index_expression, expression: value } => expression(
            *index_expression,
            types,
            std_names,
        ).with(" "@).with("="@).with(" "@).and(expression(*value, types, std_names)).with(";"@),
        ExpressionView::Call { identifier, arguments } => plain(identifier.lexeme).with("("@).and(
            expression_list(arguments, arguments.len() as int, types, std_names),
        ).with(")"@).with(";"@),
        ExpressionView::StdCall { std_keyword, double_colon, identifier, arguments } => std_name(
            std_keyword,
            double_colon,
            identifier,
            std_names,
        ).with("("@).and(
            expression_list(arguments, arguments.len() as int, types, std_names),
        ).with(")"@).with(";"@),
        ExpressionView::Range { start, end } => expression(*start, types, std_names).and(
            expression(*end, types, std_names),
        ),
        ExpressionView::Array { elements } => plain("{"@).with(" "@).and(
            expression_list(elements, elements.len() as int, types, std_names),
        ).with(" "@).with("}"@),
        ExpressionView::ArrayIndex { array, index } => expression(*array, types, std_names).with(
            "["@,
        ).and(expression(*index, types, std_names)).with("]"@),
        ExpressionView::TypeAnnotation { base, generics } => nothing(),
    }
}

// ---------------------------------------------------------------------------
// Statements
// ---------------------------------------------------------------------------

/// The names of the first `n` parameters, separated by `, `.
pub open spec fn parameter_names(parameters: Seq<ParameterView>, n: int) -> Seq<char>
    decreases n,
{
    if n <= 0 {
        Seq::empty()
    } else if n == 1 {
        parameters[0].identifier.lexeme
    } else {
        parameter_names(parameters, n - 1) + ","@ + " "@ + parameters[n - 1].identifier.lexeme
    }
}

/// What stands between the loop variable and the closing parenthesis of a
/// `for`: a counting loop for a range, a range-based loop for a variable,
/// nothing for any other iterable.
pub open spec fn for_clause(
    identifier: TokenView,
    iterable: ExpressionView,
    types: Seq<TypeEntryView>,
    std_names: Seq<StdEntryView>,
) -> Emission {
    match iterable {
        ExpressionView::Range { start, end } => plain("="@).with(" "@).and(
            expression(*start, types, std_names),
        ).with(";"@).with(" "@).with(identifier.lexeme).with(" "@).with("<"@).with(" "@).and(
            expression(*end, types, std_names),
        ).with(";"@).with(" "@).with(identifier.lexeme).with("++"@).with(" "@),
        ExpressionView::Variable { identifier: variable } => plain(":"@).with(" "@).with(
            variable.lexeme,
        ).with(" "@),
        _ => nothing(),
    }
}

/// The first `n` statements of a block, each followed by a blank.
pub open spec fn block_items(
    list: Seq<StatementView>,
    n: int,
    types: Seq<TypeEntryView>,
    std_names: Seq<StdEntryView>,
) -> Emission
    decreases list, n,
{
    if n <= 0 || n > list.len() {
        nothing()
    } else {
        block_items(list, n - 1, types, std_names).and(
            statement(list[n - 1], types, std_names),
        ).with(" "@)
    }
}

/// A statement.
pub open spec fn statement(
    s: StatementView,
    types: Seq<TypeEntryView>,
    std_names: Seq<StdEntryView>,
) -> Emission
    decreases s, 0int,
{
    match s {
        StatementView::Expression { expression: e } => expression(e, types, std_names),
        StatementView::Let { is_mut, identifier, type_annotation, initializer } => (if is_mut {
            nothing()
        } else {
            plain("const"@).with(" "@)
        }).and(annotation(type_annotation, types)).with(" "@).with(identifier.lexeme).with(
            if is_array_annotation(type_annotation, types) {
                "[]"@
            } else {
                Seq::empty()
            },
        ).with(" "@).with("="@).with(" "@).and(expression(initializer, types, std_names)).with(";"@),
        StatementView::FuncDecl { identifier, parameters, type_annotation, body } => annotation(
            type_annotation,
            types,
        ).with(" "@).with(identifier.lexeme).with(
            if parameters.len() == 0 {
                "()"@
            } else {
                "("@ + parameter_names(parameters, parameters.len() as int) + ")"@
            },
        ).with(" "@).and(statement(*body, types, std_names)),
        StatementView::For { for_keyword, identifier, type_annotation, iterable, body } => plain(
            "for"@,
        ).with(" "@).with("("@).with(" "@).and(annotation(type_annotation, types)).with(" "@).with(
            identifier.lexeme,
        ).with(" "@).and(for_clause(identifier, iterable, types, std_names)).with(")"@).with(
            " "@,
        ).and(statement(*body, types, std_names)),
        StatementView::Return { return_keyword, return_value } => (match return_value {
            Some(value) => plain("return"@).with(" "@).and(expression(value, types, std_names)),
            None => plain("return"@),
        }).with(";"@),
        StatementView::While { while_keyword, condition, body } => plain("while"@).with(" "@).and(
            expression(condition, types, std_names),
        ).with(" "@).and(statement(*body, types, std_names)),
        StatementView::Block { statements } => plain("{"@).with(" "@).and(
            block_items(statements, statements.len() as int, types, std_names),
        ).with("}"@),
        StatementView::If { if_keyword, condition, then_branch, else_branch } => {
            let head = plain("if"@).with(" "@).with("("@).with(" "@).and(
                expression(condition, types, std_names),
            ).with(" "@).with(")"@).with(" "@).and(statement(*then_branch, types, std_names)).with(
                " "@,
            );
            match else_branch {
                Some(other) => head.with("else"@).with(" "@).and(
                    statement(*other.else_statement, types, std_names),
                ),
                None => head,
            }
        },
    }
}

/// The first `n` top-level statements, one behind the other.
pub open spec fn statements(
    list: Seq<StatementView>,
    n: int,
    types: Seq<TypeEntryView>,
    std_names: Seq<StdEntryView>,
) -> Emission
    decreases n,
{
    if n <= 0 {
        nothing()
    } else {
        statements(list, n - 1, types, std_names).and(statement(list[n - 1], types, std_names))
    }
}

// ---------------------------------------------------------------------------
// The prelude
// ---------------------------------------------------------------------------

/// The list with the header added, unless the list has it already.
pub open spec fn with_header(list: Seq<Seq<char>>, header: Seq<char>) -> Seq<Seq<char>> {
    if list.contains(header) {
        list
    } else {
        list.push(header)
    }
}

/// The distinct headers among `headers`, in the order of their first
/// occurrence.
pub open spec fn includes(headers: Seq<Seq<char>>) -> Seq<Seq<char>>
    decreases headers.len(),
{
    if headers.len() == 0 {
        Seq::empty()
    } else {
        with_header(includes(headers.drop_last()), headers.last())
    }
}

/// The line that includes a header.
pub open spec fn include_line(header: Seq<char>) -> Seq<char> {
    "#include <"@ + header + ">\n"@
}

/// The lines that include the first `n` headers of a list, with an empty
/// line between one and the next.
pub open spec fn prelude(list: Seq<Seq<char>>, n: int) -> Seq<char>
    decreases n,
{
    if n <= 0 {
        Seq::empty()
    } else if n == 1 {
        include_line(list[0])
    } else {
        prelude(list, n - 1) + "\n"@ + include_line(list[n - 1])
    }
}

/// The body of the transpiled program: the text of its statements.
pub open spec fn program(
    program: Seq<StatementView>,
    types: Seq<TypeEntryView>,
    std_names: Seq<StdEntryView>,
) -> Emission {
    statements(program, program.len() as int, types, std_names)
}

/// The transpiled program: the prelude for the headers that its statements
/// need, then their text.
pub open spec fn transpiled(
    program: Seq<StatementView>,
    types: Seq<TypeEntryView>,
    std_names: Seq<StdEntryView>,
) -> Seq<char> {
    let body = self::program(program, types, std_names);
    let list = includes(body.headers);
    prelude(list, list.len() as int) + body.text
}

// ---------------------------------------------------------------------------
// Laws of the emission
// ---------------------------------------------------------------------------

/// No header stands twice in the list.
pub open spec fn distinct(list: Seq<Seq<char>>) -> bool {
    forall|i: int, j: int| 0 <= i < j < list.len() ==> list[i] != list[j]
}

/// The prelude holds every header that the text asks for, and each of them
/// once: the headers to be included are pairwise different, and they are
/// the headers asked for.
pub proof fn lemma_each_header_once(headers: Seq<Seq<char>>)
    ensures
        distinct(includes(headers)),
        forall|h: Seq<char>| headers.contains(h) <==> includes(headers).contains(h),
    decreases headers.len(),
{
    if headers.len() > 0 {
        let rest = headers.drop_last();
        let last = headers.last();
        lemma_each_header_once(rest);
        let before = includes(rest);
        let after = includes(headers);
        assert(after == with_header(before, last));
        assert forall|h: Seq<char>| headers.contains(h) implies after.contains(h) by {
            let i = choose|i: int| 0 <= i < headers.len() && headers[i] == h;
            if i < headers.len() - 1 {
                assert(rest[i] == h);
                assert(rest.contains(h));
                assert(before.contains(h));
                let k = choose|k: int| 0 <= k < before.len() && before[k] == h;
                assert(after[k] == h);
            } else if before.contains(last) {
                assert(after.contains(h));
            } else {
                assert(after[before.len() as int] == h);
            }
        }
        assert forall|h: Seq<char>| after.contains(h) implies headers.contains(h) by {
            let k = choose|k: int| 0 <= k < after.len() && after[k] == h;
            if k < before.len() {
                assert(before[k] == h);
                assert(before.contains(h));
                assert(rest.contains(h));
                let i = choose|i: int| 0 <= i < rest.len() && rest[i] == h;
                assert(headers[i] == h);
            } else {
                assert(headers[headers.len() - 1] == h);
            }
        }
        assert forall|i: int, j: int| 0 <= i < j < after.len() implies after[i] != after[j] by {
            if j < before.len() {
                assert(before[i] != before[j]);
            } else {
                assert(!before.contains(last));
                assert(before[i] == after[i]);
                if after[i] == after[j] {
                    assert(before.contains(last));
                }
            }
        }
    }
}

/// A declaration whose type has an entry in the table with a header asks
/// for that header.
pub proof fn lemma_declared_type_asks_for_header(
    is_mut: bool,
    identifier: TokenView,
    base: TokenView,
    generics: Seq<TokenView>,
    initializer: ExpressionView,
    types: Seq<TypeEntryView>,
    std_names: Seq<StdEntryView>,
)
    requires
        translated(base, types) is Some,
        translated(base, types).unwrap().library.len() > 0,
    ensures
        statement(
            StatementView::Let {
                is_mut: is_mut,
                identifier: identifier,
                type_annotation: Some(ExpressionView::TypeAnnotation { base: base, generics: generics }),
                initializer: initializer,
            },
            types,
            std_names,
        ).headers.contains(translated(base, types).unwrap().library),
{
    let library = translated(base, types).unwrap().library;
    let declared = Some(ExpressionView::TypeAnnotation { base: base, generics: generics });
    let whole = statement(
        StatementView::Let {
            is_mut: is_mut,
            identifier: identifier,
            type_annotation: declared,
            initializer: initializer,
        },
        types,
        std_names,
    );
    assert(cpp_type(base, types).headers == seq![library]);
    assert(annotation(declared, types).headers[0] == library);
    assert(whole.headers[0] == library);
}

/// An immutable declaration is the mutable one with `const ` before it.
pub proof fn lemma_let_is_const_unless_mutable(
    identifier: TokenView,
    type_annotation: Option<ExpressionView>,
    initializer: ExpressionView,
    types: Seq<TypeEntryView>,
    std_names: Seq<StdEntryView>,
)
    ensures
        statement(
            StatementView::Let {
                is_mut: false,
                identifier: identifier,
                type_annotation: type_annotation,
                initializer: initializer,
            },
            types,
            std_names,
        ).text == "const"@ + " "@ + statement(
            StatementView::Let {
                is_mut: true,
                identifier: identifier,
                type_annotation: type_annotation,
                initializer: initializer,
            },
            types,
            std_names,
        ).text,
{
    let constant = statement(
        StatementView::Let {
            is_mut: false,
            identifier: identifier,
            type_annotation: type_annotation,
            initializer: initializer,
        },
        types,
        std_names,
    ).text;
    let variable = statement(
        StatementView::Let {
            is_mut: true,
            identifier: identifier,
            type_annotation: type_annotation,
            initializer: initializer,
        },
        types,
        std_names,
    ).text;
    assert(constant =~= "const"@ + " "@ + variable);
}

/// A declaration of an array of `T` is emitted as `T name[] = ...;`: the
/// element type, the name, the brackets; the word `Array` is not emitted.
pub proof fn lemma_array_is_declared_with_brackets(
    identifier: TokenView,
    base: TokenView,
    element: TokenView,
    initializer: ExpressionView,
    types: Seq<TypeEntryView>,
    std_names: Seq<StdEntryView>,
)
    requires
        cpp_type(base, types).text == "Array"@,
    ensures
        statement(
            StatementView::Let {
                is_mut: true,
                identifier: identifier,
                type_annotation: Some(
                    ExpressionView::TypeAnnotation { base: base, generics: seq![element] },
                ),
                initializer: initializer,
            },
            types,
            std_names,
        ).text == cpp_type(element, types).text + " "@ + identifier.lexeme + "[]"@ + " "@ + "="@
            + " "@ + expression(initializer, types, std_names).text + ";"@,
{
    let declared = Some(ExpressionView::TypeAnnotation { base: base, generics: seq![element] });
    let whole = statement(
        StatementView::Let {
            is_mut: true,
            identifier: identifier,
            type_annotation: declared,
            initializer: initializer,
        },
        types,
        std_names,
    ).text;
    assert(generic_list(seq![element], 1, types) == cpp_type(element, types));
    assert(annotation(declared, types).text =~= cpp_type(element, types).text);
    assert(whole =~= cpp_type(element, types).text + " "@ + identifier.lexeme + "[]"@ + " "@ + "="@
        + " "@ + expression(initializer, types, std_names).text + ";"@);
}

/// A `for` over a range is emitted as a counting loop: the variable starts
/// at the range's start, runs while it is below the range's end, and goes
/// up by one; each of the three clauses is there once.
#[verifier::rlimit(30)]
pub proof fn lemma_for_range_is_a_counting_loop(
    for_keyword: TokenView,
    identifier: TokenView,
    type_annotation: Option<ExpressionView>,
    start: ExpressionView,
    end: ExpressionView,
    body: StatementView,
    types: Seq<TypeEntryView>,
    std_names: Seq<StdEntryView>,
)
    ensures
        statement(
            StatementView::For {
                for_keyword: for_keyword,
                identifier: identifier,
                type_annotation: type_annotation,
                iterable: ExpressionView::Range { start: Box::new(start), end: Box::new(end) },
                body: Box::new(body),
            },
            types,
            std_names,
        ).text == "for"@ + " "@ + "("@ + " "@ + annotation(type_annotation, types).text + " "@
            + identifier.lexeme + " "@ + "="@ + " "@ + expression(start, types, std_names).text + ";"@
            + " "@ + identifier.lexeme + " "@ + "<"@ + " "@ + expression(end, types, std_names).text
            + ";"@ + " "@ + identifier.lexeme + "++"@ + " "@ + ")"@ + " "@ + statement(
            body,
            types,
            std_names,
        ).text,
{
    let iterable = ExpressionView::Range { start: Box::new(start), end: Box::new(end) };
    let whole = statement(
        StatementView::For {
            for_keyword: for_keyword,
            identifier: identifier,
            type_annotation: type_annotation,
            iterable: iterable,
            body: Box::new(body),
        },
        types,
        std_names,
    ).text;
    let clause = for_clause(identifier, iterable, types, std_names).text;
    assert(clause =~= "="@ + " "@ + expression(start, types, std_names).text + ";"@ + " "@
        + identifier.lexeme + " "@ + "<"@ + " "@ + expression(end, types, std_names).text + ";"@
        + " "@ + identifier.lexeme + "++"@ + " "@);
    assert(whole =~= "for"@ + " "@ + "("@ + " "@ + annotation(type_annotation, types).text + " "@
        + identifier.lexeme + " "@ + clause + ")"@ + " "@ + statement(body, types, std_names).text);
    assert(whole =~= "for"@ + " "@ + "("@ + " "@ + annotation(type_annotation, types).text + " "@
        + identifier.lexeme + " "@ + "="@ + " "@ + expression(start, types, std_names).text + ";"@
        + " "@ + identifier.lexeme + " "@ + "<"@ + " "@ + expression(end, types, std_names).text
        + ";"@ + " "@ + identifier.lexeme + "++"@ + " "@ + ")"@ + " "@ + statement(
        body,
        types,
        std_names,
    ).text);
}

} // verus!
