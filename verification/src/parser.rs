//! The source-language parser: indentation-delimited, one logical statement
//! per line. The program scanner routes `import`/`from … import` lines to
//! the import parser, `def …:` lines to the function parser — which reads
//! the fixed header and consumes the more-indented body lines that follow —
//! and keeps every other top-level statement in order. Inside any body, a
//! `for` or `if` line owns the strictly deeper lines after it, parsed
//! recursively as its own body. `#adrenaline:<name>` lines inside a
//! function body become directives. A line that fits no statement form is
//! recorded as a recoverable diagnostic and skipped; a header that cannot
//! be matched is a fatal parse error.
//!
//! Expression parsing is a longest-symbol-first, right-to-left scan over a
//! fixed operator token list, recursing into literal, call, index, and
//! bare-identifier fallbacks.
use vstd::prelude::*;
use crate::ast_types::{
    Assignment, AssignmentV, BinOp, Expression, ExpressionV, ForLoop, ForLoopV, FunctionDef,
    FunctionDefV, IfStatement, IfStatementV, Import, ImportV, Parameter, ParameterV, Program,
    ProgramV, Statement, StatementV, Type, TypeV,
};
use crate::diagnostics::{CompileError, CompileErrorV, Diagnostic, DiagnosticV};
use crate::text::{
    char_vec, find_char, is_float_text, is_space, is_word, lemma_find_char_bounds, lemma_trim_le,
    parse_i64, rfind_seq, space_char, spec_contains_seq, spec_find_char, spec_float_text,
    spec_int_text, spec_int_value, spec_is_word, spec_match_at, spec_rfind, spec_rfind_from,
    spec_split_lines, spec_starts_with, spec_trim, spec_trim_start, split_lines, starts_with_seq,
    str_to_string, string_from_chars, subvec, trim_chars,
};

verus! {

/// The recognized type tokens; anything else is `Unknown`.
pub open spec fn spec_parse_type(s: Seq<char>) -> TypeV {
    let t = spec_trim(s);
    if t == "int"@ {
        TypeV::Int
    } else if t == "float"@ {
        TypeV::Float
    } else if t == "bool"@ {
        TypeV::Bool
    } else if t == "str"@ {
        TypeV::String
    } else if t == "list"@ {
        TypeV::List(Box::new(TypeV::Unknown))
    } else {
        TypeV::Unknown
    }
}

/// The operator tokens, longest symbols first so that `<=` is never
/// mis-split as `<`.
pub open spec fn spec_op_token(k: int) -> Seq<char> {
    if k == 0 {
        "**"@
    } else if k == 1 {
        "//"@
    } else if k == 2 {
        "=="@
    } else if k == 3 {
        "!="@
    } else if k == 4 {
        "<="@
    } else if k == 5 {
        ">="@
    } else if k == 6 {
        "+"@
    } else if k == 7 {
        "-"@
    } else if k == 8 {
        "*"@
    } else if k == 9 {
        "/"@
    } else if k == 10 {
        "%"@
    } else if k == 11 {
        "<"@
    } else {
        ">"@
    }
}

pub open spec fn spec_op_binop(k: int) -> BinOp {
    if k == 0 {
        BinOp::Pow
    } else if k == 1 {
        BinOp::FloorDiv
    } else if k == 2 {
        BinOp::Eq
    } else if k == 3 {
        BinOp::NotEq
    } else if k == 4 {
        BinOp::LtE
    } else if k == 5 {
        BinOp::GtE
    } else if k == 6 {
        BinOp::Add
    } else if k == 7 {
        BinOp::Sub
    } else if k == 8 {
        BinOp::Mult
    } else if k == 9 {
        BinOp::Div
    } else if k == 10 {
        BinOp::Mod
    } else if k == 11 {
        BinOp::Lt
    } else {
        BinOp::Gt
    }
}

/// Every operator token is nonempty.
pub proof fn lemma_op_token_len(k: int)
    ensures
        1 <= spec_op_token(k).len() <= 2,
{
    if k == 0 {
        reveal_strlit("**");
    } else if k == 1 {
        reveal_strlit("//");
    } else if k == 2 {
        reveal_strlit("==");
    } else if k == 3 {
        reveal_strlit("!=");
    } else if k == 4 {
        reveal_strlit("<=");
    } else if k == 5 {
        reveal_strlit(">=");
    } else if k == 6 {
        reveal_strlit("+");
    } else if k == 7 {
        reveal_strlit("-");
    } else if k == 8 {
        reveal_strlit("*");
    } else if k == 9 {
        reveal_strlit("/");
    } else if k == 10 {
        reveal_strlit("%");
    } else if k == 11 {
        reveal_strlit("<");
    } else {
        reveal_strlit(">");
    }
}

/// A found occurrence lies in range.
pub proof fn lemma_rfind_bounds(s: Seq<char>, pat: Seq<char>, i: int)
    ensures
        spec_rfind_from(s, pat, i) matches Option::Some(p) ==> 0 <= p && p + pat.len() <= s.len()
            && p <= i,
    decreases i + 1,
{
    if i >= 0 && !spec_match_at(s, pat, i) {
        lemma_rfind_bounds(s, pat, i - 1);
    }
}

/// What an expression text parses to. The alternatives are tried in a
/// fixed order: integer literal, float literal, the boolean literals, a
/// quoted string, a call, the operator scan, an index, and finally a bare
/// identifier.
pub open spec fn spec_parse_expression(s: Seq<char>) -> ExpressionV
    decreases s.len(), 20int,
    via spec_parse_expression_dec
{
    let t = spec_trim(s);
    if spec_int_text(t) && i64::MIN <= spec_int_value(t) <= i64::MAX {
        ExpressionV::IntLit(spec_int_value(t) as i64)
    } else if spec_float_text(t) {
        ExpressionV::FloatLit(t)
    } else if t == "True"@ {
        ExpressionV::BoolLit(true)
    } else if t == "False"@ {
        ExpressionV::BoolLit(false)
    } else if t.len() >= 2 && ((t[0] == '"' && t.last() == '"') || (t[0] == '\'' && t.last()
        == '\'')) {
        ExpressionV::StringLit(t.subrange(1, t.len() - 1))
    } else if spec_find_char(t, '(') is Some && t.len() >= 1 && t.last() == ')' {
        let p = spec_find_char(t, '(')->Some_0;
        let name = spec_trim(t.take(p));
        let args_text = t.subrange(p + 1, t.len() - 1);
        let args = if spec_trim(args_text).len() == 0 {
            Seq::<ExpressionV>::empty()
        } else {
            spec_parse_args(args_text)
        };
        ExpressionV::Call(Box::new(ExpressionV::Identifier(name)), args)
    } else if spec_try_ops(t, 0) is Some {
        spec_try_ops(t, 0)->Some_0
    } else if spec_find_char(t, '[') is Some && t.len() >= 1 && t.last() == ']' {
        let p = spec_find_char(t, '[')->Some_0;
        let name = spec_trim(t.take(p));
        let inner = t.subrange(p + 1, t.len() - 1);
        ExpressionV::Index(
            Box::new(ExpressionV::Identifier(name)),
            Box::new(spec_parse_expression(inner)),
        )
    } else {
        ExpressionV::Identifier(t)
    }
}

/// The right-to-left operator scan: the first token of the list that
/// occurs in `t` with nonempty text on both sides of its last occurrence
/// decides the split.
pub open spec fn spec_try_ops(t: Seq<char>, k: int) -> Option<ExpressionV>
    decreases t.len(), (13 - k),
    via spec_try_ops_dec
{
    if k < 0 || k >= 13 {
        Option::None
    } else {
        let tok = spec_op_token(k);
        match spec_rfind(t, tok) {
            Option::Some(pos) => {
                let left = spec_trim(t.take(pos));
                let right = spec_trim(t.subrange(pos + tok.len() as int, t.len() as int));
                if left.len() > 0 && right.len() > 0 {
                    Option::Some(
                        ExpressionV::BinOp(
                            Box::new(spec_parse_expression(left)),
                            spec_op_binop(k),
                            Box::new(spec_parse_expression(right)),
                        ),
                    )
                } else {
                    spec_try_ops(t, k + 1)
                }
            },
            Option::None => spec_try_ops(t, k + 1),
        }
    }
}

/// A comma-separated argument list, each piece parsed on its own.
pub open spec fn spec_parse_args(s: Seq<char>) -> Seq<ExpressionV>
    decreases s.len(), 21int,
    via spec_parse_args_dec
{
    match spec_find_char(s, ',') {
        Option::Some(i) => seq![spec_parse_expression(s.take(i))] + spec_parse_args(s.skip(i + 1)),
        Option::None => seq![spec_parse_expression(s)],
    }
}

#[via_fn]
proof fn spec_parse_expression_dec(s: Seq<char>) {
    let t = spec_trim(s);
    lemma_trim_le(s);
    lemma_find_char_bounds(t, '(', 0);
    lemma_find_char_bounds(t, '[', 0);
}

#[via_fn]
proof fn spec_try_ops_dec(t: Seq<char>, k: int) {
    if 0 <= k < 13 {
        let tok = spec_op_token(k);
        lemma_op_token_len(k);
        lemma_rfind_bounds(t, tok, t.len() - tok.len());
        if spec_rfind(t, tok) is Some {
            let pos = spec_rfind(t, tok)->Some_0;
            lemma_trim_le(t.take(pos));
            lemma_trim_le(t.subrange(pos + tok.len() as int, t.len() as int));
        }
    }
}

#[via_fn]
proof fn spec_parse_args_dec(s: Seq<char>) {
    lemma_find_char_bounds(s, ',', 0);
}

/// The first assignment point: an `=` that is not part of `==`, `!=`, `<=`
/// or `>=`.
pub open spec fn spec_assign_ok_at(t: Seq<char>, i: int) -> bool {
    &&& 0 <= i < t.len()
    &&& t[i] == '='
    &&& (i + 1 == t.len() || t[i + 1] != '=')
    &&& (i == 0 || (t[i - 1] != '=' && t[i - 1] != '!' && t[i - 1] != '<' && t[i - 1] != '>'))
}

pub open spec fn spec_find_assign_from(t: Seq<char>, i: int) -> Option<int>
    decreases t.len() - i,
{
    if i < 0 || i >= t.len() {
        Option::None
    } else if spec_assign_ok_at(t, i) {
        Option::Some(i)
    } else {
        spec_find_assign_from(t, i + 1)
    }
}

pub open spec fn spec_find_assign(t: Seq<char>) -> Option<int> {
    spec_find_assign_from(t, 0)
}

/// The trimmed text with every trailing colon removed.
pub open spec fn spec_strip_colons(t: Seq<char>) -> Seq<char>
    decreases t.len(),
{
    if t.len() > 0 && t.last() == ':' {
        spec_strip_colons(t.drop_last())
    } else {
        t
    }
}

/// The shape of a `for` line: `for` WS name WS `in` WS iter `:`, with the
/// iterable text ending at the first colon.
pub open spec fn spec_parse_for(t: Seq<char>) -> Option<(Seq<char>, Seq<char>)> {
    // after "for ": name up to whitespace, then "in", then the iterable
    let rest = spec_trim_start(t.skip(4));
    let name_end = spec_first_non_word(rest, 0);
    let name = rest.take(name_end);
    let after = spec_trim_start(rest.skip(name_end));
    if name.len() >= 1 && spec_is_word(name) && spec_starts_with(after, "in"@) && after.len() >= 3
        && is_space(after[2]) {
        let iter_part = spec_trim_start(after.skip(3));
        match spec_find_char(iter_part, ':') {
            Option::Some(c) => Option::Some((name, spec_trim(iter_part.take(c)))),
            Option::None => Option::None,
        }
    } else {
        Option::None
    }
}

/// The first index at or after `from` that is not a word character.
pub open spec fn spec_first_non_word(s: Seq<char>, from: int) -> int
    decreases s.len() - from,
{
    if from < 0 || from >= s.len() {
        s.len() as int
    } else if crate::text::is_word_char(s[from]) {
        spec_first_non_word(s, from + 1)
    } else {
        from
    }
}

/// What one body line parses to: a statement, or nothing — in which case
/// the line is recorded as a recoverable diagnostic. The forms are tried
/// in a fixed order: assignment, `for`, `if`, `return`, the bare keywords,
/// and finally an expression statement, which is refused (not guessed at)
/// when it would collapse to an identifier that is no identifier.
pub open spec fn spec_parse_statement(s: Seq<char>) -> Option<StatementV> {
    let t = spec_trim(s);
    if spec_find_assign(t) is Some {
        let i = spec_find_assign(t)->Some_0;
        let target = spec_trim(t.take(i));
        let value = spec_parse_expression(t.skip(i + 1));
        Option::Some(StatementV::Assign(AssignmentV { targets: seq![target], value }))
    } else if spec_starts_with(t, "for "@) && spec_parse_for(t) is Some {
        let p = spec_parse_for(t)->Some_0;
        Option::Some(
            StatementV::For(
                ForLoopV { target: p.0, iter: spec_parse_expression(p.1), body: Seq::empty() },
            ),
        )
    } else if spec_starts_with(t, "if "@) {
        let cond = spec_strip_colons(spec_trim(t.skip(3)));
        Option::Some(
            StatementV::If(
                IfStatementV {
                    condition: spec_parse_expression(cond),
                    then_body: Seq::empty(),
                    else_body: Option::None,
                },
            ),
        )
    } else if spec_starts_with(t, "return "@) {
        let e = spec_trim(t.skip(7));
        if e.len() == 0 {
            Option::Some(StatementV::Return(Option::None))
        } else {
            Option::Some(StatementV::Return(Option::Some(spec_parse_expression(e))))
        }
    } else if t == "return"@ {
        Option::Some(StatementV::Return(Option::None))
    } else if t == "pass"@ {
        Option::Some(StatementV::Pass)
    } else if t == "break"@ {
        Option::Some(StatementV::Break)
    } else if t == "continue"@ {
        Option::Some(StatementV::Continue)
    } else {
        let e = spec_parse_expression(t);
        if e == ExpressionV::Identifier(t) && !spec_is_word(t) {
            Option::None
        } else {
            Option::Some(StatementV::ExprStatement(e))
        }
    }
}

/// One parameter: a name with an optional `: type` annotation; an
/// unannotated parameter defaults to `Int`.
pub open spec fn spec_parse_param(s: Seq<char>) -> ParameterV {
    match spec_find_char(s, ':') {
        Option::Some(i) => ParameterV {
            name: spec_trim(s.take(i)),
            typ: spec_parse_type(s.skip(i + 1)),
            default: Option::None,
        },
        Option::None => ParameterV {
            name: spec_trim(s),
            typ: TypeV::Int,
            default: Option::None,
        },
    }
}

/// A comma-separated parameter list; empty text means no parameters.
pub open spec fn spec_parse_params(s: Seq<char>) -> Seq<ParameterV>
    decreases s.len(),
    via spec_parse_params_dec
{
    if spec_trim(s).len() == 0 {
        Seq::empty()
    } else {
        match spec_find_char(s, ',') {
            Option::Some(i) => seq![spec_parse_param(s.take(i))] + spec_parse_params(s.skip(i + 1)),
            Option::None => seq![spec_parse_param(s)],
        }
    }
}

#[via_fn]
proof fn spec_parse_params_dec(s: Seq<char>) {
    lemma_find_char_bounds(s, ',', 0);
}

/// The fixed function header: `def` WS name `(` params `)` with an
/// optional `-> type`, then a colon. Parameters end at the first closing
/// parenthesis. `None` when the header cannot be matched.
pub open spec fn spec_parse_header(line: Seq<char>) -> Option<(Seq<char>, Seq<char>, TypeV)> {
    let t = spec_trim(line);
    if !spec_starts_with(t, "def "@) {
        Option::None
    } else {
        let rest = spec_trim_start(t.skip(4));
        let name_end = spec_first_non_word(rest, 0);
        let name = rest.take(name_end);
        let after_name = spec_trim_start(rest.skip(name_end));
        if name.len() == 0 || after_name.len() == 0 || after_name[0] != '(' {
            Option::None
        } else {
            match spec_find_char(after_name, ')') {
                Option::None => Option::None,
                Option::Some(close) => {
                    let params = after_name.subrange(1, close);
                    let tail = spec_trim_start(after_name.skip(close + 1));
                    if spec_starts_with(tail, "->"@) {
                        let rt_text = spec_trim_start(tail.skip(2));
                        let rt_end = spec_first_non_word(rt_text, 0);
                        let rt = rt_text.take(rt_end);
                        let after_rt = spec_trim_start(rt_text.skip(rt_end));
                        if rt.len() >= 1 && after_rt.len() >= 1 && after_rt[0] == ':' {
                            Option::Some((name, params, spec_parse_type(rt)))
                        } else {
                            Option::None
                        }
                    } else if tail.len() >= 1 && tail[0] == ':' {
                        Option::Some((name, params, TypeV::Unknown))
                    } else {
                        Option::None
                    }
                },
            }
        }
    }
}

/// A line's indentation: the characters removed by trimming its start.
pub open spec fn spec_indent(line: Seq<char>) -> int {
    line.len() - spec_trim_start(line).len()
}

/// Whether a line belongs to the body of a function whose header has the
/// given indentation: blank lines, comment lines, and lines indented
/// strictly deeper all do.
pub open spec fn spec_body_line(line: Seq<char>, header_indent: int) -> bool {
    let t = spec_trim(line);
    t.len() == 0 || t[0] == '#' || spec_indent(line) > header_indent
}

/// The first line index at or after `j` that no longer belongs to the body.
pub open spec fn spec_body_end(lines: Seq<Seq<char>>, j: int, header_indent: int) -> int
    decreases lines.len() - j,
{
    if j < 0 || j >= lines.len() {
        lines.len() as int
    } else if spec_body_line(lines[j], header_indent) {
        spec_body_end(lines, j + 1, header_indent)
    } else {
        j
    }
}

/// The directive marker.
pub open spec fn spec_directive_marker() -> Seq<char> {
    "#adrenaline:"@
}

/// Where a compound statement's indentation-scoped body ends: the first
/// line at or after `j` that is no deeper than the compound line, capped at
/// the enclosing region's end.
pub open spec fn spec_nested_end(lines: Seq<Seq<char>>, j: int, indent: int, end: int) -> int {
    let raw = spec_body_end(lines, j, indent);
    if raw > end {
        end
    } else {
        raw
    }
}

/// Whether a statement form carries an indentation-scoped body of its own.
pub open spec fn spec_is_compound(st: StatementV) -> bool {
    st matches StatementV::For(_) || st matches StatementV::If(_)
}

/// The statement with its parsed body threaded in.
pub open spec fn spec_with_body(st: StatementV, body: Seq<StatementV>) -> StatementV {
    match st {
        StatementV::For(fl) => StatementV::For(ForLoopV { body, ..fl }),
        StatementV::If(c) => StatementV::If(IfStatementV { then_body: body, ..c }),
        _ => st,
    }
}

/// What the body lines `[j, end)` contribute: statements, raw directive
/// names, and diagnostics for lines that parse as nothing. A `for` or `if`
/// line owns the strictly deeper lines that follow it, parsed recursively
/// as its body.
pub open spec fn spec_parse_body(lines: Seq<Seq<char>>, j: int, end: int) -> (
    Seq<StatementV>,
    Seq<Seq<char>>,
    Seq<DiagnosticV>,
)
    decreases end - j,
    via spec_parse_body_dec
{
    if j < 0 || j >= end || j >= lines.len() {
        (Seq::empty(), Seq::empty(), Seq::empty())
    } else {
        let t = spec_trim(lines[j]);
        if spec_contains_seq(t, spec_directive_marker()) {
            let rest = spec_parse_body(lines, j + 1, end);
            let start = spec_rfind(t, spec_directive_marker())->Some_0;
            let d = t.skip(start + 12);
            (rest.0, seq![d] + rest.1, rest.2)
        } else if t.len() == 0 || t[0] == '#' {
            spec_parse_body(lines, j + 1, end)
        } else {
            match spec_parse_statement(t) {
                Option::Some(st) => {
                    if spec_is_compound(st) {
                        let sub_end = spec_nested_end(lines, j + 1, spec_indent(lines[j]), end);
                        let sub = spec_parse_body(lines, j + 1, sub_end);
                        let rest = spec_parse_body(lines, sub_end, end);
                        (
                            seq![spec_with_body(st, sub.0)] + rest.0,
                            sub.1 + rest.1,
                            sub.2 + rest.2,
                        )
                    } else {
                        let rest = spec_parse_body(lines, j + 1, end);
                        (seq![st] + rest.0, rest.1, rest.2)
                    }
                },
                Option::None => {
                    let rest = spec_parse_body(lines, j + 1, end);
                    (
                        rest.0,
                        rest.1,
                        seq![
                            DiagnosticV {
                                line: j as usize,
                                message: "statement could not be parsed"@,
                                fatal: false,
                            },
                        ] + rest.2,
                    )
                },
            }
        }
    }
}

#[via_fn]
proof fn spec_parse_body_dec(lines: Seq<Seq<char>>, j: int, end: int) {
    if 0 <= j < end && j < lines.len() {
        if j + 1 <= lines.len() {
            lemma_body_end_ge(lines, j + 1, spec_indent(lines[j]));
        }
    }
}

/// What a function definition starting at line `i` parses to, with the
/// index of the first line after its body; `None` when the header cannot
/// be matched.
pub open spec fn spec_parse_function(lines: Seq<Seq<char>>, i: int) -> Option<
    (FunctionDefV, int, Seq<DiagnosticV>),
> {
    match spec_parse_header(lines[i]) {
        Option::None => Option::None,
        Option::Some(h) => {
            let indent = spec_indent(lines[i]);
            let end = spec_body_end(lines, i + 1, indent);
            let body = spec_parse_body(lines, i + 1, end);
            let stmts = if body.0.len() == 0 {
                seq![StatementV::Pass]
            } else {
                body.0
            };
            Option::Some(
                (
                    FunctionDefV {
                        name: h.0,
                        params: spec_parse_params(h.1),
                        body: stmts,
                        return_type: h.2,
                        directives: body.1,
                    },
                    end,
                    body.2,
                ),
            )
        },
    }
}

/// What an import line parses to: `from M import items` (a `*` item list
/// meaning a wildcard), else `import M`.
pub open spec fn spec_parse_import(t: Seq<char>) -> ImportV {
    if spec_starts_with(t, "from "@) {
        let rest = spec_trim_start(t.skip(5));
        let name_end = spec_first_non_word(rest, 0);
        let module = rest.take(name_end);
        let after = spec_trim_start(rest.skip(name_end));
        if spec_starts_with(after, "import "@) {
            let items_text = spec_trim(after.skip(7));
            if items_text == "*"@ {
                ImportV { module, items: Option::None, alias: Option::None }
            } else {
                ImportV {
                    module,
                    items: Option::Some(spec_split_trim(items_text)),
                    alias: Option::None,
                }
            }
        } else {
            ImportV { module: spec_trim(t), items: Option::None, alias: Option::None }
        }
    } else if spec_starts_with(t, "import "@) {
        ImportV { module: spec_trim(t.skip(7)), items: Option::None, alias: Option::None }
    } else {
        ImportV { module: spec_trim(t), items: Option::None, alias: Option::None }
    }
}

/// Comma-separated pieces, each trimmed.
pub open spec fn spec_split_trim(s: Seq<char>) -> Seq<Seq<char>>
    decreases s.len(),
    via spec_split_trim_dec
{
    match spec_find_char(s, ',') {
        Option::Some(i) => seq![spec_trim(s.take(i))] + spec_split_trim(s.skip(i + 1)),
        Option::None => seq![spec_trim(s)],
    }
}

#[via_fn]
proof fn spec_split_trim_dec(s: Seq<char>) {
    lemma_find_char_bounds(s, ',', 0);
}

/// What the program lines from `i` parse to, or the line of a fatal header
/// failure. Blanks and comments are skipped; import lines, definitions and
/// plain top-level statements are all kept in order, a compound top-level
/// statement owning the strictly deeper lines that follow it.
pub open spec fn spec_parse_program_rec(lines: Seq<Seq<char>>, i: int) -> Result<
    (Seq<StatementV>, Seq<ImportV>, Seq<DiagnosticV>),
    usize,
>
    decreases lines.len() - i,
    via spec_parse_program_rec_dec
{
    if i < 0 || i >= lines.len() {
        Result::Ok((Seq::empty(), Seq::empty(), Seq::empty()))
    } else {
        let t = spec_trim(lines[i]);
        if t.len() == 0 || t[0] == '#' {
            spec_parse_program_rec(lines, i + 1)
        } else if spec_starts_with(t, "import "@) || spec_starts_with(t, "from "@) {
            match spec_parse_program_rec(lines, i + 1) {
                Result::Ok(r) => Result::Ok((r.0, seq![spec_parse_import(t)] + r.1, r.2)),
                Result::Err(e) => Result::Err(e),
            }
        } else if spec_starts_with(t, "def "@) {
            match spec_parse_function(lines, i) {
                Option::None => Result::Err(i as usize),
                Option::Some(f) => match spec_parse_program_rec(lines, f.1) {
                    Result::Ok(r) => Result::Ok(
                        (seq![StatementV::FunctionDef(f.0)] + r.0, r.1, f.2 + r.2),
                    ),
                    Result::Err(e) => Result::Err(e),
                },
            }
        } else {
            match spec_parse_statement(t) {
                Option::Some(st) => {
                    if spec_is_compound(st) {
                        let sub_end = spec_nested_end(
                            lines,
                            i + 1,
                            spec_indent(lines[i]),
                            lines.len() as int,
                        );
                        let sub = spec_parse_body(lines, i + 1, sub_end);
                        match spec_parse_program_rec(lines, sub_end) {
                            Result::Ok(r) => Result::Ok(
                                (seq![spec_with_body(st, sub.0)] + r.0, r.1, sub.2 + r.2),
                            ),
                            Result::Err(e) => Result::Err(e),
                        }
                    } else {
                        match spec_parse_program_rec(lines, i + 1) {
                            Result::Ok(r) => Result::Ok((seq![st] + r.0, r.1, r.2)),
                            Result::Err(e) => Result::Err(e),
                        }
                    }
                },
                Option::None => match spec_parse_program_rec(lines, i + 1) {
                    Result::Ok(r) => Result::Ok(
                        (
                            r.0,
                            r.1,
                            seq![
                                DiagnosticV {
                                    line: i as usize,
                                    message: "statement could not be parsed"@,
                                    fatal: false,
                                },
                            ] + r.2,
                        ),
                    ),
                    Result::Err(e) => Result::Err(e),
                },
            }
        }
    }
}

/// A function body never ends before the line after its header.
pub proof fn lemma_body_end_ge(lines: Seq<Seq<char>>, j: int, indent: int)
    requires
        0 <= j <= lines.len(),
    ensures
        spec_body_end(lines, j, indent) >= j,
        spec_body_end(lines, j, indent) <= lines.len(),
    decreases lines.len() - j,
{
    if 0 <= j < lines.len() && spec_body_line(lines[j], indent) {
        lemma_body_end_ge(lines, j + 1, indent);
    }
}

#[via_fn]
proof fn spec_parse_program_rec_dec(lines: Seq<Seq<char>>, i: int) {
    if 0 <= i < lines.len() {
        lemma_body_end_ge(lines, i + 1, spec_indent(lines[i]));
    }
}

/// A nested body never ends before it begins nor past its cap.
pub proof fn lemma_nested_end_range(lines: Seq<Seq<char>>, j: int, indent: int, end: int)
    requires
        0 <= j <= lines.len(),
        j <= end,
    ensures
        j <= spec_nested_end(lines, j, indent, end),
        spec_nested_end(lines, j, indent, end) <= end,
    decreases lines.len() - j,
{
    lemma_body_end_ge(lines, j, indent);
}

/// What a whole source text parses to: its program together with the
/// recoverable diagnostics, or the line of the fatal header failure.
pub open spec fn spec_parse(source: Seq<char>) -> Result<(ProgramV, Seq<DiagnosticV>), usize> {
    match spec_parse_program_rec(spec_split_lines(source), 0) {
        Result::Ok(r) => Result::Ok((ProgramV { statements: r.0, imports: r.1 }, r.2)),
        Result::Err(e) => Result::Err(e),
    }
}

/// The characters removed by `spec_trim_start`, executably.
fn trim_start_chars(v: &Vec<char>) -> (r: Vec<char>)
    ensures
        r@ == spec_trim_start(v@),
{
    let n = v.len();
    let mut start: usize = 0;
    while start < n && space_char(v[start])
        invariant
            start <= n,
            n == v@.len(),
            forall|k: int| 0 <= k < start ==> is_space(v@[k]),
        decreases n - start,
    {
        start += 1;
    }
    proof {
        crate::text::lemma_trim_start_at(v@, start as int);
    }
    subvec(v, start, n)
}

/// The recognized type tokens, executably.
pub fn parse_type(v: &Vec<char>) -> (r: Type)
    ensures
        r@ == spec_parse_type(v@),
{
    let t = trim_chars(v);
    proof {
        reveal_with_fuel(crate::ast_types::view_type, 2);
    }
    if crate::text::vec_eq_str(&t, "int") {
        Type::Int
    } else if crate::text::vec_eq_str(&t, "float") {
        Type::Float
    } else if crate::text::vec_eq_str(&t, "bool") {
        Type::Bool
    } else if crate::text::vec_eq_str(&t, "str") {
        Type::String
    } else if crate::text::vec_eq_str(&t, "list") {
        Type::List(Box::new(Type::Unknown))
    } else {
        Type::Unknown
    }
}

/// One operator token and its operator.
fn op_pattern(k: usize) -> (r: (Vec<char>, BinOp))
    requires
        k < 13,
    ensures
        r.0@ == spec_op_token(k as int),
        r.1 == spec_op_binop(k as int),
        1 <= r.0@.len() <= 2,
{
    proof {
        lemma_op_token_len(k as int);
    }
    if k == 0 {
        (char_vec("**"), BinOp::Pow)
    } else if k == 1 {
        (char_vec("//"), BinOp::FloorDiv)
    } else if k == 2 {
        (char_vec("=="), BinOp::Eq)
    } else if k == 3 {
        (char_vec("!="), BinOp::NotEq)
    } else if k == 4 {
        (char_vec("<="), BinOp::LtE)
    } else if k == 5 {
        (char_vec(">="), BinOp::GtE)
    } else if k == 6 {
        (char_vec("+"), BinOp::Add)
    } else if k == 7 {
        (char_vec("-"), BinOp::Sub)
    } else if k == 8 {
        (char_vec("*"), BinOp::Mult)
    } else if k == 9 {
        (char_vec("/"), BinOp::Div)
    } else if k == 10 {
        (char_vec("%"), BinOp::Mod)
    } else if k == 11 {
        (char_vec("<"), BinOp::Lt)
    } else {
        (char_vec(">"), BinOp::Gt)
    }
}

/// Parses one expression text.
pub fn parse_expression(v: &Vec<char>) -> (r: Expression)
    ensures
        r@ == spec_parse_expression(v@),
    decreases v@.len(), 20int,
{
    let t = trim_chars(v);
    proof {
        lemma_trim_le(v@);
    }
    match parse_i64(&t) {
        Option::Some(n) => {
            return Expression::IntLit(n);
        },
        Option::None => {},
    }
    if is_float_text(&t) {
        return Expression::FloatLit(string_from_chars(&t));
    }
    if crate::text::vec_eq_str(&t, "True") {
        return Expression::BoolLit(true);
    }
    if crate::text::vec_eq_str(&t, "False") {
        return Expression::BoolLit(false);
    }
    if t.len() >= 2 && ((t[0] == '"' && t[t.len() - 1] == '"') || (t[0] == '\'' && t[t.len() - 1]
        == '\'')) {
        let inner = subvec(&t, 1, t.len() - 1);
        proof {
            assert(inner@ =~= t@.subrange(1, t@.len() - 1));
        }
        return Expression::StringLit(string_from_chars(&inner));
    }
    let lparen = find_char(&t, '(');
    if lparen.is_some() && t.len() >= 1 && t[t.len() - 1] == ')' {
        let p = lparen.unwrap();
        proof {
            lemma_find_char_bounds(t@, '(', 0);
            assert(t@[p as int] == '(');
            assert(p < t@.len() - 1);
        }
        let name = trim_chars(&subvec(&t, 0, p));
        let args_text = subvec(&t, p + 1, t.len() - 1);
        proof {
            assert(args_text@ =~= t@.subrange(p + 1, t@.len() - 1));
        }
        let trimmed_args = trim_chars(&args_text);
        let args: Vec<Expression> = if trimmed_args.len() == 0 {
            Vec::new()
        } else {
            proof {
                lemma_trim_le(t@);
            }
            parse_args(&args_text)
        };
        proof {
            if spec_trim(args_text@).len() == 0 {
                assert(crate::ast_types::view_expr_seq(Seq::<Expression>::empty()) =~= Seq::<
                    ExpressionV,
                >::empty());
            }
        }
        let callee = Expression::Identifier(string_from_chars(&name));
        proof {
            assert(callee@ == ExpressionV::Identifier(name@));
        }
        let out = Expression::Call(Box::new(callee), args);
        proof {
            assert(out@ == spec_parse_expression(v@));
        }
        return out;
    }
    match try_ops(&t, 0) {
        Option::Some(e) => {
            return e;
        },
        Option::None => {},
    }
    let lbrack = find_char(&t, '[');
    if lbrack.is_some() && t.len() >= 1 && t[t.len() - 1] == ']' {
        let p = lbrack.unwrap();
        proof {
            lemma_find_char_bounds(t@, '[', 0);
            assert(t@[p as int] == '[');
            assert(p < t@.len() - 1);
        }
        let name = trim_chars(&subvec(&t, 0, p));
        let inner = subvec(&t, p + 1, t.len() - 1);
        proof {
            assert(inner@ =~= t@.subrange(p + 1, t@.len() - 1));
        }
        let idx = parse_expression(&inner);
        let arr = Expression::Identifier(string_from_chars(&name));
        proof {
            assert(arr@ == ExpressionV::Identifier(name@));
        }
        let out = Expression::Index(Box::new(arr), Box::new(idx));
        proof {
            assert(out@ == spec_parse_expression(v@));
        }
        return out;
    }
    Expression::Identifier(string_from_chars(&t))
}

/// The right-to-left operator scan, executably.
fn try_ops(t: &Vec<char>, k: usize) -> (r: Option<Expression>)
    requires
        k <= 13,
    ensures
        match r {
            Option::Some(e) => spec_try_ops(t@, k as int) == Option::Some(e@),
            Option::None => spec_try_ops(t@, k as int) is None,
        },
    decreases t@.len(), (13 - k as int),
{
    if k >= 13 {
        return None;
    }
    let (tok, op) = op_pattern(k);
    match rfind_seq(t, &tok) {
        Option::Some(pos) => {
            proof {
                lemma_rfind_bounds(t@, tok@, t@.len() - tok@.len());
                assert(pos + tok@.len() <= t@.len());
            }
            let tn = t.len();
            let left_raw = subvec(t, 0, pos);
            let left = trim_chars(&left_raw);
            let right_raw = subvec(t, pos + tok.len(), tn);
            let right = trim_chars(&right_raw);
            proof {
                assert(left_raw@ =~= t@.take(pos as int));
                assert(right_raw@ =~= t@.subrange(pos + tok@.len() as int, t@.len() as int));
                lemma_trim_le(left_raw@);
                lemma_trim_le(right_raw@);
            }
            if left.len() > 0 && right.len() > 0 {
                let le = parse_expression(&left);
                let re = parse_expression(&right);
                let out = Expression::BinOp(Box::new(le), op, Box::new(re));
                Some(out)
            } else {
                try_ops(t, k + 1)
            }
        },
        Option::None => try_ops(t, k + 1),
    }
}

/// Parses a comma-separated argument list.
fn parse_args(s: &Vec<char>) -> (r: Vec<Expression>)
    ensures
        crate::ast_types::view_expr_seq(r@) == spec_parse_args(s@),
    decreases s@.len(), 21int,
{
    match find_char(s, ',') {
        Option::Some(i) => {
            proof {
                lemma_find_char_bounds(s@, ',', 0);
            }
            let n = s.len();
            let head_raw = subvec(s, 0, i);
            let tail_raw = subvec(s, i + 1, n);
            proof {
                assert(head_raw@ =~= s@.take(i as int));
                assert(tail_raw@ =~= s@.skip(i + 1 as int));
            }
            let first = parse_expression(&head_raw);
            let rest = parse_args(&tail_raw);
            let mut out = rest;
            out.insert(0, first);
            proof {
                assert(crate::ast_types::view_expr_seq(out@) =~= seq![
                    spec_parse_expression(s@.take(i as int)),
                ] + spec_parse_args(s@.skip(i + 1 as int)));
            }
            out
        },
        Option::None => {
            let first = parse_expression(s);
            let mut out: Vec<Expression> = Vec::new();
            out.push(first);
            proof {
                assert(crate::ast_types::view_expr_seq(out@) =~= seq![spec_parse_expression(s@)]);
            }
            out
        },
    }
}

/// The first assignment point, executably.
fn find_assign(t: &Vec<char>) -> (r: Option<usize>)
    ensures
        match r {
            Option::Some(i) => spec_find_assign(t@) == Option::Some(i as int) && i < t@.len(),
            Option::None => spec_find_assign(t@) is None,
        },
{
    let n = t.len();
    let mut i: usize = 0;
    while i < n
        invariant
            i <= n,
            n == t@.len(),
            spec_find_assign(t@) == spec_find_assign_from(t@, i as int),
        decreases n - i,
    {
        let ok = t[i] == '=' && (i + 1 == n || t[i + 1] != '=') && (i == 0 || (t[i - 1] != '=' && t[
            i - 1] != '!' && t[i - 1] != '<' && t[i - 1] != '>'));
        proof {
            assert(ok == spec_assign_ok_at(t@, i as int));
        }
        if ok {
            return Some(i);
        }
        i += 1;
    }
    None
}

/// Strips trailing colons, executably.
fn strip_colons(t: &Vec<char>) -> (r: Vec<char>)
    ensures
        r@ == spec_strip_colons(t@),
{
    let mut end = t.len();
    while end > 0 && t[end - 1] == ':'
        invariant
            end <= t@.len(),
            forall|k: int| end <= k < t@.len() ==> t@[k] == ':',
        decreases end,
    {
        end -= 1;
    }
    proof {
        lemma_strip_colons_at(t@, end as int);
    }
    subvec(t, 0, end)
}

proof fn lemma_strip_colons_at(t: Seq<char>, j: int)
    requires
        0 <= j <= t.len(),
        forall|k: int| j <= k < t.len() ==> t[k] == ':',
        j == 0 || t[j - 1] != ':',
    ensures
        spec_strip_colons(t) == t.subrange(0, j),
    decreases t.len() - j,
{
    if j == t.len() {
        assert(t.subrange(0, j) =~= t);
        if t.len() > 0 && t.last() == ':' {
            assert(false);
        }
    } else {
        lemma_strip_colons_at(t.drop_last(), j);
        assert(t.drop_last().subrange(0, j) =~= t.subrange(0, j));
    }
}

/// The first non-word index, executably.
fn first_non_word(s: &Vec<char>, from: usize) -> (r: usize)
    requires
        from <= s@.len(),
    ensures
        r as int == spec_first_non_word(s@, from as int),
        from <= r <= s@.len(),
{
    let n = s.len();
    let mut i = from;
    while i < n
        invariant
            from <= i <= n,
            n == s@.len(),
            spec_first_non_word(s@, from as int) == spec_first_non_word(s@, i as int),
        decreases n - i,
    {
        if !crate::text::word_char(s[i]) {
            return i;
        }
        i += 1;
    }
    n
}

/// The pieces of a `for` line, executably.
fn parse_for(t: &Vec<char>) -> (r: Option<(Vec<char>, Vec<char>)>)
    requires
        t@.len() >= 4,
    ensures
        match r {
            Option::Some(p) => spec_parse_for(t@) == Option::Some((p.0@, p.1@)),
            Option::None => spec_parse_for(t@) is None,
        },
{
    let tn = t.len();
    let after4 = subvec(t, 4, tn);
    proof {
        assert(after4@ =~= t@.skip(4));
    }
    let rest = trim_start_chars(&after4);
    let name_end = first_non_word(&rest, 0);
    let name = subvec(&rest, 0, name_end);
    let after_raw = subvec(&rest, name_end, rest.len());
    let after = trim_start_chars(&after_raw);
    proof {
        assert(name@ =~= rest@.take(name_end as int));
        assert(after_raw@ =~= rest@.skip(name_end as int));
    }
    let in_tok = char_vec("in");
    let cond = name.len() >= 1 && is_word(&name) && starts_with_seq(&after, &in_tok) && after.len()
        >= 3 && space_char(after[2]);
    proof {
        reveal_strlit("in");
    }
    if !cond {
        return None;
    }
    let iter_raw = subvec(&after, 3, after.len());
    let iter_part = trim_start_chars(&iter_raw);
    proof {
        assert(iter_raw@ =~= after@.skip(3));
    }
    match find_char(&iter_part, ':') {
        Option::Some(c) => {
            let head = subvec(&iter_part, 0, c);
            let iter_text = trim_chars(&head);
            proof {
                assert(head@ =~= iter_part@.take(c as int));
            }
            Some((name, iter_text))
        },
        Option::None => None,
    }
}

/// Parses one body line into a statement, or nothing.
pub fn parse_statement(v: &Vec<char>) -> (r: Option<Statement>)
    ensures
        match r {
            Option::Some(st) => spec_parse_statement(v@) == Option::Some(st@),
            Option::None => spec_parse_statement(v@) is None,
        },
{
    let t = trim_chars(v);
    match find_assign(&t) {
        Option::Some(i) => {
            let tn = t.len();
            let target_raw = subvec(&t, 0, i);
            let target = trim_chars(&target_raw);
            let value_raw = subvec(&t, i + 1, tn);
            proof {
                assert(target_raw@ =~= t@.take(i as int));
                assert(value_raw@ =~= t@.skip(i + 1 as int));
            }
            let value = parse_expression(&value_raw);
            let mut targets: Vec<String> = Vec::new();
            targets.push(string_from_chars(&target));
            let st = Statement::Assign(Assignment { targets, value });
            proof {
                assert(crate::text::view_string_seq(st->Assign_0.targets@) =~= seq![target@]);
                assert(st@ == spec_parse_statement(v@)->Some_0);
            }
            return Some(st);
        },
        Option::None => {},
    }
    let for_tok = char_vec("for ");
    if starts_with_seq(&t, &for_tok) {
        proof {
            reveal_strlit("for ");
        }
        match parse_for(&t) {
            Option::Some((name, iter_text)) => {
                let iter = parse_expression(&iter_text);
                let st = Statement::For(
                    ForLoop {
                        target: string_from_chars(&name),
                        iter,
                        body: Vec::new(),
                    },
                );
                proof {
                    assert(crate::ast_types::view_stmt_seq(Seq::<Statement>::empty()) =~= Seq::<
                        StatementV,
                    >::empty());
                    assert(st@ == spec_parse_statement(v@)->Some_0);
                }
                return Some(st);
            },
            Option::None => {},
        }
    }
    let if_tok = char_vec("if ");
    if starts_with_seq(&t, &if_tok) {
        proof {
            reveal_strlit("if ");
        }
        let tn = t.len();
        let rest = subvec(&t, 3, tn);
        proof {
            assert(rest@ =~= t@.skip(3));
        }
        let cond_text = strip_colons(&trim_chars(&rest));
        let cond = parse_expression(&cond_text);
        let st = Statement::If(
            IfStatement { condition: cond, then_body: Vec::new(), else_body: Option::None },
        );
        proof {
            assert(crate::ast_types::view_stmt_seq(Seq::<Statement>::empty()) =~= Seq::<
                StatementV,
            >::empty());
            assert(st@ == spec_parse_statement(v@)->Some_0);
        }
        return Some(st);
    }
    let ret_tok = char_vec("return ");
    if starts_with_seq(&t, &ret_tok) {
        proof {
            reveal_strlit("return ");
        }
        let tn = t.len();
        let rest = subvec(&t, 7, tn);
        proof {
            assert(rest@ =~= t@.skip(7));
        }
        let e_text = trim_chars(&rest);
        if e_text.len() == 0 {
            return Some(Statement::Return(Option::None));
        }
        let e = parse_expression(&e_text);
        let st = Statement::Return(Option::Some(e));
        proof {
            assert(st@ == spec_parse_statement(v@)->Some_0);
        }
        return Some(st);
    }
    if crate::text::vec_eq_str(&t, "return") {
        return Some(Statement::Return(Option::None));
    }
    if crate::text::vec_eq_str(&t, "pass") {
        return Some(Statement::Pass);
    }
    if crate::text::vec_eq_str(&t, "break") {
        return Some(Statement::Break);
    }
    if crate::text::vec_eq_str(&t, "continue") {
        return Some(Statement::Continue);
    }
    let e = parse_expression(&t);
    let is_ident_fallback = match &e {
        Expression::Identifier(name) => crate::text::vec_eq_str(&t, name.as_str()),
        _ => false,
    };
    if is_ident_fallback && !is_word(&t) {
        proof {
            assert(spec_parse_statement(v@) is None);
        }
        return None;
    }
    let st = Statement::ExprStatement(e);
    proof {
        assert(st@ == spec_parse_statement(v@)->Some_0);
    }
    Some(st)
}

/// One parameter, executably.
fn parse_param(s: &Vec<char>) -> (r: Parameter)
    ensures
        r@ == spec_parse_param(s@),
{
    let n = s.len();
    match find_char(s, ':') {
        Option::Some(i) => {
            let name_raw = subvec(s, 0, i);
            let ty_raw = subvec(s, i + 1, n);
            proof {
                assert(name_raw@ =~= s@.take(i as int));
                assert(ty_raw@ =~= s@.skip(i + 1 as int));
            }
            Parameter {
                name: string_from_chars(&trim_chars(&name_raw)),
                typ: parse_type(&ty_raw),
                default: Option::None,
            }
        },
        Option::None => Parameter {
            name: string_from_chars(&trim_chars(s)),
            typ: Type::Int,
            default: Option::None,
        },
    }
}

/// The comma-separated parameter list, executably.
fn parse_parameters(s: &Vec<char>) -> (r: Vec<Parameter>)
    ensures
        crate::ast_types::view_param_seq(r@) == spec_parse_params(s@),
    decreases s@.len(),
{
    let t = trim_chars(s);
    if t.len() == 0 {
        let out: Vec<Parameter> = Vec::new();
        proof {
            assert(crate::ast_types::view_param_seq(out@) =~= Seq::<ParameterV>::empty());
        }
        return out;
    }
    let n = s.len();
    match find_char(s, ',') {
        Option::Some(i) => {
            proof {
                lemma_find_char_bounds(s@, ',', 0);
            }
            let head = subvec(s, 0, i);
            let tail = subvec(s, i + 1, n);
            proof {
                assert(head@ =~= s@.take(i as int));
                assert(tail@ =~= s@.skip(i + 1 as int));
            }
            let first = parse_param(&head);
            let rest = parse_parameters(&tail);
            let mut out = rest;
            out.insert(0, first);
            proof {
                assert(crate::ast_types::view_param_seq(out@) =~= seq![
                    spec_parse_param(s@.take(i as int)),
                ] + spec_parse_params(s@.skip(i + 1 as int)));
            }
            out
        },
        Option::None => {
            let first = parse_param(s);
            let mut out: Vec<Parameter> = Vec::new();
            out.push(first);
            proof {
                assert(crate::ast_types::view_param_seq(out@) =~= seq![spec_parse_param(s@)]);
            }
            out
        },
    }
}

/// The fixed function header, executably.
fn parse_header(line: &Vec<char>) -> (r: Option<(String, Vec<char>, Type)>)
    ensures
        match r {
            Option::Some(h) => spec_parse_header(line@) == Option::Some((h.0@, h.1@, h.2@)),
            Option::None => spec_parse_header(line@) is None,
        },
{
    let t = trim_chars(line);
    let def_tok = char_vec("def ");
    proof {
        reveal_strlit("def ");
    }
    if !starts_with_seq(&t, &def_tok) {
        return None;
    }
    let tn = t.len();
    let after4 = subvec(&t, 4, tn);
    proof {
        assert(after4@ =~= t@.skip(4));
    }
    let rest = trim_start_chars(&after4);
    let name_end = first_non_word(&rest, 0);
    let name = subvec(&rest, 0, name_end);
    let after_name_raw = subvec(&rest, name_end, rest.len());
    let after_name = trim_start_chars(&after_name_raw);
    proof {
        assert(name@ =~= rest@.take(name_end as int));
        assert(after_name_raw@ =~= rest@.skip(name_end as int));
    }
    if name.len() == 0 || after_name.len() == 0 || after_name[0] != '(' {
        return None;
    }
    match find_char(&after_name, ')') {
        Option::None => None,
        Option::Some(close) => {
            proof {
                lemma_find_char_bounds(after_name@, ')', 0);
            }
            let an = after_name.len();
            let params = if close >= 1 {
                subvec(&after_name, 1, close)
            } else {
                Vec::new()
            };
            proof {
                if close >= 1 {
                    assert(params@ =~= after_name@.subrange(1, close as int));
                } else {
                    assert(after_name@[0] == '(');
                    assert(after_name@[close as int] == ')');
                    assert(false);
                }
            }
            let tail_raw = subvec(&after_name, close + 1, an);
            let tail = trim_start_chars(&tail_raw);
            proof {
                assert(tail_raw@ =~= after_name@.skip(close + 1 as int));
            }
            let arrow_tok = char_vec("->");
            proof {
                reveal_strlit("->");
            }
            if starts_with_seq(&tail, &arrow_tok) {
                let tl = tail.len();
                let rt_raw = subvec(&tail, 2, tl);
                let rt_text = trim_start_chars(&rt_raw);
                proof {
                    assert(rt_raw@ =~= tail@.skip(2));
                }
                let rt_end = first_non_word(&rt_text, 0);
                let rt = subvec(&rt_text, 0, rt_end);
                let after_rt_raw = subvec(&rt_text, rt_end, rt_text.len());
                let after_rt = trim_start_chars(&after_rt_raw);
                proof {
                    assert(rt@ =~= rt_text@.take(rt_end as int));
                    assert(after_rt_raw@ =~= rt_text@.skip(rt_end as int));
                }
                if rt.len() >= 1 && after_rt.len() >= 1 && after_rt[0] == ':' {
                    Some((string_from_chars(&name), params, parse_type(&rt)))
                } else {
                    None
                }
            } else if tail.len() >= 1 && tail[0] == ':' {
                Some((string_from_chars(&name), params, Type::Unknown))
            } else {
                None
            }
        },
    }
}

/// A line's indentation, executably.
pub fn get_indent(line: &Vec<char>) -> (r: usize)
    ensures
        r as int == spec_indent(line@),
{
    let t = trim_start_chars(line);
    proof {
        crate::text::lemma_trim_start_le(line@);
    }
    line.len() - t.len()
}

/// Comma-separated pieces, each trimmed, executably.
fn split_trim(s: &Vec<char>) -> (r: Vec<String>)
    ensures
        crate::text::view_string_seq(r@) == spec_split_trim(s@),
    decreases s@.len(),
{
    let n = s.len();
    match find_char(s, ',') {
        Option::Some(i) => {
            proof {
                lemma_find_char_bounds(s@, ',', 0);
            }
            let head = subvec(s, 0, i);
            let tail = subvec(s, i + 1, n);
            proof {
                assert(head@ =~= s@.take(i as int));
                assert(tail@ =~= s@.skip(i + 1 as int));
            }
            let first = string_from_chars(&trim_chars(&head));
            let rest = split_trim(&tail);
            let mut out = rest;
            out.insert(0, first);
            proof {
                assert(crate::text::view_string_seq(out@) =~= seq![spec_trim(s@.take(i as int))]
                    + spec_split_trim(s@.skip(i + 1 as int)));
            }
            out
        },
        Option::None => {
            let first = string_from_chars(&trim_chars(s));
            let mut out: Vec<String> = Vec::new();
            out.push(first);
            proof {
                assert(crate::text::view_string_seq(out@) =~= seq![spec_trim(s@)]);
            }
            out
        },
    }
}

/// One import line, executably.
fn parse_import(t: &Vec<char>) -> (r: Import)
    ensures
        r@ == spec_parse_import(t@),
{
    let from_tok = char_vec("from ");
    proof {
        reveal_strlit("from ");
    }
    if starts_with_seq(t, &from_tok) {
        let tn = t.len();
        let rest_raw = subvec(t, 5, tn);
        let rest = trim_start_chars(&rest_raw);
        proof {
            assert(rest_raw@ =~= t@.skip(5));
        }
        let name_end = first_non_word(&rest, 0);
        let module = subvec(&rest, 0, name_end);
        let after_raw = subvec(&rest, name_end, rest.len());
        let after = trim_start_chars(&after_raw);
        proof {
            assert(module@ =~= rest@.take(name_end as int));
            assert(after_raw@ =~= rest@.skip(name_end as int));
        }
        let import_tok = char_vec("import ");
        proof {
            reveal_strlit("import ");
        }
        if starts_with_seq(&after, &import_tok) {
            let an = after.len();
            let items_raw = subvec(&after, 7, an);
            let items_text = trim_chars(&items_raw);
            proof {
                assert(items_raw@ =~= after@.skip(7));
            }
            if crate::text::vec_eq_str(&items_text, "*") {
                Import {
                    module: string_from_chars(&module),
                    items: Option::None,
                    alias: Option::None,
                }
            } else {
                let out = Import {
                    module: string_from_chars(&module),
                    items: Option::Some(split_trim(&items_text)),
                    alias: Option::None,
                };
                proof {
                    assert(out@ =~~= spec_parse_import(t@));
                }
                out
            }
        } else {
            Import {
                module: string_from_chars(&trim_chars(t)),
                items: Option::None,
                alias: Option::None,
            }
        }
    } else {
        let import_tok = char_vec("import ");
        proof {
            reveal_strlit("import ");
        }
        if starts_with_seq(t, &import_tok) {
            let tn = t.len();
            let rest = subvec(t, 7, tn);
            proof {
                assert(rest@ =~= t@.skip(7));
            }
            Import {
                module: string_from_chars(&trim_chars(&rest)),
                items: Option::None,
                alias: Option::None,
            }
        } else {
            Import {
                module: string_from_chars(&trim_chars(t)),
                items: Option::None,
                alias: Option::None,
            }
        }
    }
}

/// The first line at or after `j` that no longer belongs to the body.
fn body_end(lines: &Vec<Vec<char>>, j: usize, header_indent: usize) -> (r: usize)
    requires
        j <= lines@.len(),
    ensures
        r as int == spec_body_end(lines.deep_view(), j as int, header_indent as int),
        j <= r <= lines@.len(),
{
    let n = lines.len();
    let mut i = j;
    while i < n
        invariant
            j <= i <= n,
            n == lines@.len(),
            spec_body_end(lines.deep_view(), j as int, header_indent as int) == spec_body_end(
                lines.deep_view(),
                i as int,
                header_indent as int,
            ),
        decreases n - i,
    {
        let line = &lines[i];
        let t = trim_chars(line);
        let belongs = t.len() == 0 || t[0] == '#' || get_indent(line) > header_indent;
        proof {
            assert(lines.deep_view()[i as int] == lines@[i as int]@);
            assert(belongs == spec_body_line(lines.deep_view()[i as int], header_indent as int));
        }
        if !belongs {
            return i;
        }
        i += 1;
    }
    n
}

/// Concatenates two string vectors, keeping the views.
fn append_strings(a: Vec<String>, b: Vec<String>) -> (r: Vec<String>)
    ensures
        crate::text::view_string_seq(r@) == crate::text::view_string_seq(a@)
            + crate::text::view_string_seq(b@),
{
    let ghost av = crate::text::view_string_seq(a@);
    let ghost bv = crate::text::view_string_seq(b@);
    let mut out = a;
    let mut src = b;
    let mut i: usize = 0;
    let n = src.len();
    while i < n
        invariant
            i <= n,
            n == src@.len(),
            bv == crate::text::view_string_seq(src@),
            crate::text::view_string_seq(out@) == av + bv.take(i as int),
        decreases n - i,
    {
        let ghost pre = crate::text::view_string_seq(out@);
        let item = src[i].clone();
        proof {
            assert(item@ == bv[i as int]);
        }
        out.push(item);
        proof {
            assert(crate::text::view_string_seq(out@) =~= pre.push(bv[i as int]));
            assert(pre.push(bv[i as int]) =~= av + bv.take(i + 1 as int));
        }
        i += 1;
    }
    proof {
        assert(bv.take(n as int) =~= bv);
    }
    out
}

/// Concatenates two diagnostic vectors, keeping the views.
fn append_diags(a: Vec<Diagnostic>, b: Vec<Diagnostic>) -> (r: Vec<Diagnostic>)
    ensures
        Seq::new(r@.len(), |i: int| r@[i]@) == Seq::new(a@.len(), |i: int| a@[i]@) + Seq::new(
            b@.len(),
            |i: int| b@[i]@,
        ),
{
    let ghost av = Seq::new(a@.len(), |i: int| a@[i]@);
    let ghost bv = Seq::new(b@.len(), |i: int| b@[i]@);
    let mut out = a;
    let mut src = b;
    let mut i: usize = 0;
    let n = src.len();
    while i < n
        invariant
            i <= n,
            n == src@.len(),
            bv == Seq::new(src@.len(), |k: int| src@[k]@),
            Seq::new(out@.len(), |k: int| out@[k]@) == av + bv.take(i as int),
        decreases n - i,
    {
        let ghost pre = Seq::new(out@.len(), |k: int| out@[k]@);
        let item = Diagnostic {
            line: src[i].line,
            message: src[i].message.clone(),
            fatal: src[i].fatal,
        };
        proof {
            assert(item@ == bv[i as int]);
        }
        out.push(item);
        proof {
            assert(Seq::new(out@.len(), |k: int| out@[k]@) =~= pre.push(bv[i as int]));
            assert(pre.push(bv[i as int]) =~= av + bv.take(i + 1 as int));
        }
        i += 1;
    }
    proof {
        assert(bv.take(n as int) =~= bv);
    }
    out
}

/// The contributions of the body lines `[j, end)`, executably.
fn parse_body(lines: &Vec<Vec<char>>, j: usize, end: usize) -> (r: (
    Vec<Statement>,
    Vec<String>,
    Vec<Diagnostic>,
))
    requires
        end <= lines@.len(),
    ensures
        ({
            let sp = spec_parse_body(lines.deep_view(), j as int, end as int);
            &&& crate::ast_types::view_stmt_seq(r.0@) == sp.0
            &&& crate::text::view_string_seq(r.1@) == sp.1
            &&& Seq::new(r.2@.len(), |i: int| r.2@[i]@) == sp.2
        }),
    decreases end - j,
{
    if j >= end {
        let out: (Vec<Statement>, Vec<String>, Vec<Diagnostic>) = (Vec::new(), Vec::new(), Vec::new());
        proof {
            assert(crate::ast_types::view_stmt_seq(out.0@) =~= Seq::<StatementV>::empty());
            assert(crate::text::view_string_seq(out.1@) =~= Seq::<Seq<char>>::empty());
            assert(Seq::new(out.2@.len(), |i: int| out.2@[i]@) =~= Seq::<DiagnosticV>::empty());
        }
        return out;
    }
    let line = &lines[j];
    let t = trim_chars(line);
    proof {
        assert(lines.deep_view()[j as int] == lines@[j as int]@);
    }
    let marker = char_vec("#adrenaline:");
    proof {
        reveal_strlit("#adrenaline:");
        assert(marker@ == spec_directive_marker());
        assert(marker@.len() == 12);
    }
    match rfind_seq(&t, &marker) {
        Option::Some(start) => {
            let tl = t.len();
            proof {
                lemma_rfind_bounds(t@, marker@, t@.len() - marker@.len());
                assert(start + 12 <= tl);
            }
            let d_raw = subvec(&t, start + 12, tl);
            proof {
                assert(d_raw@ =~= t@.skip(start + 12 as int));
            }
            let rest = parse_body(lines, j + 1, end);
            let (stmts, dirs, diags) = rest;
            let mut dirs2 = dirs;
            dirs2.insert(0, string_from_chars(&d_raw));
            proof {
                let sp = spec_parse_body(lines.deep_view(), j as int, end as int);
                assert(crate::text::view_string_seq(dirs2@) =~= sp.1);
            }
            (stmts, dirs2, diags)
        },
        Option::None => {
            if t.len() == 0 || t[0] == '#' {
                parse_body(lines, j + 1, end)
            } else {
                match parse_statement(&t) {
                    Option::Some(st) => {
                        let compound = matches!(st, Statement::For(_) | Statement::If(_));
                        proof {
                            assert(compound == spec_is_compound(st@));
                        }
                        if compound {
                            let indent = get_indent(line);
                            let raw = body_end(lines, j + 1, indent);
                            let sub_end: usize = if raw > end {
                                end
                            } else {
                                raw
                            };
                            proof {
                                assert(sub_end as int == spec_nested_end(
                                    lines.deep_view(),
                                    j + 1 as int,
                                    spec_indent(lines.deep_view()[j as int]),
                                    end as int,
                                ));
                            }
                            let sub = parse_body(lines, j + 1, sub_end);
                            let rest = parse_body(lines, sub_end, end);
                            let st2 = match st {
                                Statement::For(fl) => Statement::For(
                                    ForLoop { target: fl.target, iter: fl.iter, body: sub.0 },
                                ),
                                Statement::If(c) => Statement::If(
                                    IfStatement {
                                        condition: c.condition,
                                        then_body: sub.0,
                                        else_body: c.else_body,
                                    },
                                ),
                                other => other,
                            };
                            let mut stmts2 = rest.0;
                            stmts2.insert(0, st2);
                            let dirs2 = append_strings(sub.1, rest.1);
                            let diags2 = append_diags(sub.2, rest.2);
                            proof {
                                let sp = spec_parse_body(lines.deep_view(), j as int, end as int);
                                assert(stmts2@[0]@ =~~= sp.0[0]);
                                assert(crate::ast_types::view_stmt_seq(stmts2@) =~= sp.0);
                            }
                            (stmts2, dirs2, diags2)
                        } else {
                            let rest = parse_body(lines, j + 1, end);
                            let (stmts, dirs, diags) = rest;
                            let mut stmts2 = stmts;
                            stmts2.insert(0, st);
                            proof {
                                let sp = spec_parse_body(lines.deep_view(), j as int, end as int);
                                assert(crate::ast_types::view_stmt_seq(stmts2@) =~= sp.0);
                            }
                            (stmts2, dirs, diags)
                        }
                    },
                    Option::None => {
                        let rest = parse_body(lines, j + 1, end);
                        let (stmts, dirs, diags) = rest;
                        let mut diags2 = diags;
                        diags2.insert(
                            0,
                            Diagnostic {
                                line: j,
                                message: str_to_string("statement could not be parsed"),
                                fatal: false,
                            },
                        );
                        proof {
                            let sp = spec_parse_body(lines.deep_view(), j as int, end as int);
                            assert(Seq::new(diags2@.len(), |i: int| diags2@[i]@) =~= sp.2);
                        }
                        (stmts, dirs, diags2)
                    },
                }
            }
        },
    }
}

/// One function definition, executably: the definition, the index of the
/// first line after its body, and the diagnostics its body produced.
fn parse_function(lines: &Vec<Vec<char>>, i: usize) -> (r: Option<
    (FunctionDef, usize, Vec<Diagnostic>),
>)
    requires
        (i as int) < lines@.len(),
    ensures
        match r {
            Option::Some(f) => {
                &&& spec_parse_function(lines.deep_view(), i as int) matches Option::Some(sf)
                &&& sf.0 == f.0@
                &&& sf.1 == f.1 as int
                &&& sf.2 == Seq::new(f.2@.len(), |k: int| f.2@[k]@)
                &&& i < f.1 <= lines@.len()
            },
            Option::None => spec_parse_function(lines.deep_view(), i as int) is None,
        },
{
    proof {
        assert(lines.deep_view()[i as int] == lines@[i as int]@);
    }
    match parse_header(&lines[i]) {
        Option::None => None,
        Option::Some((name, params_text, rt)) => {
            let ln = lines.len();
            let indent = get_indent(&lines[i]);
            let end = body_end(lines, i + 1, indent);
            proof {
                lemma_body_end_ge(lines.deep_view(), i + 1 as int, indent as int);
            }
            let body_parts = parse_body(lines, i + 1, end);
            let (stmts, dirs, diags) = body_parts;
            let body = if stmts.len() == 0 {
                let mut b: Vec<Statement> = Vec::new();
                b.push(Statement::Pass);
                proof {
                    assert(crate::ast_types::view_stmt_seq(b@) =~= seq![StatementV::Pass]);
                }
                b
            } else {
                stmts
            };
            let f = FunctionDef {
                name,
                params: parse_parameters(&params_text),
                body,
                return_type: rt,
                directives: dirs,
            };
            proof {
                assert(f@ =~~= spec_parse_function(lines.deep_view(), i as int)->Some_0.0);
            }
            Some((f, end, diags))
        },
    }
}

/// The program lines from `i`, executably.
fn parse_program_rec(lines: &Vec<Vec<char>>, i: usize) -> (r: Result<
    (Vec<Statement>, Vec<Import>, Vec<Diagnostic>),
    usize,
>)
    requires
        i <= lines@.len(),
    ensures
        match r {
            Result::Ok(p) => {
                &&& spec_parse_program_rec(lines.deep_view(), i as int) matches Result::Ok(sp)
                &&& crate::ast_types::view_stmt_seq(p.0@) == sp.0
                &&& Seq::new(p.1@.len(), |k: int| p.1@[k]@) == sp.1
                &&& Seq::new(p.2@.len(), |k: int| p.2@[k]@) == sp.2
            },
            Result::Err(e) => spec_parse_program_rec(lines.deep_view(), i as int) == Result::<
                (Seq<StatementV>, Seq<ImportV>, Seq<DiagnosticV>),
                usize,
            >::Err(e),
        },
    decreases lines@.len() - i, 2int,
{
    if i >= lines.len() {
        let out: (Vec<Statement>, Vec<Import>, Vec<Diagnostic>) = (
            Vec::new(),
            Vec::new(),
            Vec::new(),
        );
        proof {
            assert(crate::ast_types::view_stmt_seq(out.0@) =~= Seq::<StatementV>::empty());
            assert(Seq::new(out.1@.len(), |k: int| out.1@[k]@) =~= Seq::<ImportV>::empty());
            assert(Seq::new(out.2@.len(), |k: int| out.2@[k]@) =~= Seq::<DiagnosticV>::empty());
        }
        return Ok(out);
    }
    let line = &lines[i];
    let t = trim_chars(line);
    proof {
        assert(lines.deep_view()[i as int] == lines@[i as int]@);
    }
    if t.len() == 0 || t[0] == '#' {
        return parse_program_rec(lines, i + 1);
    }
    let import_tok = char_vec("import ");
    let from_tok = char_vec("from ");
    proof {
        reveal_strlit("import ");
        reveal_strlit("from ");
    }
    if starts_with_seq(&t, &import_tok) || starts_with_seq(&t, &from_tok) {
        let imp = parse_import(&t);
        match parse_program_rec(lines, i + 1) {
            Result::Ok(p) => {
                let (stmts, imports, diags) = p;
                let mut imports2 = imports;
                imports2.insert(0, imp);
                proof {
                    let sp = spec_parse_program_rec(lines.deep_view(), i as int);
                    assert(Seq::new(imports2@.len(), |k: int| imports2@[k]@) =~= sp->Ok_0.1);
                }
                return Ok((stmts, imports2, diags));
            },
            Result::Err(e) => {
                return Err(e);
            },
        }
    }
    let def_tok = char_vec("def ");
    proof {
        reveal_strlit("def ");
    }
    if starts_with_seq(&t, &def_tok) {
        match parse_function(lines, i) {
            Option::None => {
                return Err(i);
            },
            Option::Some((f, next, fdiags)) => {
                match parse_program_rec(lines, next) {
                    Result::Ok(p) => {
                        let (stmts, imports, diags) = p;
                        let mut stmts2 = stmts;
                        stmts2.insert(0, Statement::FunctionDef(f));
                        let mut diags2 = fdiags;
                        let mut drest = diags;
                        let ghost fd = Seq::new(diags2@.len(), |k: int| diags2@[k]@);
                        let mut di: usize = 0;
                        let dn = drest.len();
                        while di < dn
                            invariant
                                di <= dn,
                                dn == drest@.len(),
                                diags2@.len() == fd.len() + di,
                                Seq::new(diags2@.len(), |k: int| diags2@[k]@) =~= fd + Seq::new(
                                    di as nat,
                                    |k: int| drest@[k]@,
                                ),
                            decreases dn - di,
                        {
                            let ghost pre = Seq::new(diags2@.len(), |k: int| diags2@[k]@);
                            let d = Diagnostic {
                                line: drest[di].line,
                                message: drest[di].message.clone(),
                                fatal: drest[di].fatal,
                            };
                            proof {
                                assert(d@ == drest@[di as int]@);
                            }
                            diags2.push(d);
                            proof {
                                assert(Seq::new(diags2@.len(), |k: int| diags2@[k]@) =~= pre.push(
                                    drest@[di as int]@,
                                ));
                                assert(pre.push(drest@[di as int]@) =~= fd + Seq::new(
                                    (di + 1) as nat,
                                    |k: int| drest@[k]@,
                                ));
                            }
                            di += 1;
                        }
                        proof {
                            let sp = spec_parse_program_rec(lines.deep_view(), i as int);
                            assert(Seq::new(dn as nat, |k: int| drest@[k]@) =~= Seq::new(
                                drest@.len(),
                                |k: int| drest@[k]@,
                            ));
                            assert(crate::ast_types::view_stmt_seq(stmts2@) =~= sp->Ok_0.0);
                            assert(Seq::new(diags2@.len(), |k: int| diags2@[k]@) =~= sp->Ok_0.2);
                        }
                        return Ok((stmts2, imports, diags2));
                    },
                    Result::Err(e) => {
                        return Err(e);
                    },
                }
            },
        }
    }
    parse_program_stmt(lines, i, &t)
}

/// The top-level statement case of the program scanner: the line is known
/// to be no blank, comment, import or definition.
fn parse_program_stmt(lines: &Vec<Vec<char>>, i: usize, t: &Vec<char>) -> (r: Result<
    (Vec<Statement>, Vec<Import>, Vec<Diagnostic>),
    usize,
>)
    requires
        (i as int) < lines@.len(),
        t@ == spec_trim(lines.deep_view()[i as int]),
        t@.len() > 0,
        t@[0] != '#',
        !spec_starts_with(t@, "import "@),
        !spec_starts_with(t@, "from "@),
        !spec_starts_with(t@, "def "@),
    ensures
        match r {
            Result::Ok(p) => {
                &&& spec_parse_program_rec(lines.deep_view(), i as int) matches Result::Ok(sp)
                &&& crate::ast_types::view_stmt_seq(p.0@) == sp.0
                &&& Seq::new(p.1@.len(), |k: int| p.1@[k]@) == sp.1
                &&& Seq::new(p.2@.len(), |k: int| p.2@[k]@) == sp.2
            },
            Result::Err(e) => spec_parse_program_rec(lines.deep_view(), i as int) == Result::<
                (Seq<StatementV>, Seq<ImportV>, Seq<DiagnosticV>),
                usize,
            >::Err(e),
        },
    decreases lines@.len() - i, 1int,
{
    let ln = lines.len();
    let line = &lines[i];
    proof {
        assert(lines.deep_view()[i as int] == lines@[i as int]@);
    }
    match parse_statement(t) {
        Option::Some(st) => {
            let compound = matches!(st, Statement::For(_) | Statement::If(_));
            proof {
                assert(compound == spec_is_compound(st@));
            }
            if compound {
                parse_program_compound(lines, i, st)
            } else {
                match parse_program_rec(lines, i + 1) {
                    Result::Ok(p) => {
                        let (stmts, imports, diags) = p;
                        let mut stmts2 = stmts;
                        stmts2.insert(0, st);
                        proof {
                            let sp = spec_parse_program_rec(lines.deep_view(), i as int);
                            assert(crate::ast_types::view_stmt_seq(stmts2@) =~= sp->Ok_0.0);
                        }
                        Ok((stmts2, imports, diags))
                    },
                    Result::Err(e) => Err(e),
                }
            }
        },
        Option::None => {
            match parse_program_rec(lines, i + 1) {
                Result::Ok(p) => {
                    let (stmts, imports, diags) = p;
                    let mut diags2 = diags;
                    diags2.insert(
                        0,
                        Diagnostic {
                            line: i,
                            message: str_to_string("statement could not be parsed"),
                            fatal: false,
                        },
                    );
                    proof {
                        let sp = spec_parse_program_rec(lines.deep_view(), i as int);
                        assert(Seq::new(diags2@.len(), |k: int| diags2@[k]@) =~= sp->Ok_0.2);
                    }
                    Ok((stmts, imports, diags2))
                },
                Result::Err(e) => Err(e),
            }
        },
    }
}

/// The compound top-level statement case: a `for` or `if` line owning the
/// strictly deeper lines that follow it.
fn parse_program_compound(lines: &Vec<Vec<char>>, i: usize, st: Statement) -> (r: Result<
    (Vec<Statement>, Vec<Import>, Vec<Diagnostic>),
    usize,
>)
    requires
        (i as int) < lines@.len(),
        spec_is_compound(st@),
        spec_parse_statement(spec_trim(lines.deep_view()[i as int])) == Option::Some(st@),
        !spec_starts_with(spec_trim(lines.deep_view()[i as int]), "import "@),
        !spec_starts_with(spec_trim(lines.deep_view()[i as int]), "from "@),
        !spec_starts_with(spec_trim(lines.deep_view()[i as int]), "def "@),
        spec_trim(lines.deep_view()[i as int]).len() > 0,
        spec_trim(lines.deep_view()[i as int])[0] != '#',
    ensures
        match r {
            Result::Ok(p) => {
                &&& spec_parse_program_rec(lines.deep_view(), i as int) matches Result::Ok(sp)
                &&& crate::ast_types::view_stmt_seq(p.0@) == sp.0
                &&& Seq::new(p.1@.len(), |k: int| p.1@[k]@) == sp.1
                &&& Seq::new(p.2@.len(), |k: int| p.2@[k]@) == sp.2
            },
            Result::Err(e) => spec_parse_program_rec(lines.deep_view(), i as int) == Result::<
                (Seq<StatementV>, Seq<ImportV>, Seq<DiagnosticV>),
                usize,
            >::Err(e),
        },
    decreases lines@.len() - i, 0int,
{
    let ln = lines.len();
    let line = &lines[i];
    proof {
        assert(lines.deep_view()[i as int] == lines@[i as int]@);
    }
    let indent = get_indent(line);
    let raw = body_end(lines, i + 1, indent);
    let sub_end: usize = if raw > ln {
        ln
    } else {
        raw
    };
    proof {
        assert(sub_end as int == spec_nested_end(
            lines.deep_view(),
            i + 1 as int,
            spec_indent(lines.deep_view()[i as int]),
            lines.deep_view().len() as int,
        ));
    }
    let sub = parse_body(lines, i + 1, sub_end);
    match parse_program_rec(lines, sub_end) {
        Result::Ok(p) => {
            let (stmts, imports, diags) = p;
            let st2 = match st {
                Statement::For(fl) => Statement::For(
                    ForLoop { target: fl.target, iter: fl.iter, body: sub.0 },
                ),
                Statement::If(c) => Statement::If(
                    IfStatement {
                        condition: c.condition,
                        then_body: sub.0,
                        else_body: c.else_body,
                    },
                ),
                other => other,
            };
            let mut stmts2 = stmts;
            stmts2.insert(0, st2);
            let diags2 = append_diags(sub.2, diags);
            proof {
                let sp = spec_parse_program_rec(lines.deep_view(), i as int);
                assert(stmts2@[0]@ =~~= sp->Ok_0.0[0]);
                assert(crate::ast_types::view_stmt_seq(stmts2@) =~= sp->Ok_0.0);
                assert(Seq::new(diags2@.len(), |k: int| diags2@[k]@) =~= sp->Ok_0.2);
            }
            Ok((stmts2, imports, diags2))
        },
        Result::Err(e) => Err(e),
    }
}

/// The parser's public face.
pub struct AdrenalineParser {}

impl AdrenalineParser {
    /// Parses a whole source text, returning the program and the
    /// recoverable diagnostics, or the fatal parse error.
    pub fn parse_with_diagnostics(source: &str) -> (r: Result<
        (Program, Vec<Diagnostic>),
        CompileError,
    >)
        ensures
            match r {
                Result::Ok(p) => {
                    &&& spec_parse(source@) matches Result::Ok(sp)
                    &&& p.0@ == sp.0
                    &&& Seq::new(p.1@.len(), |k: int| p.1@[k]@) == sp.1
                },
                Result::Err(e) => {
                    &&& spec_parse(source@) matches Result::Err(line)
                    &&& e@ == (CompileErrorV::ParseError {
                        line,
                        message: "invalid function definition"@,
                    })
                },
            },
    {
        let chars = char_vec(source);
        let lines = split_lines(&chars);
        match parse_program_rec(&lines, 0) {
            Result::Ok((stmts, imports, diags)) => {
                let program = Program { statements: stmts, imports };
                proof {
                    assert(program@ =~~= spec_parse(source@)->Ok_0.0);
                }
                Ok((program, diags))
            },
            Result::Err(line) => Err(
                CompileError::ParseError {
                    line,
                    message: str_to_string("invalid function definition"),
                },
            ),
        }
    }

    /// Parses a whole source text into a program; the recoverable
    /// diagnostics are dropped, a fatal header failure is an error.
    pub fn parse(source: &str) -> (r: Result<Program, CompileError>)
        ensures
            match r {
                Result::Ok(p) => spec_parse(source@) matches Result::Ok(sp) && p@ == sp.0,
                Result::Err(e) => {
                    &&& spec_parse(source@) matches Result::Err(line)
                    &&& e@ == (CompileErrorV::ParseError {
                        line,
                        message: "invalid function definition"@,
                    })
                },
            },
    {
        match AdrenalineParser::parse_with_diagnostics(source) {
            Result::Ok((p, _diags)) => Ok(p),
            Result::Err(e) => Err(e),
        }
    }
}

} // verus!
