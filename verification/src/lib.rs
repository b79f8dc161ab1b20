//! Zyxt: the lexer, parser, type evaluator and interpreter of the Zyxt
//! language, with their contracts.
pub mod text;
pub mod position;
pub mod token;
pub mod token_entries;
pub mod typeobj;
pub mod element;
pub mod errors;
pub mod scope;
pub mod interpreter_data;
pub mod heap;
pub mod varstack;
pub mod deferstack;
pub mod value;
pub mod lexer;
pub mod lexer_laws;
pub mod staged_lexer;
pub mod parser;
pub mod eval;
pub mod instructor;
pub mod interpreter;
pub mod logger;

use vstd::prelude::*;
use crate::element::Element;
use crate::errors::ZyxtError;
use crate::interpreter_data::InterpreterData;
use crate::typeobj::Type;
use crate::value::Value;

verus! {

/// Compiles a source: lexes it, parses the tokens and checks the types of
/// the statements (see `lexer::lex`, `parser::parse_token_list`,
/// `instructor::gen_instructions`), stopping at the first error. A source
/// of white space alone has no statements. A lexing error is the
/// compiler's error; a comment marker of an older lexer is error 2.1.10;
/// statements of single names and literals separated by `;` compile to
/// their variables and literals (see `parser::split_result`), and always
/// do when there is no name among them.
#[verifier::rlimit(40)]
pub fn compile(input: String, filename: &str, typelist: &mut InterpreterData<Type>) -> (res: Result<Vec<Element>, ZyxtError>)
    requires
        input@.len() + 4 < u32::MAX,
        old(typelist).wf(),
    ensures
        final(typelist).wf(),
        crate::text::trimmed(input@).len() == 0 ==> (res matches Ok(v) && v@.len() == 0),
        crate::text::trimmed(input@).len() != 0 ==> match crate::lexer::lex_spec(
            crate::lexer::grapheme_clusters(input@ + "\n"@),
            filename@,
        ) {
            Err(e) => res matches Err(z) && crate::lexer::lex_err_is(e, z),
            Ok(t) => {
                &&& (exists|k: int| 0 <= k < t.len() && crate::parser::comment_marker(#[trigger] t[k].type_)) ==> (res
                    matches Err(e) && e.code@ == "2.1.10"@)
                &&& ((forall|k: int| 0 <= k < t.len() ==> !crate::parser::comment_marker(#[trigger] t[k].type_))
                    && crate::parser::simple_statements(
                    crate::parser::token_elements(t),
                    crate::token::TokenType::StatementEnd,
                    crate::token::TokenType::OpenCurlyParen,
                    crate::token::TokenType::CloseCurlyParen,
                )) ==> {
                    let stmts = crate::parser::split_result(crate::parser::token_elements(t), crate::token::TokenType::StatementEnd);
                    &&& res matches Ok(v) ==> crate::parser::views(v@) == stmts
                    &&& (forall|i: int| 0 <= i < stmts.len() ==> (#[trigger] stmts[i]) is Literal || stmts[i] is NullElement)
                        ==> res is Ok
                    &&& crate::eval::type_stmts(stmts, crate::eval::type_env(*old(typelist))) ==> res is Ok
                }
            },
        },
{
    let tokens = crate::lexer::lex(input, filename)?;
    let ghost tv = crate::lexer::toks_view(tokens@);
    proof {
        assert forall|k: int| 0 <= k < tokens@.len() implies #[trigger] tv[k].type_ == tokens@[k].type_ by {}
    }
    let parsed = crate::parser::parse_token_list(tokens)?;
    let ghost pv = crate::parser::views(parsed@);
    proof {
        let te = crate::parser::token_elements(tv);
        if crate::parser::simple_statements(
            te,
            crate::token::TokenType::StatementEnd,
            crate::token::TokenType::OpenCurlyParen,
            crate::token::TokenType::CloseCurlyParen,
        ) {
            lemma_token_elements_tokens(tv);
            if te.len() > 0 {
                crate::parser::lemma_statements_leaves(
                    te,
                    crate::token::TokenType::StatementEnd,
                    crate::token::TokenType::OpenCurlyParen,
                    crate::token::TokenType::CloseCurlyParen,
                );
            }
        }
        assert forall|j: int| 0 <= j < parsed@.len() implies #[trigger] pv[j] == crate::element::elem_view(parsed@[j]) by {}
    }
    let ghost simple = crate::parser::simple_statements(
        crate::parser::token_elements(tv),
        crate::token::TokenType::StatementEnd,
        crate::token::TokenType::OpenCurlyParen,
        crate::token::TokenType::CloseCurlyParen,
    );
    proof {
        let stmts = crate::parser::split_result(crate::parser::token_elements(tv), crate::token::TokenType::StatementEnd);
        if simple && (forall|k: int| 0 <= k < tv.len() ==> !crate::parser::comment_marker(#[trigger] tv[k].type_)) && (forall|i: int|
            0 <= i < stmts.len() ==> (#[trigger] stmts[i]) is Literal || stmts[i] is NullElement) {
            assert(pv == stmts);
            assert forall|j: int| 0 <= j < parsed@.len() implies crate::element::elem_view(#[trigger] parsed@[j]) is Literal
                || crate::element::elem_view(parsed@[j]) is NullElement by {
                assert(pv[j] == stmts[j]);
            }
        }
    }
    proof {
        crate::element::lemma_elems_view(parsed@);
        assert(crate::element::elems_view(parsed@) =~= pv);
    }
    let res = crate::instructor::gen_instructions(parsed, typelist);
    proof {
        if simple && res is Ok {
            let v = res->Ok_0;
            assert(crate::parser::views(v@) =~= pv);
        }
    }
    res
}

/// The elements parsing starts from are tokens.
proof fn lemma_token_elements_tokens(t: Seq<crate::token::TokenView>)
    ensures
        forall|i: int| 0 <= i < crate::parser::token_elements(t).len() ==> (#[trigger] crate::parser::token_elements(t)[i]) is Token,
    decreases t.len(),
{
    if t.len() > 0 {
        lemma_token_elements_tokens(t.drop_last());
    }
}

/// Runs compiled statements (see `interpreter::interpret_asts`) and gives
/// the program's exit code.
pub fn interpret(input: &Vec<Element>, i_data: &mut InterpreterData<Value>) -> (res: Result<i32, ZyxtError>)
    requires
        old(i_data).wf(),
        old(i_data).heap@.len() >= 2,
        old(i_data).defer@.len() >= 2,
    ensures
        final(i_data).wf(),
        input@.len() == 0 && old(i_data).defer@.last()@.len() == 0 ==> res == Ok::<i32, ZyxtError>(0),
        crate::interpreter::program_exit_ok(crate::element::elems_view(input@), *old(i_data), res),
{
    crate::interpreter::interpret_asts(input, i_data)
}

} // verus!
