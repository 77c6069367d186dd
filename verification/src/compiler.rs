//! The pipeline: scanner, parser and emitter in that order, and the record of what one run
//! produced.

use vstd::prelude::*;
use std::time::{Duration, Instant};
use crate::ast::texts;
use crate::codegen::CodeGenerator;
use crate::emit::{emitted, lemma_appended_nothing, Output};
use crate::grammar::{program, significant};
use crate::lexer::Lexer;
use crate::parser::Parser;
use crate::scan::tokens_of;

verus! {

/// A point in time as `std::time::Instant` measures it. Nothing is known of its value.
#[verifier::external_type_specification]
#[verifier::external_body]
pub struct ExInstant(std::time::Instant);

/// Reads the clock with `Instant::now`. Nothing is claimed about the result.
#[verifier::external_body]
fn clock_start() -> (start: Instant) {
    Instant::now()
}

/// Reads the time that has passed since `start` with `Instant::elapsed`. Nothing is claimed
/// about the result.
#[verifier::external_body]
fn elapsed_since(start: &Instant) -> (elapsed: Duration) {
    start.elapsed()
}

/// The whole milliseconds of a duration, from `Duration::as_millis`. Nothing is claimed
/// about the result.
#[verifier::external_body]
fn whole_millis(elapsed: &Duration) -> (millis: u128) {
    elapsed.as_millis()
}

/// The three texts that a source text compiles to: what the emitter makes of the tree that
/// the parser makes of the significant tokens that the scanner finds.
pub open spec fn compiled(source: Seq<char>) -> Output {
    emitted(program(significant(tokens_of(source)), 0))
}

/// Whether a source text has more characters than lines and columns can count.
pub open spec fn too_large(source: Seq<char>) -> bool {
    source.len() >= usize::MAX
}

/// The message that reports a source text that is too large.
pub open spec fn too_large_message() -> Seq<char> {
    "source text is too large"@
}

/// What one compilation produced.
#[derive(Debug)]
pub struct CompileResult {
    pub success: bool,
    pub html: String,
    pub css: String,
    pub js: String,
    pub errors: Vec<String>,
    pub warnings: Vec<String>,
    /// Elapsed time in whole milliseconds.
    pub compile_time: u128,
}

impl CompileResult {
    /// The result holds exactly what was generated and no message.
    pub open spec fn succeeded_with(&self, output: Output) -> bool {
        &&& self.success
        &&& self.html@ == output.markup
        &&& self.css@ == output.style
        &&& self.js@ == output.script
        &&& self.errors@.len() == 0
        &&& self.warnings@.len() == 0
    }

    /// The result holds the one error `message`, and no generated text.
    pub open spec fn failed_with(&self, message: Seq<char>) -> bool {
        &&& !self.success
        &&& self.html@.len() == 0
        &&& self.css@.len() == 0
        &&& self.js@.len() == 0
        &&& texts(self.errors@) == seq![message]
        &&& self.warnings@.len() == 0
    }

    /// The result is the one that compiling `source` gives, whatever time it took: the
    /// three generated texts, or the one error for a text that is too large.
    pub open spec fn reflects(&self, source: Seq<char>) -> bool {
        if too_large(source) {
            self.failed_with(too_large_message())
        } else {
            self.succeeded_with(compiled(source))
        }
    }

    /// The result record for the outcome of the pipeline and the time that it took.
    pub fn from_outcome(outcome: Result<(String, String, String), String>, elapsed: u128) -> (result:
        Self)
        ensures
            result.compile_time == elapsed,
            match outcome {
                Ok((html, css, js)) => result.succeeded_with(
                    Output { markup: html@, style: css@, script: js@ },
                ),
                Err(message) => result.failed_with(message@),
            },
    {
        match outcome {
            Ok((html, css, js)) => Self {
                success: true,
                html,
                css,
                js,
                errors: Vec::new(),
                warnings: Vec::new(),
                compile_time: elapsed,
            },
            Err(message) => {
                let mut errors: Vec<String> = Vec::new();
                errors.push(message);
                assert(texts(errors@) =~= seq![message@]);
                Self {
                    success: false,
                    html: String::new(),
                    css: String::new(),
                    js: String::new(),
                    errors,
                    warnings: Vec::new(),
                    compile_time: elapsed,
                }
            },
        }
    }
}

/// Compiling is a function of the source text alone: two results for the same text agree
/// in success, in the three generated texts and in their messages.
pub proof fn lemma_compile_is_deterministic(
    source: Seq<char>,
    first: CompileResult,
    second: CompileResult,
)
    requires
        first.reflects(source),
        second.reflects(source),
    ensures
        first.success == second.success,
        first.html@ == second.html@,
        first.css@ == second.css@,
        first.js@ == second.js@,
        texts(first.errors@) == texts(second.errors@),
        texts(first.warnings@) == texts(second.warnings@),
{
    assert(first.html@ =~= second.html@);
    assert(first.css@ =~= second.css@);
    assert(first.js@ =~= second.js@);
    assert(texts(first.errors@) =~= texts(second.errors@));
    assert(texts(first.warnings@) =~= texts(second.warnings@));
}

/// The pipeline for one source text: scanner, parser, emitter.
pub struct EmadocsCompiler {
    input: String,
    filename: String,
    minify: bool,
    sourcemap: bool,
    treeshaking: bool,
}

impl EmadocsCompiler {
    /// The source text.
    pub closed spec fn source(&self) -> Seq<char> {
        self.input@
    }

    /// The name under which the source text is displayed.
    pub closed spec fn display_name(&self) -> Seq<char> {
        self.filename@
    }

    /// Whether minified output was asked for. The pipeline does not act on it.
    pub closed spec fn minify(&self) -> bool {
        self.minify
    }

    /// Whether a source map was asked for. The pipeline does not act on it.
    pub closed spec fn sourcemap(&self) -> bool {
        self.sourcemap
    }

    /// Whether tree shaking was asked for. The pipeline does not act on it.
    pub closed spec fn treeshaking(&self) -> bool {
        self.treeshaking
    }

    /// A compiler for `input`, displayed as `filename`, with minifying and source maps off
    /// and tree shaking on.
    pub fn new(input: String, filename: String) -> (compiler: Self)
        ensures
            compiler.source() == input@,
            compiler.display_name() == filename@,
            !compiler.minify(),
            !compiler.sourcemap(),
            compiler.treeshaking(),
    {
        Self { input, filename, minify: false, sourcemap: false, treeshaking: true }
    }

    /// Compiles the source text and records the time that it took. Every source text has
    /// a result: the one that [`CompileResult::reflects`] describes.
    pub fn compile(&self) -> (result: CompileResult)
        ensures
            result.reflects(self.source()),
    {
        let start = clock_start();
        let outcome = self.compile_internal();
        let elapsed = elapsed_since(&start);
        CompileResult::from_outcome(outcome, whole_millis(&elapsed))
    }

    /// Runs the scanner, the parser and the emitter, in that order.
    pub fn compile_internal(&self) -> (outcome: Result<(String, String, String), String>)
        ensures
            match outcome {
                Ok((html, css, js)) => !too_large(self.source()) && compiled(self.source()) == (
                Output { markup: html@, style: css@, script: js@ }),
                Err(message) => too_large(self.source()) && message@ == too_large_message(),
            },
    {
        if self.input.as_str().unicode_len() == usize::MAX {
            return Err(String::from_str("source text is too large"));
        }
        let mut lexer = Lexer::new(self.input.clone());
        let tokens = match lexer.tokenize() {
            Ok(tokens) => tokens,
            Err(message) => {
                return Err(message);
            },
        };
        let mut parser = Parser::new(tokens);
        let ast = match parser.parse() {
            Ok(ast) => ast,
            Err(message) => {
                return Err(message);
            },
        };
        let mut generator = CodeGenerator::new();
        proof {
            lemma_appended_nothing(compiled(self.source()));
        }
        match generator.generate(&ast) {
            Ok(()) => {},
            Err(message) => {
                return Err(message);
            },
        }
        Ok(
            (
                String::from_str(generator.get_html()),
                String::from_str(generator.get_css()),
                String::from_str(generator.get_js()),
            ),
        )
    }

    /// Asks for minified output, or not. The flag is kept; the pipeline does not act on it.
    pub fn set_minify(&mut self, value: bool)
        ensures
            final(self).minify() == value,
            final(self).sourcemap() == old(self).sourcemap(),
            final(self).treeshaking() == old(self).treeshaking(),
            final(self).source() == old(self).source(),
            final(self).display_name() == old(self).display_name(),
    {
        self.minify = value;
    }

    /// Asks for a source map, or not. The flag is kept; the pipeline does not act on it.
    pub fn set_sourcemap(&mut self, value: bool)
        ensures
            final(self).sourcemap() == value,
            final(self).minify() == old(self).minify(),
            final(self).treeshaking() == old(self).treeshaking(),
            final(self).source() == old(self).source(),
            final(self).display_name() == old(self).display_name(),
    {
        self.sourcemap = value;
    }

    /// Asks for tree shaking, or not. The flag is kept; the pipeline does not act on it.
    pub fn set_treeshaking(&mut self, value: bool)
        ensures
            final(self).treeshaking() == value,
            final(self).minify() == old(self).minify(),
            final(self).sourcemap() == old(self).sourcemap(),
            final(self).source() == old(self).source(),
            final(self).display_name() == old(self).display_name(),
    {
        self.treeshaking = value;
    }
}

} // verus!
