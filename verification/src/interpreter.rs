use vstd::prelude::*;
use vstd::string::StrSliceExecFns;
use crate::ast::{stmts_view, Statement, StmtModel};
use crate::error::{LoxError, LoxErrorKind};
use crate::grammar;
use crate::number::{FloatUnit, NumberOp};
use crate::parse::{models, Parser};
use crate::resolver::Resolver;
use crate::scan::{scan_text, Scanner};
use crate::scopes::{resolve_stmts, ClassType, FunctionType, Resolution};
use crate::semantics;
use crate::semantics::{FlowModel, Outcome, Readings, WalkerModel};
use crate::tree_walker::{foretold, kept, lemma_foretold_earlier, Completion, TreeWalker};

verus! {

/// The longest source text, in characters, that one run takes: its lines
/// are counted in an `i32`.
pub const MAX_SOURCE: usize = 2147483646;

/// The interpreter with its scanner.  Definitions and token ids live on
/// from one run to the next.
pub struct Interpreter {
    pub had_error: bool,
    pub tree_walker: TreeWalker,
    pub scanner: Scanner,
}

/// What an `Interpreter` stands for: the state of the tree walker, the id
/// that the next token gets, and whether the last run met an error.
pub struct Session {
    pub walker: WalkerModel,
    pub next_id: u32,
    pub had_error: bool,
}

impl View for Interpreter {
    type V = Session;

    open spec fn view(&self) -> Session {
        Session { walker: self.tree_walker@, next_id: self.scanner.next_id, had_error: self.had_error }
    }
}

/// What a run leaves: the session and the errors that it reports.
pub struct Ran {
    pub session: Session,
    pub errors: Seq<LoxError>,
}

/// Whether the text is short enough, and ids enough are left, for a scan.
pub open spec fn scannable(source: Seq<char>, next_id: u32) -> bool {
    source.len() <= MAX_SOURCE && next_id + source.len() < u32::MAX
}

pub open spec fn too_long() -> LoxError {
    LoxError { message: "source text too long", kind: LoxErrorKind::ScannerError }
}

/// The state in which the resolver starts on a program.
pub open spec fn fresh_resolution(locals: Map<u32, usize>) -> Resolution {
    Resolution {
        scopes: Seq::empty(),
        errors: Seq::empty(),
        locals,
        function: FunctionType::NoFunction,
        class: ClassType::NoClass,
    }
}

/// The statements of a program from the `i`-th on are run one after the
/// other; the first error ends the run and is reported.
pub open spec fn run_statements<P: Fn(String) -> Option<u64>, A: Fn(NumberOp, u64, u64) -> u64, R: Fn(u64) -> String>(
    unit: &FloatUnit<P, A, R>,
    now: Readings,
    statements: Seq<StmtModel>,
    i: nat,
    session: Session,
) -> Ran
    decreases statements.len() - i,
{
    if i >= statements.len() {
        Ran { session, errors: Seq::empty() }
    } else {
        let step = semantics::exec(
            unit,
            now,
            statements[i as int],
            session.walker,
            session.walker.budget as nat,
        );
        let after = Session { walker: step.state, ..session };
        match step.outcome {
            Outcome::Failure(e) => Ran {
                session: Session { had_error: true, ..after },
                errors: seq![e],
            },
            Outcome::Value(FlowModel::Return(_)) => Ran { session: after, errors: Seq::empty() },
            Outcome::Value(FlowModel::Normal) => run_statements(unit, now, statements, i + 1, after),
        }
    }
}

/// One run: the text is scanned, parsed, resolved and run.  The errors of
/// the first stage that meets any are reported, and the later stages are
/// left out.
pub open spec fn run_text<P: Fn(String) -> Option<u64>, A: Fn(NumberOp, u64, u64) -> u64, R: Fn(u64) -> String>(
    unit: &FloatUnit<P, A, R>,
    now: Readings,
    source: Seq<char>,
    session: Session,
) -> Ran {
    if !scannable(source, session.next_id) {
        Ran { session: Session { had_error: true, ..session }, errors: seq![too_long()] }
    } else {
        let scanned = scan_text(unit, source, session.next_id);
        let after_scan = Session { next_id: (session.next_id + scanned.tokens.len()) as u32, ..session };
        match scanned.error {
            Some(e) => Ran { session: Session { had_error: true, ..after_scan }, errors: seq![e] },
            None => {
                let parsed = grammar::program(scanned.tokens, 0, Seq::empty(), Seq::empty());
                if parsed.errors.len() > 0 {
                    Ran {
                        session: Session { had_error: true, ..after_scan },
                        errors: parsed.errors,
                    }
                } else {
                    let resolved = resolve_stmts(
                        parsed.statements,
                        0,
                        fresh_resolution(session.walker.locals),
                    );
                    let after_resolve = Session {
                        walker: session.walker.with_locals(resolved.locals),
                        ..after_scan
                    };
                    if resolved.errors.len() > 0 {
                        Ran {
                            session: Session { had_error: true, ..after_resolve },
                            errors: resolved.errors,
                        }
                    } else {
                        run_statements(unit, now, parsed.statements, 0, after_resolve)
                    }
                }
            },
        }
    }
}

impl Interpreter {
    pub fn new() -> (interpreter: Interpreter)
        ensures
            interpreter@ == (Session {
                walker: crate::tree_walker::initial_state(Seq::empty()),
                next_id: 0,
                had_error: false,
            }),
    {
        Interpreter { had_error: false, tree_walker: TreeWalker::new(), scanner: Scanner::new() }
    }

    /// Runs a source text and gives the errors to report.  What the program
    /// prints is added to the tree walker's recorder.  The session and the
    /// errors are those of `run_text` for the readings that the system clock
    /// gave during the run.  A text that is too long for its lines to be
    /// counted, or for its tokens to get ids, is not scanned.
    pub fn run<P: Fn(String) -> Option<u64>, A: Fn(NumberOp, u64, u64) -> u64, R: Fn(u64) -> String>(
        &mut self,
        input: &String,
        unit: &FloatUnit<P, A, R>,
    ) -> (errors: Vec<LoxError>)
        requires
            unit.dependable(),
        ensures
            kept(old(self)@.walker.clock, final(self)@.walker.clock),
            forall|now: Readings| #[trigger]
                foretold(final(self)@.walker.clock, now) ==> final(self)@ == run_text(
                    unit,
                    now,
                    input@,
                    old(self)@,
                ).session && errors@ == run_text(unit, now, input@, old(self)@).errors,
    {
        let mut errors: Vec<LoxError> = Vec::new();
        let length = input.as_str().unicode_len();
        if length > MAX_SOURCE || length >= (u32::MAX - self.scanner.next_id) as usize {
            errors.push(LoxError { kind: LoxErrorKind::ScannerError, message: "source text too long" });
            self.had_error = true;
            return errors;
        }
        match self.scanner.scan(input, unit) {
            Ok(()) => {},
            Err(e) => {
                errors.push(e);
                self.had_error = true;
                return errors;
            },
        }
        let mut parser = Parser::new();
        assert(parser.errors@ =~= Seq::empty());
        let statements = match parser.parse(&self.scanner.tokens) {
            Ok(statements) => statements,
            Err(_) => {
                self.had_error = true;
                return parser.errors;
            },
        };
        let mut resolver = Resolver::new();
        assert(resolver.state(self.tree_walker@.locals) =~= fresh_resolution(self.tree_walker@.locals)) by {
            assert(resolver.state(self.tree_walker@.locals).scopes =~= Seq::empty());
            assert(resolver.state(self.tree_walker@.locals).errors =~= Seq::empty());
        }
        resolver.resolve(&statements, &mut self.tree_walker);
        if resolver.errors.len() > 0 {
            self.had_error = true;
            return resolver.errors;
        }
        self.run_statements(&statements, unit)
    }

    /// Runs the statements of a program up to the first error.
    fn run_statements<P: Fn(String) -> Option<u64>, A: Fn(NumberOp, u64, u64) -> u64, R: Fn(u64) -> String>(
        &mut self,
        statements: &Vec<Statement>,
        unit: &FloatUnit<P, A, R>,
    ) -> (errors: Vec<LoxError>)
        requires
            unit.dependable(),
        ensures
            kept(old(self)@.walker.clock, final(self)@.walker.clock),
            forall|now: Readings| #[trigger]
                foretold(final(self)@.walker.clock, now) ==> final(self)@ == run_statements(
                    unit,
                    now,
                    stmts_view(*statements),
                    0,
                    old(self)@,
                ).session && errors@ == run_statements(unit, now, stmts_view(*statements), 0, old(self)@).errors,
    {
        let mut errors: Vec<LoxError> = Vec::new();
        let mut i: usize = 0;
        assert(errors@ =~= Seq::empty());
        while i < statements.len()
            invariant
                unit.dependable(),
                i <= statements.len(),
                errors@ == Seq::<LoxError>::empty(),
                kept(old(self)@.walker.clock, self@.walker.clock),
                forall|now: Readings| #[trigger]
                    foretold(self@.walker.clock, now) ==> run_statements(
                        unit,
                        now,
                        stmts_view(*statements),
                        i as nat,
                        self@,
                    ) == run_statements(unit, now, stmts_view(*statements), 0, old(self)@),
            decreases statements.len() - i,
        {
            let ghost start = self@.walker.clock;
            let step = self.tree_walker.visit_statement(&statements[i], unit);
            match step {
                Ok(Completion::Normal) => {
                    proof {
                        assert forall|now: Readings| #[trigger]
                            foretold(self@.walker.clock, now) implies run_statements(
                            unit,
                            now,
                            stmts_view(*statements),
                            (i + 1) as nat,
                            self@,
                        ) == run_statements(unit, now, stmts_view(*statements), 0, old(self)@) by {
                            lemma_foretold_earlier(start, self@.walker.clock, now);
                        }
                    }
                },
                Ok(Completion::Return(_)) => {
                    proof {
                        assert forall|now: Readings| #[trigger]
                            foretold(self@.walker.clock, now) implies self@ == run_statements(
                            unit,
                            now,
                            stmts_view(*statements),
                            0,
                            old(self)@,
                        ).session && errors@ == run_statements(
                            unit,
                            now,
                            stmts_view(*statements),
                            0,
                            old(self)@,
                        ).errors by {
                            lemma_foretold_earlier(start, self@.walker.clock, now);
                        }
                    }
                    return errors;
                },
                Err(e) => {
                    errors.push(e);
                    self.had_error = true;
                    proof {
                        assert(errors@ =~= seq![e]);
                        assert forall|now: Readings| #[trigger]
                            foretold(self@.walker.clock, now) implies self@ == run_statements(
                            unit,
                            now,
                            stmts_view(*statements),
                            0,
                            old(self)@,
                        ).session && errors@ == run_statements(
                            unit,
                            now,
                            stmts_view(*statements),
                            0,
                            old(self)@,
                        ).errors by {
                            lemma_foretold_earlier(start, self@.walker.clock, now);
                        }
                    }
                    return errors;
                },
            }
            i = i + 1;
        }
        errors
    }
}

} // verus!
