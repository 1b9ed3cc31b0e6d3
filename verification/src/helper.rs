use vstd::prelude::*;
use crate::error::RuntimeError;
use crate::interpreter::{program_exec, EvalState, Interpreter};
use crate::literal::RealOps;
use crate::parser::Parser;
use crate::record::{abs_stack, ActivationRecord, FrameA};
use crate::parser::{spec_parser_init, spec_program};
use crate::semantic_analyzer::SemanticAnalyzer;

verus! {

/// Runs the whole pipeline over one source text, the stages strictly in
/// order: lex and parse ([`spec_parser_init`] then [`spec_program`] say
/// exactly which error, if any, those stages stop with), then analysis,
/// then evaluation; the first error of the first failing stage comes back
/// alone.  Success implies the text parsed, and yields the full
/// chronological trace of returned activation records: for some program
/// tree — the analyzed one, which is the parsed tree of the text up to
/// the call-site bindings analysis cached on it — it is exactly the trace
/// [`program_exec`] assigns, the program's own frame, of program kind at
/// nesting level 1, returned last of all.
#[verifier::rlimit(80)]
pub fn interpret_text<R: RealOps>(program_text: &str, host: &R) -> (r: Result<
    Vec<ActivationRecord>,
    RuntimeError,
>)
    requires
        program_text@.len() > 0,
    ensures
        ({
            match spec_parser_init(program_text@) {
                Err(ea) => r matches Err(e) && e.abs() == ea,
                Ok(st0) => match spec_program(st0).0 {
                    Err(ea) => r matches Err(e) && e.abs() == ea,
                    Ok(_) => match r {
                        Ok(_) => true,
                        Err(e) => !(e is UnexpectedToken) && !(e is UnexpectedChar),
                    },
                },
            }
        }),
        r matches Ok(trace) ==> spec_parser_init(program_text@) matches Ok(st0) && spec_program(
            st0,
        ).0 matches Ok(parsed) && exists|prog: crate::ast::ProgramNode|
            ({
                let run = #[trigger] program_exec(
                    prog,
                    EvalState { stack: Seq::empty(), trace: Seq::empty() },
                );
                run.1 is None && abs_stack(trace@) == run.0.trace
                    && crate::ast::same_shape_program(crate::ast::abs_program(prog), parsed)
            }),
        r matches Ok(trace) ==> exists|prog: crate::ast::ProgramNode|
            ({
                let run = #[trigger] program_exec(
                    prog,
                    EvalState { stack: Seq::empty(), trace: Seq::empty() },
                );
                run.1 is None && abs_stack(trace@) == run.0.trace
            }),
        r matches Ok(trace) ==> trace@.len() >= 1 && abs_stack(trace@).last().kind
            == crate::record::ARType::Program && abs_stack(trace@).last().level == 1,
{
    let mut parser = Parser::from(program_text)?;
    let mut program = parser.parse()?;
    let mut analyzer = SemanticAnalyzer::new();
    analyzer.analyze(&mut program)?;
    let mut interpreter = Interpreter::new();
    let eval_result = interpreter.interpret(&program, host);
    proof {
        assert(abs_stack(Seq::<ActivationRecord>::empty()) =~= Seq::<FrameA>::empty());
        crate::interpreter::lemma_program_exec_err_class(
            program,
            EvalState { stack: Seq::empty(), trace: Seq::empty() },
        );
    }
    eval_result?;
    proof {
        assert(abs_stack(Seq::<ActivationRecord>::empty()) =~= Seq::<FrameA>::empty());
        let run = program_exec(
            program,
            EvalState { stack: Seq::empty(), trace: Seq::empty() },
        );
        assert(run.1 is None && abs_stack(interpreter.memory_tester@) == run.0.trace);
        crate::interpreter::lemma_program_trace(
            program,
            EvalState { stack: Seq::empty(), trace: Seq::empty() },
        );
    }
    Ok(interpreter.memory_tester)
}

} // verus!
