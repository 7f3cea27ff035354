//! A virtual machine for a three-address intermediate representation:
//! a lexer and parser for its text, a semantic analyzer (entry point,
//! control-flow consistency, strict SSA), and an interpreter with 32-bit
//! wrapping arithmetic, phi nodes, calls and a time budget.

use vstd::prelude::*;

pub mod analysis;
pub mod args;
mod clock;
pub mod error;
pub mod exec;
pub mod ir;
pub mod lexer;
pub mod ops;
pub mod parse_error;
pub mod parser;
pub mod render;
pub mod store;
mod text;

use vstd::string::StringSliceAdditionalSpecFns;

use crate::analysis::{sem_analysis, sem_spec_ok};
use crate::args::Config;
pub use crate::error::{Error, ErrorTrait};
use crate::exec::{events_view, execute, run_result_ok, Event, EventView};
pub use crate::exec::{ProgContext, ReturnType};
use crate::parser::parse;

verus! {

/// What a run of the source `src` under `ssa` and the time budget `limit` can
/// give: the parse error; the semantic error; or what running `main` with no
/// arguments can give.
pub open spec fn run_spec_ok(
    src: Seq<u8>,
    ssa: bool,
    limit: Option<u64>,
    r: Result<ReturnType, Error>,
    events: Seq<EventView>,
) -> bool {
    match crate::parser::parse_spec(src) {
        Err(pe) => r matches Err(Error::ParseError(e)) && e@ == pe,
        Ok(pv) => exists|prog: crate::ir::Program|
            #![trigger prog@]
            prog@ == pv && match r {
                Err(Error::SemError(e)) => sem_spec_ok(prog, ssa, Err(e)),
                Err(Error::ParseError(_)) => false,
                Ok(o) => sem_spec_ok(prog, ssa, Ok(())) && run_result_ok(prog, "main"@, Seq::empty(), limit, o, events),
            },
    }
}

/// Parses, checks and runs the source text: the outcome of `main`, with the
/// events of the `print` and `dump` instructions that ran.
pub fn run_traced(config: &Config, file_str: &str) -> (r: Result<(ReturnType, Vec<Event>), Error>)
    ensures
        match r {
            Ok((o, events)) => run_spec_ok(file_str.spec_bytes(), config.ssa, config.timeout, Ok(o), events_view(events@)),
            Err(e) => run_spec_ok(file_str.spec_bytes(), config.ssa, config.timeout, Err(e), Seq::empty()),
        },
{
    let prog = match parse(file_str) {
        Ok(p) => p,
        Err(e) => {
            return Err(Error::ParseError(e));
        },
    };
    match sem_analysis(&prog, config.ssa) {
        Ok(()) => {},
        Err(e) => {
            return Err(Error::SemError(e));
        },
    }
    let name = "main".to_owned();
    let args: Vec<i32> = Vec::new();
    let (o, events) = execute(&prog, &name, &args, config.timeout);
    assert(args@ =~= Seq::<i32>::empty());
    Ok((o, events))
}

/// Parses, checks and runs the source text: the outcome of `main`.
pub fn run(config: &Config, file_str: &str) -> (r: Result<ReturnType, Error>)
    ensures
        exists|events: Seq<EventView>| run_spec_ok(file_str.spec_bytes(), config.ssa, config.timeout, r, events),
{
    match run_traced(config, file_str) {
        Ok((o, events)) => {
            assert(run_spec_ok(file_str.spec_bytes(), config.ssa, config.timeout, Ok(o), events_view(events@)));
            Ok(o)
        },
        Err(e) => {
            assert(run_spec_ok(file_str.spec_bytes(), config.ssa, config.timeout, Err(e), Seq::empty()));
            Err(e)
        },
    }
}

} // verus!
