//! From one line of input to a pipeline plan: trim, split on unquoted
//! pipes, lex each stage, and plan.  The driver reads lines, calls
//! [`prepare_line`], and steps the machine that [`crate::executor`]
//! provides.

use vstd::prelude::*;
use vstd::string::*;
use crate::errors::{ShellError, ShellErrorView, ShellResult};
use crate::executor::{plan_result_view, spec_plan, PipelineExec, PipelinePlan, PlanView};
use crate::lexer::{lex, spec_lex};
use crate::pipeline::{spec_split_pipeline, split_pipeline};
use crate::registry::{BuiltinHandle, BuiltinRegistry};
use crate::text::{spec_trim, trim};

verus! {

/// Whether some stage line fails to lex.
pub open spec fn any_lex_failure(frags: Seq<Seq<char>>) -> bool {
    exists|i: int| 0 <= i < frags.len() && spec_lex(#[trigger] frags[i]) is None
}

/// Every stage line lexed into its argument vector.
pub open spec fn lex_all(frags: Seq<Seq<char>>) -> Seq<Seq<Seq<char>>> {
    frags.map_values(
        |f: Seq<char>|
            match spec_lex(f) {
                Option::Some(toks) => toks,
                Option::None => Seq::empty(),
            },
    )
}

/// What preparing one line yields: nothing for a blank line or a line of
/// only redirections, a plan otherwise, or the error of the first pass that
/// rejects the line.  The passes run splitter first, then lexer: a line
/// with both a blank pipeline fragment and a quoting defect reports the
/// blank fragment, since the quote-aware splitter may run before the lexer
/// and an empty fragment is already a parse error of that pass.
pub open spec fn spec_prepare(input: Seq<char>, cmds: Seq<BuiltinHandle>) -> Result<
    Option<PlanView>,
    ShellErrorView,
> {
    let trimmed = spec_trim(input);
    if trimmed.len() == 0 {
        Result::Ok(Option::None)
    } else {
        match spec_split_pipeline(trimmed) {
            Option::None => Result::Err(ShellErrorView::InputError("empty pipeline stage"@)),
            Option::Some(frags) => {
                if any_lex_failure(frags) {
                    Result::Err(ShellErrorView::InvalidQuoting)
                } else if frags.len() > 0x10000000 {
                    Result::Err(ShellErrorView::ExecutionError("pipeline too long"@))
                } else {
                    spec_plan(lex_all(frags), cmds)
                }
            },
        }
    }
}

/// Turns one raw input line into a pipeline plan.
///
/// Returns nothing for a line that is blank after trimming, or whose single
/// stage was nothing but redirections; otherwise the plan, ready for
/// [`PipelineExec::new`], exactly as [`spec_prepare`] describes.
pub fn prepare_line(input: &str, registry: &BuiltinRegistry) -> (r: ShellResult<
    Option<PipelinePlan>,
>)
    ensures
        plan_result_view(r) == spec_prepare(input@, registry.spec_commands()),
        r matches Ok(Some(plan)) ==> PipelineExec::wf_plan(plan@),
{
    let ghost cmds = registry.spec_commands();
    let trimmed = trim(input);
    if trimmed.as_str().unicode_len() == 0 {
        return Ok(None);
    }
    let frags = match split_pipeline(trimmed.as_str()) {
        Ok(v) => v,
        Err(e) => {
            return Err(e);
        },
    };
    let ghost fv = frags.deep_view();
    let mut argvs: Vec<Vec<String>> = Vec::new();
    let mut i: usize = 0;
    proof {
        assert(argvs.deep_view() =~~= lex_all(fv).take(0));
    }
    while i < frags.len()
        invariant
            fv == frags.deep_view(),
            fv.len() == frags@.len(),
            spec_trim(input@).len() != 0,
            spec_split_pipeline(spec_trim(input@)) == Option::Some(fv),
            cmds == registry.spec_commands(),
            i <= frags@.len(),
            argvs.deep_view() == lex_all(fv).take(i as int),
            forall|j: int| 0 <= j < i ==> spec_lex(#[trigger] fv[j]) is Some,
        decreases frags@.len() - i,
    {
        proof {
            assert(fv[i as int] == frags@[i as int]@);
        }
        match lex(frags[i].as_str()) {
            Ok(toks) => {
                let ghost pre = argvs.deep_view();
                argvs.push(toks);
                proof {
                    assert(lex_all(fv)[i as int] == (match spec_lex(fv[i as int]) {
                        Option::Some(t) => t,
                        Option::None => Seq::<Seq<char>>::empty(),
                    }));
                    assert(argvs.deep_view() =~~= pre.push(lex_all(fv)[i as int]));
                    assert(lex_all(fv).take(i + 1) =~~= pre.push(lex_all(fv)[i as int]));
                }
            },
            Err(_) => {
                proof {
                    assert(any_lex_failure(fv)) by {
                        assert(spec_lex(fv[i as int]) is None);
                    }
                }
                return Err(ShellError::InvalidQuoting);
            },
        }
        i = i + 1;
    }
    proof {
        assert(lex_all(fv).take(frags@.len() as int) =~~= lex_all(fv));
        assert(!any_lex_failure(fv)) by {
            assert(forall|j: int|
                0 <= j < fv.len() ==> spec_lex(#[trigger] fv[j]) is Some);
        }
    }
    if argvs.len() > 0x10000000 {
        return Err(ShellError::ExecutionError("pipeline too long".to_owned()));
    }
    proof {
        assert(argvs@.len() == lex_all(fv).len());
        assert(fv.len() >= 1);
    }
    plan_pipeline_checked(&argvs, registry)
}

/// Plans the lexed stages; split out so that the plan's well-formedness for
/// the machine is established in one place.
fn plan_pipeline_checked(argvs: &Vec<Vec<String>>, registry: &BuiltinRegistry) -> (r: ShellResult<
    Option<PipelinePlan>,
>)
    requires
        1 <= argvs@.len() <= 0x10000000,
    ensures
        plan_result_view(r) == spec_plan(argvs.deep_view(), registry.spec_commands()),
        r matches Ok(Some(plan)) ==> PipelineExec::wf_plan(plan@),
{
    let r = crate::executor::plan_pipeline(argvs, registry);
    proof {
        match &r {
            Result::Ok(Option::Some(plan)) => {
                assert(plan@.stages.len() == plan.stages@.len());
                assert forall|j: int| 0 <= j < plan@.stages.len() implies (
                #[trigger] plan@.stages[j]).argv.len() >= 1 by {
                    assert(plan@.stages[j] == plan.stages@[j]@);
                    assert(plan.stages@[j]@.argv.len() == plan.stages@[j].argv.deep_view().len());
                }
            },
            _ => {},
        }
    }
    r
}

} // verus!
