use vstd::prelude::*;

use crate::condition::{eval_condition, evaluate_if};
use crate::context::ExecutionContext;
use crate::errors::{describe, GenAiError};
use crate::model::{Skill, StepType, WorkflowStep};
use crate::templating::{render, render_template};
use crate::text::string_of;

verus! {

/// The request that starts a run.
pub struct ExecutionInput {
    pub user_prompt: String,
    pub debug: bool,
}

/// Outside work that a step needs before the run can go on.
#[derive(Debug, Clone)]
pub enum StepRequest {
    /// Run `cmd` with the runner named `runner` and hand back its standard output.
    RunCommand { runner: String, cmd: String },
    /// Ask the generation service for `prompt` with `model` and hand back its text.
    Generate { model: String, prompt: String },
}

/// What one step came to: a value it produced on its own, or outside work it needs.
#[derive(Debug, Clone)]
pub enum StepOutcome {
    Produced(String),
    Needs(StepRequest),
}

/// What a run asks of its caller next.
#[derive(Debug, Clone)]
pub enum WorkflowAction {
    /// Perform this, then hand the result to `WorkflowExecutor::resume`.
    Perform(StepRequest),
    /// The run is over, with this result.
    Finished(String),
}

/// `m` after a step that produced `v` and stores it under `var`, if it names one.
pub open spec fn store(
    m: Map<Seq<char>, Seq<char>>,
    var: Option<String>,
    v: Seq<char>,
) -> Map<Seq<char>, Seq<char>> {
    match var {
        Some(k) => m.insert(k@, v),
        None => m,
    }
}

/// The step's guard, if it has one, is false in `m`: the step does not run.
pub open spec fn skipped(st: WorkflowStep, m: Map<Seq<char>, Seq<char>>) -> bool {
    st.if_expr is Some && !eval_condition(render(st.if_expr->Some_0@, m))
}

/// An output step with its template: it runs without outside work.
pub open spec fn is_inline(st: WorkflowStep) -> bool {
    st.step_type == StepType::Output && st.template is Some
}

/// The name of the one runner this library can run.
pub open spec fn bash() -> Seq<char> {
    seq!['b', 'a', 's', 'h']
}

/// A step that needs outside work and has what that work needs.
pub open spec fn request_of(st: WorkflowStep, m: Map<Seq<char>, Seq<char>>) -> Option<
    (StepType, Seq<char>, Seq<char>),
> {
    match st.step_type {
        StepType::Command => if st.runner is Some && st.cmd is Some && st.runner->Some_0@ == bash() {
            Some((StepType::Command, st.runner->Some_0@, st.cmd->Some_0@))
        } else {
            None
        },
        StepType::Llm => if st.model is Some && st.prompt is Some {
            Some((StepType::Llm, st.model->Some_0@, render(st.prompt->Some_0@, m)))
        } else {
            None
        },
        StepType::Output => None,
    }
}

/// `r` is the request that `request_of` describes.
pub open spec fn request_matches(r: StepRequest, want: (StepType, Seq<char>, Seq<char>)) -> bool {
    match r {
        StepRequest::RunCommand { runner, cmd } => want.0 == StepType::Command && runner@ == want.1
            && cmd@ == want.2,
        StepRequest::Generate { model, prompt } => want.0 == StepType::Llm && model@ == want.1
            && prompt@ == want.2,
    }
}

/// Runs the steps from index `i` on, with context `m` and latest output
/// `out`, as far as they go without outside work: skipped steps are passed
/// over, output steps render their template, store it and make it the
/// latest output. Gives the index where the run stops (the end, or a step
/// that needs outside work or cannot run), with the context and latest
/// output there.
pub open spec fn run_to_stop(
    steps: Seq<WorkflowStep>,
    i: int,
    m: Map<Seq<char>, Seq<char>>,
    out: Seq<char>,
) -> (int, Map<Seq<char>, Seq<char>>, Seq<char>)
    decreases steps.len() - i,
{
    if i < 0 || i >= steps.len() {
        (i, m, out)
    } else if skipped(steps[i], m) {
        run_to_stop(steps, i + 1, m, out)
    } else if is_inline(steps[i]) {
        let v = render(steps[i].template->Some_0@, m);
        run_to_stop(steps, i + 1, store(m, steps[i].output_var, v), v)
    } else {
        (i, m, out)
    }
}

proof fn lemma_run_to_stop_bounds(
    steps: Seq<WorkflowStep>,
    i: int,
    m: Map<Seq<char>, Seq<char>>,
    out: Seq<char>,
)
    requires
        0 <= i <= steps.len(),
    ensures
        i <= run_to_stop(steps, i, m, out).0 <= steps.len(),
        run_to_stop(steps, i, m, out).0 < steps.len() ==> {
            let k = run_to_stop(steps, i, m, out).0;
            let mk = run_to_stop(steps, i, m, out).1;
            !skipped(steps[k], mk) && !is_inline(steps[k])
        },
    decreases steps.len() - i,
{
    if i < steps.len() {
        if skipped(steps[i], m) {
            lemma_run_to_stop_bounds(steps, i + 1, m, out);
        } else if is_inline(steps[i]) {
            let v = render(steps[i].template->Some_0@, m);
            lemma_run_to_stop_bounds(steps, i + 1, store(m, steps[i].output_var, v), v);
        }
    }
}

fn store_output(ctx: &mut ExecutionContext, var: &Option<String>, v: &String)
    ensures
        final(ctx)@ == store(old(ctx)@, *var, v@),
{
    match var {
        Some(k) => ctx.set(k.as_str(), v.as_str()),
        None => {},
    }
}

/// Executes one step against `ctx`. An output step renders its template,
/// stores the result under its output variable and returns it. A command
/// step (bash is the only runner supported) and a generation step (whose
/// prompt is rendered here) return the outside work they need; the caller
/// records its result with `record_step_output`. A missing field or an
/// unsupported runner is an execution error.
pub fn execute_step(step: &WorkflowStep, ctx: &mut ExecutionContext) -> (r: Result<
    StepOutcome,
    GenAiError,
>)
    ensures
        is_inline(*step) ==> ({
            let v = render(step.template->Some_0@, old(ctx)@);
            &&& r matches Ok(StepOutcome::Produced(s)) && s@ == v
            &&& final(ctx)@ == store(old(ctx)@, step.output_var, v)
        }),
        !is_inline(*step) ==> final(ctx)@ == old(ctx)@,
        !is_inline(*step) && request_of(*step, old(ctx)@) is Some ==> (r matches Ok(
            StepOutcome::Needs(q),
        ) && request_matches(q, request_of(*step, old(ctx)@)->Some_0)),
        !is_inline(*step) && request_of(*step, old(ctx)@) is None ==> (r matches Err(e)
            && e is Execution),
{
    match step.step_type {
        StepType::Command => {
            let runner = match &step.runner {
                Some(r) => r,
                None => {
                    return Err(GenAiError::Execution(describe("command step missing runner: ", step.id.as_str())));
                },
            };
            let cmd = match &step.cmd {
                Some(c) => c,
                None => {
                    return Err(GenAiError::Execution(describe("command step missing cmd: ", step.id.as_str())));
                },
            };
            let supported = vec!['b', 'a', 's', 'h'];
            assert(supported@ == bash());
            if *runner != string_of(supported.as_slice()) {
                return Err(GenAiError::Execution(describe("unsupported runner: ", runner.as_str())));
            }
            Ok(StepOutcome::Needs(StepRequest::RunCommand { runner: runner.clone(), cmd: cmd.clone() }))
        },
        StepType::Llm => {
            let model = match &step.model {
                Some(m) => m,
                None => {
                    return Err(GenAiError::Execution(describe("generation step missing model: ", step.id.as_str())));
                },
            };
            let prompt = match &step.prompt {
                Some(p) => p,
                None => {
                    return Err(GenAiError::Execution(describe("generation step missing prompt: ", step.id.as_str())));
                },
            };
            let rendered = render_template(prompt.as_str(), ctx);
            Ok(StepOutcome::Needs(StepRequest::Generate { model: model.clone(), prompt: rendered }))
        },
        StepType::Output => {
            let template = match &step.template {
                Some(t) => t,
                None => {
                    return Err(GenAiError::Execution(describe("output step missing template: ", step.id.as_str())));
                },
            };
            let rendered = render_template(template.as_str(), ctx);
            store_output(ctx, &step.output_var, &rendered);
            Ok(StepOutcome::Produced(rendered))
        },
    }
}

/// Stores what outside work produced for `step` under its output variable.
pub fn record_step_output(step: &WorkflowStep, ctx: &mut ExecutionContext, produced: &String)
    ensures
        final(ctx)@ == store(old(ctx)@, step.output_var, produced@),
{
    store_output(ctx, &step.output_var, produced);
}

/// One run of a skill's workflow. The run goes forward in `execute` until it
/// ends or reaches a step that needs outside work (a command, a generation
/// call); the caller performs that work and hands its result to `resume`.
/// The result of a run is the value produced by the last step that ran.
pub struct WorkflowExecutor {
    ctx: ExecutionContext,
    next: usize,
    output: String,
    waiting: bool,
}

/// The context a run starts with: the request under `user_input`, the debug
/// flag (`true` or `false`) under `debug`.
pub open spec fn seeded(input: ExecutionInput) -> Map<Seq<char>, Seq<char>> {
    Map::empty().insert("user_input"@, input.user_prompt@).insert(
        "debug"@,
        if input.debug {
            "true"@
        } else {
            "false"@
        },
    )
}

impl WorkflowExecutor {
    /// The run's variables.
    pub closed spec fn vars(&self) -> Map<Seq<char>, Seq<char>> {
        self.ctx@
    }

    /// The index of the next step to consider.
    pub closed spec fn next_step(&self) -> int {
        self.next as int
    }

    /// The value produced by the last step that ran (empty before any did).
    pub closed spec fn latest(&self) -> Seq<char> {
        self.output@
    }

    /// The run waits for the result of the outside work of step `next_step`.
    pub closed spec fn is_waiting(&self) -> bool {
        self.waiting
    }

    /// A fresh run for `input`.
    pub fn new(input: ExecutionInput) -> (r: Self)
        ensures
            r.vars() == seeded(input),
            r.next_step() == 0,
            r.latest() == Seq::<char>::empty(),
            !r.is_waiting(),
    {
        let mut ctx = ExecutionContext::new();
        ctx.set("user_input", input.user_prompt.as_str());
        if input.debug {
            ctx.set("debug", "true");
        } else {
            ctx.set("debug", "false");
        }
        WorkflowExecutor { ctx, next: 0, output: String::new(), waiting: false }
    }

    /// Whether the run waits for a result to be handed to `resume`.
    pub fn waiting(&self) -> (r: bool)
        ensures
            r == self.is_waiting(),
    {
        self.waiting
    }

    /// Runs `skill`'s steps from where the run stands until the run ends,
    /// fails, or needs outside work. Each step's guard is evaluated against
    /// the current variables; a step whose guard is false is skipped. An
    /// error ends the run: nothing of what ran before is returned. Fails at
    /// once, changing nothing, while a result is awaited.
    pub fn execute(&mut self, skill: &Skill) -> (r: Result<WorkflowAction, GenAiError>)
        ensures
            old(self).is_waiting() ==> (r matches Err(e) && e is Execution) && *final(self) == *old(
                self,
            ),
            !old(self).is_waiting() ==> ({
                let steps = skill.steps@;
                let stop = run_to_stop(
                    steps,
                    old(self).next_step(),
                    old(self).vars(),
                    old(self).latest(),
                );
                let k = stop.0;
                &&& final(self).next_step() == k
                &&& final(self).vars() == stop.1
                &&& final(self).latest() == stop.2
                &&& k >= steps.len() ==> (r matches Ok(WorkflowAction::Finished(s)) && s@ == stop.2
                    && !final(self).is_waiting())
                &&& k < steps.len() && request_of(steps[k], stop.1) is Some ==> (r matches Ok(
                    WorkflowAction::Perform(q),
                ) && request_matches(q, request_of(steps[k], stop.1)->Some_0)
                    && final(self).is_waiting())
                &&& k < steps.len() && request_of(steps[k], stop.1) is None ==> (r matches Err(e)
                    && e is Execution && !final(self).is_waiting())
            }),
    {
        if self.waiting {
            return Err(GenAiError::Execution(String::from_str("a step result is still awaited")));
        }
        let steps = &skill.steps;
        let ghost target = run_to_stop(steps@, self.next as int, self.ctx@, self.output@);
        loop
            invariant
                !self.waiting,
                !old(self).waiting,
                target == run_to_stop(skill.steps@, old(self).next as int, old(self).ctx@, old(self).output@),
                steps@ == skill.steps@,
                run_to_stop(steps@, self.next as int, self.ctx@, self.output@) == target,
            decreases steps@.len() - self.next,
        {
            if self.next >= steps.len() {
                return Ok(WorkflowAction::Finished(self.output.clone()));
            }
            let st = &steps[self.next];
            if let Some(expr) = &st.if_expr {
                if !evaluate_if(expr.as_str(), &self.ctx) {
                    self.next = self.next + 1;
                    continue;
                }
            }
            match execute_step(st, &mut self.ctx) {
                Ok(StepOutcome::Produced(v)) => {
                    self.output = v;
                    self.next = self.next + 1;
                },
                Ok(StepOutcome::Needs(q)) => {
                    self.waiting = true;
                    return Ok(WorkflowAction::Perform(q));
                },
                Err(e) => {
                    return Err(e);
                },
            }
        }
    }

    /// Hands the run the result of the outside work it waits for: it is
    /// stored under the waiting step's output variable, becomes the latest
    /// output, and the run moves past that step. Changes nothing when no
    /// result is awaited.
    pub fn resume(&mut self, skill: &Skill, produced: String)
        ensures
            old(self).is_waiting() && old(self).next_step() < skill.steps@.len() ==> {
                &&& final(self).vars() == store(
                    old(self).vars(),
                    skill.steps@[old(self).next_step()].output_var,
                    produced@,
                )
                &&& final(self).latest() == produced@
                &&& final(self).next_step() == old(self).next_step() + 1
                &&& !final(self).is_waiting()
            },
            !(old(self).is_waiting() && old(self).next_step() < skill.steps@.len()) ==> *final(self)
                == *old(self),
    {
        if !self.waiting || self.next >= skill.steps.len() {
            return;
        }
        record_step_output(&skill.steps[self.next], &mut self.ctx, &produced);
        self.output = produced;
        self.next = self.next + 1;
        self.waiting = false;
    }
}

} // verus!
