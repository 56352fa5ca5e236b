//! The dispatcher: one primitive-function invocation.
//!
//! `eval` resolves the caller-supplied bindings into canonical argument
//! order, coerces the single vector argument into a numeric sequence, applies
//! the empty-input identity shortcut, and otherwise plans one call into the
//! external numeric engine, addressed by splitting the registered name on its
//! last separator. The caller runs that call and hands its outcome to
//! `eval_finish`, which shapes the scalar result into one output row or folds
//! the failure into the type-error path.
//!
//! An invocation is one transaction with two recoverable terminal outcomes:
//! success, with the sink untouched, or a type error, with exactly one
//! diagnostic row appended to the sink and no output rows. A malformed
//! binding sequence is a defect in the caller and fatal instead.

use vstd::prelude::*;
use vstd::string::StrSliceExecFns;

use crate::diag::type_error_row;
use crate::diag::type_error_row_model;
use crate::registry::lookup_spec;
use crate::registry::ConfigurationError;
use crate::registry::FunctionRegistry;
use crate::value::is_numeric_column;
use crate::value::numeric_entries;
use crate::value::row_model;
use crate::value::rows_model;
use crate::value::Scalar;
use crate::value::ScalarModel;
use crate::value::Value;
use crate::value::ValueModel;

verus! {

/// A defect in the upstream caller, fatal for the call site rather than
/// recoverable per row: the bindings do not address the declared parameters
/// canonically.
#[derive(Clone, Copy, Debug, PartialEq, Eq, Structural)]
pub enum BindingError {
    /// The declared field indices, in the order given, are not exactly
    /// 0, 1, ..., n-1: the caller did not pre-sort the arguments.
    InvariantViolation,
    /// A variable slot index points beyond the supplied inputs.
    SlotOutOfRange,
}

/// A failure of the external numeric engine, reported by the caller that ran
/// the planned call. It is folded into the type-error path, but kept
/// distinguishable here.
#[derive(Clone, Copy, Debug, PartialEq, Eq, Structural)]
pub enum EvaluationError {
    /// The module or the symbol could not be resolved in the hosting
    /// environment.
    UnresolvableRoutine,
    /// The routine was found but the computation itself failed.
    FailedCall,
}

/// One planned call into the external numeric engine: the routine, addressed
/// as module and symbol, and the numeric argument sequence, as IEEE-754 bit
/// patterns.
#[derive(Debug, PartialEq, Eq)]
pub struct EngineCall {
    pub module: String,
    pub symbol: String,
    pub args: Vec<u64>,
}

/// What one invocation asks of its caller: hand the finished rows back, or
/// run one engine call and feed the outcome to `eval_finish`.
#[derive(Debug, PartialEq, Eq)]
pub enum EvalStep {
    Done(Vec<Vec<Value>>),
    Call(EngineCall),
}

/// The declared field indices, in the order given, are exactly 0, 1, ..., n-1:
/// the caller pre-sorted the arguments into canonical order.
pub open spec fn bindings_canonical(bindings: Seq<(usize, usize)>) -> bool {
    forall|i: int| 0 <= i < bindings.len() ==> bindings[i].0 == i
}

/// Every variable slot index addresses one of the supplied inputs.
pub open spec fn slots_in_range(bindings: Seq<(usize, usize)>, n_inputs: nat) -> bool {
    forall|i: int| 0 <= i < bindings.len() ==> bindings[i].1 < n_inputs
}

/// The argument values in canonical declared order.
pub open spec fn resolved_args(
    bindings: Seq<(usize, usize)>,
    inputs: Seq<ValueModel>,
) -> Seq<ValueModel> {
    bindings.map_values(|b: (usize, usize)| inputs[b.1 as int])
}

/// The index of the last name separator, if the name carries one.
pub open spec fn last_dot(name: Seq<char>) -> Option<int>
    decreases name.len(),
{
    if name.len() == 0 {
        None
    } else if name.last() == '.' {
        Some(name.len() - 1)
    } else {
        last_dot(name.drop_last())
    }
}

/// A column holding the given numbers.
pub open spec fn column_model(xs: Seq<u64>) -> ValueModel {
    ValueModel::Column(xs.map_values(|b: u64| ScalarModel::Float(b)))
}

/// The identity result a reduction yields on empty input without the engine:
/// one row holding the number 0.0, whose IEEE-754 bit pattern is 0.
pub open spec fn identity_rows() -> Seq<Seq<ValueModel>> {
    seq![seq![ValueModel::Float(0u64)]]
}

/// What one invocation decides, from the registered function name, the
/// bindings, the inputs and the source locator.
pub enum OutcomeModel {
    /// A caller defect: fatal, no rows, nothing appended to the sink.
    Fatal(BindingError),
    /// A type error: this one diagnostic row is appended to the sink and no
    /// output rows come back.
    Rejected(Seq<ValueModel>),
    /// Empty numeric input: these output rows come back at once; the sink is
    /// untouched and the engine is never invoked.
    Identity(Seq<Seq<ValueModel>>),
    /// Run the engine routine `module`.`symbol` on these numbers and finish
    /// with its outcome; the sink is untouched by the planning step.
    Dispatch(Seq<char>, Seq<char>, Seq<u64>),
}

/// The decision of one invocation.
pub open spec fn eval_outcome(
    fname: Seq<char>,
    bindings: Seq<(usize, usize)>,
    inputs: Seq<ValueModel>,
    source: Seq<char>,
) -> OutcomeModel {
    if !bindings_canonical(bindings) {
        OutcomeModel::Fatal(BindingError::InvariantViolation)
    } else if !slots_in_range(bindings, inputs.len()) {
        OutcomeModel::Fatal(BindingError::SlotOutOfRange)
    } else {
        let args = resolved_args(bindings, inputs);
        if args.len() != 1 || !is_numeric_column(args[0]) {
            OutcomeModel::Rejected(type_error_row_model(source, fname, args))
        } else {
            let xs = numeric_entries(args[0]);
            if xs.len() == 0 {
                OutcomeModel::Identity(identity_rows())
            } else {
                match last_dot(fname) {
                    Some(i) => OutcomeModel::Dispatch(fname.take(i), fname.skip(i + 1), xs),
                    None => OutcomeModel::Rejected(type_error_row_model(source, fname, args)),
                }
            }
        }
    }
}

/// The sink after an invocation with the given outcome: one row more on a
/// type error, untouched otherwise.
pub open spec fn sink_after(
    outcome: OutcomeModel,
    sink: Seq<Seq<ValueModel>>,
) -> Seq<Seq<ValueModel>> {
    match outcome {
        OutcomeModel::Rejected(row) => sink.push(row),
        _ => sink,
    }
}

/// The binding resolver: validates and reorders the caller-supplied
/// (declared-position, variable-slot) pairs into the function's canonical
/// argument order, reading each argument out of its slot.
///
/// The declared indices being exactly 0, 1, ..., n-1 is a precondition on the
/// upstream call-site compiler, not user input: its violation is answered
/// with a fatal error, never with a recoverable type error.
#[verifier::loop_isolation(false)]
pub fn resolve_bindings(input_bindings: &[(usize, usize)], inputs: &[Value]) -> (r: Result<
    Vec<Value>,
    BindingError,
>)
    ensures
        r is Ok <==> (bindings_canonical(input_bindings@) && slots_in_range(
            input_bindings@,
            inputs@.len(),
        )),
        r matches Ok(values) ==> row_model(values@) == resolved_args(
            input_bindings@,
            row_model(inputs@),
        ),
        !bindings_canonical(input_bindings@) ==> r == Err::<Vec<Value>, BindingError>(
            BindingError::InvariantViolation,
        ),
        (bindings_canonical(input_bindings@) && !slots_in_range(
            input_bindings@,
            inputs@.len(),
        )) ==> r == Err::<Vec<Value>, BindingError>(BindingError::SlotOutOfRange),
{
    let n = input_bindings.len();
    let mut i: usize = 0;
    while i < n
        invariant
            forall|j: int| 0 <= j < i ==> input_bindings@[j].0 == j,
        decreases n - i,
    {
        if input_bindings[i].0 != i {
            return Err(BindingError::InvariantViolation);
        }
        i = i + 1;
    }
    let mut i: usize = 0;
    while i < n
        invariant
            forall|j: int| 0 <= j < i ==> input_bindings@[j].1 < inputs@.len(),
        decreases n - i,
    {
        if input_bindings[i].1 >= inputs.len() {
            return Err(BindingError::SlotOutOfRange);
        }
        i = i + 1;
    }
    let mut values: Vec<Value> = Vec::new();
    let mut i: usize = 0;
    while i < n
        invariant
            i <= n,
            values@.len() == i,
            forall|j: int| 0 <= j < i ==> values@[j]@ == inputs@[input_bindings@[j].1 as int]@,
        decreases n - i,
    {
        values.push(inputs[input_bindings[i].1].clone());
        i = i + 1;
    }
    proof {
        assert(row_model(values@) =~= resolved_args(input_bindings@, row_model(inputs@)));
    }
    Ok(values)
}

/// A reference to one primitive function: the id its registry gave out
/// through `lookup`.
#[derive(Clone, Copy, Debug, PartialEq, Eq, Structural)]
pub struct PythonFunc {
    func_name: usize,
}

impl PythonFunc {
    /// The registry id this reference carries.
    pub closed spec fn id_spec(&self) -> int {
        self.func_name as int
    }

    /// The registry id this reference carries; an id is valid for a registry
    /// exactly when it lies below the registry's length.
    pub fn id(&self) -> (r: usize)
        ensures
            r == self.id_spec(),
    {
        self.func_name
    }

    /// Wraps a registry id.
    pub fn new(name: usize) -> (r: PythonFunc)
        ensures
            r.id_spec() == name,
    {
        PythonFunc { func_name: name }
    }

    /// The function registered under `string`. Fails, fatally for the
    /// construction of the call site, exactly when the name is unknown.
    pub fn from_str(string: &str, registry: &FunctionRegistry) -> (r: Result<
        PythonFunc,
        ConfigurationError,
    >)
        ensures
            r matches Ok(f) ==> (lookup_spec(registry@, string@) == Some(f.id_spec())
                && f.id_spec() < registry@.len()),
            r is Err <==> lookup_spec(registry@, string@) is None,
            r matches Err(e) ==> (e matches ConfigurationError::UnknownFunction(n) && n@
                == string@),
    {
        match registry.lookup(string) {
            Ok(id) => {
                proof {
                    crate::registry::lemma_lookup_spec_in_range(registry@, string@);
                }
                Ok(PythonFunc::new(id))
            },
            Err(e) => Err(e),
        }
    }

    /// Evaluate one primitive-function call over already-materialized
    /// argument values.
    ///
    /// The bindings are resolved into canonical order, the single vector
    /// argument is coerced, the empty-input identity shortcut is applied, and
    /// otherwise the engine call is planned; the caller runs that call and
    /// hands its outcome to `eval_finish`. A type error appends exactly one
    /// diagnostic row to `errors` and yields no rows; a malformed binding
    /// sequence is fatal and touches nothing.
    #[verifier::loop_isolation(false)]
    pub fn eval(
        &self,
        registry: &FunctionRegistry,
        input_bindings: &[(usize, usize)],
        inputs: &[Value],
        source: &str,
        errors: &mut Vec<Vec<Value>>,
    ) -> (r: Result<EvalStep, BindingError>)
        requires
            self.id_spec() < registry@.len(),
        ensures
            ({
                let outcome = eval_outcome(
                    registry@[self.id_spec()].name,
                    input_bindings@,
                    row_model(inputs@),
                    source@,
                );
                &&& rows_model(final(errors)@) == sink_after(
                    outcome,
                    rows_model(old(errors)@),
                )
                &&& (outcome matches OutcomeModel::Fatal(e) ==> (r matches Err(e2) && e2
                    == e))
                &&& (outcome is Rejected ==> (r matches Ok(EvalStep::Done(rows)) && rows@.len()
                    == 0))
                &&& (outcome matches OutcomeModel::Identity(rs) ==> (r matches Ok(
                    EvalStep::Done(rows),
                ) && rows_model(rows@) == rs))
                &&& (outcome matches OutcomeModel::Dispatch(m, s, xs) ==> (r matches Ok(
                    EvalStep::Call(c),
                ) && c.module@ == m && c.symbol@ == s && c.args@ == xs))
            }),
    {
        let values = match resolve_bindings(input_bindings, inputs) {
            Ok(values) => values,
            Err(e) => {
                return Err(e);
            },
        };
        let descriptor = registry.resolve(self.func_name);
        let fname: &str = descriptor.name.as_str();
        if values.len() != 1 {
            let row = type_error_row(source, fname, &values);
            errors.push(row);
            proof {
                assert(rows_model(errors@) =~= rows_model(old(errors)@).push(
                    row_model(row@),
                ));
            }
            return Ok(EvalStep::Done(Vec::new()));
        }
        let coerced = values[0].as_numeric_sequence();
        match coerced {
            None => {
                let row = type_error_row(source, fname, &values);
                errors.push(row);
                proof {
                    assert(rows_model(errors@) =~= rows_model(old(errors)@).push(
                        row_model(row@),
                    ));
                }
                Ok(EvalStep::Done(Vec::new()))
            },
            Some(xs) => {
                if xs.len() == 0 {
                    let mut row: Vec<Value> = Vec::new();
                    row.push(Value::Float(0));
                    let mut rows: Vec<Vec<Value>> = Vec::new();
                    rows.push(row);
                    proof {
                        assert(rows_model(rows@) =~~= identity_rows());
                    }
                    Ok(EvalStep::Done(rows))
                } else {
                    match split_routine(fname) {
                        Some((module, symbol)) => Ok(
                            EvalStep::Call(EngineCall { module, symbol, args: xs }),
                        ),
                        None => {
                            let row = type_error_row(source, fname, &values);
                            errors.push(row);
                            proof {
                                assert(rows_model(errors@) =~= rows_model(old(errors)@).push(
                                    row_model(row@),
                                ));
                            }
                            Ok(EvalStep::Done(Vec::new()))
                        },
                    }
                }
            },
        }
    }

    /// Shape the outcome of the engine call that `eval` planned.
    ///
    /// A scalar result becomes one output row holding it; a failure of the
    /// engine is folded into the same type-error path as a coercion failure:
    /// one diagnostic row in the sink, no output rows.
    #[verifier::loop_isolation(false)]
    pub fn eval_finish(
        &self,
        registry: &FunctionRegistry,
        call: &EngineCall,
        outcome: Result<u64, EvaluationError>,
        source: &str,
        errors: &mut Vec<Vec<Value>>,
    ) -> (rows: Vec<Vec<Value>>)
        requires
            self.id_spec() < registry@.len(),
        ensures
            outcome matches Ok(bits) ==> (rows_model(rows@) == seq![
                seq![ValueModel::Float(bits)],
            ] && final(errors)@ == old(errors)@),
            outcome is Err ==> (rows@.len() == 0 && rows_model(final(errors)@) == rows_model(
                old(errors)@,
            ).push(
                type_error_row_model(
                    source@,
                    registry@[self.id_spec()].name,
                    seq![column_model(call.args@)],
                ),
            )),
    {
        match outcome {
            Ok(bits) => {
                let mut row: Vec<Value> = Vec::new();
                row.push(Value::Float(bits));
                let mut rows: Vec<Vec<Value>> = Vec::new();
                rows.push(row);
                proof {
                    assert(rows_model(rows@) =~~= seq![seq![ValueModel::Float(bits)]]);
                }
                rows
            },
            Err(_) => {
                let descriptor = registry.resolve(self.func_name);
                let fname: &str = descriptor.name.as_str();
                let mut entries: Vec<Scalar> = Vec::new();
                let mut i: usize = 0;
                while i < call.args.len()
                    invariant
                        i <= call.args@.len(),
                        entries@.len() == i,
                        forall|j: int| 0 <= j < i ==> entries@[j] == Scalar::Float(
                            call.args@[j],
                        ),
                    decreases call.args@.len() - i,
                {
                    entries.push(Scalar::Float(call.args[i]));
                    i = i + 1;
                }
                let mut values: Vec<Value> = Vec::new();
                values.push(Value::Column(entries));
                proof {
                    assert(entries@.map_values(|e: Scalar| e@) =~= call.args@.map_values(
                        |b: u64| ScalarModel::Float(b),
                    ));
                    assert(row_model(values@) =~= seq![column_model(call.args@)]);
                }
                let row = type_error_row(source, fname, &values);
                errors.push(row);
                proof {
                    assert(rows_model(errors@) =~= rows_model(old(errors)@).push(
                        row_model(row@),
                    ));
                }
                Vec::new()
            },
        }
    }
}

/// Splits a registered name on its last separator into the engine module and
/// symbol.
fn split_routine(name: &str) -> (r: Option<(String, String)>)
    ensures
        r is Some <==> last_dot(name@) is Some,
        r matches Some(p) ==> (last_dot(name@) matches Some(i) && p.0@ == name@.take(i)
            && p.1@ == name@.skip(i + 1)),
{
    let n = name.unicode_len();
    let mut i: usize = n;
    while i > 0
        invariant
            i <= n,
            n == name@.len(),
            forall|j: int| i <= j < n ==> name@[j] != '.',
        decreases i,
    {
        let c = name.get_char(i - 1);
        if c == '.' {
            proof {
                lemma_last_dot_found(name@, i - 1);
            }
            let module = name.substring_char(0, i - 1);
            let symbol = name.substring_char(i, n);
            proof {
                assert(module@ =~= name@.take(i - 1));
                assert(symbol@ =~= name@.skip(i as int));
            }
            return Some((module.to_owned(), symbol.to_owned()));
        }
        i = i - 1;
    }
    proof {
        lemma_last_dot_none(name@);
    }
    None
}

/// Where position `k` holds the last separator, `last_dot` picks `k`.
proof fn lemma_last_dot_found(s: Seq<char>, k: int)
    requires
        0 <= k < s.len(),
        s[k] == '.',
        forall|j: int| k < j < s.len() ==> s[j] != '.',
    ensures
        last_dot(s) == Some(k),
    decreases s.len(),
{
    if k < s.len() - 1 {
        assert(s.drop_last()[k] == s[k]);
        lemma_last_dot_found(s.drop_last(), k);
    }
}

/// Where no position holds a separator, `last_dot` finds nothing.
proof fn lemma_last_dot_none(s: Seq<char>)
    requires
        forall|j: int| 0 <= j < s.len() ==> s[j] != '.',
    ensures
        last_dot(s) is None,
    decreases s.len(),
{
    if s.len() > 0 {
        lemma_last_dot_none(s.drop_last());
    }
}

/// Law: a reduction on an empty numeric input yields exactly one output row
/// holding the identity value 0.0 (bit pattern 0), never touches the sink,
/// and never invokes the engine: the outcome is `Identity`, not `Dispatch`.
pub proof fn lemma_empty_input_identity(
    fname: Seq<char>,
    bindings: Seq<(usize, usize)>,
    inputs: Seq<ValueModel>,
    source: Seq<char>,
    sink: Seq<Seq<ValueModel>>,
)
    requires
        bindings_canonical(bindings),
        slots_in_range(bindings, inputs.len()),
        resolved_args(bindings, inputs).len() == 1,
        is_numeric_column(resolved_args(bindings, inputs)[0]),
        numeric_entries(resolved_args(bindings, inputs)[0]).len() == 0,
    ensures
        eval_outcome(fname, bindings, inputs, source) == OutcomeModel::Identity(
            identity_rows(),
        ),
        sink_after(eval_outcome(fname, bindings, inputs, source), sink) == sink,
        identity_rows().len() == 1 && identity_rows()[0] == seq![ValueModel::Float(0u64)],
{
}

/// Law: a non-numeric argument value appends exactly one diagnostic row to
/// the sink, with the source locator preserved verbatim as its first field,
/// and yields zero output rows.
pub proof fn lemma_non_numeric_rejected(
    fname: Seq<char>,
    bindings: Seq<(usize, usize)>,
    inputs: Seq<ValueModel>,
    source: Seq<char>,
    sink: Seq<Seq<ValueModel>>,
)
    requires
        bindings_canonical(bindings),
        slots_in_range(bindings, inputs.len()),
        resolved_args(bindings, inputs).len() == 1,
        !is_numeric_column(resolved_args(bindings, inputs)[0]),
    ensures
        eval_outcome(fname, bindings, inputs, source) matches OutcomeModel::Rejected(row)
            && sink_after(eval_outcome(fname, bindings, inputs, source), sink) == sink.push(row)
            && row.len() == 2 && row[0] == ValueModel::Text(source),
{
}

/// Law: bindings whose declared indices are not exactly 0, 1, ..., n-1 are a
/// fatal invariant violation, not a type error: nothing is appended to the
/// sink and no rows come back.
pub proof fn lemma_noncanonical_bindings_fatal(
    fname: Seq<char>,
    bindings: Seq<(usize, usize)>,
    inputs: Seq<ValueModel>,
    source: Seq<char>,
    sink: Seq<Seq<ValueModel>>,
)
    requires
        !bindings_canonical(bindings),
    ensures
        eval_outcome(fname, bindings, inputs, source) == OutcomeModel::Fatal(
            BindingError::InvariantViolation,
        ),
        sink_after(eval_outcome(fname, bindings, inputs, source), sink) == sink,
{
}

/// Law: two sequential invocations sharing one sink, the first rejected with
/// a type error and the second succeeding (by identity or by dispatch, whose
/// planning leaves the sink alone), leave exactly one diagnostic row more in
/// the sink — the failing call's, at the end — and the succeeding call's
/// result rows are untouched by the failure.
pub proof fn lemma_two_calls_one_error(
    fname1: Seq<char>,
    bindings1: Seq<(usize, usize)>,
    inputs1: Seq<ValueModel>,
    source1: Seq<char>,
    fname2: Seq<char>,
    bindings2: Seq<(usize, usize)>,
    inputs2: Seq<ValueModel>,
    source2: Seq<char>,
    sink: Seq<Seq<ValueModel>>,
)
    requires
        eval_outcome(fname1, bindings1, inputs1, source1) is Rejected,
        eval_outcome(fname2, bindings2, inputs2, source2) is Identity || eval_outcome(
            fname2,
            bindings2,
            inputs2,
            source2,
        ) is Dispatch,
    ensures
        ({
            let o1 = eval_outcome(fname1, bindings1, inputs1, source1);
            let o2 = eval_outcome(fname2, bindings2, inputs2, source2);
            let after = sink_after(o2, sink_after(o1, sink));
            &&& after == sink.push(o1->Rejected_0)
            &&& after.len() == sink.len() + 1
            &&& after.last() == o1->Rejected_0
        }),
{
}

} // verus!
