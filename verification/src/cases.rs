//! The runtime core of a case-driven descriptor's `describe_fn`: wrapping the
//! cases a case source produced, and the empty-source check.
//!
//! A case-driven test must produce at least one case: a source that yields
//! none is a hard failure of the run, never a silent zero-test outcome.

use vstd::prelude::*;

verus! {

/// One case as the case source hands it over.
pub struct CaseInput<T> {
    pub case: T,
    pub name: String,
    pub location: String,
}

/// A case wrapped for the harness's calling convention: run as a test, or as
/// a benchmark.
pub enum CaseRun<T> {
    TestCase(T),
    BenchCase(T),
}

/// One case as the harness receives it.
pub struct WrappedCase<T> {
    pub case: CaseRun<T>,
    pub name: String,
    pub location: String,
}

/// The failure of a case source that produced no cases.
#[derive(Clone, Copy, PartialEq, Eq, Structural, Debug)]
pub struct EmptyCases {
}

/// `w` is `inp` wrapped: the case value is carried into the run variant the
/// `bench` flag selects, and name and location are kept unchanged.
pub open spec fn wrapped_ok<T>(w: WrappedCase<T>, inp: CaseInput<T>, bench: bool) -> bool {
    &&& w.name == inp.name
    &&& w.location == inp.location
    &&& w.case == if bench {
        CaseRun::BenchCase(inp.case)
    } else {
        CaseRun::TestCase(inp.case)
    }
}

/// Wraps every produced case for the harness, in order, preserving names and
/// locations; fails if, and only if, the source produced no cases.
pub fn wrap_cases<T>(inputs: Vec<CaseInput<T>>, bench: bool) -> (r: Result<
    Vec<WrappedCase<T>>,
    EmptyCases,
>)
    ensures
        r is Err <==> inputs@.len() == 0,
        match r {
            Result::Ok(v) => v@.len() == inputs@.len() && forall|j: int|
                0 <= j < v@.len() ==> wrapped_ok(v@[j], inputs@[j], bench),
            Result::Err(_) => true,
        },
{
    if inputs.len() == 0 {
        return Err(EmptyCases {  });
    }
    let ghost orig = inputs@;
    let mut inputs = inputs;
    let mut out: Vec<WrappedCase<T>> = Vec::new();
    while inputs.len() > 0
        invariant
            out@.len() + inputs@.len() == orig.len(),
            inputs@ == orig.skip(out@.len() as int),
            forall|j: int| 0 <= j < out@.len() ==> wrapped_ok(#[trigger] out@[j], orig[j], bench),
        decreases inputs@.len(),
    {
        let ghost done = out@.len() as int;
        let x = inputs.remove(0);
        proof {
            assert(x == orig[done]);
            assert(inputs@ =~= orig.skip(done + 1));
        }
        let case = if bench {
            CaseRun::BenchCase(x.case)
        } else {
            CaseRun::TestCase(x.case)
        };
        out.push(WrappedCase { case, name: x.name, location: x.location });
    }
    proof {
        assert(out@.len() == orig.len());
    }
    Ok(out)
}

} // verus!
