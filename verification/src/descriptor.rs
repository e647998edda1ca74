//! The generated-time descriptor values: what the external harness reads to
//! reconstruct, without re-parsing the annotation, which file triggers a test
//! and which related files its other arguments come from.

use vstd::prelude::*;
use crate::matcher::ArgumentPlan;
use crate::rules::opt_view;
use crate::sig::FuncInfo;
use crate::text::strs_view;

verus! {

/// The descriptor of one file-driven test. `params` holds the Pattern and
/// Template expression strings in declared parameter order; `pattern` is the
/// index of the Pattern expression within `params`.
pub struct FilesTestDesc {
    pub name: String,
    pub ignore: bool,
    pub root: String,
    pub params: Vec<String>,
    pub pattern: usize,
    pub ignore_fn: Option<String>,
    pub is_bench: bool,
}

/// The descriptor of one case-driven test.
pub struct DataTestDesc {
    pub name: String,
    pub ignore: bool,
    pub is_bench: bool,
}

/// Builds the file-driven descriptor from a validated argument plan: its
/// `params` are the plan's bound expressions, one per non-benchmark
/// parameter, in declared parameter order — not in the order the annotation
/// wrote the rules — and `pattern` is the plan's Pattern position.
pub fn build_files_desc(name: &String, info: &FuncInfo, root: &String, plan: &ArgumentPlan) -> (d:
    FilesTestDesc)
    ensures
        d.name@ == name@,
        d.ignore == info.ignore,
        d.is_bench == info.bench,
        d.root@ == root@,
        strs_view(d.params@).len() == plan.entries@.len(),
        forall|j: int|
            0 <= j < plan.entries@.len() ==> strs_view(d.params@)[j] == (
            #[trigger] plan.entries@[j]).expr@,
        d.pattern == plan.pattern_index,
        opt_view(d.ignore_fn) == opt_view(plan.ignore_pred),
{
    let mut params: Vec<String> = Vec::new();
    let mut i: usize = 0;
    while i < plan.entries.len()
        invariant
            i <= plan.entries@.len(),
            strs_view(params@).len() == i,
            forall|j: int|
                0 <= j < i ==> strs_view(params@)[j] == (#[trigger] plan.entries@[j]).expr@,
        decreases plan.entries@.len() - i,
    {
        params.push(plan.entries[i].expr.clone());
        i += 1;
    }
    let ignore_fn = match &plan.ignore_pred {
        Some(p) => Some(p.clone()),
        None => None,
    };
    FilesTestDesc {
        name: name.clone(),
        ignore: info.ignore,
        root: root.clone(),
        params,
        pattern: plan.pattern_index,
        ignore_fn,
        is_bench: info.bench,
    }
}

/// Builds the case-driven descriptor.
pub fn build_data_desc(name: &String, info: &FuncInfo) -> (d: DataTestDesc)
    ensures
        d.name@ == name@,
        d.ignore == info.ignore,
        d.is_bench == info.bench,
{
    DataTestDesc { name: name.clone(), ignore: info.ignore, is_bench: info.bench }
}

} // verus!
