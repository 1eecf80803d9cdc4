//! The benchmark commands of the command line tool: which benchmark runs
//! with which settings.
use vstd::prelude::*;

verus! {

/// The benchmark commands: run one benchmark, list them all, or run them
/// all.
#[derive(Debug, Clone)]
pub enum BenchTarget {
    /// Run one benchmark of the Rust core.
    Core {
        /// The benchmark's name in the configuration files.
        name: String,
        /// The input source of the benchmark.
        input_source: Option<String>,
        /// Additional configuration.
        config: Option<String>,
        /// How many times to run the benchmark.
        run_count: u8,
        /// The sample size of criterion benchmarks.
        sample_size: Option<usize>,
    },
    /// List the benchmarks of the configuration files.
    List,
    /// Run all benchmarks; those marked `ci_ignore` only when `ci_ignore`.
    RunAll { ci_ignore: bool },
}

/// A benchmark as the configuration files describe it.
pub struct BenchConfig {
    pub name: String,
    pub ci_ignore: Option<bool>,
    pub default_input: Option<String>,
    pub default_sample_size: Option<usize>,
}

/// One run of a benchmark with its settings.
pub struct BenchRun {
    pub name: String,
    pub input_source: Option<String>,
    pub config: Option<String>,
    pub run_count: u8,
    pub sample_size: Option<usize>,
}

/// What a benchmark command does.
pub enum BenchAction {
    /// Run these benchmarks, in order.
    Run(Vec<BenchRun>),
    /// List the configured benchmarks.
    List,
    /// Run the configured benchmarks, `ci_ignore` ones too when asked.
    RunAll { ci_ignore: bool },
}

/// An optional text as an optional character sequence.
pub open spec fn opt_view(o: Option<String>) -> Option<Seq<char>> {
    match o {
        Some(s) => Some(s@),
        None => None,
    }
}

fn clone_opt(o: &Option<String>) -> (r: Option<String>)
    ensures
        opt_view(r) == opt_view(*o),
{
    match o {
        Some(s) => Some(s.clone()),
        None => None,
    }
}

impl BenchTarget {
    /// What the command does.
    pub fn into_action(self) -> (a: BenchAction)
        ensures
            match self {
                BenchTarget::Core { name, input_source, config, run_count, sample_size } => a matches BenchAction::Run(runs) && runs@.len() == 1 && runs@[0].name == name
                    && runs@[0].input_source == input_source && runs@[0].config == config
                    && runs@[0].run_count == run_count && runs@[0].sample_size == sample_size,
                BenchTarget::List => a is List,
                BenchTarget::RunAll { ci_ignore } => a == (BenchAction::RunAll { ci_ignore }),
            },
    {
        match self {
            BenchTarget::Core { name, input_source, config, run_count, sample_size } => {
                let mut runs: Vec<BenchRun> = Vec::new();
                runs.push(BenchRun { name, input_source, config, run_count, sample_size });
                BenchAction::Run(runs)
            },
            BenchTarget::List => BenchAction::List,
            BenchTarget::RunAll { ci_ignore } => BenchAction::RunAll { ci_ignore },
        }
    }
}

/// Whether `run-all` runs the benchmark: always when `ci_ignore` is asked
/// for, else unless the benchmark is marked `ci_ignore = true`.
pub open spec fn is_selected(b: BenchConfig, ci_ignore: bool) -> bool {
    ci_ignore || b.ci_ignore != Some(true)
}

/// The benchmarks that `run-all` runs, in order.
pub open spec fn selected(benches: Seq<BenchConfig>, ci_ignore: bool) -> Seq<BenchConfig>
    decreases benches.len(),
{
    if benches.len() == 0 {
        Seq::<BenchConfig>::empty()
    } else {
        let r = selected(benches.drop_last(), ci_ignore);
        if is_selected(benches.last(), ci_ignore) {
            r.push(benches.last())
        } else {
            r
        }
    }
}

/// Whether `run` is how `run-all` runs `b`: with its default input and
/// sample size, no additional configuration, once.
pub open spec fn runs_default(run: BenchRun, b: BenchConfig) -> bool {
    &&& run.name@ == b.name@
    &&& opt_view(run.input_source) == opt_view(b.default_input)
    &&& run.config is None
    &&& run.run_count == 1
    &&& run.sample_size == b.default_sample_size
}

/// The runs of `run-all` over the configured benchmarks.
pub fn runs_for_all(benches: &[BenchConfig], ci_ignore: bool) -> (runs: Vec<BenchRun>)
    ensures
        runs@.len() == selected(benches@, ci_ignore).len(),
        forall|i: int|
            0 <= i < runs@.len() ==> runs_default(#[trigger] runs@[i], selected(benches@, ci_ignore)[i]),
{
    let mut runs: Vec<BenchRun> = Vec::new();
    let mut k: usize = 0;
    while k < benches.len()
        invariant
            k <= benches@.len(),
            runs@.len() == selected(benches@.take(k as int), ci_ignore).len(),
            forall|i: int|
                0 <= i < runs@.len() ==> runs_default(
                    #[trigger] runs@[i],
                    selected(benches@.take(k as int), ci_ignore)[i],
                ),
        decreases benches.len() - k,
    {
        assert(benches@.take(k + 1).drop_last() =~= benches@.take(k as int));
        let b = &benches[k];
        let skip = match b.ci_ignore {
            Some(v) => v,
            None => false,
        };
        if ci_ignore || !skip {
            runs.push(
                BenchRun {
                    name: b.name.clone(),
                    input_source: clone_opt(&b.default_input),
                    config: None,
                    run_count: 1,
                    sample_size: b.default_sample_size,
                },
            );
        }
        k = k + 1;
    }
    assert(benches@.take(benches@.len() as int) =~= benches@);
    runs
}

/// `run-all` with `ci_ignore` runs every configured benchmark, in order.
pub proof fn law_ci_ignore_runs_all(benches: Seq<BenchConfig>)
    ensures
        selected(benches, true) == benches,
    decreases benches.len(),
{
    if benches.len() > 0 {
        law_ci_ignore_runs_all(benches.drop_last());
        assert(benches.drop_last().push(benches.last()) =~= benches);
    }
}

/// Without `ci_ignore`, `run-all` runs exactly the benchmarks that are not
/// marked `ci_ignore = true`, in order.
pub proof fn law_run_all_skips_marked(benches: Seq<BenchConfig>)
    ensures
        forall|i: int| 0 <= i < selected(benches, false).len() ==> (#[trigger] selected(benches, false)[i]).ci_ignore != Some(true),
        selected(benches, false).len() == benches.len() - marked_count(benches),
    decreases benches.len(),
{
    if benches.len() > 0 {
        law_run_all_skips_marked(benches.drop_last());
    }
}

/// The number of benchmarks marked `ci_ignore = true`.
pub open spec fn marked_count(benches: Seq<BenchConfig>) -> int
    decreases benches.len(),
{
    if benches.len() == 0 {
        0
    } else {
        marked_count(benches.drop_last()) + if benches.last().ci_ignore == Some(true) {
            1int
        } else {
            0int
        }
    }
}

} // verus!
