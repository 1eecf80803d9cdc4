use chipmunk_tools::bench::{runs_for_all, BenchAction, BenchConfig, BenchTarget};

fn config(name: &str, ci_ignore: Option<bool>, input: Option<&str>, sample: Option<usize>) -> BenchConfig {
    BenchConfig {
        name: name.to_string(),
        ci_ignore,
        default_input: input.map(|s| s.to_string()),
        default_sample_size: sample,
    }
}

#[test]
fn core_target_runs_one_benchmark() {
    let target = BenchTarget::Core {
        name: "dlt".to_string(),
        input_source: Some("in.dlt".to_string()),
        config: None,
        run_count: 3,
        sample_size: Some(10),
    };
    match target.into_action() {
        BenchAction::Run(runs) => {
            assert_eq!(runs.len(), 1);
            assert_eq!(runs[0].name, "dlt");
            assert_eq!(runs[0].input_source, Some("in.dlt".to_string()));
            assert_eq!(runs[0].run_count, 3);
            assert_eq!(runs[0].sample_size, Some(10));
        }
        _ => panic!("expected runs"),
    }
    assert!(matches!(BenchTarget::List.into_action(), BenchAction::List));
    assert!(matches!(
        BenchTarget::RunAll { ci_ignore: true }.into_action(),
        BenchAction::RunAll { ci_ignore: true }
    ));
}

#[test]
fn run_all_skips_ci_ignored() {
    let benches = vec![
        config("a", None, Some("a.in"), None),
        config("b", Some(true), None, Some(5)),
        config("c", Some(false), None, Some(7)),
    ];
    let runs = runs_for_all(&benches, false);
    assert_eq!(runs.iter().map(|r| r.name.clone()).collect::<Vec<_>>(), vec!["a", "c"]);
    assert_eq!(runs[0].input_source, Some("a.in".to_string()));
    assert_eq!(runs[0].config, None);
    assert_eq!(runs[0].run_count, 1);
    assert_eq!(runs[1].sample_size, Some(7));
}

#[test]
fn run_all_with_ci_ignore_runs_everything() {
    let benches = vec![config("a", None, None, None), config("b", Some(true), None, Some(5))];
    let runs = runs_for_all(&benches, true);
    assert_eq!(runs.iter().map(|r| r.name.clone()).collect::<Vec<_>>(), vec!["a", "b"]);
    assert_eq!(runs[1].sample_size, Some(5));
}
