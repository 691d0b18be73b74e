use mirin::manifest::descriptor_of;
use mirin::manifest::ModuleDescriptor;
use mirin::orchestrate::manual_cycle;
use mirin::orchestrate::modules_distinct;
use mirin::orchestrate::watch_cycle;
use mirin::orchestrate::BuildAction;
use mirin::orchestrate::BuildEvent;
use mirin::orchestrate::BuildJob;
use mirin::orchestrate::CycleDecision;
use mirin::orchestrate::Update;
use mirin::store::decimal_string;
use mirin::store::Store;

fn workspace() -> Vec<ModuleDescriptor> {
    let foo = descriptor_of(&"beacon_dao-foo".to_string(), "[dependencies]\n").unwrap();
    let bar = descriptor_of(
        &"beacon_dao-bar".to_string(),
        "[dependencies]\nbeacon_dao-foo = { path = \"../beacon_dao-foo\" }\n",
    )
    .unwrap();
    vec![foo, bar]
}

/// Drives a cycle as the watch loop would, answering every compile step with
/// success and handing back fixed artifact bytes, and counts the module
/// compile invocations.
fn run_to_completion(mut job: BuildJob, compiled: &mut Vec<String>) -> Option<Update> {
    while job.running() {
        let event = match job.action() {
            BuildAction::CompileModule(dir) => {
                compiled.push(dir);
                BuildEvent::Succeeded
            }
            BuildAction::CompileScheduler => BuildEvent::Succeeded,
            BuildAction::ReadArtifacts => {
                BuildEvent::Artifacts(b"wasm-bytes".to_vec(), b"loader-js".to_vec())
            }
            BuildAction::Finished => break,
        };
        job = job.step(event);
    }
    job.finish()
}

#[test]
fn first_successful_build_publishes_nonce_one() {
    let mut store = Store::new();
    assert!(store.module().is_none());
    assert!(store.loader().is_none());
    assert_eq!(store.checksum(), "0");

    let modules = workspace();
    assert!(modules_distinct(&modules));
    let job = manual_cycle(modules, store.nonce());
    let mut compiled = Vec::new();
    let built = run_to_completion(job, &mut compiled).expect("all steps succeeded");
    assert_eq!(built.nonce, 1);
    assert_eq!(
        compiled,
        vec!["beacon_dao-foo".to_string(), "beacon_dao-bar".to_string()]
    );
    store.publish(built);
    assert_eq!(store.checksum(), "1");
    assert_eq!(store.module().unwrap(), b"wasm-bytes".to_vec());
    assert_eq!(store.loader().unwrap(), b"loader-js".to_vec());
}

#[test]
fn nonce_increases_by_one_per_successful_build() {
    let mut store = Store::new();
    for expected in 1..=3usize {
        let job = manual_cycle(workspace(), store.nonce());
        let mut compiled = Vec::new();
        let built = run_to_completion(job, &mut compiled).unwrap();
        assert_eq!(built.nonce, expected);
        store.publish(built);
        assert_eq!(store.checksum(), expected.to_string());
    }
}

#[test]
fn failed_scheduler_step_preserves_previous_snapshot() {
    let mut store = Store::new();
    let first = run_to_completion(manual_cycle(workspace(), store.nonce()), &mut Vec::new())
        .unwrap();
    store.publish(first);
    assert_eq!(store.checksum(), "1");

    // Second cycle: modules compile, but the scheduler artifact is missing.
    let mut job = manual_cycle(workspace(), store.nonce());
    loop {
        match job.action() {
            BuildAction::CompileModule(_) => job = job.step(BuildEvent::Succeeded),
            BuildAction::CompileScheduler => job = job.step(BuildEvent::Succeeded),
            BuildAction::ReadArtifacts => {
                job = job.step(BuildEvent::Failed);
            }
            BuildAction::Finished => break,
        }
    }
    let outcome = job.finish();
    assert!(outcome.is_none());
    store.apply(outcome);

    // No publish happened, so every read projection still answers the first
    // build.
    assert_eq!(store.checksum(), "1");
    assert_eq!(store.module().unwrap(), b"wasm-bytes".to_vec());
    assert_eq!(store.loader().unwrap(), b"loader-js".to_vec());
}

#[test]
fn failed_module_compile_aborts_before_the_scheduler() {
    let job = manual_cycle(workspace(), 0);
    let job = match job.action() {
        BuildAction::CompileModule(_) => job.step(BuildEvent::Failed),
        _ => panic!("first action must compile a module"),
    };
    assert!(!job.running());
    assert!(job.finish().is_none());
}

#[test]
fn one_changed_module_compiles_itself_and_its_dependent() {
    let seed = vec!["foo".to_string()];
    match watch_cycle(&seed, workspace(), 0) {
        CycleDecision::Run(job) => {
            let mut compiled = Vec::new();
            let built = run_to_completion(job, &mut compiled).unwrap();
            compiled.sort();
            assert_eq!(
                compiled,
                vec!["beacon_dao-bar".to_string(), "beacon_dao-foo".to_string()]
            );
            assert_eq!(built.nonce, 1);
        }
        CycleDecision::Skip => panic!("a known module changed; the cycle must run"),
    }
}

#[test]
fn one_module_compiles_exactly_once_per_cycle() {
    // Two paths of one module classify to one seed entry, and the module
    // compiles once.
    let seed = vec!["bar".to_string()];
    match watch_cycle(&seed, workspace(), 0) {
        CycleDecision::Run(job) => {
            let mut compiled = Vec::new();
            run_to_completion(job, &mut compiled).unwrap();
            assert_eq!(compiled, vec!["beacon_dao-bar".to_string()]);
        }
        CycleDecision::Skip => panic!("a known module changed; the cycle must run"),
    }
}

#[test]
fn empty_seed_skips_the_watch_cycle() {
    let seed: Vec<String> = Vec::new();
    assert!(matches!(watch_cycle(&seed, workspace(), 0), CycleDecision::Skip));
}

#[test]
fn seed_of_unknown_module_skips_the_watch_cycle() {
    let seed = vec!["zzz".to_string()];
    assert!(matches!(watch_cycle(&seed, workspace(), 0), CycleDecision::Skip));
}

#[test]
fn manual_cycle_over_empty_workspace_still_builds_the_scheduler() {
    let job = manual_cycle(Vec::new(), 0);
    assert!(matches!(job.action(), BuildAction::CompileScheduler));
    let built = run_to_completion(job, &mut Vec::new()).unwrap();
    assert_eq!(built.nonce, 1);
}

#[test]
fn decimal_rendering_is_exact() {
    assert_eq!(decimal_string(0), "0");
    assert_eq!(decimal_string(7), "7");
    assert_eq!(decimal_string(10), "10");
    assert_eq!(decimal_string(12345), "12345");
    assert_eq!(decimal_string(1000), "1000");
}

#[test]
fn nonce_advances_even_near_the_counter_limit() {
    let job = manual_cycle(workspace(), usize::MAX - 1);
    let built = run_to_completion(job, &mut Vec::new()).unwrap();
    assert_eq!(built.nonce, usize::MAX);
}

#[test]
fn decimal_rendering_of_the_largest_counter_value() {
    assert_eq!(decimal_string(usize::MAX), usize::MAX.to_string());
}

#[test]
fn current_snapshot_is_absent_until_a_publish() {
    let mut store = Store::new();
    assert!(store.current().is_none());
    store.publish(Update {
        module: vec![1, 2],
        loader: vec![3],
        nonce: 1,
    });
    let current = store.current().as_ref().unwrap();
    assert_eq!(current.module, vec![1, 2]);
    assert_eq!(current.loader, vec![3]);
    assert_eq!(current.nonce, 1);
}

#[test]
fn duplicate_module_identifiers_are_detected() {
    let a = descriptor_of(&"beacon_dao-foo".to_string(), "").unwrap();
    let b = descriptor_of(&"beacon_dao-x-foo".to_string(), "").unwrap();
    let distinct = descriptor_of(&"beacon_dao-bar".to_string(), "").unwrap();
    assert!(modules_distinct(&vec![a.clone(), distinct]));
    assert!(!modules_distinct(&vec![a, b]));
}
