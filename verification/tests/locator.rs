use confidant::locator::{
    pick_preferred, resolve_bundle, resolve_python_and_script, resolve_system, BundleStep,
    Command, Probe, SystemProbe,
};

fn probe() -> Probe {
    Probe {
        venv_python: Some("/venv/bin/python3".to_string()),
        venv_runs: true,
        bundled: Some(("/res/python/bin/python3".to_string(), "/res/scripts/llama_helper.py".to_string())),
        dev_script: Ok("/src-tauri/scripts/llama_helper.py".to_string()),
        python3_runs: true,
        python_runs: true,
    }
}

fn command(python: &str, script: &str) -> Result<Command, String> {
    Ok(Command { python: python.to_string(), script: script.to_string() })
}

#[test]
fn running_venv_wins() {
    assert_eq!(
        resolve_python_and_script(&probe()),
        command("/venv/bin/python3", "/src-tauri/scripts/llama_helper.py")
    );
}

#[test]
fn running_venv_needs_the_dev_script() {
    let mut p = probe();
    p.dev_script = Err("Helper script not found at: \"/x\"".to_string());
    assert_eq!(resolve_python_and_script(&p), Err("Helper script not found at: \"/x\"".to_string()));
}

#[test]
fn bundled_comes_after_a_venv_that_does_not_run() {
    let mut p = probe();
    p.venv_runs = false;
    assert_eq!(
        resolve_python_and_script(&p),
        command("/res/python/bin/python3", "/res/scripts/llama_helper.py")
    );
    p.venv_python = None;
    p.venv_runs = true;
    p.dev_script = Err("missing".to_string());
    assert_eq!(
        resolve_python_and_script(&p),
        command("/res/python/bin/python3", "/res/scripts/llama_helper.py")
    );
}

#[test]
fn system_python_is_the_last_resort() {
    let mut p = probe();
    p.venv_python = None;
    p.bundled = None;
    assert_eq!(resolve_python_and_script(&p), command("python3", "/src-tauri/scripts/llama_helper.py"));
    p.python3_runs = false;
    assert_eq!(resolve_python_and_script(&p), command("python", "/src-tauri/scripts/llama_helper.py"));
    p.python_runs = false;
    assert_eq!(
        resolve_python_and_script(&p),
        Err("Python not found. Please install Python 3.".to_string())
    );
    p.dev_script = Err("no script".to_string());
    assert_eq!(resolve_python_and_script(&p), Err("no script".to_string()));
}

#[test]
fn project_root_is_preferred_among_candidates() {
    assert_eq!(pick_preferred(&Vec::new()), None);
    assert_eq!(pick_preferred(&vec![false]), Some(0));
    assert_eq!(pick_preferred(&vec![false, false, true, true]), Some(2));
    assert_eq!(pick_preferred(&vec![true, false]), Some(0));
    assert_eq!(pick_preferred(&vec![false, false]), Some(0));
}

fn system_probe() -> SystemProbe {
    SystemProbe {
        dev_script: Ok("/src-tauri/scripts/chromadb_helper.py".to_string()),
        venv_python: Some("/venv/bin/python3".to_string()),
        venv_runs: true,
        python3_runs: true,
        python_runs: true,
    }
}

#[test]
fn helper_with_a_bundle_runs_the_bundle_or_nothing() {
    let bundle = Some(("/res/python3".to_string(), "/res/scripts/chromadb_helper.py".to_string()));
    match resolve_bundle(bundle.clone(), true) {
        BundleStep::Chosen(chosen) => assert_eq!(
            Ok(chosen),
            command("/res/python3", "/res/scripts/chromadb_helper.py")
        ),
        other => panic!("not chosen: {:?}", other),
    }
    match resolve_bundle(bundle, false) {
        BundleStep::Broken(reason) => assert_eq!(reason, "Bundled Python or script not found."),
        other => panic!("not broken: {:?}", other),
    }
}

#[test]
fn helper_without_a_bundle_looks_at_the_system() {
    assert!(matches!(resolve_bundle(None, false), BundleStep::LookAtSystem));
    assert!(matches!(resolve_bundle(None, true), BundleStep::LookAtSystem));
}

#[test]
fn helper_without_a_bundle_prefers_the_venv() {
    let mut p = system_probe();
    let script = "/src-tauri/scripts/chromadb_helper.py";
    assert_eq!(resolve_system(&p), command("/venv/bin/python3", script));
    p.venv_runs = false;
    assert_eq!(resolve_system(&p), command("python3", script));
    p.venv_runs = true;
    p.venv_python = None;
    assert_eq!(resolve_system(&p), command("python3", script));
    p.python3_runs = false;
    assert_eq!(resolve_system(&p), command("python", script));
    p.python_runs = false;
    assert_eq!(resolve_system(&p), Err("Python not found. Please install Python 3.".to_string()));
    p.venv_python = Some("/venv/bin/python3".to_string());
    p.dev_script = Err("Helper script not found".to_string());
    assert_eq!(resolve_system(&p), Err("Helper script not found".to_string()));
}
