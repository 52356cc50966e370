//! Which interpreter and which helper script to run.
//!
//! The caller looks around: for a virtual environment, for an interpreter
//! bundled with the application, for an interpreter on the search path. This
//! module decides between what was found.

use vstd::prelude::*;

verus! {

/// What was found on the machine.
#[derive(Debug)]
pub struct Probe {
    /// The interpreter of a virtual environment, if there is one.
    pub venv_python: Option<String>,
    /// Whether that interpreter starts.
    pub venv_runs: bool,
    /// The bundled interpreter and its copy of the script, when both exist.
    pub bundled: Option<(String, String)>,
    /// The script beside the executable, or why it was not found.
    pub dev_script: Result<String, String>,
    /// Whether `python3` starts.
    pub python3_runs: bool,
    /// Whether `python` starts.
    pub python_runs: bool,
}

/// The interpreter and the script to run.
#[derive(Debug, Clone, PartialEq, Eq)]
pub struct Command {
    pub python: String,
    pub script: String,
}

pub struct CommandView {
    pub python: Seq<char>,
    pub script: Seq<char>,
}

impl View for Command {
    type V = CommandView;

    open spec fn view(&self) -> CommandView {
        CommandView { python: self.python@, script: self.script@ }
    }
}

pub struct ProbeView {
    pub venv_python: Option<Seq<char>>,
    pub venv_runs: bool,
    pub bundled: Option<(Seq<char>, Seq<char>)>,
    pub dev_script: Result<Seq<char>, Seq<char>>,
    pub python3_runs: bool,
    pub python_runs: bool,
}

impl View for Probe {
    type V = ProbeView;

    open spec fn view(&self) -> ProbeView {
        ProbeView {
            venv_python: match self.venv_python {
                Some(p) => Some(p@),
                None => None,
            },
            venv_runs: self.venv_runs,
            bundled: match self.bundled {
                Some((python, script)) => Some((python@, script@)),
                None => None,
            },
            dev_script: match self.dev_script {
                Ok(script) => Ok(script@),
                Err(reason) => Err(reason@),
            },
            python3_runs: self.python3_runs,
            python_runs: self.python_runs,
        }
    }
}

/// The choice among what was found.
///
/// A virtual environment whose interpreter starts is preferred, with the
/// script beside the executable. Next comes the bundled interpreter with its
/// own script. Last comes an interpreter on the search path, `python3` before
/// `python`, again with the script beside the executable. A missing script is
/// reported before a missing interpreter.
pub open spec fn choice(probe: ProbeView) -> Result<CommandView, Seq<char>> {
    if probe.venv_python is Some && probe.venv_runs {
        match probe.dev_script {
            Ok(script) => Ok(CommandView { python: probe.venv_python.unwrap(), script }),
            Err(reason) => Err(reason),
        }
    } else if let Some((python, script)) = probe.bundled {
        Ok(CommandView { python, script })
    } else {
        match probe.dev_script {
            Err(reason) => Err(reason),
            Ok(script) => if probe.python3_runs {
                Ok(CommandView { python: "python3"@, script })
            } else if probe.python_runs {
                Ok(CommandView { python: "python"@, script })
            } else {
                Err("Python not found. Please install Python 3."@)
            },
        }
    }
}

pub open spec fn choice_view(c: Result<Command, String>) -> Result<CommandView, Seq<char>> {
    match c {
        Ok(command) => Ok(command@),
        Err(reason) => Err(reason@),
    }
}

/// Chooses the interpreter and the script to run.
pub fn resolve_python_and_script(probe: &Probe) -> (chosen: Result<Command, String>)
    ensures
        choice_view(chosen) == choice(probe@),
{
    if let Some(python) = &probe.venv_python {
        if probe.venv_runs {
            return match &probe.dev_script {
                Ok(script) => Ok(Command { python: python.clone(), script: script.clone() }),
                Err(reason) => Err(reason.clone()),
            };
        }
    }
    if let Some((python, script)) = &probe.bundled {
        return Ok(Command { python: python.clone(), script: script.clone() });
    }
    match &probe.dev_script {
        Err(reason) => Err(reason.clone()),
        Ok(script) => {
            if probe.python3_runs {
                Ok(Command { python: String::from_str("python3"), script: script.clone() })
            } else if probe.python_runs {
                Ok(Command { python: String::from_str("python"), script: script.clone() })
            } else {
                Err(String::from_str("Python not found. Please install Python 3."))
            }
        },
    }
}

/// What looking at the bundle settles for a helper that runs from the bundle
/// whenever the application has one: the vector store and the embeddings.
#[derive(Debug)]
pub enum BundleStep {
    /// Run this.
    Chosen(Command),
    /// The application has a bundle and a file of it is missing: give up.
    Broken(String),
    /// The application has no bundle: look at the system next.
    LookAtSystem,
}

pub enum BundleStepView {
    Chosen(CommandView),
    Broken(Seq<char>),
    LookAtSystem,
}

impl View for BundleStep {
    type V = BundleStepView;

    open spec fn view(&self) -> BundleStepView {
        match self {
            BundleStep::Chosen(command) => BundleStepView::Chosen(command@),
            BundleStep::Broken(reason) => BundleStepView::Broken(reason@),
            BundleStep::LookAtSystem => BundleStepView::LookAtSystem,
        }
    }
}

/// What looking at the bundle settles: an application with a bundle runs the
/// bundle or nothing, and only one without looks further.
pub open spec fn bundle_step(bundled: Option<(Seq<char>, Seq<char>)>, both_exist: bool)
    -> BundleStepView {
    match bundled {
        Some((python, script)) => if both_exist {
            BundleStepView::Chosen(CommandView { python, script })
        } else {
            BundleStepView::Broken("Bundled Python or script not found."@)
        },
        None => BundleStepView::LookAtSystem,
    }
}

/// What looking at the bundle settles. `bundled` is the interpreter of the
/// bundle and its copy of the script, `both_exist` whether both files are
/// there.
pub fn resolve_bundle(bundled: Option<(String, String)>, both_exist: bool) -> (step: BundleStep)
    ensures
        step@ == bundle_step(
            match bundled {
                Some((python, script)) => Some((python@, script@)),
                None => None,
            },
            both_exist,
        ),
{
    match bundled {
        Some((python, script)) => {
            if both_exist {
                BundleStep::Chosen(Command { python, script })
            } else {
                BundleStep::Broken(String::from_str("Bundled Python or script not found."))
            }
        },
        None => BundleStep::LookAtSystem,
    }
}

/// What was found on a machine without a bundle.
#[derive(Debug)]
pub struct SystemProbe {
    /// The script beside the executable, or why it was not found.
    pub dev_script: Result<String, String>,
    /// The interpreter of a virtual environment, if there is one.
    pub venv_python: Option<String>,
    /// Whether that interpreter starts.
    pub venv_runs: bool,
    /// Whether `python3` starts.
    pub python3_runs: bool,
    /// Whether `python` starts.
    pub python_runs: bool,
}

pub struct SystemProbeView {
    pub dev_script: Result<Seq<char>, Seq<char>>,
    pub venv_python: Option<Seq<char>>,
    pub venv_runs: bool,
    pub python3_runs: bool,
    pub python_runs: bool,
}

impl View for SystemProbe {
    type V = SystemProbeView;

    open spec fn view(&self) -> SystemProbeView {
        SystemProbeView {
            dev_script: match self.dev_script {
                Ok(script) => Ok(script@),
                Err(reason) => Err(reason@),
            },
            venv_python: match self.venv_python {
                Some(p) => Some(p@),
                None => None,
            },
            venv_runs: self.venv_runs,
            python3_runs: self.python3_runs,
            python_runs: self.python_runs,
        }
    }
}

/// The choice on a machine without a bundle: the script beside the
/// executable, run by the interpreter of a virtual environment if it starts,
/// else by `python3`, else by `python`. A missing script is reported before
/// a missing interpreter.
pub open spec fn system_choice(probe: SystemProbeView) -> Result<CommandView, Seq<char>> {
    match probe.dev_script {
        Err(reason) => Err(reason),
        Ok(script) => if probe.venv_python is Some && probe.venv_runs {
            Ok(CommandView { python: probe.venv_python.unwrap(), script })
        } else if probe.python3_runs {
            Ok(CommandView { python: "python3"@, script })
        } else if probe.python_runs {
            Ok(CommandView { python: "python"@, script })
        } else {
            Err("Python not found. Please install Python 3."@)
        },
    }
}

/// Chooses the interpreter and the script on a machine without a bundle.
pub fn resolve_system(probe: &SystemProbe) -> (chosen: Result<Command, String>)
    ensures
        choice_view(chosen) == system_choice(probe@),
{
    let script = match &probe.dev_script {
        Ok(script) => script.clone(),
        Err(reason) => {
            return Err(reason.clone());
        },
    };
    if let Some(python) = &probe.venv_python {
        if probe.venv_runs {
            return Ok(Command { python: python.clone(), script });
        }
    }
    if probe.python3_runs {
        Ok(Command { python: String::from_str("python3"), script })
    } else if probe.python_runs {
        Ok(Command { python: String::from_str("python"), script })
    } else {
        Err(String::from_str("Python not found. Please install Python 3."))
    }
}

/// Index of the directory to take among candidates, of which `is_root` says
/// which look like the project root: the first that does, else the first of
/// all.
pub fn pick_preferred(is_root: &Vec<bool>) -> (picked: Option<usize>)
    ensures
        match picked {
            Some(i) => {
                &&& i < is_root.len()
                &&& is_root[i as int] ==> forall|j: int| 0 <= j < i ==> !is_root[j]
                &&& !is_root[i as int] ==> i == 0 && forall|j: int|
                    0 <= j < is_root.len() ==> !is_root[j]
            },
            None => is_root.len() == 0,
        },
{
    let mut i: usize = 0;
    while i < is_root.len()
        invariant
            i <= is_root.len(),
            forall|j: int| 0 <= j < i ==> !is_root[j],
        decreases is_root.len() - i,
    {
        if is_root[i] {
            return Some(i);
        }
        i += 1;
    }
    if is_root.len() > 0 {
        Some(0)
    } else {
        None
    }
}

} // verus!
