//! How a side worker is started.

use crate::exe_name;
use vstd::prelude::*;

verus! {

pub const SIDE_TRANSFER_WORKER_BIN_ENV: &'static str = "FLUXON_KV_SIDE_WORKER_BIN";

pub const SIDE_TRANSFER_WORKER_PYTHON_ENV: &'static str = "FLUXON_KV_SIDE_WORKER_PYTHON";

/// Where the program comes from that a side worker runs.
#[derive(Debug, Clone, Copy, PartialEq, Eq, Structural)]
pub enum LauncherProgram {
    /// `SIDE_TRANSFER_WORKER_BIN_ENV` names it.
    BinEnv,
    /// `SIDE_TRANSFER_WORKER_PYTHON_ENV` names it.
    PythonEnv,
    CurrentExe,
}

/// What a side worker runs.
#[derive(Debug, Clone, Copy, PartialEq, Eq, Structural)]
pub enum SideTransferWorkerLauncher {
    FluxonKvBinary { program: LauncherProgram },
    PythonFluxonPy { program: LauncherProgram },
}

/// The launcher that is chosen, if any.
pub open spec fn chosen_launcher(bin_env: bool, python_env: bool, current_exe: Seq<char>) -> Option<
    SideTransferWorkerLauncher,
> {
    if bin_env {
        Some(SideTransferWorkerLauncher::FluxonKvBinary { program: LauncherProgram::BinEnv })
    } else if python_env {
        Some(SideTransferWorkerLauncher::PythonFluxonPy { program: LauncherProgram::PythonEnv })
    } else if exe_name::is_fluxon_kv(current_exe) {
        Some(SideTransferWorkerLauncher::FluxonKvBinary { program: LauncherProgram::CurrentExe })
    } else if exe_name::is_python(current_exe) {
        Some(SideTransferWorkerLauncher::PythonFluxonPy { program: LauncherProgram::CurrentExe })
    } else {
        None
    }
}

/// The environment decides what a side worker runs, and else the name of the running program.
/// `bin_env` and `python_env` tell whether the two variables are set.
pub fn resolve_side_transfer_worker_launcher(
    bin_env: bool,
    python_env: bool,
    current_exe: &str,
) -> (launcher: Result<SideTransferWorkerLauncher, String>)
    ensures
        match chosen_launcher(bin_env, python_env, current_exe@) {
            Some(chosen) => launcher == Ok::<SideTransferWorkerLauncher, String>(chosen),
            None => launcher matches Err(message) && message@
                == "Unable to resolve side-transfer worker launcher from current executable '"@
                + current_exe@ + "'; set "@ + SIDE_TRANSFER_WORKER_BIN_ENV@ + " or "@
                + SIDE_TRANSFER_WORKER_PYTHON_ENV@ + " explicitly"@,
        },
{
    if bin_env {
        return Ok(
            SideTransferWorkerLauncher::FluxonKvBinary { program: LauncherProgram::BinEnv },
        );
    }
    if python_env {
        return Ok(
            SideTransferWorkerLauncher::PythonFluxonPy { program: LauncherProgram::PythonEnv },
        );
    }
    if exe_name::current_exe_looks_like_fluxon_kv(current_exe) {
        return Ok(
            SideTransferWorkerLauncher::FluxonKvBinary { program: LauncherProgram::CurrentExe },
        );
    }
    if exe_name::current_exe_looks_like_python(current_exe) {
        return Ok(
            SideTransferWorkerLauncher::PythonFluxonPy { program: LauncherProgram::CurrentExe },
        );
    }
    let message =
        "Unable to resolve side-transfer worker launcher from current executable '".to_owned().concat(
    current_exe).concat("'; set ").concat(SIDE_TRANSFER_WORKER_BIN_ENV).concat(" or ").concat(
        SIDE_TRANSFER_WORKER_PYTHON_ENV,
    ).concat(" explicitly");
    Err(message)
}

/// The arguments before the path of the configuration.
pub open spec fn leading_args(launcher: SideTransferWorkerLauncher) -> Seq<Seq<char>> {
    match launcher {
        SideTransferWorkerLauncher::FluxonKvBinary { .. } => seq!["client"@, "-f"@],
        SideTransferWorkerLauncher::PythonFluxonPy { .. } => seq![
            "-m"@,
            "fluxon_py"@,
            "--server"@,
            "--config"@,
        ],
    }
}

impl SideTransferWorkerLauncher {
    /// The arguments that a side worker is started with; the path of its configuration follows.
    pub fn args(&self) -> (args: Vec<&'static str>)
        ensures
            args@.len() == leading_args(*self).len(),
            forall|i: int| 0 <= i < args@.len() ==> (#[trigger] args@[i])@ == leading_args(
                *self,
            )[i],
    {
        match self {
            SideTransferWorkerLauncher::FluxonKvBinary { .. } => vec!["client", "-f"],
            SideTransferWorkerLauncher::PythonFluxonPy { .. } => vec![
                "-m",
                "fluxon_py",
                "--server",
                "--config",
            ],
        }
    }

    /// A Python worker runs in the directory above the current one, where the current one holds
    /// `fluxon_pyo3` and would hide the module of that name, and the one above holds `fluxon_py`.
    pub fn runs_in_parent_dir(&self, has_fluxon_pyo3: bool, parent_has_fluxon_py: Option<bool>) -> (parent:
        bool)
        ensures
            parent == (self is PythonFluxonPy && has_fluxon_pyo3 && parent_has_fluxon_py == Some(
                true,
            )),
    {
        match self {
            SideTransferWorkerLauncher::FluxonKvBinary { .. } => false,
            SideTransferWorkerLauncher::PythonFluxonPy { .. } => has_fluxon_pyo3
                && match parent_has_fluxon_py {
                Some(has) => has,
                None => false,
            },
        }
    }
}

} // verus!
