//! Settings of the sandboxes.

use crate::text::{clone_strings, same_text, views};
use vstd::prelude::*;

verus! {

/// Limits of the sandbox.
#[derive(Clone, Debug)]
pub struct SandboxConfig {
    pub enabled: bool,
    pub backend: String,
    pub read_dirs: Vec<String>,
    pub write_dirs: Vec<String>,
    pub allow_network: bool,
    pub max_memory_mb: u64,
    pub max_pids: u32,
    pub timeout_secs: u64,
}

/// Whether limits are those that are used unless others are set.
pub open spec fn is_default_sandbox(c: SandboxConfig) -> bool {
    &&& !c.enabled
    &&& c.backend@ == "auto"@
    &&& c.read_dirs@.len() == 0
    &&& c.write_dirs@.len() == 0
    &&& c.allow_network
    &&& c.max_memory_mb == 1024
    &&& c.max_pids == 64
    &&& c.timeout_secs == 600
}

impl Default for SandboxConfig {
    fn default() -> (r: Self)
        ensures
            is_default_sandbox(r),
    {
        SandboxConfig {
            enabled: false,
            backend: "auto".to_owned(),
            read_dirs: Vec::new(),
            write_dirs: Vec::new(),
            allow_network: true,
            max_memory_mb: 1024,
            max_pids: 64,
            timeout_secs: 600,
        }
    }
}

impl SandboxConfig {
    /// Whether there is a sandbox: one is asked for, and its backend is not turned off.
    pub fn is_active(&self) -> (r: bool)
        ensures
            r == (self.enabled && self.backend@ != "off"@),
    {
        self.enabled && !same_text(self.backend.as_str(), "off")
    }
}

/// Settings of the Python sandbox.
#[derive(Debug)]
pub struct SandboxPythonConfig {
    pub wasm_path: String,
    pub stdlib_dir: String,
    pub timeout: u64,
    pub read_dirs: Vec<String>,
    pub write_dirs: Vec<String>,
    pub package_dirs: Vec<String>,
}

/// What a [`SandboxPythonConfig`] says.
pub struct SandboxPythonView {
    pub wasm_path: Seq<char>,
    pub stdlib_dir: Seq<char>,
    pub timeout: u64,
    pub read_dirs: Seq<Seq<char>>,
    pub write_dirs: Seq<Seq<char>>,
    pub package_dirs: Seq<Seq<char>>,
}

impl View for SandboxPythonConfig {
    type V = SandboxPythonView;

    open spec fn view(&self) -> SandboxPythonView {
        SandboxPythonView {
            wasm_path: self.wasm_path@,
            stdlib_dir: self.stdlib_dir@,
            timeout: self.timeout,
            read_dirs: views(self.read_dirs@),
            write_dirs: views(self.write_dirs@),
            package_dirs: views(self.package_dirs@),
        }
    }
}

impl Clone for SandboxPythonConfig {
    fn clone(&self) -> (r: Self)
        ensures
            r@ == self@,
    {
        SandboxPythonConfig {
            wasm_path: self.wasm_path.clone(),
            stdlib_dir: self.stdlib_dir.clone(),
            timeout: self.timeout,
            read_dirs: clone_strings(&self.read_dirs),
            write_dirs: clone_strings(&self.write_dirs),
            package_dirs: clone_strings(&self.package_dirs),
        }
    }
}

/// Whether settings are those that are used unless others are set.
pub open spec fn is_default_python(c: SandboxPythonView) -> bool {
    &&& c.wasm_path == "cpython-wasi/python.wasm"@
    &&& c.stdlib_dir == "cpython-wasi"@
    &&& c.timeout == 30
    &&& c.read_dirs.len() == 0
    &&& c.write_dirs.len() == 0
    &&& c.package_dirs.len() == 0
}

impl Default for SandboxPythonConfig {
    fn default() -> (r: Self)
        ensures
            is_default_python(r@),
    {
        SandboxPythonConfig {
            wasm_path: "cpython-wasi/python.wasm".to_owned(),
            stdlib_dir: "cpython-wasi".to_owned(),
            timeout: 30,
            read_dirs: Vec::new(),
            write_dirs: Vec::new(),
            package_dirs: Vec::new(),
        }
    }
}

} // verus!
