//! Containers and the process that runs them.
use vstd::prelude::*;
use crate::text::{chars_of, is_u32_text, parse_u32_text, string_of, trim_bounds, trimmed, u32_text_value};

verus! {

/// The runtime that manages a container.
#[derive(Debug, PartialEq, Eq, Clone, Copy, Structural)]
pub enum ContainerRuntime {
    Docker,
}

/// A container, named by its runtime's identifier.
#[derive(Debug, PartialEq, Eq)]
pub struct Container {
    pub id: String,
    pub node_name: Option<String>,
    pub runtime: ContainerRuntime,
}

/// Why the process id of a container could not be had.
#[derive(Debug, PartialEq, Eq)]
pub enum PidError {
    /// The runtime's inspect command exited unsuccessfully.
    InspectFailed { id: String, code: Option<i32>, stderr: String },
    /// The inspect command succeeded but did not print a process id.
    NotAPid { output: String },
}

impl Container {
    /// The arguments of the runtime's command that prints the container's process id:
    /// `inspect <id> --format {{.State.Pid}}`.
    pub fn inspect_args(&self) -> (r: Vec<String>)
        ensures
            r.len() == 4,
            r[0]@ == "inspect"@,
            r[1]@ == self.id@,
            r[2]@ == "--format"@,
            r[3]@ == "{{.State.Pid}}"@,
    {
        let mut r: Vec<String> = Vec::new();
        match self.runtime {
            ContainerRuntime::Docker => {
                r.push(string_of(chars_of("inspect").as_slice()));
                r.push(self.id.clone());
                r.push(string_of(chars_of("--format").as_slice()));
                r.push(string_of(chars_of("{{.State.Pid}}").as_slice()));
            },
        }
        r
    }

    /// The process id that the inspect command reported: its output with white space
    /// trimmed, read as a `u32` (decimal digits, optionally after a `+`).
    pub fn pid_from_output(&self, success: bool, code: Option<i32>, stdout: &str, stderr: &str) -> (r:
        Result<u32, PidError>)
        ensures
            success && is_u32_text(trimmed(stdout@)) ==> r == Ok::<u32, PidError>(
                u32_text_value(trimmed(stdout@)) as u32,
            ),
            success && !is_u32_text(trimmed(stdout@)) ==> match r {
                Err(PidError::NotAPid { output }) => output@ == stdout@,
                _ => false,
            },
            !success ==> match r {
                Err(PidError::InspectFailed { id, code: c, stderr: e }) => id@ == self.id@ && c
                    == code && e@ == stderr@,
                _ => false,
            },
    {
        if !success {
            return Err(PidError::InspectFailed { id: self.id.clone(), code, stderr: stderr.to_owned() });
        }
        let cs = chars_of(stdout);
        let (lo, hi) = trim_bounds(&cs);
        match parse_u32_text(&cs, lo, hi) {
            Some(pid) => Ok(pid),
            None => Err(PidError::NotAPid { output: stdout.to_owned() }),
        }
    }
}

} // verus!
