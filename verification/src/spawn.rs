//! Planning process creation.  The externally supplied program path and
//! argument list are turned into null-terminated buffers, and the spawn
//! procedure itself is driven as a small machine whose verified invariant
//! is the point of the exercise: every OS resource acquired on the way —
//! the spawn-attributes object, the file-actions object, the argument
//! buffers — is released on every path to an outcome, success or failure.

use vstd::prelude::*;

use crate::errors::{OsError, SpawnError};
use vstd::utf8::encode_utf8;

verus! {

/// A program path plus its ordered argument strings, as supplied from
/// outside.
#[derive(Debug, Clone)]
pub struct SpawnArgs {
    pub program: String,
    pub args: Vec<String>,
}

/// Whether the encoding of `s` is free of the null byte, so that it can
/// become a null-terminated buffer.
pub open spec fn nul_free(s: Seq<char>) -> bool {
    forall|i: int| 0 <= i < encode_utf8(s).len() ==> encode_utf8(s)[i] != 0
}

/// Whether `b` is one well-formed null-terminated buffer: exactly one null
/// byte, at the end.
pub open spec fn buf_wf(b: Seq<u8>) -> bool {
    b.len() > 0 && b.last() == 0 && (forall|i: int| 0 <= i < b.len() - 1 ==> b[i] != 0)
}

/// The transient OS-facing form of `SpawnArgs`: the program path and each
/// argument as a null-terminated byte buffer.
#[derive(Debug, Clone)]
pub struct CSpawnArgs {
    pub program: Vec<u8>,
    pub args: Vec<Vec<u8>>,
}

impl CSpawnArgs {
    /// Every buffer is null-terminated with no interior null.
    pub open spec fn wf(self) -> bool {
        buf_wf(self.program@) && (forall|i: int|
            0 <= i < self.args.deep_view().len() ==> buf_wf(self.args.deep_view()[i]))
    }
}

/// Encodes one string as a null-terminated buffer, or reports the string
/// unusable because its encoding contains an interior null byte.
fn c_buffer(s: &String) -> (r: Option<Vec<u8>>)
    ensures
        match r {
            Some(b) => nul_free(s@) && b@ == encode_utf8(s@) + seq![0u8] && buf_wf(b@),
            None => !nul_free(s@),
        },
{
    let mut b = s.as_str().as_bytes_vec();
    let mut i: usize = 0;
    while i < b.len()
        invariant
            i <= b@.len(),
            b@ == encode_utf8(s@),
            forall|k: int| 0 <= k < i ==> b@[k] != 0,
        decreases b@.len() - i,
    {
        if b[i] == 0 {
            return None;
        }
        i += 1;
    }
    b.push(0);
    Some(b)
}

/// Builds the OS-facing form of the supplied arguments, failing exactly
/// when the program path or one of the arguments contains a null byte in
/// its encoding.
pub fn to_c_spawn_args(a: &SpawnArgs) -> (r: Option<CSpawnArgs>)
    ensures
        match r {
            Some(c) => {
                &&& c.wf()
                &&& nul_free(a.program@)
                &&& forall|i: int| 0 <= i < a.args@.len() ==> nul_free(a.args.deep_view()[i])
                &&& c.program@ == encode_utf8(a.program@) + seq![0u8]
                &&& c.args.deep_view().len() == a.args@.len()
                &&& forall|i: int|
                    0 <= i < a.args@.len() ==> c.args.deep_view()[i] == encode_utf8(
                        a.args.deep_view()[i],
                    ) + seq![0u8]
            },
            None => !nul_free(a.program@) || exists|i: int|
                0 <= i < a.args@.len() && !nul_free(a.args.deep_view()[i]),
        },
{
    let program = match c_buffer(&a.program) {
        Some(b) => b,
        None => {
            return None;
        },
    };
    let mut args: Vec<Vec<u8>> = Vec::new();
    let mut i: usize = 0;
    while i < a.args.len()
        invariant
            i <= a.args@.len(),
            args.deep_view().len() == i,
            buf_wf(program@),
            program@ == encode_utf8(a.program@) + seq![0u8],
            nul_free(a.program@),
            forall|k: int| 0 <= k < i ==> nul_free(a.args.deep_view()[k]),
            forall|k: int|
                0 <= k < i ==> args.deep_view()[k] == encode_utf8(a.args.deep_view()[k]) + seq![
                    0u8,
                ] && buf_wf(args.deep_view()[k]),
        decreases a.args@.len() - i,
    {
        proof {
            assert(a.args.deep_view()[i as int] == a.args@[i as int]@);
        }
        match c_buffer(&a.args[i]) {
            Some(b) => {
                let ghost old_dv = args.deep_view();
                args.push(b);
                proof {
                    assert(args.deep_view() =~~= old_dv.push(b@));
                }
            },
            None => {
                proof {
                    assert(0 <= i < a.args@.len() && !nul_free(a.args.deep_view()[i as int]));
                }
                return None;
            },
        }
        i += 1;
    }
    Some(CSpawnArgs { program, args })
}

/// Where the spawn procedure stands: which call comes next, or that it is
/// winding down or finished.
#[derive(Clone, Copy, Debug, PartialEq, Eq, Structural)]
pub enum SpawnPhase {
    /// The spawn-attributes resource is to be initialized next.
    NeedAttrs,
    /// The file-actions resource is to be initialized next.
    NeedFileActions,
    /// The process-creation primitive is to be invoked next.
    NeedSpawn,
    /// The outcome is decided; acquired resources are still to be released.
    Cleanup,
    /// The outcome is decided and every acquired resource is released.
    Finished,
}

/// The spawn procedure as a machine: the caller performs one OS call per
/// step and reports its result, and the machine decides what follows.  Its
/// invariant ties the bookkeeping of acquired resources to the phase, so
/// that a finished run provably holds none.
pub struct SpawnEngine {
    phase: SpawnPhase,
    attrs_held: bool,
    file_actions_held: bool,
    argv_held: bool,
    outcome: Option<Result<i32, SpawnError>>,
}

impl SpawnEngine {
    pub closed spec fn phase(self) -> SpawnPhase {
        self.phase
    }

    pub closed spec fn attrs_held(self) -> bool {
        self.attrs_held
    }

    pub closed spec fn file_actions_held(self) -> bool {
        self.file_actions_held
    }

    pub closed spec fn argv_held(self) -> bool {
        self.argv_held
    }

    pub closed spec fn outcome_spec(self) -> Option<Result<i32, SpawnError>> {
        self.outcome
    }

    pub closed spec fn inv(self) -> bool {
        match self.phase {
            SpawnPhase::NeedAttrs => {
                &&& !self.attrs_held
                &&& !self.file_actions_held
                &&& self.argv_held
                &&& self.outcome is None
            },
            SpawnPhase::NeedFileActions => {
                &&& self.attrs_held
                &&& !self.file_actions_held
                &&& self.argv_held
                &&& self.outcome is None
            },
            SpawnPhase::NeedSpawn => {
                &&& self.attrs_held
                &&& self.file_actions_held
                &&& self.argv_held
                &&& self.outcome is None
            },
            SpawnPhase::Cleanup => self.outcome is Some,
            SpawnPhase::Finished => {
                &&& !self.attrs_held
                &&& !self.file_actions_held
                &&& !self.argv_held
                &&& self.outcome is Some
            },
        }
    }

    /// Starts a run: the argument buffers exist already and count as the
    /// first resource to release.
    pub fn new() -> (e: SpawnEngine)
        ensures
            e.inv(),
            e.phase() == SpawnPhase::NeedAttrs,
            !e.attrs_held(),
            !e.file_actions_held(),
            e.argv_held(),
    {
        SpawnEngine {
            phase: SpawnPhase::NeedAttrs,
            attrs_held: false,
            file_actions_held: false,
            argv_held: true,
            outcome: None,
        }
    }

    /// Takes the return code of the spawn-attributes initialization: zero
    /// acquires the resource and moves on, anything else decides the
    /// outcome as a resource error carrying that code.
    pub fn attrs_init_returned(&mut self, code: i32)
        requires
            old(self).inv(),
            old(self).phase() == SpawnPhase::NeedAttrs,
        ensures
            final(self).inv(),
            final(self).argv_held() == old(self).argv_held(),
            code == 0 ==> {
                &&& final(self).phase() == SpawnPhase::NeedFileActions
                &&& final(self).attrs_held()
                &&& !final(self).file_actions_held()
            },
            code != 0 ==> {
                &&& final(self).phase() == SpawnPhase::Cleanup
                &&& !final(self).attrs_held()
                &&& !final(self).file_actions_held()
                &&& final(self).outcome_spec() == Some(
                    Result::<i32, SpawnError>::Err(SpawnError::Resource(OsError { code })),
                )
            },
    {
        if code == 0 {
            self.attrs_held = true;
            self.phase = SpawnPhase::NeedFileActions;
        } else {
            self.outcome = Some(Err(SpawnError::Resource(OsError { code })));
            self.phase = SpawnPhase::Cleanup;
        }
    }

    /// Takes the return code of the file-actions initialization: zero
    /// acquires the resource and moves on, anything else decides the
    /// outcome as a resource error carrying that code.
    pub fn file_actions_init_returned(&mut self, code: i32)
        requires
            old(self).inv(),
            old(self).phase() == SpawnPhase::NeedFileActions,
        ensures
            final(self).inv(),
            final(self).argv_held() == old(self).argv_held(),
            final(self).attrs_held() == old(self).attrs_held(),
            code == 0 ==> {
                &&& final(self).phase() == SpawnPhase::NeedSpawn
                &&& final(self).file_actions_held()
            },
            code != 0 ==> {
                &&& final(self).phase() == SpawnPhase::Cleanup
                &&& !final(self).file_actions_held()
                &&& final(self).outcome_spec() == Some(
                    Result::<i32, SpawnError>::Err(SpawnError::Resource(OsError { code })),
                )
            },
    {
        if code == 0 {
            self.file_actions_held = true;
            self.phase = SpawnPhase::NeedSpawn;
        } else {
            self.outcome = Some(Err(SpawnError::Resource(OsError { code })));
            self.phase = SpawnPhase::Cleanup;
        }
    }

    /// Takes the return code of the process-creation primitive and the
    /// process id it wrote: zero decides the outcome as that id, anything
    /// else as a creation error carrying the code.  Either way the
    /// acquired resources remain to be released.
    pub fn spawn_returned(&mut self, code: i32, pid: i32)
        requires
            old(self).inv(),
            old(self).phase() == SpawnPhase::NeedSpawn,
        ensures
            final(self).inv(),
            final(self).phase() == SpawnPhase::Cleanup,
            final(self).argv_held() == old(self).argv_held(),
            final(self).attrs_held() == old(self).attrs_held(),
            final(self).file_actions_held() == old(self).file_actions_held(),
            code == 0 ==> final(self).outcome_spec() == Some(
                Result::<i32, SpawnError>::Ok(pid),
            ),
            code != 0 ==> final(self).outcome_spec() == Some(
                Result::<i32, SpawnError>::Err(SpawnError::Creation(OsError { code })),
            ),
    {
        if code == 0 {
            self.outcome = Some(Ok(pid));
        } else {
            self.outcome = Some(Err(SpawnError::Creation(OsError { code })));
        }
        self.phase = SpawnPhase::Cleanup;
    }

    /// Winds the run down: says which resources the caller must release
    /// now — exactly those still held — and records them released.
    pub fn cleanup(&mut self) -> (r: (bool, bool, bool))
        requires
            old(self).inv(),
            old(self).phase() == SpawnPhase::Cleanup,
        ensures
            final(self).inv(),
            final(self).phase() == SpawnPhase::Finished,
            r == (old(self).attrs_held(), old(self).file_actions_held(), old(self).argv_held()),
            !final(self).attrs_held(),
            !final(self).file_actions_held(),
            !final(self).argv_held(),
            final(self).outcome_spec() == old(self).outcome_spec(),
    {
        let r = (self.attrs_held, self.file_actions_held, self.argv_held);
        self.attrs_held = false;
        self.file_actions_held = false;
        self.argv_held = false;
        self.phase = SpawnPhase::Finished;
        r
    }

    /// The decided outcome of a finished run.
    pub fn outcome(&self) -> (r: Result<i32, SpawnError>)
        requires
            self.inv(),
            self.phase() == SpawnPhase::Finished,
        ensures
            Some(r) == self.outcome_spec(),
    {
        match &self.outcome {
            Some(o) => *o,
            None => unreached(),
        }
    }
}

/// A finished spawn run holds no OS resource: neither the attributes
/// object, nor the file-actions object, nor the argument buffers survive
/// the run, whether its outcome is a process id or an error.
pub proof fn lemma_finished_releases_all(e: SpawnEngine)
    requires
        e.inv(),
        e.phase() == SpawnPhase::Finished,
    ensures
        !e.attrs_held(),
        !e.file_actions_held(),
        !e.argv_held(),
        e.outcome_spec() is Some,
{
}

} // verus!
