use vstd::prelude::*;
use crate::generate::Generated;
use crate::verify::VerifyReport;

verus! {

/// The manifest's fixed name in the working directory.
pub const MANIFEST_FILE: &'static str = "hashes.txt";

/// The size of the read buffer that files are streamed through.
pub const BUFFER_SIZE: usize = 8 * 1024 * 1024;

/// What a run does, chosen once at its start.
#[derive(PartialEq, Eq, Structural, Clone, Copy, Debug)]
pub enum Mode {
    Generate,
    Verify,
}

/// A run verifies when a manifest exists, and generates one otherwise.
pub fn select_mode(manifest_exists: bool) -> (m: Mode)
    ensures
        manifest_exists ==> m == Mode::Verify,
        !manifest_exists ==> m == Mode::Generate,
{
    if manifest_exists {
        Mode::Verify
    } else {
        Mode::Generate
    }
}

/// A generating run fails when some file could not be read.
pub fn generation_failed(g: &Generated) -> (r: bool)
    ensures
        r == (g.bad_files > 0),
{
    g.bad_files > 0
}

/// A verifying run fails when some entry failed, was not found or was
/// malformed.
pub fn verification_failed(v: &VerifyReport) -> (r: bool)
    ensures
        r == (v.failed > 0 || v.not_found > 0 || v.malformed > 0),
{
    v.failed > 0 || v.not_found > 0 || v.malformed > 0
}

/// The process exit code for a run's outcome.
pub fn exit_code(failed: bool) -> (r: i32)
    ensures
        r == (if failed {
            1i32
        } else {
            0i32
        }),
{
    if failed {
        1
    } else {
        0
    }
}

} // verus!
