//! Start-with-Windows support: the command line that the per-user Run key
//! holds for the app.

use vstd::prelude::*;

verus! {

/// The Run-key command for the executable at `exe`: its path in double
/// quotes, so that a path with spaces is read as one program.
pub fn exe_command(exe: &str) -> (cmd: String)
    ensures
        cmd@ == seq!['"'] + exe@ + seq!['"'],
{
    proof {
        reveal_strlit("\"");
    }
    let cmd = String::from_str("\"").concat(exe).concat("\"");
    assert(cmd@ =~= seq!['"'] + exe@ + seq!['"']);
    cmd
}

} // verus!
