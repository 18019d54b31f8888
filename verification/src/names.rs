//! The names the backend gives what it emits.

use vstd::prelude::*;

use crate::text::owned;

verus! {

/// The symbol a Khora function is emitted under: `kh$` and its name.
pub fn mangle(name: &str) -> (symbol: String)
    ensures
        symbol@ == "kh$"@ + name@,
{
    let mut symbol = owned("kh$");
    symbol.append(name);
    symbol
}

/// `out` with a suffix appended to the whole file name.
///
/// Appended rather than substituted for the extension: `app.exe` must become
/// `app.exe.o`, not `app.o`, or a program named `app.o` would overwrite its
/// own object file halfway through being linked from it.
pub fn with_suffix(out: &str, suffix: &str) -> (path: String)
    ensures
        path@ == out@ + suffix@,
{
    let mut path = owned(out);
    path.append(suffix);
    path
}

} // verus!
