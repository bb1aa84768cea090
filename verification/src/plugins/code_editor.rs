//! The code editor plugin. The editing surface and file dialogs live in the
//! surrounding application; here lives the rule that maps a file extension
//! to the syntax-highlighting language.

use vstd::prelude::*;

verus! {

use vstd::string::StringSliceAdditionalSpecFns;

/// Whether two byte strings are equal.
fn bytes_eq(a: &[u8], b: &[u8]) -> (r: bool)
    ensures
        r == (a@ == b@),
{
    if a.len() != b.len() {
        return false;
    }
    let n = a.len();
    let mut i: usize = 0;
    while i < n
        invariant
            i <= n,
            n == a@.len(),
            n == b@.len(),
            forall|k: int| 0 <= k < i ==> a@[k] == b@[k],
        decreases n - i,
    {
        if a[i] != b[i] {
            return false;
        }
        i += 1;
    }
    proof {
        assert(a@ =~= b@);
    }
    true
}

/// The syntax-highlighting language for a file extension: known source and
/// markup extensions map to their language, everything else to plain text.
pub open spec fn spec_language_for_extension(ext: Seq<u8>) -> Seq<char> {
    if ext == "rs".spec_bytes() {
        "rs"@
    } else if ext == "py".spec_bytes() {
        "py"@
    } else if ext == "js".spec_bytes() || ext == "ts".spec_bytes() {
        "js"@
    } else if ext == "html".spec_bytes() {
        "html"@
    } else if ext == "css".spec_bytes() {
        "css"@
    } else if ext == "json".spec_bytes() {
        "json"@
    } else if ext == "md".spec_bytes() {
        "md"@
    } else if ext == "toml".spec_bytes() {
        "toml"@
    } else if ext == "c".spec_bytes() || ext == "h".spec_bytes() {
        "c"@
    } else if ext == "cpp".spec_bytes() || ext == "hpp".spec_bytes() || ext
        == "cc".spec_bytes() || ext == "cxx".spec_bytes() {
        "cpp"@
    } else {
        "txt"@
    }
}

/// The syntax-highlighting language for a file extension.
pub fn language_for_extension(ext: &str) -> (r: &'static str)
    ensures
        r@ == spec_language_for_extension(ext.spec_bytes()),
{
    let b = ext.as_bytes();
    if bytes_eq(b, "rs".as_bytes()) {
        "rs"
    } else if bytes_eq(b, "py".as_bytes()) {
        "py"
    } else if bytes_eq(b, "js".as_bytes()) || bytes_eq(b, "ts".as_bytes()) {
        "js"
    } else if bytes_eq(b, "html".as_bytes()) {
        "html"
    } else if bytes_eq(b, "css".as_bytes()) {
        "css"
    } else if bytes_eq(b, "json".as_bytes()) {
        "json"
    } else if bytes_eq(b, "md".as_bytes()) {
        "md"
    } else if bytes_eq(b, "toml".as_bytes()) {
        "toml"
    } else if bytes_eq(b, "c".as_bytes()) || bytes_eq(b, "h".as_bytes()) {
        "c"
    } else if bytes_eq(b, "cpp".as_bytes()) || bytes_eq(b, "hpp".as_bytes()) || bytes_eq(
        b,
        "cc".as_bytes(),
    ) || bytes_eq(b, "cxx".as_bytes()) {
        "cpp"
    } else {
        "txt"
    }
}

/// The code editor plugin itself holds no state.
pub struct CodeEditorPlugin;

pub fn create() -> (r: CodeEditorPlugin)
    ensures
        r == (CodeEditorPlugin {}),
{
    CodeEditorPlugin
}

} // verus!
