//! Where uploaded files are stored: the storage path is the upload
//! directory followed by a sanitised file name, so a client-supplied name
//! can never escape the directory.

use vstd::prelude::*;
use vstd::string::StringExecFns;

verus! {

/// The directory every stored file lives under.
pub open spec fn upload_dir() -> Seq<char> {
    "./uploads/"@
}

/// Relies on `sanitize_filename::sanitize` with its default options: path
/// separators and control characters are removed and a name of only dots is
/// replaced, so no separator character and no parent-directory name ever
/// survives.
#[verifier::external_body]
fn sanitize_call(name: &String) -> (r: String)
    ensures
        forall|i: int| 0 <= i < r@.len() ==> r@[i] != '/' && r@[i] != '\\',
        r@ != seq!['.', '.'],
{
    sanitize_filename::sanitize(name.as_str())
}

/// Relies on `uuid::Uuid::new_v4` and its hyphenated text form: 36
/// characters, each a lowercase hexadecimal digit or a hyphen. The value
/// itself is random, so nothing more is claimed of it.
#[verifier::external_body]
fn fresh_name_call() -> (r: String)
    ensures
        r@.len() == 36,
        forall|i: int|
            0 <= i < r@.len() ==> (r@[i] == '-' || ('0' <= r@[i] && r@[i] <= '9') || ('a' <= r@[i]
                && r@[i] <= 'f')),
{
    uuid::Uuid::new_v4().to_string()
}

/// The storage path for a client-supplied file name: the upload directory,
/// then the sanitised name, which holds no path separator.
pub fn stored_file_path(name: &String) -> (r: String)
    ensures
        r@.len() >= upload_dir().len(),
        r@.subrange(0, upload_dir().len() as int) == upload_dir(),
        forall|i: int| upload_dir().len() <= i < r@.len() ==> r@[i] != '/' && r@[i] != '\\',
{
    let safe = sanitize_call(name);
    let mut r = "./uploads/".to_owned();
    r.append(safe.as_str());
    proof {
        reveal_strlit("./uploads/");
        assert(r@.subrange(0, upload_dir().len() as int) =~= upload_dir());
    }
    r
}

/// The storage path for an upload: the client's file name when one came
/// with the request, else a fresh unique name.
pub fn upload_path(name: Option<&String>) -> (r: String)
    ensures
        r@.len() >= upload_dir().len(),
        r@.subrange(0, upload_dir().len() as int) == upload_dir(),
        forall|i: int| upload_dir().len() <= i < r@.len() ==> r@[i] != '/' && r@[i] != '\\',
{
    match name {
        Some(n) => stored_file_path(n),
        None => {
            let fresh = fresh_name_call();
            stored_file_path(&fresh)
        },
    }
}

} // verus!
