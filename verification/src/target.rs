//! Where on the device a pushed file lands.

use crate::text::to_chars;
use vstd::prelude::*;
use vstd::string::StringExecFns;

verus! {

/// The directory that a push goes to where the caller names none.
pub open spec fn default_destination() -> Seq<char> {
    "/sdcard/Download/"@
}

/// The file name that stands in where the local path yields none.
pub open spec fn default_file_name() -> Seq<char> {
    "unknown_file"@
}

/// The suffix that asks for the permission bits 0644.
pub open spec fn permission_suffix() -> Seq<char> {
    ",0644"@
}

/// A destination names a directory when it ends in a slash.
pub open spec fn is_directory(destination: Seq<char>) -> bool {
    destination.len() > 0 && destination.last() == '/'
}

/// The destination that a push uses: the one given, or the default.
pub open spec fn destination_or_default(destination: Option<Seq<char>>) -> Seq<char> {
    match destination {
        Some(d) => d,
        None => default_destination(),
    }
}

/// The file name that a push uses: the one given, or the default.
pub open spec fn name_or_default(file_name: Option<Seq<char>>) -> Seq<char> {
    match file_name {
        Some(n) => n,
        None => default_file_name(),
    }
}

/// The remote path, with its permission suffix, for a file that goes to
/// `destination`. A directory takes the file under its own name; any other
/// destination is the path of the file itself.
pub open spec fn target_path(destination: Option<Seq<char>>, file_name: Option<Seq<char>>) -> Seq<
    char,
> {
    let dest = destination_or_default(destination);
    if is_directory(dest) {
        dest + name_or_default(file_name) + permission_suffix()
    } else {
        dest + permission_suffix()
    }
}

/// The view of an optional string slice.
pub open spec fn opt_view(s: Option<&str>) -> Option<Seq<char>> {
    match s {
        Some(t) => Some(t@),
        None => None,
    }
}

/// Computes the remote path, with its permission suffix, for a push to
/// `destination` of a file whose local path ends in `file_name`.
pub fn remote_target(destination: Option<&str>, file_name: Option<&str>) -> (path: String)
    ensures
        path@ == target_path(opt_view(destination), opt_view(file_name)),
{
    let dest: &str = match destination {
        Some(d) => d,
        None => "/sdcard/Download/",
    };
    let name: &str = match file_name {
        Some(n) => n,
        None => "unknown_file",
    };
    let chars = to_chars(dest);
    let n = chars.len();
    if n > 0 && chars[n - 1] == '/' {
        String::from_str(dest).concat(name).concat(",0644")
    } else {
        String::from_str(dest).concat(",0644")
    }
}

/// A destination that ends in a slash puts the file under its own name
/// inside that directory; any other destination is taken as the file's path.
/// Either way the permission suffix follows.
pub proof fn law_remote_target(destination: Seq<char>, file_name: Seq<char>)
    ensures
        is_directory(destination) ==> target_path(Some(destination), Some(file_name))
            == destination + file_name + permission_suffix(),
        !is_directory(destination) ==> target_path(Some(destination), Some(file_name))
            == destination + permission_suffix(),
{
}

} // verus!
