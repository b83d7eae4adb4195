//! Where an application image keeps its parts on each platform, counted from
//! the launcher's executable.

use vstd::prelude::*;
use crate::paths::{
    ancestor_of, ancestor_path, join_of, join_path, Platform,
};

verus! {

/// How many directories lie between the executable and the root of the
/// image: the executable sits in the root on Windows, in `bin` on Linux and
/// in `Contents/MacOS` on macOS.
pub open spec fn image_root_hops(platform: Platform) -> nat {
    match platform {
        Platform::Windows => 1,
        Platform::Linux => 2,
        Platform::MacOs => 3,
    }
}

/// The directory of the image, below its root, that holds `app` and
/// `runtime`: the root itself on Windows, `lib` on Linux, `Contents` on
/// macOS.
pub open spec fn image_content_dir(platform: Platform, root: Seq<char>) -> Seq<char> {
    match platform {
        Platform::Windows => root,
        Platform::Linux => join_of(platform, root, "lib"@),
        Platform::MacOs => join_of(platform, root, "Contents"@),
    }
}

/// The `app` directory of the image rooted at `root`.
pub open spec fn app_dir_of(platform: Platform, root: Seq<char>) -> Seq<char> {
    join_of(platform, image_content_dir(platform, root), "app"@)
}

/// The directory of the runtime that ships with the image rooted at `root`.
pub open spec fn default_runtime_of(platform: Platform, root: Seq<char>) -> Seq<char> {
    join_of(platform, image_content_dir(platform, root), "runtime"@)
}

/// The root of the application image whose launcher is the file `exe_path`,
/// or `None` where the path has too few directories above it.
pub fn get_app_image_root(platform: Platform, exe_path: &str) -> (root: Option<String>)
    ensures
        root is Some == ancestor_of(platform, exe_path@, image_root_hops(platform)) is Some,
        root matches Some(r) ==> ancestor_of(platform, exe_path@, image_root_hops(platform))
            == Some(r@),
{
    let hops: usize = match platform {
        Platform::Windows => 1,
        Platform::Linux => 2,
        Platform::MacOs => 3,
    };
    ancestor_path(platform, exe_path, hops)
}

fn content_dir(platform: Platform, root: &str) -> (dir: String)
    ensures
        dir@ == image_content_dir(platform, root@),
{
    match platform {
        Platform::Windows => root.to_owned(),
        Platform::Linux => join_path(platform, root, "lib"),
        Platform::MacOs => join_path(platform, root, "Contents"),
    }
}

/// The path of the `app` directory of the image rooted at `root`.
pub fn get_app_dir_path(platform: Platform, root: &str) -> (dir: String)
    ensures
        dir@ == app_dir_of(platform, root@),
{
    let content = content_dir(platform, root);
    join_path(platform, content.as_str(), "app")
}

/// The path of the runtime that ships with the image rooted at `root`.
pub fn get_default_runtime_path(platform: Platform, root: &str) -> (dir: String)
    ensures
        dir@ == default_runtime_of(platform, root@),
{
    let content = content_dir(platform, root);
    join_path(platform, content.as_str(), "runtime")
}

/// The directory that must be on the library search path before the virtual
/// machine at `jvm_path` is loaded: two levels above the library on Windows,
/// none elsewhere.
pub open spec fn library_lookup_dir(platform: Platform, jvm_path: Seq<char>) -> Option<Seq<char>> {
    if platform is Windows {
        ancestor_of(platform, jvm_path, 2)
    } else {
        None
    }
}

/// The directory to put on the library search path before loading the
/// virtual machine at `jvm_path`; see [`library_lookup_dir`].
pub fn dynamic_library_lookup_loc(platform: Platform, jvm_path: &str) -> (dir: Option<String>)
    ensures
        dir is Some == library_lookup_dir(platform, jvm_path@) is Some,
        dir matches Some(d) ==> library_lookup_dir(platform, jvm_path@) == Some(d@),
{
    match platform {
        Platform::Windows => ancestor_path(platform, jvm_path, 2),
        _ => None,
    }
}

} // verus!
