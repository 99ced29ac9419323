//! The directories and files of a principal's home.

use vstd::prelude::*;
use vstd::string::*;

use crate::foreign::{json_string_object, json_strings};
use crate::host_state::{PrincipalMount, PrincipalVfsBundle};
use crate::load::{keys_distinct, value_of};
use crate::paths::{join, join_paths};

verus! {

/// The largest environment file that is read, in bytes.
pub const MAX_ENV_FILE_BYTES: u64 = 1_048_576;

/// The home of a principal below the Astrid home.
pub open spec fn home_of(astrid_home: Seq<char>, principal: Seq<char>) -> Seq<char> {
    join(join(astrid_home, "home"@), principal)
}

/// The home of a principal below the Astrid home.
pub fn principal_home(astrid_home: &str, principal: &str) -> (r: String)
    ensures
        r@ == home_of(astrid_home@, principal@),
{
    let homes = join_paths(astrid_home, "home");
    join_paths(homes.as_str(), principal)
}

/// The temporary directory of a principal.
pub fn principal_tmp_dir(home: &str) -> (r: String)
    ensures
        r@ == join(home@, ".local/tmp"@),
{
    join_paths(home, ".local/tmp")
}

/// The file with the environment of a capsule for a principal.
pub fn env_overlay_path(home: &str, capsule_id: &str) -> (r: String)
    ensures
        r@ == join(join(home@, ".config/env"@), capsule_id@ + ".env.json"@),
{
    let dir = join_paths(home, ".config/env");
    let mut name = capsule_id.to_owned();
    name.append(".env.json");
    join_paths(dir.as_str(), name.as_str())
}

/// What is known of a file before it is read.
#[derive(Debug, Clone, Copy)]
pub struct FileMeta {
    pub is_file: bool,
    pub len: u64,
}

/// Whether an environment file is read at all.
pub fn env_file_is_read(meta: Option<FileMeta>) -> (r: bool)
    ensures
        r == (meta is Some && meta->0.is_file && meta->0.len <= MAX_ENV_FILE_BYTES),
{
    match meta {
        Some(m) => m.is_file && m.len <= MAX_ENV_FILE_BYTES,
        None => false,
    }
}

/// The environment of a capsule for a principal, from the file's metadata and
/// content: an object of strings in a plain file that is not too large. In
/// every other case there is none.
pub fn load_invocation_env_overlay(meta: Option<FileMeta>, content: Option<&str>) -> (r: Option<
    Vec<(String, String)>,
>)
    ensures
        ({
            let object = if meta is Some && meta->0.is_file && meta->0.len <= MAX_ENV_FILE_BYTES
                && content is Some {
                json_string_object(content->0@)
            } else {
                None
            };
            match r {
                Some(pairs) => object is Some && keys_distinct(pairs@) && forall|k: Seq<char>|
                    #[trigger]
                    value_of(pairs@, k) == if object->0.contains_key(k) {
                        Some(object->0[k])
                    } else {
                        None
                    },
                None => object is None,
            }
        }),
{
    if !env_file_is_read(meta) {
        return None;
    }
    match content {
        Some(text) => json_strings(text),
        None => None,
    }
}

/// A mounted directory: one that exists and could be registered, under its
/// canonical path.
pub fn mount_dir(exists: bool, canonical: String, registered: bool) -> (r: Option<PrincipalMount>)
    ensures
        r is Some == (exists && registered),
        r matches Some(mount) ==> mount.root == canonical,
{
    if exists && registered {
        Some(PrincipalMount { root: canonical })
    } else {
        None
    }
}

/// The directories of a principal. The temporary directory is mounted only
/// where the home is, and only where it exists or could be created.
pub fn build_principal_vfs_bundle_at(
    home: Option<PrincipalMount>,
    tmp_ready: bool,
    tmp: Option<PrincipalMount>,
) -> (r: PrincipalVfsBundle)
    ensures
        r.home == home,
        r.tmp == if home is Some && tmp_ready {
            tmp
        } else {
            None
        },
{
    let tmp = if home.is_some() && tmp_ready { tmp } else { None };
    PrincipalVfsBundle { home, tmp }
}

/// Homes of different principals differ, unless a name is an absolute path.
pub proof fn homes_are_distinct(astrid_home: Seq<char>, a: Seq<char>, b: Seq<char>)
    requires
        a != b,
        !crate::paths::is_absolute(a),
        !crate::paths::is_absolute(b),
    ensures
        home_of(astrid_home, a) != home_of(astrid_home, b),
{
    reveal_strlit("/");
    reveal_strlit("home");
    let base = join(astrid_home, "home"@);
    let x = home_of(astrid_home, a);
    let y = home_of(astrid_home, b);
    assert(!crate::paths::is_absolute("home"@)) by {
        if crate::paths::is_absolute("home"@) {
            assert("home"@.subrange(0, 1)[0] == '/');
        }
    }
    let head = if base.len() == 0 || "/"@.is_suffix_of(base) {
        base
    } else {
        base + "/"@
    };
    if x == y {
        assert(x =~= head + a && y =~= head + b);
        assert(a =~= x.skip(head.len() as int));
        assert(b =~= y.skip(head.len() as int));
    }
}

/// The home of a principal is the directory of its name in the `home` directory
/// of the Astrid home, so every home lies under the Astrid home.
pub proof fn homes_lie_under_the_astrid_home(astrid_home: Seq<char>, principal: Seq<char>)
    requires
        astrid_home.len() > 0,
        astrid_home.last() != '/',
        principal.len() > 0,
        principal[0] != '/',
    ensures
        home_of(astrid_home, principal) == astrid_home + "/home/"@ + principal,
        crate::paths::is_under(home_of(astrid_home, principal), astrid_home),
{
    reveal_strlit("home");
    reveal_strlit("/home/");
    reveal_strlit("/");
    let homes = join(astrid_home, "home"@);
    crate::paths::joining_writes_one_slash(astrid_home, "home"@);
    crate::paths::joining_writes_one_slash(homes, principal);
    assert(homes =~= astrid_home + seq!['/'] + "home"@);
    assert(homes.last() == 'e');
    assert(home_of(astrid_home, principal) =~= astrid_home + "/home/"@ + principal);
    assert(!crate::paths::is_absolute("home"@)) by {
        if crate::paths::is_absolute("home"@) {
            assert("home"@.subrange(0, 1)[0] == '/');
        }
    }
    assert(!crate::paths::is_absolute(principal)) by {
        if crate::paths::is_absolute(principal) {
            assert(principal.subrange(0, 1)[0] == '/');
        }
    }
    crate::paths::joined_path_is_under_base(astrid_home, "home"@);
    crate::paths::joined_path_is_under_base(homes, principal);
    crate::paths::is_under_is_transitive(home_of(astrid_home, principal), homes, astrid_home);
}

}
