//! The files that the bot keeps in its data directory.

use vstd::prelude::*;

verus! {

/// The path of the file `name`, which is relative, in the directory `base`.
pub open spec fn join_spec(base: Seq<char>, name: Seq<char>) -> Seq<char> {
    if base.len() == 0 || base.last() == '/' {
        base + name
    } else {
        base + "/"@ + name
    }
}

/// The path of the file `name`, which is relative, in the directory `base`.
pub fn join(base: &str, name: &str) -> (r: String)
    ensures
        r@ == join_spec(base@, name@),
{
    let n: usize = base.unicode_len();
    let mut out = base.to_owned();
    if n > 0 && base.get_char(n - 1) != '/' {
        out.append("/");
    }
    out.append(name);
    out
}

/// The settings and the database.
pub fn paths(data: &str) -> (r: (String, String))
    ensures
        r.0@ == join_spec(data@, "config.json"@),
        r.1@ == join_spec(data@, "state.db"@),
{
    (join(data, "config.json"), join(data, "state.db"))
}

/// The directory of the logs.
pub fn logs_dir(data: &str) -> (r: String)
    ensures
        r@ == join_spec(data@, "logs"@),
{
    join(data, "logs")
}

/// The file that holds the time at which the cached image was last updated.
pub fn marker_path(data: &str) -> (r: String)
    ensures
        r@ == join_spec(data@, "ubi-cache-updated"@),
{
    join(data, "ubi-cache-updated")
}

/// Paths of different files in one directory differ.
pub proof fn law_paths_differ(base: Seq<char>, a: Seq<char>, b: Seq<char>)
    requires
        a != b,
    ensures
        join_spec(base, a) != join_spec(base, b),
{
    let head = if base.len() == 0 || base.last() == '/' { base } else { base + "/"@ };
    if join_spec(base, a) == join_spec(base, b) {
        assert(join_spec(base, a).skip(head.len() as int) =~= a);
        assert(join_spec(base, b).skip(head.len() as int) =~= b);
    }
}

/// A file stands in its directory: its path is that of the directory, a slash,
/// unless the directory ends with one or is not named, and the name of the file.
pub proof fn law_path_of_a_file(base: Seq<char>, name: Seq<char>)
    ensures
        base.len() > 0 && base.last() != '/' ==> join_spec(base, name) == base + "/"@ + name,
        base.len() > 0 && base.last() == '/' ==> join_spec(base, name) == base + name,
        base.len() == 0 ==> join_spec(base, name) == name,
{
    assert(Seq::<char>::empty() + name =~= name);
    if base.len() == 0 {
        assert(base + name =~= name);
    }
}

} // verus!
