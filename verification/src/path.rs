//! Paths as text, with `/` between their parts.

use vstd::prelude::*;
use vstd::string::*;

use crate::text::{concat2, concat3};

verus! {

/// Whether `path` starts at the root of the file system.
pub open spec fn is_absolute(path: Seq<char>) -> bool {
    path.len() > 0 && path[0] == '/'
}

/// `base` extended by `part`: an absolute `part` takes the place of `base`, and a
/// relative one follows it after a single `/`, which `base` may already end in. An
/// empty `base` adds nothing.
pub open spec fn joined(base: Seq<char>, part: Seq<char>) -> Seq<char> {
    if is_absolute(part) {
        part
    } else if base.len() == 0 || base.last() == '/' {
        base + part
    } else {
        base + seq!['/'] + part
    }
}

/// `base` extended by `part`.
pub fn join(base: &str, part: &str) -> (path: String)
    ensures
        path@ == joined(base@, part@),
{
    let part_len: usize = part.unicode_len();
    if part_len > 0 && part.get_char(0) == '/' {
        return part.to_owned();
    }
    let base_len: usize = base.unicode_len();
    if base_len == 0 || base.get_char(base_len - 1) == '/' {
        concat2(base, part)
    } else {
        proof {
            reveal_strlit("/");
            assert("/"@ =~= seq!['/']);
        }
        concat3(base, "/", part)
    }
}

/// A part that does not start at the root is put behind a base: the path starts with the base
/// and ends in the part, and between them is a `/` where the base does not bring one, and
/// nothing else.
pub proof fn law_join_keeps_both_parts(base: Seq<char>, part: Seq<char>)
    requires
        part.len() == 0 || part[0] != '/',
    ensures
        ({
            let path = joined(base, part);
            &&& path.len() >= base.len() + part.len()
            &&& path.take(base.len() as int) == base
            &&& path.skip(path.len() - part.len()) == part
            &&& if base.len() == 0 || base.last() == '/' {
                path.len() == base.len() + part.len()
            } else {
                path.len() == base.len() + part.len() + 1 && path[base.len() as int] == '/'
            }
        }),
{
    let path = joined(base, part);
    assert(path.take(base.len() as int) =~= base);
    assert(path.skip(path.len() - part.len()) =~= part);
}

/// A part that starts at the root is a path by itself, whatever the base.
pub proof fn law_join_with_an_absolute_part(base: Seq<char>, part: Seq<char>)
    requires
        part.len() > 0,
        part[0] == '/',
    ensures
        joined(base, part) == part,
{
}

} // verus!
