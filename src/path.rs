//! Relative paths as sequences of components, and the text spelled by their
//! named components.

use vstd::prelude::*;
use vstd::utf8::{decode_utf8, valid_utf8};

verus! {

/// One component of a path.
///
/// `Normal` carries the component's name as raw bytes, which need not be
/// valid UTF-8; `Prefix` carries a platform prefix (a drive, a share) the
/// same way.
#[derive(Clone, Debug, PartialEq, Eq)]
pub enum PathComponent {
    Prefix(Vec<u8>),
    RootDir,
    CurDir,
    ParentDir,
    Normal(Vec<u8>),
}

/// The names of the `Normal` components, in order; every other component is
/// passed over.
pub open spec fn normal_parts(p: Seq<PathComponent>) -> Seq<Seq<u8>>
    decreases p.len(),
{
    if p.len() == 0 {
        Seq::empty()
    } else {
        let rest = normal_parts(p.drop_last());
        match p.last() {
            PathComponent::Normal(b) => rest.push(b@),
            _ => rest,
        }
    }
}

/// True when every name is valid UTF-8.
pub open spec fn parts_are_text(parts: Seq<Seq<u8>>) -> bool {
    forall|k: int| 0 <= k < parts.len() ==> valid_utf8(#[trigger] parts[k])
}

/// The names decoded and joined with no separator.
pub open spec fn parts_text(parts: Seq<Seq<u8>>) -> Seq<char>
    decreases parts.len(),
{
    if parts.len() == 0 {
        Seq::empty()
    } else {
        parts_text(parts.drop_last()) + decode_utf8(parts.last())
    }
}

/// The text of a path: its `Normal` names joined in order, or `None` when
/// one of them is not valid UTF-8.
pub open spec fn path_text(p: Seq<PathComponent>) -> Option<Seq<char>> {
    if parts_are_text(normal_parts(p)) {
        Some(parts_text(normal_parts(p)))
    } else {
        None
    }
}

/// The names of a prefix of a path are a prefix of the path's names.
pub proof fn lemma_normal_parts_prefix(p: Seq<PathComponent>, i: int)
    requires
        0 <= i <= p.len(),
    ensures
        normal_parts(p.subrange(0, i)).len() <= normal_parts(p).len(),
        normal_parts(p.subrange(0, i)) == normal_parts(p).subrange(
            0,
            normal_parts(p.subrange(0, i)).len() as int,
        ),
    decreases p.len() - i,
{
    if i < p.len() {
        lemma_normal_parts_prefix(p, i + 1);
        assert(p.subrange(0, i + 1).drop_last() =~= p.subrange(0, i));
        let short = normal_parts(p.subrange(0, i));
        let long = normal_parts(p.subrange(0, i + 1));
        assert(short =~= long.subrange(0, short.len() as int));
        assert(short =~= normal_parts(p).subrange(0, short.len() as int));
    } else {
        assert(p.subrange(0, i) =~= p);
        assert(normal_parts(p) =~= normal_parts(p).subrange(0, normal_parts(p).len() as int));
    }
}

/// Relies on `std::str::from_utf8`: it succeeds exactly on valid UTF-8, and
/// the text it returns is what those bytes encode.
#[verifier::external_body]
fn utf8_text(b: &[u8]) -> (r: Option<&str>)
    ensures
        r is Some <==> valid_utf8(b@),
        r is Some ==> r->0@ == decode_utf8(b@),
{
    std::str::from_utf8(b).ok()
}

/// Joins the names of the `Normal` components of `path`, in order and with
/// no separator; roots, prefixes, `.` and `..` are passed over. Returns
/// `None` as soon as a name is not valid UTF-8.
pub fn normal_text(path: &[PathComponent]) -> (r: Option<String>)
    ensures
        r is Some <==> path_text(path@) is Some,
        r is Some ==> Some(r->0@) == path_text(path@),
{
    let mut acc = String::new();
    let mut i: usize = 0;
    while i < path.len()
        invariant
            0 <= i <= path@.len(),
            parts_are_text(normal_parts(path@.subrange(0, i as int))),
            acc@ == parts_text(normal_parts(path@.subrange(0, i as int))),
        decreases path@.len() - i,
    {
        let ghost before = normal_parts(path@.subrange(0, i as int));
        assert(path@.subrange(0, i + 1).drop_last() =~= path@.subrange(0, i as int));
        match &path[i] {
            PathComponent::Normal(b) => {
                assert(normal_parts(path@.subrange(0, i + 1)) == before.push(b@));
                match utf8_text(b.as_slice()) {
                    Some(t) => {
                        assert(before.push(b@).drop_last() =~= before);
                        acc.append(t);
                    },
                    None => {
                        proof {
                            lemma_normal_parts_prefix(path@, i + 1);
                            let whole = normal_parts(path@);
                            let upto = normal_parts(path@.subrange(0, i + 1));
                            assert(upto[before.len() as int] == b@);
                            assert(upto == whole.subrange(0, upto.len() as int));
                            assert(whole[before.len() as int] == b@);
                        }
                        return None;
                    },
                }
            },
            _ => {},
        }
        i += 1;
    }
    assert(path@.subrange(0, path@.len() as int) =~= path@);
    Some(acc)
}

}
