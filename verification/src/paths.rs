//! Unix paths as strings.
use std::path::Path;

use vstd::prelude::*;

verus! {

/// `name` inside the directory `base`. `name` is relative.
pub open spec fn joined(base: Seq<char>, name: Seq<char>) -> Seq<char> {
    if base.len() == 0 || base.last() == '/' {
        base + name
    } else {
        base.push('/') + name
    }
}

/// What stands between the slashes of a path.
pub open spec fn pieces(path: Seq<char>) -> Seq<Seq<char>>
    decreases path.len(),
{
    if path.len() == 0 {
        seq![Seq::empty()]
    } else {
        let before = pieces(path.drop_last());
        if path.last() == '/' {
            before.push(Seq::empty())
        } else {
            before.drop_last().push(before.last().push(path.last()))
        }
    }
}

/// A piece that names something: it is neither empty nor the directory itself.
pub open spec fn is_name() -> spec_fn(Seq<char>) -> bool {
    |piece: Seq<char>| piece.len() > 0 && piece != "."@
}

/// The components of a Unix path, as `std::path::Path::components` has them: the root, or the
/// directory itself where the path begins with it, and then the names.
pub open spec fn components(path: Seq<char>) -> Seq<Seq<char>> {
    let names = pieces(path).filter(is_name());
    if path.len() > 0 && path[0] == '/' {
        seq!["/"@] + names
    } else if pieces(path)[0] == "."@ {
        seq!["."@] + names
    } else {
        names
    }
}

/// A path begins with all components of `base`.
pub open spec fn lies_under(path: Seq<char>, base: Seq<char>) -> bool {
    components(base).is_prefix_of(components(path))
}

/// Two paths have the same components.
pub open spec fn same_path(path: Seq<char>, other: Seq<char>) -> bool {
    components(path) == components(other)
}

/// The last component of a path, where that is a name.
pub open spec fn file_name_of(path: Seq<char>) -> Option<Seq<char>> {
    let all = components(path);
    if all.len() == 0 || all.last() == "/"@ || all.last() == "."@ || all.last() == ".."@ {
        None
    } else {
        Some(all.last())
    }
}

/// The text that `std::path::Path::parent` gives for a Unix path.
pub uninterp spec fn parent_of(path: Seq<char>) -> Option<Seq<char>>;

/// `name` inside the directory `base`.
pub fn join(base: &str, name: &str) -> (r: String)
    ensures
        r@ == joined(base@, name@),
{
    let mut r: String = base.to_owned();
    let count: usize = base.unicode_len();
    if count > 0 && base.get_char(count - 1) != '/' {
        proof {
            reveal_strlit("/");
        }
        r.append("/");
        assert(r@ == base@.push('/'));
    }
    r.append(name);
    r
}

/// A piece follows those that were there before a slash.
proof fn lemma_last_piece(base: Seq<char>, name: Seq<char>)
    requires
        !name.contains('/'),
    ensures
        pieces(base.push('/') + name) == pieces(base).push(name),
    decreases name.len(),
{
    let path = base.push('/') + name;
    if name.len() == 0 {
        assert(path.drop_last() =~= base);
        assert(name =~= Seq::empty());
    } else {
        let shorter = name.drop_last();
        assert(name[name.len() - 1] != '/');
        assert forall|i: int| 0 <= i < shorter.len() implies shorter[i] != '/' by {
            assert(name[i] != '/');
        }
        lemma_last_piece(base, shorter);
        assert(path.drop_last() =~= base.push('/') + shorter);
        assert(shorter.push(name.last()) =~= name);
        assert(pieces(base).push(shorter).drop_last() =~= pieces(base));
    }
}

/// A name is all there is of a path without a slash.
proof fn lemma_only_piece(name: Seq<char>)
    requires
        !name.contains('/'),
    ensures
        pieces(name) == seq![name],
    decreases name.len(),
{
    if name.len() > 0 {
        let shorter = name.drop_last();
        assert(name[name.len() - 1] != '/');
        assert forall|i: int| 0 <= i < shorter.len() implies shorter[i] != '/' by {
            assert(name[i] != '/');
        }
        lemma_only_piece(shorter);
        assert(shorter.push(name.last()) =~= name);
        assert(pieces(name) =~= seq![name]);
    } else {
        assert(name =~= Seq::empty());
    }
}

/// There is always a piece.
proof fn lemma_some_piece(path: Seq<char>)
    ensures
        pieces(path).len() > 0,
    decreases path.len(),
{
    if path.len() > 0 {
        lemma_some_piece(path.drop_last());
    }
}

/// One more piece adds a name, or nothing.
proof fn lemma_names_of_more(all: Seq<Seq<char>>, piece: Seq<char>)
    ensures
        all.push(piece).filter(is_name()) == if is_name()(piece) {
            all.filter(is_name()).push(piece)
        } else {
            all.filter(is_name())
        },
{
    reveal(Seq::filter);
    assert(all.push(piece).drop_last() =~= all);
}

/// What is inside a directory has the components of the directory and its own name.
pub proof fn law_joining_adds_a_component(base: Seq<char>, name: Seq<char>)
    requires
        name.len() > 0,
        name != "."@,
        !name.contains('/'),
    ensures
        components(joined(base, name)) == components(base).push(name),
{
    let path = joined(base, name);
    let pushed = components(base).push(name);
    assert(name[0] != '/');
    lemma_some_piece(base);
    if base.len() == 0 {
        assert(path =~= name);
        lemma_only_piece(name);
        lemma_names_of_more(Seq::empty(), name);
        lemma_names_of_more(Seq::empty(), Seq::empty());
        reveal(Seq::filter);
        reveal_strlit(".");
        assert(seq![name] =~= Seq::<Seq<char>>::empty().push(name));
        assert(pieces(base) =~= Seq::<Seq<char>>::empty().push(Seq::empty()));
        assert(components(path) =~= pushed);
    } else if base.last() == '/' {
        let outer = base.drop_last();
        assert(outer.push('/') =~= base);
        lemma_some_piece(outer);
        lemma_last_piece(outer, name);
        lemma_names_of_more(pieces(outer), name);
        lemma_names_of_more(pieces(outer), Seq::empty());
        assert(pieces(path)[0] == pieces(outer)[0] && pieces(base)[0] == pieces(outer)[0]);
        assert(components(path) =~= pushed);
    } else {
        lemma_last_piece(base, name);
        lemma_names_of_more(pieces(base), name);
        assert(pieces(path)[0] == pieces(base)[0]);
        assert(components(path) =~= pushed);
    }
}

/// Calls `Path::file_name`. The contract says that the result is the last component of the path:
/// it is there where that is a name, and not where there is none, or where it is the root or `..`.
/// Of a path that is nothing but the directory itself, `.`, it does not say whether there is one.
#[verifier::external_body]
pub(crate) fn file_name(path: &str) -> (r: Option<String>)
    ensures
        match r {
            Some(name) => {
                let all = components(path@);
                &&& all.len() > 0
                &&& name@ == all.last()
                &&& name@ != "/"@
                &&& name@ != ".."@
            },
            None => file_name_of(path@) is None,
        },
{
    Path::new(path).file_name().and_then(|name| name.to_str()).map(|name| name.to_owned())
}

/// Calls `Path::parent`. The contract says that the result has all components of the path but the
/// last, that there is one unless the path is empty or ends in the root, and that its text is a
/// function of the path alone.
#[verifier::external_body]
pub(crate) fn parent(path: &str) -> (r: Option<String>)
    ensures
        (match r {
            Some(directory) => Some(directory@),
            None => None,
        }) == parent_of(path@),
        match r {
            Some(directory) => {
                let all = components(path@);
                &&& all.len() > 0
                &&& all.last() != "/"@
                &&& components(directory@) == all.drop_last()
            },
            None => components(path@).len() == 0 || components(path@).last() == "/"@,
        },
{
    Path::new(path).parent().and_then(|directory| directory.to_str()).map(|d| d.to_owned())
}

/// Calls `Path::starts_with`. The contract says that whole components are compared.
#[verifier::external_body]
pub(crate) fn starts_with(path: &str, base: &str) -> (r: bool)
    ensures
        r == lies_under(path@, base@),
{
    Path::new(path).starts_with(base)
}

/// Compares two `Path`s with `==`. The contract says that their components are compared.
#[verifier::external_body]
pub(crate) fn is_same(path: &str, other: &str) -> (r: bool)
    ensures
        r == same_path(path@, other@),
{
    Path::new(path) == Path::new(other)
}

} // verus!
