//! The last name in a path, and its extension.

use crate::pieces::{lemma_pieces, pieces, Separator};
use crate::text::text_in;
use vstd::prelude::*;

verus! {

/// A piece of a path that names something: not empty and not `.`, which stands
/// for the place itself.
pub open spec fn is_name(piece: Seq<char>) -> bool {
    piece.len() > 0 && piece != "."@
}

/// The last of `names` that names something.
pub open spec fn last_name(names: Seq<Seq<char>>) -> Option<Seq<char>>
    decreases names.len(),
{
    if names.len() == 0 {
        None
    } else if is_name(names.last()) {
        Some(names.last())
    } else {
        last_name(names.drop_last())
    }
}

/// The name of the file that a path leads to, where `sep` separates the names.
/// There is none if the path names nothing or ends by going up.
pub open spec fn file_name_in(path: Seq<char>, sep: Separator) -> Option<Seq<char>> {
    match last_name(pieces(path, sep)) {
        Some(name) => if name == ".."@ {
            None
        } else {
            Some(name)
        },
        None => None,
    }
}

/// Where the last dot in a text stands.
pub open spec fn last_dot(s: Seq<char>) -> Option<int>
    decreases s.len(),
{
    if s.len() == 0 {
        None
    } else if s.last() == '.' {
        Some(s.len() - 1)
    } else {
        last_dot(s.drop_last())
    }
}

/// What follows the last dot of a file name, unless the dot is its first
/// character.
pub open spec fn extension_of_name(name: Seq<char>) -> Option<Seq<char>> {
    match last_dot(name) {
        Some(i) => if i > 0 {
            Some(name.skip(i + 1))
        } else {
            None
        },
        None => None,
    }
}

/// The extension of the file that a path leads to, where `sep` separates the
/// names.
pub open spec fn extension_in(path: Seq<char>, sep: Separator) -> Option<Seq<char>> {
    match file_name_in(path, sep) {
        Some(name) => extension_of_name(name),
        None => None,
    }
}

/// No system reads the start of the path as the name of a drive or a server in
/// place of a file name: it does not begin with two separators, and there is no
/// colon in its last name.
pub open spec fn has_plain_name(path: Seq<char>) -> bool {
    &&& !(path.len() >= 2 && Separator::Slash.cuts(path[0]) && Separator::Slash.cuts(path[1]))
    &&& last_name(pieces(path, Separator::Slash)) matches Some(name) ==> !name.contains(':')
}

/// `e` stands in the path behind a dot.
pub open spec fn follows_dot(path: Seq<char>, e: Seq<char>) -> bool {
    exists|i: int|
        0 < i <= path.len() - e.len() && path[i - 1] == '.' && #[trigger] path.subrange(
            i,
            i + e.len(),
        ) == e
}

/// A system may take this for the extension of the file that a path leads to.
/// Every system separates names by slashes, some by backslashes too. A path
/// that may begin with a drive or a server is left open, but that an extension
/// is a part of the path that follows its file name's last dot.
pub open spec fn may_be_extension(path: Seq<char>, ext: Option<Seq<char>>) -> bool {
    &&& has_plain_name(path) ==> ext == extension_in(path, Separator::At('/')) || ext
        == extension_in(path, Separator::Slash)
    &&& ext matches Some(e) ==> !e.contains('.') && follows_dot(path, e)
}

/// `std::path::Path::extension`: the extension of the file that a path leads to,
/// as the system reads paths. It is claimed what the documentation says: it is
/// what follows the last dot of the file name, unless there is no file name or
/// the dot begins it; and the file name is the last name in the path that is
/// not `.`, unless it is `..`. Names are separated by slashes and, on Windows,
/// by backslashes. What Windows makes of a path that may begin with a drive or
/// a server is not claimed, but that the extension is a part of the path
/// without a dot that follows one.
#[verifier::external_body]
pub(crate) fn extension(path: &str) -> (r: Option<String>)
    ensures
        may_be_extension(path@, text_in(r)),
{
    match std::path::Path::new(path).extension() {
        Some(ext) => match ext.to_str() {
            Some(text) => Some(text.to_owned()),
            None => None,
        },
        None => None,
    }
}

/// A text without separators makes the last piece of another longer.
proof fn lemma_last_piece_grows(s: Seq<char>, more: Seq<char>, sep: Separator)
    requires
        forall|k: int| 0 <= k < more.len() ==> !sep.cuts(#[trigger] more[k]),
    ensures
        pieces(s, sep).len() > 0,
        pieces(s + more, sep) == pieces(s, sep).drop_last().push(pieces(s, sep).last() + more),
    decreases more.len(),
{
    lemma_pieces(s, sep);
    let before = pieces(s, sep);
    if more.len() == 0 {
        assert(s + more =~= s);
        assert(before.last() + more =~= before.last());
        assert(before.drop_last().push(before.last()) =~= before);
    } else {
        let shorter = more.drop_last();
        assert forall|k: int| 0 <= k < shorter.len() implies !sep.cuts(#[trigger] shorter[k]) by {
            assert(shorter[k] == more[k]);
        }
        lemma_last_piece_grows(s, shorter, sep);
        assert((s + more).drop_last() =~= s + shorter);
        assert((s + more).last() == more[more.len() - 1]);
        let grown = before.drop_last().push(before.last() + shorter);
        assert(pieces(s + shorter, sep) == grown);
        assert(grown.drop_last() =~= before.drop_last());
        assert((before.last() + shorter).push(more.last()) =~= before.last() + more);
    }
}

/// A text that does not end in a separator has a last piece that is not empty.
proof fn lemma_last_piece_not_empty(s: Seq<char>, sep: Separator)
    requires
        s.len() > 0,
        !sep.cuts(s.last()),
    ensures
        pieces(s, sep).last().len() > 0,
{
}

/// The last dot of a name stands before what has no dot.
proof fn lemma_last_dot(name: Seq<char>, e: Seq<char>)
    requires
        !e.contains('.'),
    ensures
        last_dot(name.push('.') + e) == Some(name.len() as int),
    decreases e.len(),
{
    let s = name.push('.') + e;
    if e.len() == 0 {
        assert(s =~= name.push('.'));
    } else {
        let shorter = e.drop_last();
        assert(!shorter.contains('.')) by {
            if shorter.contains('.') {
                let k = shorter.index_of('.');
                assert(e[k] == '.');
            }
        }
        assert(s.last() == e[e.len() - 1]);
        assert(s.drop_last() =~= name.push('.') + shorter);
        lemma_last_dot(name, shorter);
    }
}

proof fn lemma_plain_extension(stem: Seq<char>, e: Seq<char>, sep: Separator)
    requires
        stem.len() > 0,
        e.len() > 0,
        !sep.cuts(stem.last()),
        !sep.cuts('.'),
        !e.contains('.'),
        forall|k: int| 0 <= k < e.len() ==> !sep.cuts(#[trigger] e[k]),
    ensures
        extension_in(stem.push('.') + e, sep) == Some(e),
{
    let more = seq!['.'] + e;
    let path = stem.push('.') + e;
    assert(path =~= stem + more);
    assert forall|k: int| 0 <= k < more.len() implies !sep.cuts(#[trigger] more[k]) by {
        if k > 0 {
            assert(more[k] == e[k - 1]);
        }
    }
    lemma_last_piece_grows(stem, more, sep);
    lemma_last_piece_not_empty(stem, sep);
    let p = pieces(stem, sep).last();
    let name = p + more;
    assert(pieces(path, sep).last() == name);
    assert(name =~= p.push('.') + e);
    reveal_strlit(".");
    reveal_strlit("..");
    assert(name.len() >= 3);
    lemma_last_dot(p, e);
    assert(name.skip(p.len() as int + 1) =~= e);
}

/// Where a path ends in a name with a dot inside it, what follows the dot is the
/// extension on every system, if it has no dot and no separator in it.
pub proof fn law_extension_of_plain_path(stem: Seq<char>, e: Seq<char>, ext: Option<Seq<char>>)
    requires
        stem.len() > 0,
        !Separator::Slash.cuts(stem.last()),
        e.len() > 0,
        !e.contains('.'),
        forall|k: int| 0 <= k < e.len() ==> !Separator::Slash.cuts(#[trigger] e[k]),
        has_plain_name(stem.push('.') + e),
        may_be_extension(stem.push('.') + e, ext),
    ensures
        ext == Some(e),
{
    lemma_plain_extension(stem, e, Separator::Slash);
    assert forall|k: int| 0 <= k < e.len() implies !Separator::At('/').cuts(#[trigger] e[k]) by {
        assert(!Separator::Slash.cuts(e[k]));
    }
    lemma_plain_extension(stem, e, Separator::At('/'));
}

proof fn lemma_same_pieces(path: Seq<char>)
    requires
        !path.contains('\\'),
    ensures
        pieces(path, Separator::At('/')) == pieces(path, Separator::Slash),
    decreases path.len(),
{
    if path.len() > 0 {
        let shorter = path.drop_last();
        assert(!shorter.contains('\\')) by {
            if shorter.contains('\\') {
                let k = shorter.index_of('\\');
                assert(path[k] == '\\');
            }
        }
        assert(path[path.len() - 1] != '\\');
        lemma_same_pieces(shorter);
    }
}

/// Without a backslash in a path, its extension is the same on every system.
pub proof fn law_extension_without_backslash(path: Seq<char>, ext: Option<Seq<char>>)
    requires
        !path.contains('\\'),
        has_plain_name(path),
        may_be_extension(path, ext),
    ensures
        ext == extension_in(path, Separator::Slash),
{
    lemma_same_pieces(path);
}

/// The last dot of a text has no dot behind it, and a text without one has none at all.
pub proof fn law_last_dot(s: Seq<char>)
    ensures
        last_dot(s) is None <==> !s.contains('.'),
        last_dot(s) matches Some(i) ==> 0 <= i < s.len() && s[i] == '.' && !s.skip(i + 1).contains(
            '.',
        ),
    decreases s.len(),
{
    if s.len() > 0 {
        let rest = s.drop_last();
        law_last_dot(rest);
        assert(s.last() == s[s.len() - 1]);
        if s.last() == '.' {
            assert(s.contains('.'));
            assert(s.skip(s.len() as int) =~= Seq::empty());
        } else {
            if s.contains('.') {
                let k = s.index_of('.');
                assert(rest[k] == '.');
            }
            if let Some(i) = last_dot(rest) {
                assert(s[i] == rest[i]);
                let tail = s.skip(i + 1);
                if tail.contains('.') {
                    let k = tail.index_of('.');
                    assert(tail[k] == s[i + 1 + k]);
                    assert(rest.skip(i + 1)[k] == s[i + 1 + k]);
                    assert(rest.skip(i + 1).contains('.'));
                }
            }
        }
    }
}

/// A name with an extension is what stands before, a dot, and the extension, which has no
/// dot; before it stands something. Every name of that form has that extension.
pub proof fn law_extension_of_name(name: Seq<char>, stem: Seq<char>, e: Seq<char>)
    ensures
        extension_of_name(name) matches Some(x) ==> !x.contains('.') && name.len() > x.len() + 1
            && name == name.take(name.len() - x.len() - 1).push('.') + x,
        stem.len() > 0 && !e.contains('.') ==> extension_of_name(stem.push('.') + e) == Some(e),
        !e.contains('.') ==> extension_of_name(seq!['.'] + e) is None,
        !e.contains('.') ==> extension_of_name(e) is None,
{
    law_last_dot(name);
    law_last_dot(e);
    if let Some(x) = extension_of_name(name) {
        assert(name =~= name.take(name.len() - x.len() - 1).push('.') + x);
    }
    if !e.contains('.') {
        lemma_last_dot(stem, e);
        lemma_last_dot(Seq::empty(), e);
        assert((stem.push('.') + e).skip(stem.len() as int + 1) =~= e);
        assert(Seq::<char>::empty().push('.') + e =~= seq!['.'] + e);
    }
}

/// The last name is one of the pieces, names something, and nothing behind it does.
pub proof fn law_last_name(names: Seq<Seq<char>>)
    ensures
        last_name(names) is None <==> forall|i: int|
            0 <= i < names.len() ==> (#[trigger] names[i]).len() == 0 || names[i] == seq!['.'],
        last_name(names) matches Some(name) ==> exists|k: int|
            0 <= k < names.len() && #[trigger] names[k] == name && name.len() > 0 && name != seq![
                '.',
            ] && forall|i: int|
                k < i < names.len() ==> (#[trigger] names[i]).len() == 0 || names[i] == seq!['.'],
    decreases names.len(),
{
    reveal_strlit(".");
    assert("."@ =~= seq!['.']);
    if names.len() > 0 {
        let rest = names.drop_last();
        law_last_name(rest);
        assert forall|i: int| 0 <= i < rest.len() implies rest[i] == names[i] by {}
        let last = names[names.len() - 1];
        if is_name(last) {
            assert(last.len() > 0 && last != seq!['.']);
        } else {
            match last_name(rest) {
                Some(name) => {
                    let k = choose|k: int|
                        0 <= k < rest.len() && #[trigger] rest[k] == name && name.len() > 0 && name
                            != seq!['.'] && forall|i: int|
                            k < i < rest.len() ==> (#[trigger] rest[i]).len() == 0 || rest[i]
                                == seq!['.'];
                    assert(names[k] == name);
                    assert forall|i: int| k < i < names.len() implies (#[trigger] names[i]).len()
                        == 0 || names[i] == seq!['.'] by {
                        if i < rest.len() {
                            assert(rest[i] == names[i]);
                        }
                    }
                },
                None => {
                    assert forall|i: int| 0 <= i < names.len() implies (
                    #[trigger] names[i]).len() == 0 || names[i] == seq!['.'] by {
                        if i < rest.len() {
                            assert(rest[i] == names[i]);
                        }
                    }
                },
            }
        }
    }
}

} // verus!
