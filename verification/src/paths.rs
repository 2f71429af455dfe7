//! Paths of the file system, as the bytes that they consist of.

use vstd::prelude::*;
use vstd::utf8::encode_utf8;

verus! {

/// The byte between two components of a path.
pub const SLASH: u8 = 0x2f;

/// The place of the last slash of a path, or -1.
pub open spec fn last_slash(path: Seq<u8>) -> int
    decreases path.len(),
{
    if path.len() == 0 {
        -1
    } else if path.last() == SLASH {
        path.len() - 1
    } else {
        last_slash(path.drop_last())
    }
}

/// A piece of a path that names nothing: an empty one, or a dot.
pub open spec fn is_idle(piece: Seq<u8>) -> bool {
    piece.len() == 0 || piece == seq![0x2eu8]
}

/// The components of a path: its pieces between slashes, without those that name nothing. A dot
/// in front of the first slash counts.
pub open spec fn components(path: Seq<u8>) -> Seq<Seq<u8>>
    decreases path.len(),
    via components_shrink
{
    let at = last_slash(path);
    if at < 0 {
        if path.len() == 0 {
            Seq::empty()
        } else {
            seq![path]
        }
    } else if is_idle(path.skip(at + 1)) {
        components(path.take(at))
    } else {
        components(path.take(at)).push(path.skip(at + 1))
    }
}

#[via_fn]
proof fn components_shrink(path: Seq<u8>) {
    lemma_last_slash(path);
}

/// The path begins at the root.
pub open spec fn has_root(path: Seq<u8>) -> bool {
    path.len() > 0 && path[0] == SLASH
}

/// The path is that of `base` or leads below it. Every path leads below an empty one.
pub open spec fn lies_within(path: Seq<u8>, base: Seq<u8>) -> bool {
    &&& has_root(path) == has_root(base) || base.len() == 0
    &&& components(base).is_prefix_of(components(path))
}

/// The path of a relative path below `root`.
pub open spec fn below(root: Seq<u8>, relative: Seq<u8>) -> Seq<u8> {
    if root.len() == 0 || root.last() == SLASH {
        root + relative
    } else {
        root.push(SLASH) + relative
    }
}

/// The components with slashes between them.
pub open spec fn joined(pieces: Seq<Seq<u8>>) -> Seq<u8>
    decreases pieces.len(),
{
    if pieces.len() == 0 {
        Seq::empty()
    } else if pieces.len() == 1 {
        pieces[0]
    } else {
        joined(pieces.drop_last()).push(SLASH) + pieces.last()
    }
}

/// The contents of byte strings.
pub open spec fn contents(pieces: Seq<Vec<u8>>) -> Seq<Seq<u8>> {
    Seq::new(pieces.len(), |i: int| pieces[i]@)
}

proof fn lemma_last_slash(path: Seq<u8>)
    ensures
        -1 <= last_slash(path) < path.len(),
        last_slash(path) >= 0 ==> path[last_slash(path)] == SLASH,
        forall|i: int| last_slash(path) < i < path.len() ==> #[trigger] path[i] != SLASH,
    decreases path.len(),
{
    if path.len() > 0 && path.last() != SLASH {
        lemma_last_slash(path.drop_last());
        assert forall|i: int| last_slash(path) < i < path.len() implies #[trigger] path[i]
            != SLASH by {
            if i < path.len() - 1 {
                assert(path.drop_last()[i] == path[i]);
            }
        }
    }
}

proof fn lemma_last_slash_is(path: Seq<u8>, at: int)
    requires
        -1 <= at < path.len(),
        at >= 0 ==> path[at] == SLASH,
        forall|i: int| at < i < path.len() ==> #[trigger] path[i] != SLASH,
    ensures
        last_slash(path) == at,
{
    lemma_last_slash(path);
}

/// Copies a part of a byte string.
pub fn part(bytes: &Vec<u8>, from: usize, to: usize) -> (copy: Vec<u8>)
    requires
        from <= to <= bytes@.len(),
    ensures
        copy@ == bytes@.subrange(from as int, to as int),
{
    let mut copy: Vec<u8> = Vec::new();
    let mut i: usize = from;
    while i < to
        invariant
            from <= i <= to,
            to <= bytes@.len(),
            copy@ == bytes@.subrange(from as int, i as int),
        decreases to - i,
    {
        copy.push(bytes[i]);
        i += 1;
    }
    copy
}

/// Whether two byte strings are equal.
pub fn same_bytes(a: &Vec<u8>, b: &Vec<u8>) -> (equal: bool)
    ensures
        equal == (a@ == b@),
{
    if a.len() != b.len() {
        return false;
    }
    let mut i: usize = 0;
    while i < a.len()
        invariant
            i <= a@.len(),
            a@.len() == b@.len(),
            forall|j: int| 0 <= j < i ==> a@[j] == b@[j],
        decreases a@.len() - i,
    {
        if a[i] != b[i] {
            return false;
        }
        i += 1;
    }
    assert(a@ == b@);
    true
}

/// Lists the components of a path.
pub fn split_path(path: &Vec<u8>) -> (pieces: Vec<Vec<u8>>)
    ensures
        contents(pieces@) == components(path@),
{
    let len: usize = path.len();
    let mut pieces: Vec<Vec<u8>> = Vec::new();
    let mut from: usize = 0;
    let mut i: usize = 0;
    assert(contents(pieces@) == Seq::<Seq<u8>>::empty());
    while i < len
        invariant
            from <= i <= len,
            len == path@.len(),
            from > 0 ==> path@[from - 1] == SLASH,
            forall|j: int| from <= j < i ==> #[trigger] path@[j] != SLASH,
            contents(pieces@) == (if from == 0 {
                Seq::empty()
            } else {
                components(path@.take(from - 1))
            }),
        decreases len - i,
    {
        if path[i] == SLASH {
            let piece = part(path, from, i);
            proof {
                lemma_last_slash_is(path@.take(i as int), from - 1);
                if from > 0 {
                    assert(path@.take(i as int).take(from - 1) == path@.take(from - 1));
                    assert(path@.take(i as int).skip(from as int) == piece@);
                } else {
                    assert(path@.take(i as int) == piece@);
                }
            }
            push_piece(&mut pieces, piece, from == 0);
            from = i + 1;
        }
        i += 1;
    }
    let piece = part(path, from, len);
    proof {
        lemma_last_slash_is(path@, from - 1);
        if from > 0 {
            assert(path@.skip(from as int) == piece@);
        } else {
            assert(path@ == piece@);
        }
    }
    push_piece(&mut pieces, piece, from == 0);
    pieces
}

/// Adds a piece to the components in front of it.
fn push_piece(pieces: &mut Vec<Vec<u8>>, piece: Vec<u8>, first: bool)
    ensures
        contents(final(pieces)@) == (if (first && piece@.len() > 0) || !is_idle(piece@) {
            contents(old(pieces)@).push(piece@)
        } else {
            contents(old(pieces)@)
        }),
{
    let idle = piece.len() == 0 || (piece.len() == 1 && piece[0] == 0x2e);
    proof {
        if piece@.len() == 1 && piece@[0] == 0x2e {
            assert(piece@ == seq![0x2eu8]);
        }
    }
    if (first && piece.len() > 0) || !idle {
        pieces.push(piece);
        assert(contents(pieces@) == contents(old(pieces)@).push(piece@));
    }
}

/// Whether a path begins at the root.
pub fn is_rooted(path: &Vec<u8>) -> (rooted: bool)
    ensures
        rooted == has_root(path@),
{
    path.len() > 0 && path[0] == SLASH
}

/// Whether the components of `base` stand in front of those of a path.
fn begins_with_pieces(pieces: &Vec<Vec<u8>>, base: &Vec<Vec<u8>>) -> (found: bool)
    ensures
        found == contents(base@).is_prefix_of(contents(pieces@)),
{
    if base.len() > pieces.len() {
        return false;
    }
    let mut i: usize = 0;
    while i < base.len()
        invariant
            i <= base@.len() <= pieces@.len(),
            forall|j: int| 0 <= j < i ==> contents(base@)[j] == contents(pieces@)[j],
        decreases base@.len() - i,
    {
        if !same_bytes(&base[i], &pieces[i]) {
            assert(contents(base@)[i as int] != contents(pieces@).take(base@.len() as int)[i as int]);
            return false;
        }
        i += 1;
    }
    assert(contents(base@) == contents(pieces@).take(base@.len() as int));
    true
}

/// Whether a path is that of `base` or leads below it.
pub fn starts_with(path: &Vec<u8>, base: &Vec<u8>) -> (found: bool)
    ensures
        found == lies_within(path@, base@),
{
    if is_rooted(path) != is_rooted(base) && base.len() > 0 {
        return false;
    }
    let pieces = split_path(path);
    let front = split_path(base);
    begins_with_pieces(&pieces, &front)
}

/// Puts a relative path below `root`.
pub fn join_path(root: &Vec<u8>, relative: &str) -> (path: Vec<u8>)
    ensures
        path@ == below(root@, encode_utf8(relative@)),
{
    let len: usize = root.len();
    let mut path = part(root, 0, len);
    assert(path@ == root@);
    if len > 0 && root[len - 1] != SLASH {
        path.push(SLASH);
    }
    let mut tail = relative.as_bytes_vec();
    path.append(&mut tail);
    path
}

/// The way from `base` to a path at or below it.
pub open spec fn way(path: Seq<u8>, base: Seq<u8>) -> Seq<u8> {
    joined(components(path).skip(components(base).len() as int))
}

/// The way from `base` to a path, where the path lies at or below it.
pub fn relative_path(path: &Vec<u8>, base: &Vec<u8>) -> (relative: Option<Vec<u8>>)
    ensures
        match relative {
            Some(relative) => lies_within(path@, base@) && relative@ == way(path@, base@),
            None => !lies_within(path@, base@),
        },
{
    if is_rooted(path) != is_rooted(base) && base.len() > 0 {
        return None;
    }
    let pieces = split_path(path);
    let front = split_path(base);
    if !begins_with_pieces(&pieces, &front) {
        return None;
    }
    let start: usize = front.len();
    let ghost rest = contents(pieces@).skip(start as int);
    assert(contents(front@).len() == start);
    let mut relative: Vec<u8> = Vec::new();
    let mut i: usize = start;
    while i < pieces.len()
        invariant
            start <= i <= pieces@.len(),
            rest == contents(pieces@).skip(start as int),
            relative@ == joined(rest.take(i - start)),
        decreases pieces@.len() - i,
    {
        proof {
            assert(rest.take(i + 1 - start).drop_last() == rest.take(i - start));
            assert(rest.take(i + 1 - start).last() == pieces@[i as int]@);
        }
        if i > start {
            relative.push(SLASH);
        }
        let mut piece = part(&pieces[i], 0, pieces[i].len());
        assert(piece@ == pieces@[i as int]@);
        relative.append(&mut piece);
        assert(relative@ == joined(rest.take(i + 1 - start)));
        i += 1;
    }
    assert(rest.take(i - start) == rest);
    Some(relative)
}

/// A name below a path is one more component of it, however the path ends. The names that stand
/// for nothing are an empty one and a dot.
pub proof fn names_below_are_components(root: Seq<u8>, name: Seq<u8>)
    requires
        root.len() > 0,
        name.len() > 0,
        name != seq![0x2eu8],
        !name.contains(SLASH),
    ensures
        components(below(root, name)) == components(root).push(name),
        has_root(below(root, name)) == has_root(root),
{
    let front = if root.last() == SLASH {
        root.drop_last()
    } else {
        root
    };
    let path = front + seq![SLASH] + name;
    assert(below(root, name) =~= path);
    assert forall|i: int| front.len() < i < path.len() implies #[trigger] path[i] != SLASH by {
        assert(path[i] == name[i - front.len() - 1]);
    }
    lemma_last_slash_is(path, front.len() as int);
    assert(path.take(front.len() as int) =~= front);
    assert(path.skip(front.len() as int + 1) =~= name);
    if root.last() == SLASH {
        lemma_last_slash_is(root, root.len() - 1);
        assert(root.take(root.len() - 1) =~= front);
        assert(root.skip(root.len() as int).len() == 0);
    }
}

/// A path lies within itself, and what lies within a directory lies within every directory that
/// the directory lies within.
pub proof fn lying_within_is_transitive(path: Seq<u8>, base: Seq<u8>, outer: Seq<u8>)
    ensures
        lies_within(path, path),
        lies_within(path, base) && lies_within(base, outer) ==> lies_within(path, outer),
{
    assert(components(path).take(components(path).len() as int) =~= components(path));
    if lies_within(path, base) && lies_within(base, outer) {
        let (p, b, o) = (components(path), components(base), components(outer));
        assert forall|i: int| 0 <= i < o.len() implies p[i] == o[i] by {
            assert(b[i] == b.take(o.len() as int)[i]);
            assert(p[i] == p.take(b.len() as int)[i]);
        }
        assert(p.take(o.len() as int) =~= o);
        if base.len() == 0 && outer.len() > 0 {
            assert(b.len() == 0);
            lemma_last_slash(outer);
        }
        if base.len() == 0 {
            lemma_rootless_has_components(outer);
        }
    }
}

/// A path that does not begin at the root has a component unless it is empty.
proof fn lemma_rootless_has_components(path: Seq<u8>)
    ensures
        path.len() > 0 && !has_root(path) ==> components(path).len() > 0,
    decreases path.len(),
{
    if path.len() > 0 && !has_root(path) {
        lemma_last_slash(path);
        let at = last_slash(path);
        if at >= 0 {
            if at == 0 {
                assert(path[0] == SLASH);
            }
            assert(path.take(at)[0] == path[0]);
            lemma_rootless_has_components(path.take(at));
        }
    }
}

/// What stands below a directory lies within it, and the way there is its name. A directory does
/// not lie within what stands below it.
pub proof fn names_below_lie_within(root: Seq<u8>, name: Seq<u8>)
    requires
        root.len() > 0,
        name.len() > 0,
        name != seq![0x2eu8],
        !name.contains(SLASH),
    ensures
        lies_within(below(root, name), root),
        way(below(root, name), root) == name,
        way(root, root) == Seq::<u8>::empty(),
        !lies_within(root, below(root, name)),
{
    names_below_are_components(root, name);
    let pieces = components(root).push(name);
    assert(pieces.take(components(root).len() as int) =~= components(root));
    assert(pieces.skip(components(root).len() as int) =~= seq![name]);
    assert(components(root).skip(components(root).len() as int).len() == 0);
    assert(joined(seq![name]) == name);
}

/// A directory is not taken for another that its name only begins with: two names below one
/// directory lie within one another only where they are the same name.
pub proof fn siblings_do_not_lie_within(root: Seq<u8>, name: Seq<u8>, other: Seq<u8>)
    requires
        root.len() > 0,
        name.len() > 0,
        name != seq![0x2eu8],
        !name.contains(SLASH),
        other.len() > 0,
        other != seq![0x2eu8],
        !other.contains(SLASH),
        name != other,
    ensures
        !lies_within(below(root, name), below(root, other)),
{
    names_below_are_components(root, name);
    names_below_are_components(root, other);
    let a = components(root).push(name);
    let b = components(root).push(other);
    if b.is_prefix_of(a) {
        assert(b[components(root).len() as int] == a.take(b.len() as int)[components(
            root,
        ).len() as int]);
    }
}

/// A path from the root and one from elsewhere never lie within one another, unless the outer one
/// is empty.
pub proof fn roots_are_kept_apart(path: Seq<u8>, base: Seq<u8>)
    requires
        base.len() > 0,
        has_root(path) != has_root(base),
    ensures
        !lies_within(path, base),
{
}

/// The way to a path spells its remaining components with a slash between each two.
pub proof fn ways_are_spelled_with_slashes(front: Seq<Seq<u8>>, last: Seq<u8>)
    requires
        front.len() > 0,
    ensures
        joined(front.push(last)) == joined(front) + seq![SLASH] + last,
        joined(seq![last]) == last,
        joined(Seq::empty()) == Seq::<u8>::empty(),
{
    assert(front.push(last).drop_last() =~= front);
    assert(joined(front).push(SLASH) + last =~= joined(front) + seq![SLASH] + last);
}

} // verus!
