//! File paths, compared by their components.
//!
//! A path is a text with `/` between its components. Repeated separators, separators at
//! the end and `.` anywhere but at the beginning do not tell paths apart; `..` does.

use vstd::prelude::*;
use vstd::string::*;

use crate::text::same_text;
use crate::text::same_texts;
use crate::text::views;

verus! {

/// The components of a path.
pub ghost struct PathView {
    /// Whether the path starts at the root.
    pub rooted: bool,
    pub parts: Seq<Seq<char>>,
}

/// What stands between the separators of `text`.
pub open spec fn pieces(text: Seq<char>) -> Seq<Seq<char>>
    decreases text.len(),
{
    if text.len() == 0 {
        seq![Seq::empty()]
    } else {
        let earlier = pieces(text.drop_last());
        if text.last() == '/' {
            earlier.push(Seq::empty())
        } else {
            earlier.drop_last().push(earlier.last().push(text.last()))
        }
    }
}

/// Whether a piece is a component. A `.` is one only at the beginning of a path that
/// does not start at the root.
pub open spec fn is_component(piece: Seq<char>, leads: bool) -> bool {
    piece.len() > 0 && (leads || piece != "."@)
}

/// The pieces that are components.
pub open spec fn kept(pieces: Seq<Seq<char>>, rooted: bool) -> Seq<Seq<char>>
    decreases pieces.len(),
{
    if pieces.len() == 0 {
        Seq::empty()
    } else if is_component(pieces.last(), pieces.len() == 1 && !rooted) {
        kept(pieces.drop_last(), rooted).push(pieces.last())
    } else {
        kept(pieces.drop_last(), rooted)
    }
}

/// Whether a path starts at the root.
pub open spec fn is_rooted(text: Seq<char>) -> bool {
    text.len() > 0 && text[0] == '/'
}

/// The components of a path.
pub open spec fn components(text: Seq<char>) -> PathView {
    PathView { rooted: is_rooted(text), parts: kept(pieces(text), is_rooted(text)) }
}

/// The components of several paths.
pub open spec fn all_components(paths: Seq<String>) -> Seq<PathView> {
    paths.map_values(|path: String| components(path@))
}

/// Whether a path starts at the root.
fn starts_at_root(text: &str) -> (rooted: bool)
    ensures
        rooted == is_rooted(text@),
{
    text.unicode_len() > 0 && text.get_char(0) == '/'
}

/// Append a piece where it is a component.
fn keep(parts: &mut Vec<String>, piece: &str, leads: bool)
    ensures
        views(final(parts)@) == if is_component(piece@, leads) {
            views(old(parts)@).push(piece@)
        } else {
            views(old(parts)@)
        },
{
    if piece.unicode_len() > 0 && (leads || !same_text(piece, ".")) {
        parts.push(piece.to_owned());
        assert(views(parts@) =~= views(old(parts)@).push(piece@));
    }
}

/// The components of a path.
fn parts_of(text: &str) -> (parts: Vec<String>)
    ensures
        views(parts@) == components(text@).parts,
{
    let rooted = starts_at_root(text);
    let total: usize = text.unicode_len();
    let mut parts: Vec<String> = Vec::new();
    let mut start: usize = 0;
    let mut i: usize = 0;
    assert(text@.take(0) =~= Seq::empty());
    assert(text@.subrange(0, 0) =~= Seq::empty());
    assert(pieces(text@.take(0)).drop_last() =~= Seq::empty());
    assert(views(parts@) =~= Seq::empty());
    while i < total
        invariant
            start <= i <= total,
            total == text@.len(),
            rooted == is_rooted(text@),
            pieces(text@.take(i as int)).len() > 0,
            pieces(text@.take(i as int)).last() == text@.subrange(start as int, i as int),
            pieces(text@.take(i as int)).len() == 1 <==> start == 0,
            views(parts@) == kept(pieces(text@.take(i as int)).drop_last(), rooted),
        decreases total - i,
    {
        let ghost before = pieces(text@.take(i as int));
        let ghost after = pieces(text@.take(i + 1));
        assert(text@.take(i + 1).drop_last() =~= text@.take(i as int));
        if text.get_char(i) == '/' {
            keep(&mut parts, text.substring_char(start, i), start == 0 && !rooted);
            start = i + 1;
            proof {
                assert(after.drop_last() =~= before);
                assert(text@.subrange(start as int, i + 1) =~= Seq::empty());
            }
        } else {
            proof {
                assert(after.drop_last() =~= before.drop_last());
                assert(text@.subrange(start as int, i + 1) =~= text@.subrange(
                    start as int,
                    i as int,
                ).push(text@[i as int]));
            }
        }
        i = i + 1;
    }
    assert(text@.take(i as int) =~= text@);
    keep(&mut parts, text.substring_char(start, total), start == 0 && !rooted);
    parts
}

/// Whether two paths have the same components.
pub fn same_path(a: &str, b: &str) -> (same: bool)
    ensures
        same == (components(a@) == components(b@)),
{
    starts_at_root(a) == starts_at_root(b) && same_texts(&parts_of(a), &parts_of(b))
}

/// Whether two lists of paths have the same components.
pub fn same_paths(a: &Vec<String>, b: &Vec<String>) -> (same: bool)
    ensures
        same == (all_components(a@) == all_components(b@)),
{
    if a.len() != b.len() {
        assert(all_components(a@).len() != all_components(b@).len());
        return false;
    }
    let mut i: usize = 0;
    while i < a.len()
        invariant
            i <= a@.len(),
            a@.len() == b@.len(),
            forall|k: int|
                0 <= k < i ==> components((#[trigger] a@[k])@) == components(b@[k]@),
        decreases a@.len() - i,
    {
        if !same_path(a[i].as_str(), b[i].as_str()) {
            assert(all_components(a@)[i as int] != all_components(b@)[i as int]);
            return false;
        }
        i = i + 1;
    }
    assert(all_components(a@) =~= all_components(b@));
    true
}

/// A separator at the end of a path tells it apart from nothing else, unless it is all
/// there is of the path.
pub proof fn law_a_separator_at_the_end_does_not_count(text: Seq<char>)
    requires
        text.len() > 0,
    ensures
        components(text.push('/')) == components(text),
{
    assert(text.push('/').drop_last() =~= text);
    let all = pieces(text.push('/'));
    assert(all.drop_last() =~= pieces(text));
    assert(text.push('/')[0] == text[0]);
    lemma_there_is_a_piece(text);
}

/// Every path has a piece.
proof fn lemma_there_is_a_piece(text: Seq<char>)
    ensures
        pieces(text).len() > 0,
    decreases text.len(),
{
    if text.len() > 0 {
        lemma_there_is_a_piece(text.drop_last());
    }
}

/// What stands between the separators of two texts with a separator between them is what
/// stands between those of the one and of the other.
proof fn lemma_pieces_of_both(a: Seq<char>, b: Seq<char>)
    ensures
        pieces(a.push('/') + b) == pieces(a) + pieces(b),
    decreases b.len(),
{
    lemma_there_is_a_piece(a);
    lemma_there_is_a_piece(b);
    let whole = a.push('/') + b;
    if b.len() == 0 {
        assert(whole =~= a.push('/'));
        assert(whole.drop_last() =~= a);
        assert(pieces(whole) =~= pieces(a) + pieces(b));
    } else {
        lemma_pieces_of_both(a, b.drop_last());
        lemma_there_is_a_piece(b.drop_last());
        assert(whole.drop_last() =~= a.push('/') + b.drop_last());
        assert(whole.last() == b.last());
        assert(pieces(whole) =~= pieces(a) + pieces(b));
    }
}

/// The components that are kept of more pieces, none of which leads.
proof fn lemma_kept_of_both(first: Seq<Seq<char>>, more: Seq<Seq<char>>, rooted: bool)
    requires
        first.len() > 0,
    ensures
        kept(first + more, rooted) == kept(first, rooted) + more.filter(
            |piece: Seq<char>| piece.len() > 0 && piece != "."@,
        ),
    decreases more.len(),
{
    reveal(Seq::filter);
    if more.len() == 0 {
        assert(first + more =~= first);
        assert(kept(first + more, rooted) =~= kept(first, rooted) + more.filter(
            |piece: Seq<char>| piece.len() > 0 && piece != "."@,
        ));
    } else {
        lemma_kept_of_both(first, more.drop_last(), rooted);
        assert((first + more).drop_last() =~= first + more.drop_last());
        assert((first + more).last() == more.last());
        assert(kept(first + more, rooted) =~= kept(first, rooted) + more.filter(
            |piece: Seq<char>| piece.len() > 0 && piece != "."@,
        ));
    }
}

/// A path has the components of its beginning, and behind a separator every piece that is
/// neither empty nor a single dot. So repeated separators and dots in the middle do not
/// count, and everything else does.
pub proof fn law_a_longer_path_has_more_components(a: Seq<char>, b: Seq<char>)
    requires
        a.len() > 0,
    ensures
        components(a.push('/') + b).rooted == components(a).rooted,
        components(a.push('/') + b).parts == components(a).parts + pieces(b).filter(
            |piece: Seq<char>| piece.len() > 0 && piece != "."@,
        ),
{
    lemma_pieces_of_both(a, b);
    lemma_there_is_a_piece(a);
    assert((a.push('/') + b)[0] == a[0]);
    lemma_kept_of_both(pieces(a), pieces(b), is_rooted(a));
}

/// A text without a separator is one piece, and a component unless it is empty. Only at the
/// beginning does a single dot count, and only a path that begins with a separator starts
/// at the root.
pub proof fn law_a_name_is_one_component(name: Seq<char>)
    requires
        !name.contains('/'),
    ensures
        pieces(name) == seq![name],
        !components(name).rooted,
        components(name).parts == (if name.len() == 0 {
            Seq::<Seq<char>>::empty()
        } else {
            seq![name]
        }),
        components(seq!['/'] + name).rooted,
        components(seq!['/'] + name).parts == (if name.len() == 0 || name == "."@ {
            Seq::<Seq<char>>::empty()
        } else {
            seq![name]
        }),
{
    lemma_one_piece(name);
    assert(!is_rooted(name)) by {
        if name.len() > 0 {
            assert(name.contains(name[0]));
        }
    }
    let empty = Seq::<char>::empty();
    lemma_pieces_of_both(empty, name);
    assert(empty.push('/') + name =~= seq!['/'] + name);
    reveal_with_fuel(kept, 3);
    let one = seq![name];
    assert(one.drop_last() =~= Seq::<Seq<char>>::empty());
    assert(components(name).parts =~= if name.len() == 0 {
        Seq::<Seq<char>>::empty()
    } else {
        seq![name]
    });
    let two = seq![empty] + seq![name];
    assert(pieces(empty) == seq![empty]);
    assert(two.drop_last() =~= seq![empty]);
    assert(two.last() == name);
    assert(seq![empty].drop_last() =~= Seq::<Seq<char>>::empty());
    assert(components(seq!['/'] + name).parts =~= if name.len() == 0 || name == "."@ {
        Seq::<Seq<char>>::empty()
    } else {
        seq![name]
    });
}

proof fn lemma_one_piece(name: Seq<char>)
    requires
        !name.contains('/'),
    ensures
        pieces(name) == seq![name],
    decreases name.len(),
{
    if name.len() == 0 {
        assert(name =~= Seq::<char>::empty());
    } else {
        let shorter = name.drop_last();
        assert(!shorter.contains('/')) by {
            if shorter.contains('/') {
                let k = choose|k: int| 0 <= k < shorter.len() && shorter[k] == '/';
                assert(name[k] == '/');
            }
        }
        lemma_one_piece(shorter);
        assert(name.contains(name.last()));
        assert(shorter.push(name.last()) =~= name);
        assert(pieces(name) =~= seq![name]);
    }
}

} // verus!
