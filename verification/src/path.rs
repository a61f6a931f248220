//! The path of a reference: how a child's path is made from its parent's.

use crate::text::{
    ends_with, lemma_strip_suffix, lemma_strip_suffix_append, lemma_strip_suffix_none,
    strip_suffix, strip_suffix_all,
};
use crate::uri::segments_len;
use vstd::prelude::*;
use vstd::string::*;

verus! {

/// The suffix that the last segment of a path carries where data is
/// addressed.
pub const DOCUMENT_SUFFIX: &'static str = ".json";

/// The segments written one after the other, a slash behind each.
pub open spec fn joined(segments: Seq<Seq<char>>) -> Seq<char>
    decreases segments.len(),
{
    if segments.len() == 0 {
        Seq::empty()
    } else {
        joined(segments.drop_last()) + segments.last() + seq!['/']
    }
}

/// A segment without the document suffix, however often it carries it.
pub open spec fn bare(segment: Seq<char>) -> Seq<char> {
    strip_suffix(segment, DOCUMENT_SUFFIX@)
}

/// What a child's path starts with: the parent's segments, the last of them
/// without the document suffix, a slash behind each.
pub open spec fn parent_path(segments: Seq<Seq<char>>) -> Seq<char> {
    if segments.len() == 0 {
        Seq::empty()
    } else {
        joined(segments.drop_last()) + bare(segments.last()) + seq!['/']
    }
}

/// The path of the child `name` below a parent with the given segments: the
/// parent's path, the name without the document suffix, and the suffix once.
pub open spec fn child_path(segments: Seq<Seq<char>>, name: Seq<char>) -> Seq<char> {
    parent_path(segments) + bare(name) + DOCUMENT_SUFFIX@
}

/// The segments with their slashes are as long as the path they spell.
pub proof fn lemma_joined_len(segments: Seq<Seq<char>>)
    ensures
        joined(segments).len() == segments_len(segments),
    decreases segments.len(),
{
    if segments.len() > 0 {
        lemma_joined_len(segments.drop_last());
    }
}

/// A child's path is no longer than the parent's segments with their
/// slashes, the name and the suffix together.
pub proof fn lemma_child_path_len(segments: Seq<Seq<char>>, name: Seq<char>)
    ensures
        child_path(segments, name).len() <= segments_len(segments) + name.len() + 5,
{
    reveal_strlit(".json");
    lemma_strip_suffix(name, DOCUMENT_SUFFIX@);
    if segments.len() > 0 {
        lemma_joined_len(segments.drop_last());
        lemma_strip_suffix(segments.last(), DOCUMENT_SUFFIX@);
    }
}

/// The place of the first slash in a text, or the length of the text where
/// it holds none.
pub open spec fn first_slash(text: Seq<char>) -> int
    decreases text.len(),
{
    if text.len() == 0 || text[0] == '/' {
        0
    } else {
        1 + first_slash(text.skip(1))
    }
}

/// The segments that a path spells: the texts between its slashes.
pub open spec fn split(path: Seq<char>) -> Seq<Seq<char>>
    decreases path.len(),
{
    let at = first_slash(path);
    if 0 <= at < path.len() {
        seq![path.take(at)] + split(path.skip(at + 1))
    } else {
        seq![path]
    }
}

/// The segments of a path as a URL holds them: those that the path spells,
/// the slash at its start aside.
pub open spec fn stored_segments(path: Seq<char>) -> Seq<Seq<char>> {
    if path.len() > 0 && path[0] == '/' {
        split(path.skip(1))
    } else {
        split(path)
    }
}

/// The segments after descending from the root through the names, one
/// after the other: each descent starts from the segments of the path that
/// the one before it made.
pub open spec fn descended(names: Seq<Seq<char>>) -> Seq<Seq<char>>
    decreases names.len(),
{
    if names.len() == 0 {
        seq![Seq::empty()]
    } else {
        stored_segments(child_path(descended(names.drop_last()), names.last()))
    }
}

/// A name that may be descended to without surprise: it is not empty, it
/// holds no slash, and it does not end with the document suffix.
pub open spec fn is_plain_name(name: Seq<char>) -> bool {
    &&& name.len() > 0
    &&& !name.contains('/')
    &&& !ends_with(name, DOCUMENT_SUFFIX@)
}

/// A character that a path holds as it is written and that is no dot: an
/// ASCII letter or digit, `_` or `-`.
pub open spec fn is_word_char(c: char) -> bool {
    let code = c as u32;
    ||| 0x30 <= code <= 0x39
    ||| 0x41 <= code <= 0x5A
    ||| 0x61 <= code <= 0x7A
    ||| c == '_'
    ||| c == '-'
}

/// A name of such characters only, and not empty.
pub open spec fn is_word(name: Seq<char>) -> bool {
    &&& name.len() > 0
    &&& forall|i: int| 0 <= i < name.len() ==> is_word_char(#[trigger] name[i])
}

/// A segment that a URL takes for a step in the path and not for a name:
/// one dot or two.
pub open spec fn is_dot_segment(segment: Seq<char>) -> bool {
    segment == seq!['.'] || segment == seq!['.', '.']
}

/// A path that a URL stores as it is written: letters, digits, `_`, `-`,
/// dots and slashes, and no dot segment.
pub open spec fn is_plain_path(path: Seq<char>) -> bool {
    &&& forall|i: int|
        0 <= i < path.len() ==> is_word_char(#[trigger] path[i]) || path[i] == '.' || path[i]
            == '/'
    &&& forall|i: int|
        0 <= i < stored_segments(path).len() ==> !is_dot_segment(#[trigger] stored_segments(path)[i])
}

/// A child's path carries the document suffix at its end, and once only:
/// what stands before the suffix does not end with it.
pub proof fn lemma_suffix_once(segments: Seq<Seq<char>>, name: Seq<char>)
    ensures
        ends_with(child_path(segments, name), DOCUMENT_SUFFIX@),
        !ends_with(parent_path(segments) + bare(name), DOCUMENT_SUFFIX@),
        child_path(segments, name) == parent_path(segments) + bare(name) + DOCUMENT_SUFFIX@,
{
    reveal_strlit(".json");
    let suffix = DOCUMENT_SUFFIX@;
    let head = parent_path(segments);
    let stem = head + bare(name);
    let whole = child_path(segments, name);
    assert(whole.skip(whole.len() - suffix.len()) =~= suffix);
    lemma_strip_suffix(name, suffix);
    if ends_with(stem, suffix) {
        let tail = stem.skip(stem.len() - 5);
        if bare(name).len() >= 5 {
            assert(bare(name).skip(bare(name).len() - 5) =~= tail);
        } else {
            assert(head.len() > 0);
            assert(head.last() == '/');
            let at = head.len() - 1 - (stem.len() - 5);
            assert(tail[at] == stem[head.len() - 1]);
            assert(stem[head.len() - 1] == '/');
            assert(suffix[at] != '/');
        }
    }
}

/// To descend to a name that already carries the document suffix is to
/// descend to the name without it.
pub proof fn lemma_descend_idempotent(segments: Seq<Seq<char>>, name: Seq<char>)
    ensures
        child_path(segments, name + DOCUMENT_SUFFIX@) == child_path(segments, name),
{
    reveal_strlit(".json");
    lemma_strip_suffix_append(name, DOCUMENT_SUFFIX@);
}

/// Written from the front: the first segment, a slash, and the rest.
proof fn lemma_joined_front(segments: Seq<Seq<char>>)
    requires
        segments.len() > 0,
    ensures
        joined(segments) == segments[0] + seq!['/'] + joined(segments.skip(1)),
    decreases segments.len(),
{
    if segments.len() == 1 {
        assert(segments.drop_last() =~= Seq::empty());
        assert(segments.skip(1) =~= Seq::empty());
        assert(joined(segments) =~= segments[0] + seq!['/'] + joined(segments.skip(1)));
    } else {
        lemma_joined_front(segments.drop_last());
        assert(segments.drop_last().skip(1) =~= segments.skip(1).drop_last());
        assert(segments.skip(1).last() == segments.last());
        assert(segments.drop_last()[0] == segments[0]);
        assert(joined(segments) =~= segments[0] + seq!['/'] + joined(segments.skip(1)));
    }
}

/// The first slash stands where the text before it, which holds none, ends.
proof fn lemma_first_slash(first: Seq<char>, tail: Seq<char>)
    requires
        !first.contains('/'),
    ensures
        first_slash(first + seq!['/'] + tail) == first.len(),
        first_slash(first) == first.len(),
    decreases first.len(),
{
    let whole = first + seq!['/'] + tail;
    if first.len() > 0 {
        assert(first[0] != '/') by {
            if first[0] == '/' {
                assert(first.contains('/'));
            }
        }
        assert(whole[0] == first[0]);
        assert(!first.skip(1).contains('/')) by {
            if first.skip(1).contains('/') {
                let at = first.skip(1).index_of('/');
                assert(first[at + 1] == '/');
                assert(first.contains('/'));
            }
        }
        lemma_first_slash(first.skip(1), tail);
        assert(whole.skip(1) =~= first.skip(1) + seq!['/'] + tail);
    } else {
        assert(whole[0] == '/');
    }
}

/// A text without a slash is one segment.
proof fn lemma_split_plain(text: Seq<char>)
    requires
        !text.contains('/'),
    ensures
        split(text) == seq![text],
{
    lemma_first_slash(text, Seq::empty());
}

/// A path that is made of segments without slashes, a slash behind each,
/// and a last text without a slash spells those segments and that text.
proof fn lemma_split_joined(segments: Seq<Seq<char>>, last: Seq<char>)
    requires
        forall|i: int| 0 <= i < segments.len() ==> !(#[trigger] segments[i]).contains('/'),
        !last.contains('/'),
    ensures
        split(joined(segments) + last) == segments.push(last),
    decreases segments.len(),
{
    if segments.len() == 0 {
        assert(joined(segments) + last =~= last);
        assert(segments.push(last) =~= seq![last]);
        lemma_split_plain(last);
    } else {
        lemma_joined_front(segments);
        let first = segments[0];
        let rest = segments.skip(1);
        let path = joined(segments) + last;
        let tail = joined(rest) + last;
        assert(path =~= first + seq!['/'] + tail);
        lemma_first_slash(first, tail);
        let at = first_slash(path);
        assert(at == first.len());
        assert(path.take(at) =~= first);
        assert(path.skip(at + 1) =~= tail);
        assert forall|i: int| 0 <= i < rest.len() implies !(#[trigger] rest[i]).contains('/') by {
            assert(rest[i] == segments[i + 1]);
        }
        lemma_split_joined(rest, last);
        assert(seq![first] + rest.push(last) =~= segments.push(last));
    }
}

/// After descending from the root through plain names, the path holds the
/// names in the order of the descents, and the document suffix at the end
/// of the last one only.
pub proof fn lemma_descended(names: Seq<Seq<char>>)
    requires
        names.len() > 0,
        forall|i: int| 0 <= i < names.len() ==> is_plain_name(#[trigger] names[i]),
    ensures
        descended(names) == names.drop_last().push(names.last() + DOCUMENT_SUFFIX@),
    decreases names.len(),
{
    reveal_strlit(".json");
    let suffix = DOCUMENT_SUFFIX@;
    let name = names.last();
    let before = names.drop_last();
    let leaf = name + suffix;
    assert(is_plain_name(name));
    lemma_strip_suffix_none(name, suffix);
    assert(!leaf.contains('/')) by {
        if leaf.contains('/') {
            let at = leaf.index_of('/');
            if at < name.len() {
                assert(name[at] == '/');
                assert(name.contains('/'));
            } else {
                assert(suffix[at - name.len()] == '/');
            }
        }
    }
    if before.len() == 0 {
        reveal_with_fuel(descended, 2);
        let root: Seq<Seq<char>> = seq![Seq::empty()];
        assert(descended(before) == root);
        assert(root.drop_last() =~= Seq::empty());
        assert(joined(root.drop_last()) =~= Seq::empty());
        lemma_strip_suffix_none(Seq::empty(), suffix);
        let path = child_path(root, name);
        assert(path =~= seq!['/'] + leaf);
        assert(path.skip(1) =~= leaf);
        lemma_split_plain(leaf);
        assert(names.drop_last().push(leaf) =~= seq![leaf]);
    } else {
        assert forall|i: int| 0 <= i < before.len() implies is_plain_name(
            #[trigger] before[i],
        ) by {
            assert(before[i] == names[i]);
        }
        lemma_descended(before);
        let parent = descended(before);
        let inner = before.drop_last();
        let previous = before.last();
        assert(is_plain_name(previous));
        assert(parent == inner.push(previous + suffix));
        assert(parent.drop_last() =~= inner);
        assert(parent.last() == previous + suffix);
        lemma_strip_suffix_append(previous, suffix);
        lemma_strip_suffix_none(previous, suffix);
        let path = child_path(parent, name);
        assert(joined(before) == joined(inner) + previous + seq!['/']);
        assert(path =~= joined(before) + leaf);
        assert forall|i: int| 0 <= i < before.len() implies !(#[trigger] before[i]).contains(
            '/',
        ) by {
            assert(is_plain_name(before[i]));
        }
        lemma_split_joined(before, leaf);
        lemma_joined_front(before);
        assert(is_plain_name(before[0]));
        assert(path[0] == before[0][0]);
        assert(path[0] != '/') by {
            if path[0] == '/' {
                assert(before[0].contains('/'));
            }
        }
    }
}

/// A name of letters, digits, `_` and `-` is a plain name.
pub proof fn lemma_word_is_plain(name: Seq<char>)
    requires
        is_word(name),
    ensures
        is_plain_name(name),
{
    reveal_strlit(".json");
    if name.contains('/') {
        let at = name.index_of('/');
        assert(is_word_char(name[at]));
    }
    if ends_with(name, DOCUMENT_SUFFIX@) {
        let tail = name.skip(name.len() - 5);
        assert(tail[0] == name[name.len() - 5]);
        assert(is_word_char(name[name.len() - 5]));
    }
}

/// The segments with a slash behind each hold what the segments hold, and
/// slashes.
proof fn lemma_joined_chars(segments: Seq<Seq<char>>)
    requires
        forall|i: int| 0 <= i < segments.len() ==> is_word(#[trigger] segments[i]),
    ensures
        forall|i: int|
            0 <= i < joined(segments).len() ==> is_word_char(#[trigger] joined(segments)[i])
                || joined(segments)[i] == '/',
    decreases segments.len(),
{
    if segments.len() > 0 {
        let before = segments.drop_last();
        assert forall|i: int| 0 <= i < before.len() implies is_word(#[trigger] before[i]) by {
            assert(before[i] == segments[i]);
        }
        lemma_joined_chars(before);
        let last = segments.last();
        assert(is_word(last));
        let whole = joined(segments);
        assert forall|i: int| 0 <= i < whole.len() implies is_word_char(#[trigger] whole[i])
            || whole[i] == '/' by {
            if i < joined(before).len() {
                assert(whole[i] == joined(before)[i]);
            } else if i < joined(before).len() + last.len() {
                assert(whole[i] == last[i - joined(before).len()]);
            }
        }
    }
}

/// Descending from the root through names of letters, digits, `_` and `-`
/// makes a path that a URL stores as it is written, and that spells the
/// names in the order of the descents, the document suffix behind the last
/// one only.
pub proof fn lemma_plain_descent(names: Seq<Seq<char>>, name: Seq<char>)
    requires
        forall|i: int| 0 <= i < names.len() ==> is_word(#[trigger] names[i]),
        is_word(name),
    ensures
        is_plain_path(child_path(descended(names), name)),
        stored_segments(child_path(descended(names), name)) == names.push(name + DOCUMENT_SUFFIX@),
{
    reveal_strlit(".json");
    let suffix = DOCUMENT_SUFFIX@;
    let leaf = name + suffix;
    let all = names.push(name);
    assert forall|i: int| 0 <= i < all.len() implies is_plain_name(#[trigger] all[i]) by {
        if i < names.len() {
            assert(all[i] == names[i]);
            assert(is_word(names[i]));
        }
        lemma_word_is_plain(all[i]);
    }
    lemma_descended(all);
    assert(all.drop_last() =~= names);
    assert(all.last() == name);
    let path = child_path(descended(names), name);
    assert(stored_segments(path) == names.push(leaf));
    lemma_word_is_plain(name);
    lemma_strip_suffix_none(name, suffix);
    let head = parent_path(descended(names));
    assert(path == head + name + suffix);
    assert forall|i: int| 0 <= i < head.len() implies is_word_char(#[trigger] head[i])
        || head[i] == '/' by {
        if names.len() == 0 {
            let root: Seq<Seq<char>> = seq![Seq::empty()];
            assert(descended(names) == root);
            assert(root.drop_last() =~= Seq::empty());
            lemma_strip_suffix_none(Seq::empty(), suffix);
            assert(head =~= seq!['/']);
        } else {
            assert forall|k: int| 0 <= k < names.len() implies is_plain_name(
                #[trigger] names[k],
            ) by {
                assert(is_word(names[k]));
                lemma_word_is_plain(names[k]);
            }
            lemma_descended(names);
            let parent = descended(names);
            let previous = names.last();
            assert(is_word(previous));
            lemma_word_is_plain(previous);
            assert(parent.drop_last() =~= names.drop_last());
            assert(parent.last() == previous + suffix);
            lemma_strip_suffix_append(previous, suffix);
            lemma_strip_suffix_none(previous, suffix);
            assert(head =~= joined(names));
            lemma_joined_chars(names);
        }
    }
    assert forall|i: int| 0 <= i < path.len() implies is_word_char(#[trigger] path[i])
        || path[i] == '.' || path[i] == '/' by {
        if i < head.len() {
            assert(path[i] == head[i]);
        } else if i < head.len() + name.len() {
            assert(path[i] == name[i - head.len()]);
        } else {
            assert(path[i] == suffix[i - head.len() - name.len()]);
        }
    }
    assert forall|i: int| 0 <= i < stored_segments(path).len() implies !is_dot_segment(
        #[trigger] stored_segments(path)[i],
    ) by {
        let segment = stored_segments(path)[i];
        if i < names.len() {
            assert(segment == names[i]);
            assert(is_word(names[i]));
            assert(is_word_char(segment[0]));
        } else {
            assert(segment == leaf);
            assert(leaf.len() >= 6);
        }
    }
}

/// Makes the path of the child `name` below a parent with the given
/// segments.
pub fn make_child_path(segments: &Vec<String>, name: &str) -> (r: String)
    ensures
        r@ == child_path(segments.deep_view(), name@),
{
    proof {
        reveal_strlit(".json");
        reveal_strlit("/");
    }
    let ghost parts = segments.deep_view();
    let n = segments.len();
    let mut path = String::new();
    let mut i: usize = 0;
    while i < n
        invariant
            n == segments.len(),
            parts == segments.deep_view(),
            i <= n,
            DOCUMENT_SUFFIX@.len() == 5,
            "/"@ == seq!['/'],
            i < n ==> path@ == joined(parts.take(i as int)),
            i == n ==> path@ == parent_path(parts),
        decreases n - i,
    {
        let segment = segments[i].as_str();
        assert(segment@ == parts[i as int]);
        assert(parts.take(i + 1).drop_last() == parts.take(i as int));
        assert(parts.take(i + 1).last() == parts[i as int]);
        if i + 1 == n {
            assert(parts.take(i as int) == parts.drop_last());
            path.append(strip_suffix_all(segment, DOCUMENT_SUFFIX));
        } else {
            path.append(segment);
        }
        path.append("/");
        i += 1;
    }
    path.append(strip_suffix_all(name, DOCUMENT_SUFFIX));
    path.append(DOCUMENT_SUFFIX);
    path
}

} // verus!
