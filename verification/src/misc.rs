//! Placement of instances and the layout of module files on disk.

use vstd::prelude::*;

verus! {

/// A point in 2d space. Each coordinate is kept as the bit pattern of an
/// IEEE 754 single-precision number, which the library stores and hands on
/// without computing with it.
#[derive(Debug, Clone, Copy, PartialEq, Eq, Structural)]
pub struct Point {
    pub x: u32,
    pub y: u32,
}

/// The segments of a path: the runs of characters between its `/`
/// separators, empty runs included. A path without a separator is one
/// segment.
pub open spec fn segments(path: Seq<char>) -> Seq<Seq<char>>
    decreases path.len(),
{
    if path.len() == 0 {
        seq![Seq::empty()]
    } else {
        let before = segments(path.drop_last());
        if path.last() == '/' {
            before.push(Seq::empty())
        } else {
            before.drop_last().push(before.last().push(path.last()))
        }
    }
}

/// Whether a segment names a file or a directory: it is neither empty nor
/// the segment `.` that stands for the directory itself.
pub open spec fn is_name(segment: Seq<char>) -> bool {
    segment.len() > 0 && segment != seq!['.']
}

/// Whether a segment is `..`, which stands for the parent directory.
pub open spec fn is_parent_ref(segment: Seq<char>) -> bool {
    segment == seq!['.', '.']
}

/// The segments of a list that name a file or a directory, in order.
pub open spec fn names_in(segments: Seq<Seq<char>>) -> Seq<Seq<char>>
    decreases segments.len(),
{
    if segments.len() == 0 {
        Seq::empty()
    } else {
        let before = names_in(segments.drop_last());
        if is_name(segments.last()) {
            before.push(segments.last())
        } else {
            before
        }
    }
}

/// The position of the last `.` of a name, or -1 where it has none.
pub open spec fn last_dot(name: Seq<char>) -> int
    decreases name.len(),
{
    if name.len() == 0 {
        -1
    } else if name.last() == '.' {
        name.len() - 1
    } else {
        last_dot(name.drop_last())
    }
}

/// A file name without its extension: what stands before the last `.`. A
/// name without a `.`, or with its only `.` in front, has no extension.
pub open spec fn file_stem(name: Seq<char>) -> Seq<char> {
    if last_dot(name) <= 0 {
        name
    } else {
        name.take(last_dot(name))
    }
}

/// The category and the name of the module in the file `path`: the name of
/// the directory that holds the file, and the stem of the file's name. There
/// is none where the path names no such directory, or where `..` stands in
/// the place of either.
pub open spec fn parse_path_spec(path: Seq<char>) -> Option<(Seq<char>, Seq<char>)> {
    let names = names_in(segments(path));
    if names.len() < 2 {
        None
    } else {
        let file = names.last();
        let directory = names[names.len() - 2];
        if is_parent_ref(file) || is_parent_ref(directory) {
            None
        } else {
            Some((directory, file_stem(file)))
        }
    }
}

/// Whether a sequence of characters can be the name of a file or of a
/// directory: it has no separator in it and is neither empty, `.` nor `..`.
pub open spec fn is_plain_name(name: Seq<char>) -> bool {
    &&& forall|i: int| 0 <= i < name.len() ==> name[i] != '/'
    &&& is_name(name)
    &&& !is_parent_ref(name)
}

/// A path has at least one segment.
proof fn lemma_segments_nonempty(path: Seq<char>)
    ensures
        segments(path).len() > 0,
    decreases path.len(),
{
    if path.len() > 0 {
        lemma_segments_nonempty(path.drop_last());
    }
}

/// The segments of two paths joined by a separator are the segments of the
/// first followed by those of the second.
proof fn lemma_segments_join(front: Seq<char>, back: Seq<char>)
    ensures
        segments(front + seq!['/'] + back) == segments(front) + segments(back),
    decreases back.len(),
{
    let joined = front + seq!['/'] + back;
    if back.len() == 0 {
        assert(joined.drop_last() =~= front);
        assert(joined.last() == '/');
        assert(segments(front).push(Seq::empty()) =~= segments(front) + segments(back));
    } else {
        let shorter = back.drop_last();
        lemma_segments_join(front, shorter);
        lemma_segments_nonempty(shorter);
        assert(joined.drop_last() =~= front + seq!['/'] + shorter);
        assert(joined.last() == back.last());
        let left = segments(front);
        let right = segments(shorter);
        let before = left + right;
        assert(before.last() == right.last());
        assert(before.drop_last() =~= left + right.drop_last());
        if back.last() == '/' {
            assert(before.push(Seq::empty()) =~= left + right.push(Seq::empty()));
        } else {
            let grown = right.last().push(back.last());
            assert(before.drop_last().push(grown) =~= left + right.drop_last().push(grown));
        }
    }
}

/// The names among two lists of segments, one after the other, are the
/// names of the first followed by those of the second.
proof fn lemma_names_concat(front: Seq<Seq<char>>, back: Seq<Seq<char>>)
    ensures
        names_in(front + back) == names_in(front) + names_in(back),
    decreases back.len(),
{
    if back.len() == 0 {
        assert(front + back =~= front);
        assert(names_in(front) + names_in(back) =~= names_in(front));
    } else {
        lemma_names_concat(front, back.drop_last());
        assert((front + back).drop_last() =~= front + back.drop_last());
        assert((front + back).last() == back.last());
        let before = names_in(front) + names_in(back.drop_last());
        if is_name(back.last()) {
            assert(before.push(back.last()) =~= names_in(front) + names_in(back.drop_last()).push(
                back.last(),
            ));
        }
    }
}

/// A plain name is the one segment, and the one name, of itself.
proof fn lemma_plain_name(name: Seq<char>)
    requires
        is_plain_name(name),
    ensures
        segments(name) == seq![name],
        names_in(segments(name)) == seq![name],
{
    lemma_one_segment(name, name.len() as int);
    assert(name.take(name.len() as int) =~= name);
    let all = segments(name);
    assert(all.drop_last() =~= Seq::<Seq<char>>::empty());
    assert(names_in(all.drop_last()) =~= Seq::<Seq<char>>::empty());
    assert(names_in(all) =~= seq![name]);
}

/// The layout of modules on disk: in a path that ends in a directory name,
/// a separator and a file name, the directory name is the category and the
/// stem of the file name is the name of the module, whatever stands before
/// the directory.
pub proof fn law_directory_is_category(root: Seq<char>, category: Seq<char>, file: Seq<char>)
    requires
        is_plain_name(category),
        is_plain_name(file),
    ensures
        parse_path_spec(category + seq!['/'] + file) == Some((category, file_stem(file))),
        parse_path_spec(root + seq!['/'] + category + seq!['/'] + file) == Some(
            (category, file_stem(file)),
        ),
{
    lemma_plain_name(category);
    lemma_plain_name(file);
    lemma_segments_join(category, file);
    lemma_names_concat(segments(category), segments(file));
    assert(names_in(segments(category + seq!['/'] + file)) =~= seq![category, file]);

    let front = root + seq!['/'] + category;
    lemma_segments_join(root, category);
    lemma_names_concat(segments(root), segments(category));
    lemma_segments_join(front, file);
    lemma_names_concat(segments(front), segments(file));
    let names = names_in(segments(front + seq!['/'] + file));
    assert(names =~= names_in(segments(root)) + seq![category] + seq![file]);
    assert(names.last() == file);
    assert(names[names.len() - 2] == category);
}

/// A path without a separator is a single segment.
proof fn lemma_one_segment(path: Seq<char>, n: int)
    requires
        0 <= n <= path.len(),
        forall|i: int| 0 <= i < n ==> path[i] != '/',
    ensures
        segments(path.take(n)) == seq![path.take(n)],
    decreases n,
{
    if n == 0 {
        assert(path.take(0) =~= Seq::<char>::empty());
    } else {
        lemma_one_segment(path, n - 1);
        let before = segments(path.take(n - 1));
        assert(path.take(n).drop_last() =~= path.take(n - 1));
        assert(path.take(n - 1).push(path[n - 1]) =~= path.take(n));
        assert(before.drop_last() =~= Seq::<Seq<char>>::empty());
        assert(before.drop_last().push(before.last().push(path[n - 1])) =~= seq![path.take(n)]);
    }
}

/// A path that names no directory for its file, because it has no
/// separator at all, is rejected.
pub proof fn law_bare_file_name_rejected(path: Seq<char>)
    requires
        forall|i: int| 0 <= i < path.len() ==> path[i] != '/',
    ensures
        parse_path_spec(path) is None,
{
    lemma_one_segment(path, path.len() as int);
    assert(path.take(path.len() as int) =~= path);
    let all = segments(path);
    assert(all.drop_last() =~= Seq::<Seq<char>>::empty());
    assert(names_in(all.drop_last()).len() == 0);
}

/// The value of a parsed path.
pub open spec fn names_view(parsed: Option<(String, String)>) -> Option<(Seq<char>, Seq<char>)> {
    match parsed {
        Some((category, name)) => Some((category@, name@)),
        None => None,
    }
}

/// The characters of a string.
fn collect_chars(text: &str) -> (chars: Vec<char>)
    ensures
        chars@ == text@,
{
    let mut chars: Vec<char> = Vec::new();
    for c in it: text.chars()
        invariant
            chars.len() == it.index(),
            forall|i: int| 0 <= i < chars.len() ==> chars@[i] == it.seq()[i],
    {
        chars.push(c);
    }
    assert(chars@ =~= text@);
    chars
}

/// Whether the characters from `start` up to `end` are a name.
fn range_is_name(chars: &Vec<char>, start: usize, end: usize) -> (named: bool)
    requires
        start <= end <= chars.len(),
    ensures
        named == is_name(chars@.subrange(start as int, end as int)),
{
    let ghost segment = chars@.subrange(start as int, end as int);
    if end == start {
        false
    } else if end - start == 1 && chars[start] == '.' {
        assert(segment =~= seq!['.']);
        false
    } else {
        assert(segment != seq!['.']) by {
            if segment.len() == 1 {
                assert(segment[0] == chars@[start as int]);
            }
        }
        true
    }
}

/// Whether the characters from `start` up to `end` are `..`.
fn range_is_parent_ref(chars: &Vec<char>, start: usize, end: usize) -> (parent: bool)
    requires
        start <= end <= chars.len(),
    ensures
        parent == is_parent_ref(chars@.subrange(start as int, end as int)),
{
    let ghost segment = chars@.subrange(start as int, end as int);
    if end - start == 2 && chars[start] == '.' && chars[start + 1] == '.' {
        assert(segment =~= seq!['.', '.']);
        true
    } else {
        assert(segment != seq!['.', '.']) by {
            if segment.len() == 2 {
                assert(segment[0] == chars@[start as int]);
                assert(segment[1] == chars@[start + 1]);
            }
        }
        false
    }
}

/// Where the stem of the name from `start` up to `end` ends.
fn stem_end(chars: &Vec<char>, start: usize, end: usize) -> (stop: usize)
    requires
        start <= end <= chars.len(),
    ensures
        start <= stop <= end,
        chars@.subrange(start as int, stop as int) == file_stem(
            chars@.subrange(start as int, end as int),
        ),
{
    let ghost name = chars@.subrange(start as int, end as int);
    let mut i: usize = end;
    assert(name.take(end - start) =~= name);
    while i > start
        invariant
            start <= i <= end <= chars.len(),
            name == chars@.subrange(start as int, end as int),
            last_dot(name) == last_dot(name.take(i - start)),
        decreases i,
    {
        proof {
            let head = name.take(i - start);
            assert(head.last() == chars@[i - 1]);
            assert(head.drop_last() =~= name.take(i - 1 - start));
        }
        if chars[i - 1] == '.' {
            if i - 1 == start {
                assert(chars@.subrange(start as int, end as int) =~= name);
                return end;
            } else {
                assert(chars@.subrange(start as int, i - 1) =~= name.take(i - 1 - start));
                return i - 1;
            }
        }
        i -= 1;
    }
    proof {
        assert(name.take(0) =~= Seq::<char>::empty());
        assert(chars@.subrange(start as int, end as int) =~= name);
    }
    end
}

/// Derives the category and the name of a module from the path of its file:
/// the category is the name of the directory that holds the file, the
/// module's name is the file's name without its extension. Segments of the
/// path are separated by `/`; empty segments and `.` are passed over.
///
/// There is no result for a path that names no directory for the file, as
/// in `And.wasm` or `/And.wasm`.
pub fn parse_path(wasm_file: &str) -> (parsed: Option<(String, String)>)
    ensures
        names_view(parsed) == parse_path_spec(wasm_file@),
{
    let chars = collect_chars(wasm_file);
    let n = chars.len();
    // The last two names among the segments that are complete, as ranges.
    let mut last: Option<(usize, usize)> = None;
    let mut prev: Option<(usize, usize)> = None;
    let mut start: usize = 0;
    let ghost mut found: Seq<Seq<char>> = Seq::empty();
    let mut i: usize = 0;
    proof {
        assert(chars@.take(0) =~= Seq::<char>::empty());
        assert(segments(chars@.take(0)).drop_last() =~= Seq::<Seq<char>>::empty());
        assert(chars@.subrange(0, 0) =~= Seq::<char>::empty());
    }
    while i < n
        invariant
            n == chars.len(),
            start <= i <= n,
            segments(chars@.take(i as int)).len() > 0,
            segments(chars@.take(i as int)).last() == chars@.subrange(start as int, i as int),
            found == names_in(segments(chars@.take(i as int)).drop_last()),
            last is Some <==> found.len() >= 1,
            prev is Some <==> found.len() >= 2,
            last matches Some(r) ==> r.0 <= r.1 <= i && found.last() == chars@.subrange(
                r.0 as int,
                r.1 as int,
            ),
            prev matches Some(r) ==> r.0 <= r.1 <= i && found[found.len() - 2] == chars@.subrange(
                r.0 as int,
                r.1 as int,
            ),
        decreases n - i,
    {
        let ghost before = segments(chars@.take(i as int));
        proof {
            let head = chars@.take(i + 1);
            assert(head.drop_last() =~= chars@.take(i as int));
            assert(head.last() == chars@[i as int]);
        }
        if chars[i] == '/' {
            let named = range_is_name(&chars, start, i);
            proof {
                let after = segments(chars@.take(i + 1));
                assert(after == before.push(Seq::empty()));
                assert(after.drop_last() =~= before);
                assert(chars@.subrange(i + 1, i + 1) =~= Seq::<char>::empty());
            }
            if named {
                prev = last;
                last = Some((start, i));
                proof {
                    found = found.push(before.last());
                }
            }
            start = i + 1;
        } else {
            proof {
                let after = segments(chars@.take(i + 1));
                assert(after == before.drop_last().push(before.last().push(chars@[i as int])));
                assert(after.drop_last() =~= before.drop_last());
                assert(chars@.subrange(start as int, i + 1) =~= before.last().push(
                    chars@[i as int],
                ));
            }
        }
        i += 1;
    }
    let ghost all = segments(chars@);
    proof {
        assert(chars@.take(n as int) =~= chars@);
        assert(all.drop_last().push(all.last()) =~= all);
    }
    if range_is_name(&chars, start, n) {
        prev = last;
        last = Some((start, n));
        proof {
            found = found.push(all.last());
        }
    }
    assert(found == names_in(all));
    match (prev, last) {
        (Some(directory), Some(file)) => {
            if range_is_parent_ref(&chars, file.0, file.1) || range_is_parent_ref(
                &chars,
                directory.0,
                directory.1,
            ) {
                None
            } else {
                let stop = stem_end(&chars, file.0, file.1);
                let category = wasm_file.substring_char(directory.0, directory.1).to_string();
                let name = wasm_file.substring_char(file.0, stop).to_string();
                Some((category, name))
            }
        },
        _ => None,
    }
}

} // verus!
