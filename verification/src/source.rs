//! Source documents: where the front matter of a document ends, and what
//! the place of a document in the source tree tells of it.

use vstd::prelude::*;
use crate::text::{chars_of, piece, string_of, texts};

verus! {

/// Whether `needle` stands in `hay` at place `i`.
pub open spec fn occurs_at(hay: Seq<char>, needle: Seq<char>, i: int) -> bool {
    0 <= i && i + needle.len() <= hay.len() && hay.subrange(i, i + needle.len()) == needle
}

/// Whether `i` is the first place from `from` on at which `needle` stands in
/// `hay`.
pub open spec fn is_first_at(hay: Seq<char>, needle: Seq<char>, from: int, i: int) -> bool {
    &&& from <= i
    &&& occurs_at(hay, needle, i)
    &&& forall|j: int| from <= j < i ==> !occurs_at(hay, needle, j)
}

/// The first place from `from` on at which `needle` stands in `hay`.
pub open spec fn spec_find(hay: Seq<char>, needle: Seq<char>, from: int) -> Option<int> {
    if exists|i: int| is_first_at(hay, needle, from, i) {
        Some(choose|i: int| is_first_at(hay, needle, from, i))
    } else {
        None
    }
}

/// There is one first place at most.
pub proof fn lemma_first_is_one(hay: Seq<char>, needle: Seq<char>, from: int, i: int, j: int)
    requires
        is_first_at(hay, needle, from, i),
        is_first_at(hay, needle, from, j),
    ensures
        i == j,
{
}

fn stands_at(hay: &Vec<char>, needle: &Vec<char>, i: usize) -> (b: bool)
    ensures
        b == occurs_at(hay@, needle@, i as int),
{
    if needle.len() > hay.len() || i > hay.len() - needle.len() {
        return false;
    }
    let mut k: usize = 0;
    while k < needle.len()
        invariant
            k <= needle.len(),
            i + needle.len() <= hay.len(),
            forall|m: int| 0 <= m < k ==> hay@[i + m] == needle@[m],
        decreases needle.len() - k,
    {
        if hay[i + k] != needle[k] {
            assert(hay@.subrange(i as int, i + needle.len())[k as int] == hay@[i + k]);
            return false;
        }
        k += 1;
    }
    assert(hay@.subrange(i as int, i + needle.len()) =~= needle@);
    true
}

/// The first place from `from` on at which `needle` stands in `hay`.
pub fn find(hay: &Vec<char>, needle: &Vec<char>, from: usize) -> (place: Option<usize>)
    ensures
        match place {
            Some(i) => spec_find(hay@, needle@, from as int) == Some(i as int),
            None => spec_find(hay@, needle@, from as int) is None,
        },
        place matches Some(i) ==> is_first_at(hay@, needle@, from as int, i as int),
{
    let mut i: usize = from;
    while i <= hay.len()
        invariant
            from <= i,
            forall|j: int| from <= j < i ==> !occurs_at(hay@, needle@, j),
        decreases hay.len() + 1 - i,
    {
        if stands_at(hay, needle, i) {
            proof {
                assert(is_first_at(hay@, needle@, from as int, i as int));
                let c = choose|c: int| is_first_at(hay@, needle@, from as int, c);
                lemma_first_is_one(hay@, needle@, from as int, i as int, c);
            }
            return Some(i);
        }
        if i == hay.len() {
            proof {
                assert forall|c: int| !is_first_at(hay@, needle@, from as int, c) by {
                    if is_first_at(hay@, needle@, from as int, c) {
                        assert(c <= hay.len());
                    }
                }
            }
            return None;
        }
        i += 1;
    }
    proof {
        assert forall|c: int| !is_first_at(hay@, needle@, from as int, c) by {
            if is_first_at(hay@, needle@, from as int, c) {
                assert(c <= hay.len());
            }
        }
    }
    None
}

/// The mark that opens the front matter of `content`: `+++` or `---` at its
/// very start.
pub open spec fn spec_marker(content: Seq<char>) -> Option<Seq<char>> {
    if occurs_at(content, "+++"@, 0) {
        Some("+++"@)
    } else if occurs_at(content, "---"@, 0) {
        Some("---"@)
    } else {
        None
    }
}

/// Where the front matter of `content` ends: at the first closing mark that
/// ends its line, else at the first closing mark.
pub open spec fn spec_front_matter_end(content: Seq<char>, marker: Seq<char>) -> Option<int> {
    match spec_find(content, marker + "\n"@, 3) {
        Some(end) => Some(end),
        None => spec_find(content, marker, 3),
    }
}

/// The front matter and the body of `content`: what stands between the
/// opening mark and the closing mark, and what stands behind the closing
/// mark. `None` for a document that does not open with a mark or never
/// closes it.
pub open spec fn spec_split_front_matter(content: Seq<char>) -> Option<(Seq<char>, Seq<char>)> {
    match spec_marker(content) {
        Some(marker) => match spec_front_matter_end(content, marker) {
            Some(end) => Some((content.subrange(3, end), content.skip(end + 3))),
            None => None,
        },
        None => None,
    }
}

/// The front matter and the body of `content`.
pub fn split_front_matter(content: &str) -> (parts: Option<(String, String)>)
    ensures
        match parts {
            Some((front, body)) => spec_split_front_matter(content@) == Some((front@, body@)),
            None => spec_split_front_matter(content@) is None,
        },
{
    let chars = chars_of(content);
    let plus = chars_of("+++");
    let dash = chars_of("---");
    proof {
        reveal_strlit("+++");
        reveal_strlit("---");
        reveal_strlit("\n");
    }
    let marker = if stands_at(&chars, &plus, 0) {
        plus
    } else if stands_at(&chars, &dash, 0) {
        dash
    } else {
        return None;
    };
    assert(spec_marker(chars@) == Some(marker@));
    assert(marker.len() == 3);
    let mut line_end: Vec<char> = Vec::new();
    line_end.push(marker[0]);
    line_end.push(marker[1]);
    line_end.push(marker[2]);
    line_end.push('\n');
    assert(line_end@ =~= marker@ + "\n"@);
    let end = match find(&chars, &line_end, 3) {
        Some(end) => end,
        None => match find(&chars, &marker, 3) {
            Some(end) => end,
            None => {
                return None;
            },
        },
    };
    assert(spec_front_matter_end(chars@, marker@) == Some(end as int));
    assert(occurs_at(chars@, marker@, end as int) || occurs_at(chars@, line_end@, end as int));
    let front = piece(&chars, 3, end);
    let body = piece(&chars, end + 3, chars.len());
    assert(chars@.skip(end + 3) =~= chars@.subrange(end + 3, chars.len() as int));
    Some((front, body))
}

/// The parts of `s` between the occurrences of `sep`; one part more than
/// there are occurrences.
pub open spec fn spec_split(s: Seq<char>, sep: char) -> Seq<Seq<char>>
    decreases s.len(),
{
    if s.len() == 0 {
        seq![Seq::empty()]
    } else if s.last() == sep {
        spec_split(s.drop_last(), sep).push(Seq::empty())
    } else {
        let before = spec_split(s.drop_last(), sep);
        before.drop_last().push(before.last().push(s.last()))
    }
}

/// The parts of `s` between the occurrences of `sep`.
pub fn split(s: &str, sep: char) -> (parts: Vec<String>)
    ensures
        texts(parts@) == spec_split(s@, sep),
{
    let chars = chars_of(s);
    let mut parts: Vec<String> = Vec::new();
    let mut part: Vec<char> = Vec::new();
    let mut i: usize = 0;
    assert(texts(parts@).push(part@) =~= spec_split(chars@.take(0), sep));
    while i < chars.len()
        invariant
            i <= chars.len(),
            texts(parts@).push(part@) == spec_split(chars@.take(i as int), sep),
        decreases chars.len() - i,
    {
        let c = chars[i];
        proof {
            let next = chars@.take(i + 1);
            assert(next.drop_last() =~= chars@.take(i as int));
            assert(next.last() == c);
            let before = texts(parts@).push(part@);
            assert(before.drop_last() =~= texts(parts@));
            assert(before.last() == part@);
        }
        if c == sep {
            let done = string_of(&part);
            proof {
                assert(texts(parts@.push(done)) =~= texts(parts@).push(part@));
            }
            parts.push(done);
            part = Vec::new();
        } else {
            part.push(c);
        }
        i += 1;
    }
    assert(chars@.take(chars.len() as int) =~= chars@);
    let done = string_of(&part);
    proof {
        assert(texts(parts@.push(done)) =~= texts(parts@).push(part@));
    }
    parts.push(done);
    parts
}

/// Whether the part at place `i` of a path counts as a component: a part
/// that is not empty, and `.` only at the start of the path.
pub open spec fn is_component(i: int, part: Seq<char>) -> bool {
    part.len() > 0 && (part != "."@ || i == 0)
}

/// The components among the parts of a path.
pub open spec fn spec_components_of(parts: Seq<Seq<char>>) -> Seq<Seq<char>>
    decreases parts.len(),
{
    if parts.len() == 0 {
        Seq::empty()
    } else if is_component(parts.len() - 1, parts.last()) {
        spec_components_of(parts.drop_last()).push(parts.last())
    } else {
        spec_components_of(parts.drop_last())
    }
}

/// The components of a path: its parts between slashes, without the empty
/// ones and without `.` but at the start.
pub open spec fn spec_components(path: Seq<char>) -> Seq<Seq<char>> {
    spec_components_of(spec_split(path, '/'))
}

/// Whether a path starts at the root.
pub open spec fn spec_is_absolute(path: Seq<char>) -> bool {
    path.len() > 0 && path[0] == '/'
}

/// The names among components: those that are neither `.` nor `..`.
pub open spec fn spec_names(parts: Seq<Seq<char>>) -> Seq<Seq<char>>
    decreases parts.len(),
{
    if parts.len() == 0 {
        Seq::empty()
    } else if parts.last() == "."@ || parts.last() == ".."@ {
        spec_names(parts.drop_last())
    } else {
        spec_names(parts.drop_last()).push(parts.last())
    }
}

/// The category path of the document at `path` in the source tree at
/// `md_dir`: the directories between the two. Empty for a document that is
/// not in the tree.
pub open spec fn spec_categories_from_path(path: Seq<char>, md_dir: Seq<char>) -> Seq<Seq<char>> {
    let whole = spec_components(path);
    let root = spec_components(md_dir);
    if spec_is_absolute(path) == spec_is_absolute(md_dir) && root.is_prefix_of(whole) && root.len()
        < whole.len() {
        spec_names(whole.subrange(root.len() as int, whole.len() - 1))
    } else {
        Seq::empty()
    }
}

/// The components of a path.
pub fn components(path: &str) -> (parts: Vec<String>)
    ensures
        texts(parts@) == spec_components(path@),
{
    let all = split(path, '/');
    let ghost whole = texts(all@);
    let mut parts: Vec<String> = Vec::new();
    let mut i: usize = 0;
    assert(texts(parts@) =~= spec_components_of(whole.take(0)));
    proof {
        reveal_strlit(".");
    }
    while i < all.len()
        invariant
            i <= all.len(),
            whole == texts(all@),
            texts(parts@) == spec_components_of(whole.take(i as int)),
        decreases all.len() - i,
    {
        let part = chars_of(all[i].as_str());
        proof {
            let next = whole.take(i + 1);
            assert(next.drop_last() =~= whole.take(i as int));
            assert(next.last() == part@);
            reveal_strlit(".");
            if part.len() == 1 && part@[0] == '.' {
                assert(part@ =~= "."@);
            }
        }
        let is_dot = part.len() == 1 && part[0] == '.';
        if part.len() > 0 && (!is_dot || i == 0) {
            proof {
                assert(texts(parts@.push(all@[i as int])) =~= texts(parts@).push(part@));
            }
            parts.push(all[i].clone());
        }
        i += 1;
    }
    assert(whole.take(all.len() as int) =~= whole);
    parts
}

fn is_absolute(path: &str) -> (b: bool)
    ensures
        b == spec_is_absolute(path@),
{
    let chars = chars_of(path);
    chars.len() > 0 && chars[0] == '/'
}

fn is_dots(part: &str) -> (b: bool)
    ensures
        b == (part@ == "."@ || part@ == ".."@),
{
    let chars = chars_of(part);
    proof {
        reveal_strlit(".");
        reveal_strlit("..");
    }
    if chars.len() == 1 && chars[0] == '.' {
        assert(chars@ =~= "."@);
        true
    } else if chars.len() == 2 && chars[0] == '.' && chars[1] == '.' {
        assert(chars@ =~= ".."@);
        true
    } else {
        false
    }
}

/// The category path of the document at `path` in the source tree at
/// `md_dir`.
pub fn categories_from_path(path: &str, md_dir: &str) -> (categories: Vec<String>)
    ensures
        texts(categories@) == spec_categories_from_path(path@, md_dir@),
{
    let whole = components(path);
    let root = components(md_dir);
    let mut categories: Vec<String> = Vec::new();
    if is_absolute(path) != is_absolute(md_dir) || root.len() >= whole.len() {
        assert(texts(categories@) =~= Seq::<Seq<char>>::empty());
        return categories;
    }
    if !crate::seqs::starts_with_texts(&whole, &root) {
        assert(texts(categories@) =~= Seq::<Seq<char>>::empty());
        return categories;
    }
    let ghost between = texts(whole@).subrange(root.len() as int, whole.len() - 1);
    let mut i: usize = root.len();
    assert(texts(categories@) =~= spec_names(between.take(0)));
    while i < whole.len() - 1
        invariant
            root.len() <= i <= whole.len() - 1,
            between == texts(whole@).subrange(root.len() as int, whole.len() - 1),
            texts(categories@) == spec_names(between.take(i - root.len())),
        decreases whole.len() - i,
    {
        proof {
            let next = between.take(i - root.len() + 1);
            assert(next.drop_last() =~= between.take(i - root.len()));
            assert(next.last() == whole@[i as int]@);
        }
        if !is_dots(whole[i].as_str()) {
            proof {
                assert(texts(categories@.push(whole@[i as int])) =~= texts(categories@).push(
                    whole@[i as int]@,
                ));
            }
            categories.push(whole[i].clone());
        }
        i += 1;
    }
    assert(between.take(between.len() as int) =~= between);
    categories
}

/// The place of the last `.` in `name`, where it has one.
pub open spec fn spec_last_dot(name: Seq<char>) -> Option<int>
    decreases name.len(),
{
    if name.len() == 0 {
        None
    } else if name.last() == '.' {
        Some(name.len() - 1)
    } else {
        spec_last_dot(name.drop_last())
    }
}

/// The name of the file at `path`: its last component; empty where the path
/// has none or ends in `..`.
pub open spec fn spec_file_name(path: Seq<char>) -> Seq<char> {
    let parts = spec_components(path);
    if parts.len() == 0 || parts.last() == ".."@ || parts.last() == "."@ {
        Seq::empty()
    } else {
        parts.last()
    }
}

/// The stem of a file name: what stands before its last `.`, and the whole
/// name where it has no `.` or only one at its start.
pub open spec fn spec_stem_of(name: Seq<char>) -> Seq<char> {
    match spec_last_dot(name) {
        Some(dot) => if dot == 0 {
            name
        } else {
            name.take(dot)
        },
        None => name,
    }
}

/// The extension of a file name: what stands behind its last `.`, where that
/// is not at its start.
pub open spec fn spec_extension_of(name: Seq<char>) -> Option<Seq<char>> {
    match spec_last_dot(name) {
        Some(dot) => if dot == 0 {
            None
        } else {
            Some(name.skip(dot + 1))
        },
        None => None,
    }
}

/// The stem of the file at `path`.
pub open spec fn spec_file_stem(path: Seq<char>) -> Seq<char> {
    spec_stem_of(spec_file_name(path))
}

/// Whether the file at `path` is a Markdown document: its extension is
/// `md`.
pub open spec fn spec_is_markdown(path: Seq<char>) -> bool {
    spec_extension_of(spec_file_name(path)) == Some("md"@)
}

fn last_dot(name: &Vec<char>) -> (dot: Option<usize>)
    ensures
        match dot {
            Some(d) => spec_last_dot(name@) == Some(d as int) && d < name.len(),
            None => spec_last_dot(name@) is None,
        },
{
    let mut i: usize = name.len();
    assert(name@.take(i as int) =~= name@);
    while i > 0
        invariant
            i <= name.len(),
            spec_last_dot(name@) == spec_last_dot(name@.take(i as int)),
        decreases i,
    {
        proof {
            let part = name@.take(i as int);
            assert(part.last() == name@[i - 1]);
            assert(part.drop_last() =~= name@.take(i - 1));
        }
        if name[i - 1] == '.' {
            return Some(i - 1);
        }
        i -= 1;
    }
    None
}

fn file_name(path: &str) -> (name: Vec<char>)
    ensures
        name@ == spec_file_name(path@),
{
    let parts = components(path);
    if parts.len() == 0 {
        return Vec::new();
    }
    let last = &parts[parts.len() - 1];
    assert(texts(parts@).last() == last@);
    if is_dots(last.as_str()) {
        Vec::new()
    } else {
        chars_of(last.as_str())
    }
}

/// The stem of the file at `path`.
pub fn file_stem(path: &str) -> (stem: String)
    ensures
        stem@ == spec_file_stem(path@),
{
    let name = file_name(path);
    match last_dot(&name) {
        Some(dot) => {
            if dot == 0 {
                string_of(&name)
            } else {
                let stem = piece(&name, 0, dot);
                assert(name@.take(dot as int) =~= name@.subrange(0, dot as int));
                stem
            }
        },
        None => string_of(&name),
    }
}

/// Whether the file at `path` is a Markdown document.
pub fn is_markdown(path: &str) -> (b: bool)
    ensures
        b == spec_is_markdown(path@),
{
    let name = file_name(path);
    proof {
        reveal_strlit("md");
    }
    match last_dot(&name) {
        Some(dot) => {
            if dot == 0 {
                false
            } else {
                let ghost rest = name@.skip(dot + 1);
                let b = name.len() - dot == 3 && name[dot + 1] == 'm' && name[dot + 2] == 'd';
                proof {
                    if b {
                        assert(rest =~= "md"@);
                    } else if rest == "md"@ {
                        assert(rest.len() == 2);
                        assert(rest[0] == 'm' && rest[1] == 'd');
                    }
                }
                b
            }
        },
        None => false,
    }
}

} // verus!
