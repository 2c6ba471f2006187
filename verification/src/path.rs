//! Names of files in paths as Unix has them: their parts are separated by `/`
//! alone, and a backslash is a character of a name.
use vstd::prelude::*;
use vstd::string::*;

use crate::text::chars_of;

verus! {

/// The part of `s` after the last `mark`; all of `s` where there is none.
pub open spec fn tail_after(s: Seq<char>, mark: char) -> Seq<char>
    decreases s.len(),
{
    if s.len() == 0 || s.last() == mark {
        Seq::empty()
    } else {
        tail_after(s.drop_last(), mark).push(s.last())
    }
}

/// The part of `s` before the last `mark`; empty where there is none.
pub open spec fn head_before(s: Seq<char>, mark: char) -> Seq<char> {
    let tail = tail_after(s, mark);
    if tail.len() < s.len() {
        s.take(s.len() - tail.len() - 1)
    } else {
        Seq::empty()
    }
}

/// The name that `path` ends in: its last part that is neither empty nor `.`.
/// There is none where no such part is left or where it is `..`.
pub open spec fn file_name_of(path: Seq<char>) -> Option<Seq<char>>
    decreases path.len(),
{
    let part = tail_after(path, '/');
    if part.len() == 0 || part == seq!['.'] {
        if path.len() <= part.len() {
            None
        } else {
            file_name_of(path.take(path.len() - part.len() - 1))
        }
    } else if part == seq!['.', '.'] {
        None
    } else {
        Some(part)
    }
}

/// The extension of a file name: what follows its last dot, unless that dot is
/// its first character or there is none.
pub open spec fn extension_of(name: Seq<char>) -> Option<Seq<char>> {
    if head_before(name, '.').len() > 0 {
        Some(tail_after(name, '.'))
    } else {
        None
    }
}

/// A file name without its extension and the dot before it.
pub open spec fn stem_of(name: Seq<char>) -> Seq<char> {
    if head_before(name, '.').len() > 0 {
        head_before(name, '.')
    } else {
        name
    }
}

/// Whether `name` names an entry of the directory that it is joined to: it is
/// not empty, holds no separator and is neither `.` nor `..`.
pub open spec fn is_plain_name(name: Seq<char>) -> bool {
    &&& name.len() > 0
    &&& !name.contains('/')
    &&& name != seq!['.']
    &&& name != seq!['.', '.']
}

/// The part after the last mark ends `s`, holds no mark, and has one before it
/// unless it is all of `s`.
pub proof fn lemma_tail_after(s: Seq<char>, mark: char)
    ensures
        tail_after(s, mark).len() <= s.len(),
        tail_after(s, mark) == s.skip(s.len() - tail_after(s, mark).len()),
        !tail_after(s, mark).contains(mark),
        tail_after(s, mark).len() < s.len() ==> s[s.len() - tail_after(s, mark).len() - 1] == mark,
    decreases s.len(),
{
    if s.len() > 0 && s.last() != mark {
        let t = tail_after(s.drop_last(), mark);
        lemma_tail_after(s.drop_last(), mark);
        assert(t.push(s.last()) =~= s.skip(s.len() - t.len() - 1));
        assert(!t.push(s.last()).contains(mark)) by {
            if t.push(s.last()).contains(mark) {
                let i = choose|i: int|
                    0 <= i < t.push(s.last()).len() && t.push(s.last())[i] == mark;
                assert(t[i] == mark);
            }
        }
    } else {
        assert(Seq::<char>::empty() =~= s.skip(s.len() as int));
    }
}

/// The name that a path ends in is a plain name.
pub proof fn law_file_name_is_plain(path: Seq<char>)
    ensures
        file_name_of(path) matches Some(name) ==> is_plain_name(name),
    decreases path.len(),
{
    let part = tail_after(path, '/');
    lemma_tail_after(path, '/');
    if (part.len() == 0 || part == seq!['.']) && path.len() > part.len() {
        law_file_name_is_plain(path.take(path.len() - part.len() - 1));
    }
}

/// A plain name is the name that it ends in as a path.
pub proof fn law_plain_name_is_its_file_name(name: Seq<char>)
    requires
        is_plain_name(name),
    ensures
        file_name_of(name) == Some(name),
{
    lemma_tail_after(name, '/');
    let part = tail_after(name, '/');
    if part.len() < name.len() {
        assert(name[name.len() - part.len() - 1] == '/');
        assert(name.contains('/'));
    }
    assert(name.skip(0) =~= name);
}

/// A name is its stem, or its stem, a dot and its extension.
pub proof fn law_stem_and_extension(name: Seq<char>)
    ensures
        match extension_of(name) {
            Some(extension) => name == stem_of(name).push('.') + extension,
            None => name == stem_of(name),
        },
{
    lemma_tail_after(name, '.');
    if extension_of(name) is Some {
        assert(name =~= stem_of(name).push('.') + tail_after(name, '.'));
    }
}

fn tail_start(chars: &Vec<char>, end: usize, mark: char) -> (r: usize)
    requires
        end <= chars.len(),
    ensures
        r <= end,
        chars@.subrange(r as int, end as int) == tail_after(chars@.take(end as int), mark),
{
    let mut from: usize = end;
    let ghost s = chars@.take(end as int);
    proof {
        assert(s.take(end as int) =~= s);
    }
    while from > 0 && chars[from - 1] != mark
        invariant
            from <= end <= chars.len(),
            s == chars@.take(end as int),
            tail_after(s, mark) == tail_after(s.take(from as int), mark) + s.skip(from as int),
        decreases from,
    {
        let ghost t = s.take(from as int);
        assert(t.drop_last() == s.take(from - 1));
        assert(t.last() == chars@[from - 1]);
        assert(s.skip(from - 1) =~= seq![t.last()] + s.skip(from as int));
        assert(tail_after(t.drop_last(), mark).push(t.last()) + s.skip(from as int) =~= tail_after(
            t.drop_last(),
            mark,
        ) + s.skip(from - 1));
        from = from - 1;
    }
    assert(from > 0 ==> s.take(from as int).last() == chars@[from - 1]);
    assert(tail_after(s.take(from as int), mark) =~= Seq::<char>::empty());
    assert(chars@.subrange(from as int, end as int) =~= s.skip(from as int));
    from
}

/// The name that `path` ends in.
pub fn file_name(path: &str) -> (r: Option<String>)
    ensures
        r is Some <==> file_name_of(path@) is Some,
        r matches Some(name) ==> file_name_of(path@) == Some(name@),
{
    let chars: Vec<char> = chars_of(path);
    let mut end: usize = chars.len();
    assert(chars@.take(end as int) =~= path@);
    loop
        invariant
            end <= chars.len(),
            chars@ == path@,
            file_name_of(path@) == file_name_of(chars@.take(end as int)),
        decreases end,
    {
        let from: usize = tail_start(&chars, end, '/');
        let ghost here = chars@.take(end as int);
        let ghost part = chars@.subrange(from as int, end as int);
        assert(part == tail_after(here, '/'));
        let n: usize = end - from;
        let dot: bool = n == 1 && chars[from] == '.';
        let dots: bool = n == 2 && chars[from] == '.' && chars[from + 1] == '.';
        proof {
            if dot {
                assert(part =~= seq!['.']);
            }
            if dots {
                assert(part =~= seq!['.', '.']);
            }
            if n == 1 {
                assert(part[0] == chars@[from as int]);
            }
            if n == 2 {
                assert(part[0] == chars@[from as int] && part[1] == chars@[from + 1]);
            }
        }
        if n == 0 || dot {
            if from == 0 {
                return None;
            }
            assert(here.take(here.len() - part.len() - 1) =~= chars@.take(from - 1));
            end = from - 1;
        } else if dots {
            return None;
        } else {
            return Some(path.substring_char(from, end).to_owned());
        }
    }
}

/// The extension of the name that `path` ends in.
pub fn extension(path: &str) -> (r: Option<String>)
    ensures
        r.deep_view() == (match file_name_of(path@) {
            Some(name) => extension_of(name),
            None => None,
        }),
{
    match file_name(path) {
        Some(name) => {
            let chars: Vec<char> = chars_of(name.as_str());
            let from: usize = tail_start(&chars, chars.len(), '.');
            assert(chars@.take(chars@.len() as int) =~= name@);
            if from > 1 {
                Some(name.as_str().substring_char(from, chars.len()).to_owned())
            } else {
                None
            }
        },
        None => None,
    }
}

/// The name that `path` ends in without its extension; empty where `path` ends
/// in no name.
pub fn file_stem(path: &str) -> (r: String)
    ensures
        r@ == (match file_name_of(path@) {
            Some(name) => stem_of(name),
            None => Seq::<char>::empty(),
        }),
{
    match file_name(path) {
        Some(name) => {
            let chars: Vec<char> = chars_of(name.as_str());
            let from: usize = tail_start(&chars, chars.len(), '.');
            assert(chars@.take(chars@.len() as int) =~= name@);
            if from > 1 {
                assert(name@.subrange(0, from - 1) =~= name@.take(from - 1));
                name.as_str().substring_char(0, from - 1).to_owned()
            } else {
                name
            }
        },
        None => String::new(),
    }
}

/// A plain name is what a path ends in that consists of any directory, a slash
/// and that name, or of that name alone; and a path that ends in two dots, or in
/// nothing, ends in no name.
pub proof fn law_last_part_is_the_name(directory: Seq<char>, name: Seq<char>)
    requires
        name.len() > 0,
        !name.contains('/'),
        name != "."@,
        name != ".."@,
    ensures
        is_plain_name(name),
        file_name_of(name) == Some(name),
        file_name_of(directory + "/"@ + name) == Some(name),
        file_name_of(directory + "/.."@) is None,
        file_name_of(".."@) is None,
        file_name_of("."@) is None,
        file_name_of(""@) is None,
{
    reveal_strlit(".");
    reveal_strlit("..");
    reveal_strlit("/");
    reveal_strlit("/..");
    reveal_strlit("");
    assert(name != seq!['.']) by {
        if name == seq!['.'] {
            assert(name =~= "."@);
        }
    }
    assert(name != seq!['.', '.']) by {
        if name == seq!['.', '.'] {
            assert(name =~= ".."@);
        }
    }
    law_plain_name_is_its_file_name(name);
    lemma_tail_of_joined(directory + "/"@, name, '/');
    let dots = seq!['.', '.'];
    assert(!dots.contains('/')) by {
        if dots.contains('/') {
            let i = choose|i: int| 0 <= i < dots.len() && dots[i] == '/';
            assert(dots[i] == '.');
        }
    }
    assert((directory + "/"@).last() == '/');
    lemma_tail_of_joined(directory + "/"@, dots, '/');
    assert(directory + "/.."@ =~= directory + "/"@ + dots);
    lemma_tail_after(".."@, '/');
    assert(tail_after(".."@, '/') =~= dots) by {
        let t = tail_after(".."@, '/');
        if t.len() < 2 {
            assert(".."@[2 - t.len() - 1] == '/');
        }
    }
    lemma_tail_after(""@, '/');
    lemma_tail_after("."@, '/');
    assert(tail_after("."@, '/') =~= seq!['.']) by {
        let t = tail_after("."@, '/');
        if t.len() < 1 {
            assert("."@[1 - t.len() - 1] == '/');
        }
    }
}

/// A slash at the end of a path, alone or with a dot after it, makes no
/// difference to the name that it ends in.
pub proof fn law_closing_slashes_make_no_difference(path: Seq<char>)
    ensures
        file_name_of(path + "/"@) == file_name_of(path),
        file_name_of(path + "/."@) == file_name_of(path),
{
    reveal_strlit("/");
    reveal_strlit("/.");
    let empty = Seq::<char>::empty();
    let dot = seq!['.'];
    assert(!dot.contains('/')) by {
        if dot.contains('/') {
            let i = choose|i: int| 0 <= i < dot.len() && dot[i] == '/';
            assert(dot[i] == '.');
        }
    }
    let slashed = path + "/"@;
    lemma_tail_of_joined(slashed, empty, '/');
    assert(slashed + empty =~= slashed);
    assert(slashed.take(slashed.len() - 1) =~= path);
    lemma_tail_of_joined(slashed, dot, '/');
    assert(path + "/."@ =~= slashed + dot);
    assert((slashed + dot).take((slashed + dot).len() - 1 - 1) =~= path);
}

proof fn lemma_tail_of_joined(front: Seq<char>, part: Seq<char>, mark: char)
    requires
        !part.contains(mark),
        front.len() > 0,
        front.last() == mark,
    ensures
        tail_after(front + part, mark) == part,
    decreases part.len(),
{
    let whole = front + part;
    if part.len() > 0 {
        let less = part.drop_last();
        assert(!less.contains(mark)) by {
            if less.contains(mark) {
                let i = choose|i: int| 0 <= i < less.len() && less[i] == mark;
                assert(part[i] == mark);
            }
        }
        assert(part.last() != mark) by {
            assert(part[part.len() - 1] == part.last());
        }
        lemma_tail_of_joined(front, less, mark);
        assert(whole.drop_last() =~= front + less);
        assert(less.push(part.last()) =~= part);
    } else {
        assert(whole =~= front);
    }
}

/// The extension of a name is what stands after its last dot, as long as
/// something stands before it; the stem is what stands before. A name without a
/// dot, or with its only dot at the front, has no extension and is its own stem.
pub proof fn law_extension_follows_the_last_dot(stem: Seq<char>, extension: Seq<char>)
    requires
        !extension.contains('.'),
    ensures
        stem.len() > 0 ==> extension_of(stem + "."@ + extension) == Some(extension) && stem_of(
            stem + "."@ + extension,
        ) == stem,
        extension_of("."@ + extension) is None,
        stem_of("."@ + extension) == "."@ + extension,
        extension_of(extension) is None,
        stem_of(extension) == extension,
{
    reveal_strlit(".");
    lemma_tail_of_joined(stem + "."@, extension, '.');
    lemma_tail_of_joined("."@, extension, '.');
    lemma_tail_after(extension, '.');
    let t = tail_after(extension, '.');
    assert(t.len() == extension.len()) by {
        if t.len() < extension.len() {
            assert(extension[extension.len() - t.len() - 1] == '.');
        }
    }
    let name = stem + "."@ + extension;
    assert((stem + "."@).last() == '.');
    assert(name.take(stem.len() as int) =~= stem);
    law_stem_and_extension(name);
    law_stem_and_extension("."@ + extension);
    law_stem_and_extension(extension);
}

/// A path that ends in a stem, a dot and an extension has that name and that
/// extension, whatever directory it is in.
pub proof fn law_dotted_names_have_an_extension(
    directory: Seq<char>,
    stem: Seq<char>,
    extension: Seq<char>,
)
    requires
        stem.len() > 0,
        !extension.contains('.'),
        !stem.contains('/'),
        !extension.contains('/'),
        stem + "."@ + extension != ".."@,
    ensures
        ({
            let name = stem + "."@ + extension;
            &&& file_name_of(name) == Some(name)
            &&& file_name_of(directory + "/"@ + name) == Some(name)
            &&& extension_of(name) == Some(extension)
            &&& stem_of(name) == stem
        }),
{
    reveal_strlit(".");
    reveal_strlit("..");
    let name = stem + "."@ + extension;
    assert(!name.contains('/')) by {
        if name.contains('/') {
            let i = choose|i: int| 0 <= i < name.len() && name[i] == '/';
            if i < stem.len() {
                assert(stem[i] == '/');
            } else if i > stem.len() {
                assert(extension[i - stem.len() - 1] == '/');
            }
        }
    }
    assert(name != "."@) by {
        assert(name.len() >= 2);
    }
    law_last_part_is_the_name(directory, name);
    law_extension_follows_the_last_dot(stem, extension);
}

/// The name, the extension and the stem of a path are parts of its last part: the
/// extension is what follows the last dot of it, and the stem what comes before.
pub proof fn law_parts_of_a_path_are_found(
    path: &str,
    name: Option<String>,
    suffix: Option<String>,
    front: String,
    directory: Seq<char>,
    stem: Seq<char>,
    ending: Seq<char>,
)
    requires
        call_ensures(file_name, (path,), name),
        call_ensures(extension, (path,), suffix),
        call_ensures(file_stem, (path,), front),
        stem.len() > 0,
        !ending.contains('.'),
        !stem.contains('/'),
        !ending.contains('/'),
        stem + "."@ + ending != ".."@,
        path@ == stem + "."@ + ending || path@ == directory + "/"@ + (stem + "."@ + ending),
    ensures
        name is Some && name->0@ == stem + "."@ + ending,
        suffix is Some && suffix->0@ == ending,
        front@ == stem,
{
    law_dotted_names_have_an_extension(directory, stem, ending);
}

}
