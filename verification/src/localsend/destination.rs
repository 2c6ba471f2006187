//! Where a received file is stored: under its own name, or under a numbered one
//! where that is taken.
use vstd::prelude::*;
use vstd::string::*;

use crate::path::{
    extension, extension_of, file_name_of, file_stem, is_plain_name,
    law_dotted_names_have_an_extension, law_extension_follows_the_last_dot,
    law_last_part_is_the_name,
    law_plain_name_is_its_file_name, law_stem_and_extension, stem_of,
};
use crate::text::{
    decimal, decimal_text, is_digit, join2, law_decimal_is_injective, law_decimal_reads_back,
};

verus! {

/// How many names are tried for one file.
pub const MAX_CANDIDATES: u64 = 10000;

/// Why no place is found for a file whose names are all taken.
pub const TOO_MANY: &'static str = "too many files share this name";

/// What stands before the number in the numbered names of a file: its stem, a
/// space and an opening bracket.
pub open spec fn before_number(file_name: Seq<char>) -> Seq<char> {
    (match file_name_of(file_name) {
        Some(name) => stem_of(name),
        None => Seq::empty(),
    }) + " ("@
}

/// What stands after the number in the numbered names of a file: a closing
/// bracket, and the extension where there is one.
pub open spec fn after_number(file_name: Seq<char>) -> Seq<char> {
    let extension = match file_name_of(file_name) {
        Some(name) => extension_of(name),
        None => None,
    };
    match extension {
        Some(extension) => ")."@ + extension,
        None => ")"@,
    }
}

/// The name that is tried for a file after `index` others: `name.ext` first,
/// then `name (1).ext`, `name (2).ext`, and so on.
pub open spec fn candidate(file_name: Seq<char>, index: nat) -> Seq<char> {
    if index == 0 {
        file_name
    } else {
        before_number(file_name) + decimal(index) + after_number(file_name)
    }
}

/// The name that is tried for a file after `index` others.
pub fn candidate_name(file_name: &str, index: u64) -> (r: String)
    ensures
        r@ == candidate(file_name@, index as nat),
{
    if index == 0 {
        return file_name.to_owned();
    }
    let stem: String = file_stem(file_name);
    let mut name: String = join2(stem.as_str(), " (");
    name.append(decimal_text(index).as_str());
    match extension(file_name) {
        Some(extension) => {
            let after: String = join2(").", extension.as_str());
            name.append(after.as_str());
        },
        None => {
            name.append(")");
        },
    }
    name
}

/// What came of creating a file that must not exist yet.
#[derive(Debug, Clone, Copy, PartialEq, Eq, Structural)]
pub enum CreateOutcome {
    Created,
    AlreadyExists,
    Failed,
}

/// What is to be done next to find a place for a file.
#[derive(Debug, Clone, Copy, PartialEq, Eq, Structural)]
pub enum SearchStep {
    /// The file was created under the current name.
    Found,
    /// The current name is another one than before and is to be tried.
    TryNext,
    /// Too many files share the name.
    TooMany,
    /// The file cannot be created.
    GiveUp,
}

/// The search for a place for a file.
#[derive(Debug)]
pub struct DestinationSearch {
    file_name: String,
    index: u64,
}

impl DestinationSearch {
    /// The name that the file is to have.
    pub closed spec fn file_name(&self) -> Seq<char> {
        self.file_name@
    }

    /// How many names were tried before the current one.
    pub closed spec fn tried(&self) -> nat {
        self.index as nat
    }

    #[verifier::type_invariant]
    spec fn tries_are_bounded(&self) -> bool {
        self.index < MAX_CANDIDATES
    }

    /// Begins with the name that the file is to have.
    pub fn new(file_name: String) -> (r: Self)
        ensures
            r.file_name() == file_name@,
            r.tried() == 0,
    {
        DestinationSearch { file_name, index: 0 }
    }

    /// The current name.
    pub fn name(&self) -> (r: String)
        ensures
            r@ == candidate(self.file_name(), self.tried()),
    {
        candidate_name(self.file_name.as_str(), self.index)
    }

    /// Takes note of what came of creating a file under the current name. Only
    /// where there is one already another name is tried.
    pub fn create_destination(&mut self, outcome: CreateOutcome) -> (r: SearchStep)
        ensures
            final(self).file_name() == old(self).file_name(),
            old(self).tried() < MAX_CANDIDATES,
            match outcome {
                CreateOutcome::Created => r == SearchStep::Found && final(self).tried() == old(
                    self,
                ).tried(),
                CreateOutcome::Failed => r == SearchStep::GiveUp && final(self).tried() == old(
                    self,
                ).tried(),
                CreateOutcome::AlreadyExists => if old(self).tried() + 1 < MAX_CANDIDATES {
                    r == SearchStep::TryNext && final(self).tried() == old(self).tried() + 1
                } else {
                    r == SearchStep::TooMany && final(self).tried() == old(self).tried()
                },
            },
    {
        proof {
            use_type_invariant(&*self);
        }
        match outcome {
            CreateOutcome::Created => SearchStep::Found,
            CreateOutcome::Failed => SearchStep::GiveUp,
            CreateOutcome::AlreadyExists => {
                if self.index + 1 < MAX_CANDIDATES {
                    self.index = self.index + 1;
                    SearchStep::TryNext
                } else {
                    SearchStep::TooMany
                }
            },
        }
    }
}

proof fn lemma_numbered_shape(file_name: Seq<char>, index: nat)
    requires
        is_plain_name(file_name),
        index > 0,
    ensures
        candidate(file_name, index).len() == file_name.len() + 3 + decimal(index).len(),
        candidate(file_name, index).len() > before_number(file_name).len() + decimal(index).len(),
        candidate(file_name, index).subrange(
            before_number(file_name).len() as int,
            (before_number(file_name).len() + decimal(index).len()) as int,
        ) == decimal(index),
{
    reveal_strlit(" (");
    reveal_strlit(").");
    reveal_strlit(")");
    law_plain_name_is_its_file_name(file_name);
    law_stem_and_extension(file_name);
    let n = before_number(file_name).len() as int;
    assert(candidate(file_name, index).subrange(n, n + decimal(index).len()) =~= decimal(index));
}

/// No two of the names that are tried for a file are the same.
pub proof fn law_candidates_differ(file_name: Seq<char>, i: nat, j: nat)
    requires
        is_plain_name(file_name),
        i < j,
    ensures
        candidate(file_name, i) != candidate(file_name, j),
{
    lemma_numbered_shape(file_name, j);
    if i > 0 {
        lemma_numbered_shape(file_name, i);
        if candidate(file_name, i) == candidate(file_name, j) {
            assert(decimal(i) == decimal(j));
            law_decimal_is_injective(i, j);
        }
    }
}

/// A file that is to have a plain name is only ever created under a plain
/// name: whatever is there already, it stays in its directory.
pub proof fn law_candidates_are_plain(file_name: Seq<char>, index: nat)
    requires
        is_plain_name(file_name),
    ensures
        is_plain_name(candidate(file_name, index)),
{
    if index > 0 {
        reveal_strlit(" (");
        reveal_strlit(").");
        reveal_strlit(")");
        law_plain_name_is_its_file_name(file_name);
        law_stem_and_extension(file_name);
        law_decimal_reads_back(index, index);
        let name = candidate(file_name, index);
        let n = before_number(file_name).len();
        let stem = stem_of(file_name);
        lemma_numbered_shape(file_name, index);
        assert(name[n - 1] == '(');
        assert(name != seq!['.']);
        assert(name != seq!['.', '.']);
        assert(!name.contains('/')) by {
            if name.contains('/') {
                let i = choose|i: int| 0 <= i < name.len() && name[i] == '/';
                let d = decimal(index);
                if i < stem.len() {
                    assert(file_name[i] == '/');
                    assert(file_name.contains('/'));
                } else if i < n {
                    assert(name[i] == " ("@[i - stem.len()]);
                } else if i < n + d.len() {
                    assert(name[i] == d[i - n]);
                    assert(is_digit(d[i - n]));
                } else {
                    let k = i - n - d.len();
                    assert(name[i] == after_number(file_name)[k]);
                    if k >= 2 {
                        let e = extension_of(file_name)->Some_0;
                        assert(after_number(file_name)[k] == e[k - 2]);
                        assert(file_name[stem.len() + 1 + (k - 2)] == e[k - 2]);
                        assert(file_name.contains('/'));
                    }
                }
            }
        }
    }
}

/// A numbered name is the name with a space and the number in brackets before the
/// dot of its extension, or at its end where it has none; the first name that is
/// tried is the name itself.
pub proof fn law_numbers_stand_before_the_extension(
    stem: Seq<char>,
    extension: Seq<char>,
    index: nat,
)
    requires
        stem.len() > 0,
        index > 0,
        !extension.contains('.'),
        !stem.contains('/'),
        !extension.contains('/'),
        stem + "."@ + extension != ".."@,
    ensures
        candidate(stem + "."@ + extension, 0) == stem + "."@ + extension,
        candidate(stem + "."@ + extension, index) == stem + " ("@ + decimal(index) + (")."@
            + extension),
        extension.len() > 0 ==> candidate(extension, 0) == extension && candidate(extension, index)
            == extension + " ("@ + decimal(index) + ")"@,
{
    reveal_strlit(".");
    reveal_strlit("..");
    law_dotted_names_have_an_extension(Seq::empty(), stem, extension);
    law_extension_follows_the_last_dot(stem, extension);
    if extension.len() > 0 {
        if extension == "."@ || extension == ".."@ {
            assert(extension[0] == '.');
        }
        law_last_part_is_the_name(Seq::empty(), extension);
    }
}

/// A search goes through the names of a file one by one as long as they are
/// taken, up to ten thousand of them; it ends with the first that is free, and
/// gives up on any other failure.
pub proof fn law_names_are_tried_one_by_one(
    search: &mut DestinationSearch,
    outcome: CreateOutcome,
    step: SearchStep,
)
    requires
        call_ensures(DestinationSearch::create_destination, (search, outcome), step),
    ensures
        outcome is Created <==> step is Found,
        outcome is Failed <==> step is GiveUp,
        outcome is AlreadyExists && old(search).tried() < 9999 ==> step is TryNext
            && final(search).tried() == old(search).tried() + 1,
        outcome is AlreadyExists && old(search).tried() >= 9999 ==> step is TooMany,
        step !is TryNext ==> final(search).tried() == old(search).tried(),
        final(search).file_name() == old(search).file_name(),
        MAX_CANDIDATES == 10000,
        TOO_MANY@ == "too many files share this name"@,
{
}

/// The name that a search is at is the one with as many tries behind it, and the
/// first is the name of the file itself.
pub proof fn law_searches_are_at_their_name(
    search: &DestinationSearch,
    name: String,
    file_name: &str,
    index: u64,
    numbered: String,
)
    requires
        call_ensures(DestinationSearch::name, (search,), name),
        call_ensures(candidate_name, (file_name, index), numbered),
    ensures
        name@ == candidate(search.file_name(), search.tried()),
        search.tried() == 0 ==> name@ == search.file_name(),
        numbered@ == candidate(file_name@, index as nat),
        index == 0 ==> numbered@ == file_name@,
{
}

}
