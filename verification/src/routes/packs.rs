//! Pack discovery: choosing a pack's description file, naming the pack, and
//! assembling the sections of the pack builder.
use vstd::prelude::*;

use crate::text::{chars_end_with, seq_ends_with, str_chars, string_from_chars};

verus! {

/// A pack as the pack pages list it: the name of its directory, the stem of
/// its description file, and that file's contents.
pub struct Pack {
    pub id: String,
    pub name: String,
    pub description: String,
}

/// A section of the pack builder, with the packs it offers.
pub struct Section {
    pub title: String,
    pub description: String,
    pub options: Vec<Pack>,
    pub allow_none: bool,
}

/// The settings file of a pack-builder section.
pub struct SectionConfig {
    pub title: String,
    pub description: String,
    pub allow_none: bool,
}

/// Whether a file name names a pack description: it ends in ".txt".
pub open spec fn is_description_name(name: Seq<char>) -> bool {
    seq_ends_with(name, ".txt"@)
}

/// Whether a file name ends in ".txt".
pub fn is_description_file(name: &str) -> (res: bool)
    ensures
        res == is_description_name(name@),
{
    let suffix = str_chars(".txt");
    chars_end_with(&str_chars(name), &suffix)
}

/// Whether directory entry `e` (its name, `None` when it is not valid
/// Unicode) is a pack description.
pub open spec fn is_description_entry(e: Option<String>) -> bool {
    e matches Some(n) && is_description_name(n@)
}

/// The first entry of a pack directory, in listing order, that is a
/// description file.
pub fn find_description_file(entries: &Vec<Option<String>>) -> (found: Option<usize>)
    ensures
        match found {
            Some(i) => {
                &&& i < entries@.len()
                &&& is_description_entry(entries@[i as int])
                &&& forall|j: int| 0 <= j < i ==> !is_description_entry(#[trigger] entries@[j])
            },
            None => forall|j: int| 0 <= j < entries@.len() ==> !is_description_entry(#[trigger] entries@[j]),
        },
{
    let mut i: usize = 0;
    while i < entries.len()
        invariant
            i <= entries@.len(),
            forall|j: int| 0 <= j < i ==> !is_description_entry(#[trigger] entries@[j]),
        decreases entries.len() - i,
    {
        match &entries[i] {
            Some(name) => {
                if is_description_file(name.as_str()) {
                    return Some(i);
                }
            },
            None => {},
        }
        i = i + 1;
    }
    None
}

/// An entry of a directory listing: its name (`None` when it is not valid
/// Unicode) and whether it is a directory.
pub struct ListedEntry {
    pub name: Option<String>,
    pub is_dir: bool,
}

/// Whether a listed entry is a candidate pack or section directory: a
/// directory with a Unicode name.
pub open spec fn is_pack_dir(e: ListedEntry) -> bool {
    e.is_dir && e.name is Some
}

/// Every directory with a Unicode name is a candidate, whatever characters
/// (dots and spaces included) its name holds, and nothing else is.
pub proof fn lemma_pack_dir_rule(e: ListedEntry)
    ensures
        is_pack_dir(e) <==> (e.is_dir && e.name is Some),
{
}

/// A description file is one whose name ends in the four characters ".txt",
/// whatever comes before them.
pub proof fn lemma_description_name_rule(name: Seq<char>)
    ensures
        is_description_name(name) <==> (name.len() >= 4 && name.skip(name.len() - 4) == seq!['.', 't', 'x', 't']),
{
    reveal_strlit(".txt");
    assert(".txt"@ =~= seq!['.', 't', 'x', 't']);
}

/// The positions, in listing order, of the entries that are directories with
/// Unicode names; every such entry appears once.
pub fn pack_dir_indices(entries: &Vec<ListedEntry>) -> (idx: Vec<usize>)
    ensures
        forall|k: int| 0 <= k < idx@.len() ==> idx@[k] < entries@.len() && is_pack_dir(entries@[idx@[k] as int]),
        forall|k1: int, k2: int| 0 <= k1 < k2 < idx@.len() ==> idx@[k1] < idx@[k2],
        forall|i: int| 0 <= i < entries@.len() && is_pack_dir(#[trigger] entries@[i]) ==> idx@.contains(i as usize),
        forall|k: int| 0 <= k < idx@.len() ==> entries@[#[trigger] idx@[k] as int].is_dir
            && entries@[idx@[k] as int].name is Some,
        forall|i: int| 0 <= i < entries@.len() && (#[trigger] entries@[i]).is_dir && entries@[i].name is Some
            ==> idx@.contains(i as usize),
{
    let mut idx: Vec<usize> = Vec::new();
    let mut i: usize = 0;
    while i < entries.len()
        invariant
            i <= entries@.len(),
            forall|k: int| 0 <= k < idx@.len() ==> idx@[k] < i && is_pack_dir(entries@[idx@[k] as int]),
            forall|k1: int, k2: int| 0 <= k1 < k2 < idx@.len() ==> idx@[k1] < idx@[k2],
            forall|j: int| 0 <= j < i && is_pack_dir(#[trigger] entries@[j]) ==> idx@.contains(j as usize),
        decreases entries.len() - i,
    {
        let e = &entries[i];
        if e.is_dir && e.name.is_some() {
            let ghost old_idx = idx@;
            idx.push(i);
            assert(idx@[idx@.len() - 1] == i);
            assert forall|j: int| 0 <= j < i + 1 && is_pack_dir(#[trigger] entries@[j]) implies idx@.contains(j as usize) by {
                if j < i {
                    let k = choose|k: int| 0 <= k < old_idx.len() && old_idx[k] == j as usize;
                    assert(idx@[k] == j as usize);
                }
            }
        }
        i = i + 1;
    }
    idx
}

/// The position of the last '.' in a name, if any.
pub open spec fn last_dot(name: Seq<char>) -> Option<int>
    decreases name.len(),
{
    if name.len() == 0 {
        None
    } else if name.last() == '.' {
        Some(name.len() - 1)
    } else {
        last_dot(name.drop_last())
    }
}

/// The stem of a file name, as `Path::file_stem` gives it for a directory
/// entry's name: the whole name when it has no '.' or when its only '.' is its
/// first character; otherwise the part before the last '.'.
pub open spec fn file_stem_of(name: Seq<char>) -> Seq<char> {
    match last_dot(name) {
        None => name,
        Some(i) => if i == 0 { name } else { name.take(i) },
    }
}

proof fn lemma_last_dot_at(name: Seq<char>, i: int)
    requires
        0 <= i < name.len(),
        name[i] == '.',
        forall|j: int| i < j < name.len() ==> name[j] != '.',
    ensures
        last_dot(name) == Some(i),
    decreases name.len(),
{
    if name.last() != '.' {
        assert(i < name.len() - 1);
        lemma_last_dot_at(name.drop_last(), i);
    }
}

proof fn lemma_no_dot(name: Seq<char>)
    requires
        forall|j: int| 0 <= j < name.len() ==> name[j] != '.',
    ensures
        last_dot(name) is None,
    decreases name.len(),
{
    if name.len() > 0 {
        lemma_no_dot(name.drop_last());
    }
}

/// The stem of a file name.
pub fn file_stem(name: &str) -> (stem: String)
    ensures
        stem@ == file_stem_of(name@),
{
    let cs = str_chars(name);
    let mut i: usize = cs.len();
    let mut dot: Option<usize> = None;
    while i > 0
        invariant_except_break
            dot is None,
        invariant
            i <= cs@.len(),
            forall|j: int| i <= j < cs@.len() ==> cs@[j] != '.',
        ensures
            dot matches Some(d) ==> d < cs@.len() && last_dot(cs@) == Some(d as int),
            dot is None ==> forall|j: int| 0 <= j < cs@.len() ==> cs@[j] != '.',
        decreases i,
    {
        if cs[i - 1] == '.' {
            proof {
                lemma_last_dot_at(cs@, i - 1);
            }
            dot = Some(i - 1);
            break;
        }
        i = i - 1;
    }
    proof {
        if dot is None {
            lemma_no_dot(cs@);
        }
    }
    match dot {
        Some(d) if d > 0 => {
            let mut stem: Vec<char> = Vec::new();
            let mut k: usize = 0;
            while k < d
                invariant
                    d <= cs@.len(),
                    k <= d,
                    stem@ == cs@.take(k as int),
                decreases d - k,
            {
                stem.push(cs[k]);
                k = k + 1;
                assert(stem@ =~= cs@.take(k as int));
            }
            string_from_chars(&stem)
        },
        _ => string_from_chars(&cs),
    }
}

/// The pack in directory `id` whose description file is `file_name`, holding
/// `description`.
pub fn pack_from_files(id: String, file_name: &str, description: String) -> (pack: Pack)
    ensures
        pack.id == id,
        pack.name@ == file_stem_of(file_name@),
        pack.description == description,
{
    Pack { id, name: file_stem(file_name), description }
}

/// The pack-builder section described by `config`, offering `options`.
pub fn section_from_config(config: SectionConfig, options: Vec<Pack>) -> (section: Section)
    ensures
        section.title == config.title,
        section.description == config.description,
        section.allow_none == config.allow_none,
        section.options == options,
{
    Section {
        title: config.title,
        description: config.description,
        options,
        allow_none: config.allow_none,
    }
}

/// A pack is named after its description file without the ".txt": for any
/// non-empty `base`, the stem of `base` followed by ".txt" is `base`. (With an
/// empty base the file ".txt" keeps its whole name.)
pub proof fn lemma_description_stem(base: Seq<char>)
    requires
        base.len() > 0,
    ensures
        is_description_name(base + ".txt"@),
        file_stem_of(base + ".txt"@) == base,
{
    reveal_strlit(".txt");
    let name = base + ".txt"@;
    assert(name.skip(name.len() - 4) =~= ".txt"@);
    assert(name[base.len() as int] == '.');
    assert forall|j: int| base.len() < j < name.len() implies name[j] != '.' by {
        assert(name[j] == (".txt"@)[j - base.len()]);
    }
    lemma_last_dot_at(name, base.len() as int);
    assert(name.take(base.len() as int) =~= base);
}

proof fn lemma_last_dot_props(name: Seq<char>)
    ensures
        last_dot(name) matches Some(i) ==> (0 <= i < name.len() && name[i] == '.'
            && forall|j: int| i < j < name.len() ==> name[j] != '.'),
        last_dot(name) is None ==> forall|j: int| 0 <= j < name.len() ==> name[j] != '.',
    decreases name.len(),
{
    if name.len() > 0 && name.last() != '.' {
        lemma_last_dot_props(name.drop_last());
        assert forall|j: int| 0 <= j < name.len() - 1 implies name[j] == name.drop_last()[j] by {}
    }
}

/// The stem of a file name is a prefix of it: the part before its last '.',
/// when that '.' is not the first character; otherwise the whole name, which
/// then holds no '.' past its first character.
pub proof fn lemma_file_stem_rule(name: Seq<char>)
    ensures
        ({
            let stem = file_stem_of(name);
            &&& stem.len() <= name.len()
            &&& stem == name.take(stem.len() as int)
            &&& stem.len() < name.len() ==> {
                &&& stem.len() > 0
                &&& name[stem.len() as int] == '.'
                &&& forall|j: int| stem.len() < j < name.len() ==> name[j] != '.'
            }
            &&& stem.len() == name.len() ==> forall|j: int| 0 < j < name.len() ==> name[j] != '.'
        }),
{
    lemma_last_dot_props(name);
    let stem = file_stem_of(name);
    match last_dot(name) {
        Some(i) => {
            if i == 0 {
                assert(name.take(name.len() as int) =~= name);
            } else {
                assert(stem =~= name.take(i));
            }
        },
        None => {
            assert(name.take(name.len() as int) =~= name);
        },
    }
}

} // verus!
