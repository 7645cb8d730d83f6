//! Listing aliases: what files to list, and how the verbose listing lines up.
use vstd::prelude::*;
use vstd::utf8::encode_utf8;
use crate::alias::model::Details;
use crate::util::key_map::{KeyMap, keys_of};
use crate::util::string_util::{left_pad, repeat_char};
use crate::util::text::push_char;

verus! {

/// How aliases are listed.
#[derive(Debug, PartialEq, Eq, Clone, Copy)]
pub enum ActionListMode {
    /// The group names only.
    Group,
    /// The alias names only, for shell completion.
    Short,
    /// Names, commands and descriptions.
    Verbose,
}

/// The length of `s` in UTF-8 bytes (what `str::len` gives).
pub open spec fn byte_len(s: Seq<char>) -> nat {
    encode_utf8(s).len()
}

/// The greatest byte length among `keys`, 0 for no keys.
pub open spec fn max_byte_len(keys: Seq<Seq<char>>) -> nat
    decreases keys.len(),
{
    if keys.len() == 0 {
        0
    } else {
        let m = max_byte_len(keys.drop_last());
        let l = byte_len(keys.last());
        if l > m {
            l
        } else {
            m
        }
    }
}

/// `max_byte_len` bounds every key's byte length and is reached by one of
/// them when there is a key.
pub proof fn lemma_max_byte_len(keys: Seq<Seq<char>>)
    ensures
        forall|i: int| 0 <= i < keys.len() ==> byte_len(#[trigger] keys[i]) <= max_byte_len(keys),
        keys.len() > 0 ==> exists|i: int| 0 <= i < keys.len() && byte_len(keys[i]) == max_byte_len(keys),
    decreases keys.len(),
{
    if keys.len() > 0 {
        lemma_max_byte_len(keys.drop_last());
        assert forall|i: int| 0 <= i < keys.len() implies byte_len(#[trigger] keys[i])
            <= max_byte_len(keys) by {
            if i < keys.len() - 1 {
                assert(keys.drop_last()[i] == keys[i]);
            }
        }
        if byte_len(keys.last()) > max_byte_len(keys.drop_last()) {
            assert(byte_len(keys[keys.len() - 1]) == max_byte_len(keys));
        } else {
            let j = choose|j: int| 0 <= j < keys.drop_last().len() && byte_len(keys.drop_last()[j]) == max_byte_len(keys.drop_last());
            if keys.len() > 1 {
                assert(keys.drop_last()[j] == keys[j]);
            } else {
                assert(byte_len(keys[0]) == max_byte_len(keys));
            }
        }
    }
}

/// Every key of `aliases` is short enough that its length in bytes, plus the
/// indent of the description, fits in a `usize`.
pub open spec fn keys_fit(aliases: Seq<(Seq<char>, Details)>) -> bool {
    forall|i: int| 0 <= i < aliases.len() ==> byte_len(#[trigger] aliases[i].0) + 3 <= usize::MAX
}

/// The length in bytes of the longest alias name.
pub fn longest_key_length(aliases: &KeyMap<Details>) -> (r: usize)
    requires
        keys_fit(aliases@),
    ensures
        r == max_byte_len(keys_of(aliases@)),
{
    let mut longest: usize = 0;
    let mut i: usize = 0;
    while i < aliases.len()
        invariant
            i <= aliases@.len(),
            keys_fit(aliases@),
            longest == max_byte_len(keys_of(aliases@).subrange(0, i as int)),
        decreases aliases@.len() - i,
    {
        let key = aliases.key_at(i);
        let l = key.as_str().len();
        proof {
            let ks = keys_of(aliases@).subrange(0, i + 1);
            assert(ks.drop_last() =~= keys_of(aliases@).subrange(0, i as int));
            assert(ks.last() == key@);
            assert(byte_len(aliases@[i as int].0) + 3 <= usize::MAX);
        }
        if l > longest {
            longest = l;
        }
        i = i + 1;
    }
    assert(keys_of(aliases@).subrange(0, aliases@.len() as int) =~= keys_of(aliases@));
    longest
}

/// One alias as the verbose listing shows it: the indented name, the command
/// padded so that all commands start in one column, and the description
/// indented past the names.
#[derive(Debug, PartialEq, Eq)]
pub struct VerboseEntry {
    pub label: String,
    pub command: String,
    pub description: String,
}

/// The label of an alias name: the name indented by two spaces.
pub open spec fn entry_label(key: Seq<char>) -> Seq<char> {
    seq![' ', ' '] + key
}

/// `e` shows the alias `key` with `details`, when the longest name has
/// `longest` bytes.
pub open spec fn shows_entry(e: VerboseEntry, key: Seq<char>, details: Details, longest: nat) -> bool {
    &&& e.label@ == entry_label(key)
    &&& e.command@ == repeat_char(' ', (longest - byte_len(key)) as nat) + details.command@
    &&& e.description@ == repeat_char(' ', longest + 3) + details.description@
}

/// The verbose listing of `aliases`, in the order of their names.
pub fn verbose_entries(aliases: &KeyMap<Details>) -> (r: Vec<VerboseEntry>)
    requires
        keys_fit(aliases@),
    ensures
        r@.len() == aliases@.len(),
        forall|i: int|
            0 <= i < r@.len() ==> shows_entry(
                #[trigger] r@[i],
                aliases@[i].0,
                aliases@[i].1,
                max_byte_len(keys_of(aliases@)),
            ),
{
    let longest = longest_key_length(aliases);
    proof {
        lemma_max_byte_len(keys_of(aliases@));
        if aliases@.len() > 0 {
            let j = choose|j: int| 0 <= j < keys_of(aliases@).len() && byte_len(keys_of(aliases@)[j]) == max_byte_len(keys_of(aliases@));
            assert(byte_len(aliases@[j].0) + 3 <= usize::MAX);
        }
    }
    let mut out: Vec<VerboseEntry> = Vec::new();
    let mut i: usize = 0;
    while i < aliases.len()
        invariant
            i <= aliases@.len(),
            keys_fit(aliases@),
            longest == max_byte_len(keys_of(aliases@)),
            aliases@.len() > 0 ==> longest + 3 <= usize::MAX,
            forall|j: int| 0 <= j < aliases@.len() ==> byte_len(#[trigger] keys_of(aliases@)[j]) <= longest,
            out@.len() == i,
            forall|j: int|
                0 <= j < i ==> shows_entry(
                    #[trigger] out@[j],
                    aliases@[j].0,
                    aliases@[j].1,
                    longest as nat,
                ),
        decreases aliases@.len() - i,
    {
        let key = aliases.key_at(i);
        let details = aliases.value_at(i);
        assert(keys_of(aliases@)[i as int] == key@);
        let mut label = String::new();
        push_char(&mut label, ' ');
        push_char(&mut label, ' ');
        label.append(key.as_str());
        assert(label@ =~= entry_label(key@));
        let command = left_pad(details.command.as_str(), longest - key.as_str().len(), ' ');
        let description = left_pad(details.description.as_str(), longest + 3, ' ');
        out.push(VerboseEntry { label, command, description });
        i = i + 1;
    }
    out
}

/// Putting two spaces in front of a text adds two bytes to its length.
pub proof fn lemma_label_byte_len(key: Seq<char>)
    ensures
        byte_len(entry_label(key)) == byte_len(key) + 2,
{
    let l = entry_label(key);
    assert(l.drop_first() =~= seq![' '] + key);
    assert((seq![' '] + key).drop_first() =~= key);
    assert(encode_utf8(l) == vstd::utf8::encode_scalar(' ' as u32) + encode_utf8(l.drop_first()));
    assert(encode_utf8(seq![' '] + key) == vstd::utf8::encode_scalar(' ' as u32) + encode_utf8(key));
}

/// In the verbose listing every command starts in the same byte column: the
/// label and the padding in front of the command always take two bytes more
/// than the longest name.
pub proof fn lemma_commands_align(e: VerboseEntry, key: Seq<char>, details: Details, longest: nat)
    requires
        shows_entry(e, key, details, longest),
        byte_len(key) <= longest,
    ensures
        byte_len(e.label@) + (longest - byte_len(key)) == longest + 2,
{
    lemma_label_byte_len(key);
}

/// The views of (group name, file path) pairs.
pub open spec fn source_views(e: Seq<(String, String)>) -> Seq<(Seq<char>, Seq<char>)> {
    e.map_values(|p: (String, String)| (p.0@, p.1@))
}

/// The (name, path) pairs of a map of group files, in name order.
pub open spec fn group_pairs(m: Seq<(Seq<char>, String)>) -> Seq<(Seq<char>, Seq<char>)> {
    m.map_values(|e: (Seq<char>, String)| (e.0, e.1@))
}

/// The groups to list, as (name, file path) pairs: the one group whose file is
/// given (named `group`, or unnamed), or else every group in name order.
pub fn list_sources(group: Option<&str>, group_file_path: Option<&String>, groups: &KeyMap<String>) -> (r: Vec<(String, String)>)
    ensures
        group_file_path is Some ==> source_views(r@) == seq![
            (
                match group {
                    Some(g) => g@,
                    None => Seq::<char>::empty(),
                },
                group_file_path.unwrap()@,
            ),
        ],
        group_file_path is None ==> source_views(r@) == group_pairs(groups@),
{
    let mut out: Vec<(String, String)> = Vec::new();
    match group_file_path {
        Some(path) => {
            let name = match group {
                Some(g) => g.to_owned(),
                None => String::new(),
            };
            out.push((name, path.clone()));
            assert(source_views(out@) =~= seq![
                (
                    match group {
                        Some(g) => g@,
                        None => Seq::<char>::empty(),
                    },
                    group_file_path.unwrap()@,
                ),
            ]);
        },
        None => {
            let mut i: usize = 0;
            while i < groups.len()
                invariant
                    i <= groups@.len(),
                    source_views(out@) == group_pairs(groups@).subrange(0, i as int),
                decreases groups@.len() - i,
            {
                let ghost before = source_views(out@);
                let name = groups.key_at(i).clone();
                let path = groups.value_at(i).clone();
                out.push((name, path));
                assert(source_views(out@) =~= before.push((groups@[i as int].0, groups@[i as int].1@)));
                assert(group_pairs(groups@).subrange(0, i + 1) =~= group_pairs(groups@).subrange(0, i as int).push((groups@[i as int].0, groups@[i as int].1@)));
                i = i + 1;
            }
            assert(group_pairs(groups@).subrange(0, groups@.len() as int) =~= group_pairs(groups@));
        },
    }
    out
}

} // verus!
