//! Where alias files are found, how groups are named, and which files to
//! search for an alias.
use vstd::prelude::*;
use crate::alias::model::Details;
use crate::util::expand::{
    expand, expansion_safe, ExpandError, has_no_variable, has_no_leading_tilde,
};
use crate::util::key_map::{KeyMap, has_key, lookup};
use crate::util::scan::string_views;

verus! {

/// The folder that holds the alias files: the folder named by the aliases
/// home setting, with `~` and variables expanded, or else the home folder.
pub fn alias_files_folder(aliases_home: Option<&str>, home: &str) -> (r: Result<
    String,
    ExpandError,
>)
    ensures
        aliases_home is None ==> (r matches Ok(s) && s@ == home@),
        aliases_home is Some && !expansion_safe(aliases_home.unwrap()@) ==> r == Err::<
            String,
            ExpandError,
        >(ExpandError::UnexpandableName),
        aliases_home is Some && has_no_variable(aliases_home.unwrap()@) ==> r is Ok,
        aliases_home is Some && has_no_variable(aliases_home.unwrap()@) && has_no_leading_tilde(
            aliases_home.unwrap()@,
        ) ==> (r matches Ok(s) && s@ == aliases_home.unwrap()@),
{
    match aliases_home {
        Some(val) => expand(val),
        None => Ok(home.to_owned()),
    }
}

/// The views of (name, path) pairs.
pub open spec fn pair_views(e: Seq<(String, String)>) -> Seq<(Seq<char>, Seq<char>)> {
    e.map_values(|p: (String, String)| (p.0@, p.1@))
}

/// The path that the last pair named `k` gives, if any pair is named `k`.
pub open spec fn last_path_for(e: Seq<(Seq<char>, Seq<char>)>, k: Seq<char>) -> Option<Seq<char>>
    decreases e.len(),
{
    if e.len() == 0 {
        None
    } else if e.last().0 == k {
        Some(e.last().1)
    } else {
        last_path_for(e.drop_last(), k)
    }
}

/// `m` maps each name to the view of the path that `e` gives for it last.
pub open spec fn maps_names_to_last_path(m: Seq<(Seq<char>, String)>, e: Seq<(Seq<char>, Seq<char>)>) -> bool {
    forall|k: Seq<char>|
        #![trigger lookup(m, k)]
        match lookup(m, k) {
            Some(p) => last_path_for(e, k) == Some(p@),
            None => last_path_for(e, k) is None,
        }
}

/// The groups of aliases, by name, from the (name, path) pairs of the files
/// found in the alias folder; of two files with one name, the later one counts.
pub fn group_names_from_entries(entries: &Vec<(String, String)>) -> (r: KeyMap<String>)
    ensures
        maps_names_to_last_path(r@, pair_views(entries@)),
{
    let mut m: KeyMap<String> = KeyMap::new();
    let mut i: usize = 0;
    while i < entries.len()
        invariant
            i <= entries@.len(),
            maps_names_to_last_path(m@, pair_views(entries@).subrange(0, i as int)),
        decreases entries@.len() - i,
    {
        let ghost old_m = m@;
        let name = entries[i].0.clone();
        let path = entries[i].1.clone();
        let ghost kv = name@;
        let ghost pv = path@;
        m.insert(name, path);
        proof {
            let e = pair_views(entries@);
            let prev = e.subrange(0, i as int);
            let next = e.subrange(0, i + 1);
            assert(next.drop_last() =~= prev);
            assert(next.last() == (kv, pv));
            assert forall|k: Seq<char>| #![trigger lookup(m@, k)]
                match lookup(m@, k) {
                    Some(p) => last_path_for(next, k) == Some(p@),
                    None => last_path_for(next, k) is None,
                } by {
                if k == kv {
                } else {
                    assert(lookup(m@, k) == lookup(old_m, k));
                }
            }
        }
        i = i + 1;
    }
    assert(pair_views(entries@).subrange(0, entries@.len() as int) =~= pair_views(entries@));
    m
}

/// The values of a map of paths, in key order.
pub open spec fn path_values(m: Seq<(Seq<char>, String)>) -> Seq<Seq<char>> {
    m.map_values(|e: (Seq<char>, String)| e.1@)
}

/// The search for the file that holds an alias: the files to read, in order,
/// how many of them were found not to hold it, and whether one did.
pub struct AliasSearch {
    files: Vec<String>,
    next: usize,
    found: bool,
}

impl View for AliasSearch {
    type V = (Seq<Seq<char>>, nat, bool);

    closed spec fn view(&self) -> (Seq<Seq<char>>, nat, bool) {
        (string_views(self.files@), self.next as nat, self.found)
    }
}

impl AliasSearch {
    /// The files to search: the given group file alone, or else the file of
    /// every group, in the order of the group names.
    pub fn new(group: Option<&String>, groups: &KeyMap<String>) -> (r: Self)
        ensures
            r@.0 == (match group {
                Some(g) => seq![g@],
                None => path_values(groups@),
            }),
            r@.1 == 0,
            !r@.2,
    {
        let mut files: Vec<String> = Vec::new();
        match group {
            Some(g) => {
                files.push(g.clone());
            },
            None => {
                let mut i: usize = 0;
                while i < groups.len()
                    invariant
                        i <= groups@.len(),
                        string_views(files@) == path_values(groups@).subrange(
                            0,
                            i as int,
                        ),
                    decreases groups@.len() - i,
                {
                    let ghost before = string_views(files@);
                    let f = groups.value_at(i).clone();
                    assert(f@ == path_values(groups@)[i as int]);
                    files.push(f);
                    assert(string_views(files@) =~= before.push(f@));
                    assert(string_views(files@) =~= path_values(groups@).subrange(
                        0,
                        i + 1,
                    ));
                    i = i + 1;
                }
            },
        }
        let r = AliasSearch { files, next: 0, found: false };
        assert(r@.0 =~= (match group {
            Some(g) => seq![g@],
            None => path_values(groups@),
        }));
        r
    }

    /// The file to read next, or `None` once the alias was found or every
    /// file was read.
    pub fn next_file(&self) -> (r: Option<String>)
        ensures
            !self@.2 && self@.1 < self@.0.len() ==> (r matches Some(f) && f@ == self@.0[self@.1 as int]),
            self@.2 || self@.1 >= self@.0.len() ==> r is None,
    {
        if !self.found && self.next < self.files.len() {
            Some(self.files[self.next].clone())
        } else {
            None
        }
    }

    /// Takes in the aliases of the file that `next_file` named: the search
    /// ends if they hold `alias_key`, and moves to the next file otherwise.
    pub fn consider(&mut self, commands: &KeyMap<Details>, alias_key: &str) -> (found: bool)
        requires
            !old(self)@.2,
            old(self)@.1 < old(self)@.0.len(),
        ensures
            found == has_key(commands@, alias_key@),
            final(self)@.0 == old(self)@.0,
            final(self)@.2 == found,
            final(self)@.1 == (if found {
                old(self)@.1
            } else {
                old(self)@.1 + 1
            }),
    {
        let found = commands.contains_key(alias_key);
        if found {
            self.found = true;
        } else {
            let n = self.files.len();
            assert(self.next < n);
            self.next = self.next + 1;
        }
        found
    }
}

} // verus!
