//! Named rule sets and the configuration that holds them.
use crate::path::{ext_of, file_name, name_of, split_name};
use vstd::prelude::*;

verus! {

/// Why a rule set is in use; the earlier variant takes precedence.
#[derive(Clone, Copy, Debug, PartialEq, Eq, Structural, PartialOrd, Ord)]
pub enum UsedReason {
    Default,
    Manual,
    Dependant,
}

/// A named bundle of search terms that share one replacement.
#[derive(Clone, Debug, Default)]
pub struct ReplaceSet {
    pub description: String,
    pub name: String,
    pub replace: String,
    pub search: Vec<String>,
}

/// A rule set with why it is in use and whether the user may edit it.
#[derive(Clone, Debug, Default)]
pub struct ReplaceSetData {
    pub set: ReplaceSet,
    pub used: Option<UsedReason>,
    pub editable: bool,
}

/// The sets known to a run, each found by its name, and the names of the sets
/// that are in use by default.
#[derive(Clone, Debug, Default)]
pub struct Config {
    pub default_sets: Option<Vec<String>>,
    pub sets: Vec<ReplaceSetData>,
}

/// The first set in `sets` whose name is `name`.
pub open spec fn find_set(sets: Seq<ReplaceSetData>, name: Seq<char>) -> Option<ReplaceSetData>
    decreases sets.len(),
{
    if sets.len() == 0 {
        None
    } else if sets[0].set.name@ == name {
        Some(sets[0])
    } else {
        find_set(sets.drop_first(), name)
    }
}

/// Whether `name` is among `names`.
pub open spec fn names_contain(names: Seq<String>, name: Seq<char>) -> bool {
    exists|i: int| 0 <= i < names.len() && (#[trigger] names[i])@ == name
}

/// The reason a set of this name is in use before anyone chose it.
pub open spec fn default_reason(default_sets: Option<Vec<String>>, name: Seq<char>) -> Option<
    UsedReason,
> {
    match default_sets {
        Some(d) => if names_contain(d@, name) {
            Some(UsedReason::Default)
        } else {
            None
        },
        None => None,
    }
}

proof fn lemma_find_set_skip(sets: Seq<ReplaceSetData>, name: Seq<char>, i: int)
    requires
        0 <= i < sets.len(),
        sets[i].set.name@ != name,
    ensures
        find_set(sets.skip(i), name) == find_set(sets.skip(i + 1), name),
{
    assert(sets.skip(i).drop_first() =~= sets.skip(i + 1));
}

proof fn lemma_find_set_update(
    sets: Seq<ReplaceSetData>,
    i: int,
    data: ReplaceSetData,
    name: Seq<char>,
)
    requires
        0 <= i < sets.len(),
        sets[i].set.name@ == data.set.name@,
        forall|j: int| 0 <= j < i ==> (#[trigger] sets[j]).set.name@ != data.set.name@,
    ensures
        find_set(sets.update(i, data), name) == if name == data.set.name@ {
            Some(data)
        } else {
            find_set(sets, name)
        },
    decreases i,
{
    assert(sets.update(i, data)[0] == if i == 0 {
        data
    } else {
        sets[0]
    });
    if i > 0 {
        assert(sets.update(i, data).drop_first() =~= sets.drop_first().update(i - 1, data));
        lemma_find_set_update(sets.drop_first(), i - 1, data, name);
    } else {
        assert(sets.update(i, data).drop_first() =~= sets.drop_first());
    }
}

proof fn lemma_find_set_push(sets: Seq<ReplaceSetData>, data: ReplaceSetData, name: Seq<char>)
    requires
        find_set(sets, data.set.name@) is None,
    ensures
        find_set(sets.push(data), name) == match find_set(sets, name) {
            Some(d) => Some(d),
            None => if name == data.set.name@ {
                Some(data)
            } else {
                None
            },
        },
    decreases sets.len(),
{
    if sets.len() > 0 {
        assert(sets.push(data)[0] == sets[0]);
        assert(sets.push(data).drop_first() =~= sets.drop_first().push(data));
        lemma_find_set_push(sets.drop_first(), data, name);
    } else {
        assert(sets.push(data).drop_first() =~= Seq::<ReplaceSetData>::empty());
        assert(sets.push(data)[0] == data);
        assert(find_set(Seq::<ReplaceSetData>::empty(), name) is None);
    }
}

impl Config {
    /// The set called `name`, if there is one.
    pub fn get(&self, name: &String) -> (r: Option<&ReplaceSetData>)
        ensures
            match r {
                Some(d) => find_set(self.sets@, name@) == Some(*d),
                None => find_set(self.sets@, name@) is None,
            },
    {
        let mut i: usize = 0;
        proof {
            assert(self.sets@.skip(0) =~= self.sets@);
        }
        while i < self.sets.len()
            invariant
                0 <= i <= self.sets@.len(),
                find_set(self.sets@.skip(i as int), name@) == find_set(self.sets@, name@),
            decreases self.sets@.len() - i,
        {
            if self.sets[i].set.name == *name {
                return Some(&self.sets[i]);
            }
            proof {
                lemma_find_set_skip(self.sets@, name@, i as int);
            }
            i = i + 1;
        }
        None
    }

    /// Where the set called `name` stands in `sets`, if anywhere.
    fn position(&self, name: &String) -> (r: Option<usize>)
        ensures
            match r {
                Some(i) => {
                    &&& i < self.sets@.len()
                    &&& self.sets@[i as int].set.name@ == name@
                    &&& forall|j: int|
                        0 <= j < i ==> (#[trigger] self.sets@[j]).set.name@ != name@
                },
                None => find_set(self.sets@, name@) is None,
            },
    {
        let mut i: usize = 0;
        proof {
            assert(self.sets@.skip(0) =~= self.sets@);
        }
        while i < self.sets.len()
            invariant
                0 <= i <= self.sets@.len(),
                find_set(self.sets@.skip(i as int), name@) == find_set(self.sets@, name@),
                forall|j: int| 0 <= j < i ==> (#[trigger] self.sets@[j]).set.name@ != name@,
            decreases self.sets@.len() - i,
        {
            if self.sets[i].set.name == *name {
                return Some(i);
            }
            proof {
                lemma_find_set_skip(self.sets@, name@, i as int);
            }
            i = i + 1;
        }
        None
    }

    /// Adds `data` under its set's name, in place of a set of that name if
    /// there was one.
    pub fn insert_set(&mut self, data: ReplaceSetData)
        ensures
            final(self).default_sets == old(self).default_sets,
            forall|name: Seq<char>|
                #![trigger find_set(final(self).sets@, name)]
                find_set(final(self).sets@, name) == if name == data.set.name@ {
                    Some(data)
                } else {
                    find_set(old(self).sets@, name)
                },
    {
        match self.position(&data.set.name) {
            Some(i) => {
                proof {
                    assert forall|name: Seq<char>|
                        #![trigger find_set(self.sets@.update(i as int, data), name)]
                        find_set(self.sets@.update(i as int, data), name) == if name
                            == data.set.name@ {
                            Some(data)
                        } else {
                            find_set(self.sets@, name)
                        } by {
                        lemma_find_set_update(self.sets@, i as int, data, name);
                    }
                }
                self.sets.set(i, data);
            },
            None => {
                proof {
                    assert forall|name: Seq<char>|
                        #![trigger find_set(self.sets@.push(data), name)]
                        find_set(self.sets@.push(data), name) == if name == data.set.name@ {
                            Some(data)
                        } else {
                            find_set(self.sets@, name)
                        } by {
                        lemma_find_set_push(self.sets@, data, name);
                    }
                }
                self.sets.push(data);
            },
        }
    }

    /// The sets that come with the program: `no_whitespace`, which replaces
    /// each space with an underscore, in use if it is a default set.
    pub fn builtin_sets(&self) -> (r: Vec<ReplaceSetData>)
        ensures
            r@.len() == 1,
            r@[0].set.name@ == "no_whitespace"@,
            r@[0].set.description@ == "replaces all whitespaces with underscores"@,
            r@[0].set.search@.len() == 1,
            r@[0].set.search@[0]@ == " "@,
            r@[0].set.replace@ == "_"@,
            r@[0].used == default_reason(self.default_sets, "no_whitespace"@),
            !r@[0].editable,
    {
        let name = "no_whitespace".to_string();
        let used = self.is_set_default(&name);
        let mut search: Vec<String> = Vec::new();
        search.push(" ".to_string());
        let set = ReplaceSet {
            description: "replaces all whitespaces with underscores".to_string(),
            name,
            replace: "_".to_string(),
            search,
        };
        let mut out: Vec<ReplaceSetData> = Vec::new();
        out.push(ReplaceSetData { set, used, editable: false });
        out
    }

    /// Adds a set read from a set file, in use if it is a default set, in
    /// place of any set of that name.
    pub fn add_found_set(&mut self, set: ReplaceSet, editable: bool)
        ensures
            final(self).default_sets == old(self).default_sets,
            forall|name: Seq<char>|
                #![trigger find_set(final(self).sets@, name)]
                find_set(final(self).sets@, name) == if name == set.name@ {
                    Some(
                        ReplaceSetData {
                            set,
                            used: default_reason(old(self).default_sets, set.name@),
                            editable,
                        },
                    )
                } else {
                    find_set(old(self).sets@, name)
                },
    {
        let used = self.is_set_default(&set.name);
        self.insert_set(ReplaceSetData { set, used, editable });
    }

    /// `Some(Default)` when `name` is among the default sets, else `None`.
    pub fn is_set_default(&self, name: &String) -> (r: Option<UsedReason>)
        ensures
            r == default_reason(self.default_sets, name@),
    {
        match &self.default_sets {
            Some(d) => {
                let mut i: usize = 0;
                while i < d.len()
                    invariant
                        0 <= i <= d@.len(),
                        self.default_sets == Some(*d),
                        forall|j: int| 0 <= j < i ==> (#[trigger] d@[j])@ != name@,
                    decreases d@.len() - i,
                {
                    if d[i] == *name {
                        assert(names_contain(d@, name@)) by {
                            assert(d@[i as int]@ == name@);
                        }
                        return Some(UsedReason::Default);
                    }
                    i = i + 1;
                }
                None
            },
            None => None,
        }
    }
}

/// Whether a path names a set file: its file name has the extension `.toml`.
pub open spec fn is_set_path(p: Seq<u8>) -> bool {
    match name_of(p) {
        Some(n) => ext_of(n) == seq![0x2eu8, 0x74u8, 0x6fu8, 0x6du8, 0x6cu8],
        None => false,
    }
}

/// Whether `p` names a set file, one whose name ends in `.toml`.
pub fn is_set_file(p: &[u8]) -> (r: bool)
    ensures
        r == is_set_path(p@),
{
    match file_name(p) {
        None => false,
        Some(n) => {
            let (_, ext) = split_name(n.as_slice());
            let r = ext.len() == 5 && ext[0] == 0x2e && ext[1] == 0x74 && ext[2] == 0x6f && ext[3]
                == 0x6d && ext[4] == 0x6c;
            assert(r ==> ext@ =~= seq![0x2eu8, 0x74u8, 0x6fu8, 0x6du8, 0x6cu8]);
            r
        },
    }
}

} // verus!
