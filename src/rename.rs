//! The configuration of a run and the planning of each file's new path.
use crate::bytes::{push_bytes, replace_all, replace_bytes};
use crate::config::{find_set, Config, ReplaceSet, ReplaceSetData};
use crate::path::{
    copy_range, file_name, join, joined, name_of, parent, parent_of, split_name, stem_of, ext_of,
};
use vstd::prelude::*;
use vstd::utf8::encode_utf8;

verus! {

/// What to do when a file's target path is already taken.
#[derive(Clone, Copy, Debug, PartialEq, Eq, Structural, Default)]
pub enum OnConflict {
    Overwrite,
    #[default]
    Skip,
    Ask,
}

/// A rule set named by the run that the configuration does not hold.
#[derive(Clone, Debug)]
pub enum ConfigError {
    SetNotFound(String),
}

/// Why a file's target path could not be planned.
#[derive(Clone, Debug)]
pub enum PlanError {
    /// The file does not exist.
    NotFound,
    /// Directories may be renamed, but the path names none (it ends in `..`).
    NoFileName,
    /// There is no output directory and the path has no parent.
    NoParent,
    Config(ConfigError),
}

/// A `search/replace` argument with more than one `/`.
#[derive(Clone, Debug)]
pub enum ArgError {
    TooManySeparators(String),
}

/// How many times `c` occurs in `s`.
pub open spec fn count_char(s: Seq<char>, c: char) -> nat
    decreases s.len(),
{
    if s.len() == 0 {
        0
    } else {
        count_char(s.drop_last(), c) + if s.last() == c {
            1nat
        } else {
            0nat
        }
    }
}

/// Everything a run needs: the files, how their names change, where they go,
/// and what happens on a conflict or an error.
#[derive(Clone, Debug, Default)]
pub struct Rename {
    /// Undo what the batch did when it aborts on an error.
    pub undo_on_err: bool,
    /// Only plan: change nothing on disk.
    pub dry: bool,
    /// Directories may be renamed.
    pub dirs: bool,
    pub files: Vec<Vec<u8>>,
    pub prefix: Option<String>,
    pub suffix: Option<String>,
    /// Copy instead of moving.
    pub copy: bool,
    pub on_conflict: OnConflict,
    /// Abort the batch at the first error.
    pub fragile: bool,
    pub output_dir: Option<Vec<u8>>,
    pub output_files: Option<Vec<Vec<u8>>>,
    /// Direct search and replacement pairs, in the order they apply.
    pub replace: Vec<(String, String)>,
    /// Names of the rule sets in use, in the order they apply.
    pub replace_sets: Vec<String>,
    pub config: Config,
}

/// A file and where it went; `None` when it was skipped.
#[derive(Clone, Debug)]
pub struct RenameOut {
    pub original: Vec<u8>,
    pub new_path: Option<Vec<u8>>,
}

impl View for RenameOut {
    type V = (Seq<u8>, Option<Seq<u8>>);

    open spec fn view(&self) -> (Seq<u8>, Option<Seq<u8>>) {
        (self.original@, opt_bytes(self.new_path))
    }
}

/// The view of an optional byte string.
pub open spec fn opt_bytes(o: Option<Vec<u8>>) -> Option<Seq<u8>> {
    match o {
        Some(p) => Some(p@),
        None => None,
    }
}

/// The UTF-8 bytes of an optional text, or nothing.
pub open spec fn text_bytes(s: Option<String>) -> Seq<u8> {
    match s {
        Some(t) => encode_utf8(t@),
        None => Seq::empty(),
    }
}

/// `stem` with the prefix before and the suffix after it.
pub open spec fn decorated(stem: Seq<u8>, prefix: Option<String>, suffix: Option<String>) -> Seq<
    u8,
> {
    text_bytes(prefix) + stem + text_bytes(suffix)
}

/// `name` after each pair of `pairs` has replaced, in order.
pub open spec fn apply_pairs(name: Seq<u8>, pairs: Seq<(String, String)>) -> Seq<u8>
    decreases pairs.len(),
{
    if pairs.len() == 0 {
        name
    } else {
        replace_all(
            apply_pairs(name, pairs.drop_last()),
            encode_utf8(pairs.last().0@),
            encode_utf8(pairs.last().1@),
        )
    }
}

/// `name` after each of `terms` has been replaced by `rep`, in order.
pub open spec fn apply_terms(name: Seq<u8>, terms: Seq<String>, rep: Seq<char>) -> Seq<u8>
    decreases terms.len(),
{
    if terms.len() == 0 {
        name
    } else {
        replace_all(
            apply_terms(name, terms.drop_last(), rep),
            encode_utf8(terms.last()@),
            encode_utf8(rep),
        )
    }
}

/// `name` after the rule sets called `names` have applied, in order.
pub open spec fn apply_sets(name: Seq<u8>, names: Seq<String>, sets: Seq<ReplaceSetData>) -> Seq<
    u8,
>
    decreases names.len(),
{
    if names.len() == 0 {
        name
    } else {
        let before = apply_sets(name, names.drop_last(), sets);
        match find_set(sets, names.last()@) {
            Some(d) => apply_terms(before, d.set.search@, d.set.replace@),
            None => before,
        }
    }
}

/// The first of `names` that no set in `sets` carries.
pub open spec fn missing_set(names: Seq<String>, sets: Seq<ReplaceSetData>) -> Option<String>
    decreases names.len(),
{
    if names.len() == 0 {
        None
    } else {
        match missing_set(names.drop_last(), sets) {
            Some(n) => Some(n),
            None => if find_set(sets, names.last()@) is None {
                Some(names.last())
            } else {
                None
            },
        }
    }
}

/// The new stem: prefix and suffix first, then the direct pairs, then the rule
/// sets in use.
pub open spec fn new_stem(stem: Seq<u8>, r: Rename) -> Seq<u8> {
    apply_sets(
        apply_pairs(decorated(stem, r.prefix, r.suffix), r.replace@),
        r.replace_sets@,
        r.config.sets@,
    )
}

/// What naming a stem gives: an error for the first missing rule set, else
/// the new stem.
pub open spec fn named(stem: Seq<u8>, r: Rename) -> Result<Seq<u8>, ConfigError> {
    match missing_set(r.replace_sets@, r.config.sets@) {
        Some(n) => Err(ConfigError::SetNotFound(n)),
        None => Ok(new_stem(stem, r)),
    }
}

/// The directory a file's new path goes to.
pub open spec fn target_dir(r: Rename, file: Seq<u8>) -> Option<Seq<u8>> {
    match r.output_dir {
        Some(d) => Some(d@),
        None => parent_of(file),
    }
}

/// The stem and extension a file is renamed by: a directory's whole name is
/// its stem.
pub open spec fn name_parts(n: Seq<u8>, is_dir: bool) -> (Seq<u8>, Seq<u8>) {
    if is_dir {
        (n, Seq::empty())
    } else {
        (stem_of(n), ext_of(n))
    }
}

/// The plan for one file, given whether it exists and is a directory:
/// `Ok(None)` skips it, `Ok(Some(p))` moves or copies it to `p`.
pub open spec fn planned(r: Rename, file: Seq<u8>, exists: bool, is_dir: bool) -> Result<
    Option<Seq<u8>>,
    PlanError,
> {
    if !exists {
        Err(PlanError::NotFound)
    } else if is_dir && !r.dirs {
        Ok(None)
    } else {
        match name_of(file) {
            None => if r.dirs {
                Err(PlanError::NoFileName)
            } else {
                Ok(None)
            },
            Some(n) => {
                let (stem, ext) = name_parts(n, is_dir);
                match named(stem, r) {
                    Err(e) => Err(PlanError::Config(e)),
                    Ok(s) => match target_dir(r, file) {
                        None => Err(PlanError::NoParent),
                        Some(d) => Ok(Some(joined(d, s + ext))),
                    },
                }
            },
        }
    }
}

proof fn lemma_missing_prefix(names: Seq<String>, sets: Seq<ReplaceSetData>, i: int)
    requires
        0 <= i < names.len(),
        missing_set(names.subrange(0, i), sets) is None,
    ensures
        missing_set(names.subrange(0, i + 1), sets) == if find_set(sets, names[i]@) is None {
            Some(names[i])
        } else {
            None::<String>
        },
{
    assert(names.subrange(0, i + 1).drop_last() =~= names.subrange(0, i));
}

proof fn lemma_missing_extend(names: Seq<String>, sets: Seq<ReplaceSetData>, i: int)
    requires
        0 <= i <= names.len(),
        missing_set(names.subrange(0, i), sets) is Some,
    ensures
        missing_set(names, sets) == missing_set(names.subrange(0, i), sets),
    decreases names.len() - i,
{
    if i < names.len() {
        assert(names.subrange(0, i + 1).drop_last() =~= names.subrange(0, i));
        lemma_missing_extend(names, sets, i + 1);
    } else {
        assert(names.subrange(0, i) =~= names);
    }
}

/// `res` is the plan `p`: the same error, or the same path or skip.
pub open spec fn plan_matches(
    res: Result<Option<Vec<u8>>, PlanError>,
    p: Result<Option<Seq<u8>>, PlanError>,
) -> bool {
    match p {
        Ok(Some(t)) => res is Ok && res->Ok_0 is Some && res->Ok_0->Some_0@ == t,
        Ok(None) => res is Ok && res->Ok_0 is None,
        Err(e) => res is Err && res->Err_0 == e,
    }
}

/// Planning is repeatable: two plans of one file under one configuration, with
/// the same answers about the disk, agree on the outcome and on the path.
pub proof fn lemma_plan_repeatable(
    r: Rename,
    file: Seq<u8>,
    exists: bool,
    is_dir: bool,
    first: Result<Option<Vec<u8>>, PlanError>,
    second: Result<Option<Vec<u8>>, PlanError>,
)
    requires
        plan_matches(first, planned(r, file, exists, is_dir)),
        plan_matches(second, planned(r, file, exists, is_dir)),
    ensures
        first is Ok <==> second is Ok,
        first is Err ==> first->Err_0 == second->Err_0,
        first is Ok ==> opt_bytes(first->Ok_0) == opt_bytes(second->Ok_0),
{
}

/// With no prefix, suffix, pair or rule set, naming keeps the stem as it is.
pub proof fn lemma_plain_config_keeps_stem(stem: Seq<u8>, r: Rename)
    requires
        r.prefix is None,
        r.suffix is None,
        r.replace@.len() == 0,
        r.replace_sets@.len() == 0,
    ensures
        named(stem, r) == Ok::<Seq<u8>, ConfigError>(stem),
{
    assert(decorated(stem, r.prefix, r.suffix) =~= stem);
}

/// With only a prefix `p` and a suffix `u`, the new stem is `p`, the stem and
/// `u`, in that order.
pub proof fn lemma_prefix_suffix(stem: Seq<u8>, r: Rename, p: String, u: String)
    requires
        r.prefix == Some(p),
        r.suffix == Some(u),
        r.replace@.len() == 0,
        r.replace_sets@.len() == 0,
    ensures
        named(stem, r) == Ok::<Seq<u8>, ConfigError>(encode_utf8(p@) + stem + encode_utf8(u@)),
{
}

/// A file that is no directory keeps its extension: whatever the rules do to
/// the stem, the planned path ends with the extension of the file's name.
pub proof fn lemma_extension_kept(r: Rename, file: Seq<u8>, n: Seq<u8>, target: Seq<u8>)
    requires
        name_of(file) == Some(n),
        planned(r, file, true, false) == Ok::<Option<Seq<u8>>, PlanError>(Some(target)),
    ensures
        target.len() >= ext_of(n).len(),
        target.subrange(target.len() - ext_of(n).len(), target.len() as int) == ext_of(n),
{
    let s = named(stem_of(n), r)->Ok_0;
    let d = target_dir(r, file)->Some_0;
    let name = s + ext_of(n);
    assert(target == joined(d, name));
    let k = target.len() - ext_of(n).len();
    if d.len() == 0 {
        assert(target.subrange(k, target.len() as int) =~= ext_of(n));
    } else if d.last() == crate::path::SEPARATOR {
        assert(target.subrange(k, target.len() as int) =~= ext_of(n));
    } else {
        assert(target.subrange(k, target.len() as int) =~= ext_of(n));
    }
}

proof fn lemma_count_prefix(s: Seq<char>, c: char, i: int)
    requires
        0 <= i < s.len(),
    ensures
        count_char(s.subrange(0, i + 1), c) == count_char(s.subrange(0, i), c) + if s[i] == c {
            1nat
        } else {
            0nat
        },
{
    assert(s.subrange(0, i + 1).drop_last() =~= s.subrange(0, i));
}

proof fn lemma_count_split(a: Seq<char>, b: Seq<char>, c: char)
    ensures
        count_char(a + b, c) == count_char(a, c) + count_char(b, c),
    decreases b.len(),
{
    if b.len() == 0 {
        assert(a + b =~= a);
    } else {
        assert((a + b).drop_last() =~= a + b.drop_last());
        lemma_count_split(a, b.drop_last(), c);
    }
}

/// Splits a `search/replace` argument at its `/`: without one, the whole text
/// is searched for and replaced by nothing; with more than one, it is refused.
pub fn parse_replace(arg: &str) -> (r: Result<(String, String), ArgError>)
    ensures
        r is Ok <==> count_char(arg@, '/') <= 1,
        r is Ok && count_char(arg@, '/') == 0 ==> r->Ok_0.0@ == arg@ && r->Ok_0.1@.len() == 0,
        r is Ok && count_char(arg@, '/') == 1 ==> {
            &&& r->Ok_0.0@ + seq!['/'] + r->Ok_0.1@ == arg@
            &&& count_char(r->Ok_0.0@, '/') == 0
        },
        r is Err ==> (r->Err_0 matches ArgError::TooManySeparators(t) && t@ == arg@),
{
    let n = arg.unicode_len();
    let mut count: usize = 0;
    let mut first: usize = 0;
    let mut i: usize = 0;
    assert(arg@.subrange(0, 0) =~= Seq::<char>::empty());
    while i < n
        invariant
            n == arg@.len(),
            0 <= i <= n,
            count == count_char(arg@.subrange(0, i as int), '/'),
            count <= i,
            count == 0 ==> first == i,
            count > 0 ==> first < i && arg@[first as int] == '/',
            first <= i,
            count_char(arg@.subrange(0, first as int), '/') == 0,
        decreases n - i,
    {
        proof {
            lemma_count_prefix(arg@, '/', i as int);
        }
        if arg.get_char(i) == '/' {
            count = count + 1;
        } else if count == 0 {
            proof {
                lemma_count_prefix(arg@, '/', i as int);
            }
            first = i + 1;
        }
        i = i + 1;
    }
    assert(arg@.subrange(0, n as int) =~= arg@);
    if count > 1 {
        Err(ArgError::TooManySeparators(arg.to_string()))
    } else if count == 0 {
        Ok((arg.to_string(), String::new()))
    } else {
        let search = arg.substring_char(0, first).to_string();
        let replace = arg.substring_char(first + 1, n).to_string();
        proof {
            let a = arg@.subrange(0, first as int);
            let b = arg@.subrange(first + 1, n as int);
            assert(a + seq!['/'] + b =~= arg@);
        }
        Ok((search, replace))
    }
}

/// The preview of the files, given for each whether it exists and whether
/// it is a directory: each file whose plan succeeded, with its new path or
/// `None` when it is skipped; files whose plan failed are left out.
pub open spec fn previewed(r: Rename, files: Seq<Vec<u8>>, facts: Seq<(bool, bool)>) -> Seq<
    (Seq<u8>, Option<Seq<u8>>),
>
    decreases files.len(),
{
    if files.len() == 0 || facts.len() < files.len() {
        Seq::empty()
    } else {
        let i = files.len() - 1;
        let before = previewed(r, files.drop_last(), facts.subrange(0, i));
        match planned(r, files[i]@, facts[i].0, facts[i].1) {
            Ok(p) => before.push((files[i]@, p)),
            Err(_) => before,
        }
    }
}

impl Rename {
    /// Plans every file for a preview, given for each file whether it exists
    /// and whether it is a directory.
    pub fn preview(&self, facts: &Vec<(bool, bool)>) -> (r: Vec<(Vec<u8>, Option<Vec<u8>>)>)
        requires
            facts@.len() == self.files@.len(),
        ensures
            r@.map_values(|e: (Vec<u8>, Option<Vec<u8>>)| (e.0@, opt_bytes(e.1))) == previewed(
                *self,
                self.files@,
                facts@,
            ),
    {
        let mut out: Vec<(Vec<u8>, Option<Vec<u8>>)> = Vec::new();
        let mut i: usize = 0;
        assert(self.files@.subrange(0, 0) =~= Seq::<Vec<u8>>::empty());
        while i < self.files.len()
            invariant
                facts@.len() == self.files@.len(),
                0 <= i <= self.files@.len(),
                out@.map_values(|e: (Vec<u8>, Option<Vec<u8>>)| (e.0@, opt_bytes(e.1)))
                    == previewed(*self, self.files@.subrange(0, i as int), facts@.subrange(0, i as int)),
            decreases self.files@.len() - i,
        {
            let ghost before = out@;
            let file = &self.files[i];
            let fact = facts[i];
            proof {
                let fs = self.files@.subrange(0, i + 1);
                assert(fs.drop_last() =~= self.files@.subrange(0, i as int));
                assert(facts@.subrange(0, i + 1).subrange(0, i as int) =~= facts@.subrange(0, i as int));
                assert(fs[i as int] == self.files@[i as int]);
                assert(facts@.subrange(0, i + 1)[i as int] == facts@[i as int]);
            }
            match self.get_new_path(file.as_slice(), fact.0, fact.1) {
                Ok(p) => {
                    let entry = (crate::path::copy_bytes(file.as_slice()), p);
                    out.push(entry);
                    assert(out@.map_values(|e: (Vec<u8>, Option<Vec<u8>>)| (e.0@, opt_bytes(e.1)))
                        =~= before.map_values(|e: (Vec<u8>, Option<Vec<u8>>)| (e.0@, opt_bytes(e.1))).push(
                        (entry.0@, opt_bytes(entry.1)),
                    ));
                },
                Err(_) => {},
            }
            i = i + 1;
        }
        assert(self.files@.subrange(0, i as int) =~= self.files@);
        assert(facts@.subrange(0, i as int) =~= facts@);
        out
    }

    /// Whether the run would change any name: a prefix or a suffix that is not
    /// empty, or a direct pair that searches for something.
    pub fn any_changes(&self) -> (r: bool)
        ensures
            r == (text_bytes(self.prefix).len() > 0 || text_bytes(self.suffix).len() > 0 || exists|
                i: int,
            |
                0 <= i < self.replace@.len() && (#[trigger] self.replace@[i]).0@.len() > 0),
    {
        let p = match &self.prefix {
            Some(p) => p.as_str().as_bytes().len() > 0,
            None => false,
        };
        let s = match &self.suffix {
            Some(s) => s.as_str().as_bytes().len() > 0,
            None => false,
        };
        if p || s {
            return true;
        }
        let mut i: usize = 0;
        while i < self.replace.len()
            invariant
                0 <= i <= self.replace@.len(),
                forall|j: int| 0 <= j < i ==> (#[trigger] self.replace@[j]).0@.len() == 0,
            decreases self.replace@.len() - i,
        {
            if !self.replace[i].0.as_str().is_empty() {
                return true;
            }
            i = i + 1;
        }
        false
    }

    /// Sets whether to undo on error; undoing implies a fragile batch.
    pub fn set_undo_on_err(&mut self, on: bool)
        ensures
            final(self).undo_on_err == on,
            final(self).fragile == (old(self).fragile || on),
            final(self).files == old(self).files,
            final(self).dry == old(self).dry,
            final(self).copy == old(self).copy,
    {
        self.undo_on_err = on;
        self.fragile = self.fragile || on;
    }

    /// Adds a direct search and replacement pair after those there are.
    pub fn push_replace(&mut self, search: String, replace: String)
        ensures
            final(self).replace@ == old(self).replace@.push((search, replace)),
            final(self).replace_sets == old(self).replace_sets,
            final(self).files == old(self).files,
    {
        self.replace.push((search, replace))
    }

    /// `Err` when an output directory is set and `output_dir_exists` says it is
    /// not there.
    pub fn verify_output_dir(&self, output_dir_exists: bool) -> (r: Result<&Self, PlanError>)
        ensures
            match r {
                Ok(s) => s == self && (self.output_dir is None || output_dir_exists),
                Err(e) => self.output_dir is Some && !output_dir_exists && e is NotFound,
            },
    {
        if self.output_dir.is_some() && !output_dir_exists {
            Err(PlanError::NotFound)
        } else {
            Ok(self)
        }
    }

    /// The first rule set in use that the configuration lacks, as an error.
    pub fn validate_sets(&self) -> (r: Result<(), ConfigError>)
        ensures
            match missing_set(self.replace_sets@, self.config.sets@) {
                Some(n) => r == Err::<(), ConfigError>(ConfigError::SetNotFound(n)),
                None => r is Ok,
            },
    {
        let mut j: usize = 0;
        assert(self.replace_sets@.subrange(0, 0) =~= Seq::<String>::empty());
        while j < self.replace_sets.len()
            invariant
                0 <= j <= self.replace_sets@.len(),
                missing_set(self.replace_sets@.subrange(0, j as int), self.config.sets@) is None,
            decreases self.replace_sets@.len() - j,
        {
            proof {
                lemma_missing_prefix(self.replace_sets@, self.config.sets@, j as int);
            }
            if self.config.get(&self.replace_sets[j]).is_none() {
                proof {
                    lemma_missing_extend(self.replace_sets@, self.config.sets@, j + 1);
                }
                return Err(ConfigError::SetNotFound(self.replace_sets[j].clone()));
            }
            j = j + 1;
        }
        assert(self.replace_sets@.subrange(0, j as int) =~= self.replace_sets@);
        Ok(())
    }

    /// Applies one rule set to `name`.
    fn apply_set(name: Vec<u8>, set: &ReplaceSet) -> (r: Vec<u8>)
        ensures
            r@ == apply_terms(name@, set.search@, set.replace@),
    {
        let mut name = name;
        let ghost start = name@;
        let mut k: usize = 0;
        assert(set.search@.subrange(0, 0) =~= Seq::<String>::empty());
        while k < set.search.len()
            invariant
                0 <= k <= set.search@.len(),
                name@ == apply_terms(start, set.search@.subrange(0, k as int), set.replace@),
            decreases set.search@.len() - k,
        {
            name = replace_bytes(name.as_slice(), set.search[k].as_str(), set.replace.as_str());
            assert(set.search@.subrange(0, k + 1).drop_last() =~= set.search@.subrange(
                0,
                k as int,
            ));
            k = k + 1;
        }
        assert(set.search@.subrange(0, k as int) =~= set.search@);
        name
    }

    /// The new stem for `stem`: the prefix prepended, the suffix appended, then
    /// each direct pair and each rule set in use replacing, in order.
    pub fn compute_name(&self, stem: &[u8]) -> (r: Result<Vec<u8>, ConfigError>)
        ensures
            match named(stem@, *self) {
                Ok(s) => r is Ok && r->Ok_0@ == s,
                Err(e) => r is Err && r->Err_0 == e,
            },
    {
        let mut name: Vec<u8> = Vec::new();
        if let Some(p) = &self.prefix {
            push_bytes(&mut name, p.as_str().as_bytes());
        }
        push_bytes(&mut name, stem);
        if let Some(s) = &self.suffix {
            push_bytes(&mut name, s.as_str().as_bytes());
        }
        assert(name@ =~= decorated(stem@, self.prefix, self.suffix));
        let ghost start = name@;
        let mut i: usize = 0;
        assert(self.replace@.subrange(0, 0) =~= Seq::<(String, String)>::empty());
        while i < self.replace.len()
            invariant
                0 <= i <= self.replace@.len(),
                name@ == apply_pairs(start, self.replace@.subrange(0, i as int)),
            decreases self.replace@.len() - i,
        {
            let pair = &self.replace[i];
            name = replace_bytes(name.as_slice(), pair.0.as_str(), pair.1.as_str());
            assert(self.replace@.subrange(0, i + 1).drop_last() =~= self.replace@.subrange(
                0,
                i as int,
            ));
            i = i + 1;
        }
        assert(self.replace@.subrange(0, i as int) =~= self.replace@);
        let ghost mid = name@;
        let mut j: usize = 0;
        assert(self.replace_sets@.subrange(0, 0) =~= Seq::<String>::empty());
        while j < self.replace_sets.len()
            invariant
                0 <= j <= self.replace_sets@.len(),
                missing_set(self.replace_sets@.subrange(0, j as int), self.config.sets@) is None,
                name@ == apply_sets(
                    mid,
                    self.replace_sets@.subrange(0, j as int),
                    self.config.sets@,
                ),
            decreases self.replace_sets@.len() - j,
        {
            proof {
                lemma_missing_prefix(self.replace_sets@, self.config.sets@, j as int);
                assert(self.replace_sets@.subrange(0, j + 1).drop_last()
                    =~= self.replace_sets@.subrange(0, j as int));
            }
            match self.config.get(&self.replace_sets[j]) {
                None => {
                    proof {
                        lemma_missing_extend(self.replace_sets@, self.config.sets@, j + 1);
                    }
                    return Err(ConfigError::SetNotFound(self.replace_sets[j].clone()));
                },
                Some(d) => {
                    name = Self::apply_set(name, &d.set);
                },
            }
            j = j + 1;
        }
        assert(self.replace_sets@.subrange(0, j as int) =~= self.replace_sets@);
        Ok(name)
    }

    /// The directory a file's new path goes to: the output directory if one is
    /// set, else the file's own directory.
    fn get_parent(&self, file: &[u8]) -> (r: Option<Vec<u8>>)
        ensures
            match r {
                Some(d) => target_dir(*self, file@) == Some(d@),
                None => target_dir(*self, file@) is None,
            },
    {
        match &self.output_dir {
            Some(d) => {
                let c = copy_range(d.as_slice(), 0, d.len());
                assert(d@.subrange(0, d@.len() as int) =~= d@);
                Some(c)
            },
            None => parent(file),
        }
    }

    /// The new path of `file`, given whether it exists and whether it is a
    /// directory: `Ok(None)` when it is to be skipped.
    pub fn get_new_path(&self, file: &[u8], exists: bool, is_dir: bool) -> (r: Result<
        Option<Vec<u8>>,
        PlanError,
    >)
        ensures
            plan_matches(r, planned(*self, file@, exists, is_dir)),
    {
        if !exists {
            return Err(PlanError::NotFound);
        }
        if is_dir && !self.dirs {
            return Ok(None);
        }
        let n = match file_name(file) {
            None => {
                if self.dirs {
                    return Err(PlanError::NoFileName);
                } else {
                    return Ok(None);
                }
            },
            Some(n) => n,
        };
        let (stem, ext) = if is_dir {
            (n, Vec::new())
        } else {
            split_name(n.as_slice())
        };
        let mut new_name = match self.compute_name(stem.as_slice()) {
            Err(e) => return Err(PlanError::Config(e)),
            Ok(s) => s,
        };
        push_bytes(&mut new_name, ext.as_slice());
        match self.get_parent(file) {
            None => Err(PlanError::NoParent),
            Some(d) => Ok(Some(join(d.as_slice(), new_name.as_slice()))),
        }
    }
}

} // verus!
