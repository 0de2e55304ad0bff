//! Installed and available packages: a map from package name to version,
//! kept in name order, and the parsers of `rpm -q` and `dnf list` output.
use vstd::prelude::*;

use crate::pattern::{capture_group, regex_group, ParsePatterns, DNF_PACKAGE_LINE};
use crate::text::{
    after_char, before_char, concat, contains_seq, contains_str, lemma_str_less_irreflexive,
    lemma_str_less_total, lemma_str_less_transitive, lines, lines_of, option_view, remove_char,
    split_once_char, str_eq, str_less, str_less_exec, without_char,
};

verus! {

/// Name-version pairs as plain text.
pub open spec fn text_pairs(e: Seq<(String, String)>) -> Seq<(Seq<char>, Seq<char>)> {
    e.map_values(|p: (String, String)| (p.0@, p.1@))
}

/// Whether the names of `p` are in strictly increasing order.
pub open spec fn sorted_by_name(p: Seq<(Seq<char>, Seq<char>)>) -> bool {
    forall|i: int, j: int| 0 <= i < j < p.len() ==> str_less(#[trigger] p[i].0, #[trigger] p[j].0)
}

/// Whether some pair of `p` has the name `k`.
pub open spec fn has_name(p: Seq<(Seq<char>, Seq<char>)>, k: Seq<char>) -> bool {
    exists|i: int| 0 <= i < p.len() && #[trigger] p[i].0 == k
}

/// A position of `p` whose pair has the name `k`, when there is one.
pub open spec fn name_index(p: Seq<(Seq<char>, Seq<char>)>, k: Seq<char>) -> int {
    choose|i: int| 0 <= i < p.len() && #[trigger] p[i].0 == k
}

/// The map from name to version that the pairs `p` make.
pub open spec fn pairs_map(p: Seq<(Seq<char>, Seq<char>)>) -> Map<Seq<char>, Seq<char>> {
    Map::new(|k: Seq<char>| has_name(p, k), |k: Seq<char>| p[name_index(p, k)].1)
}

proof fn lemma_sorted_distinct(p: Seq<(Seq<char>, Seq<char>)>, i: int, j: int)
    requires
        sorted_by_name(p),
        0 <= i < p.len(),
        0 <= j < p.len(),
        i != j,
    ensures
        p[i].0 != p[j].0,
{
    if i < j {
        assert(str_less(p[i].0, p[j].0));
        if p[i].0 == p[j].0 {
            lemma_str_less_irreflexive(p[i].0);
        }
    } else {
        assert(str_less(p[j].0, p[i].0));
        if p[i].0 == p[j].0 {
            lemma_str_less_irreflexive(p[i].0);
        }
    }
}

/// In sorted pairs, the pair named `p[i].0` is the `i`-th.
proof fn lemma_pairs_map_at(p: Seq<(Seq<char>, Seq<char>)>, i: int)
    requires
        sorted_by_name(p),
        0 <= i < p.len(),
    ensures
        pairs_map(p).contains_key(p[i].0),
        pairs_map(p)[p[i].0] == p[i].1,
{
    let k = p[i].0;
    assert(has_name(p, k));
    let j = name_index(p, k);
    if j != i {
        lemma_sorted_distinct(p, i, j);
    }
}

/// A map of package names to versions, iterated in name order.
#[derive(Debug)]
pub struct PackageMap {
    entries: Vec<(String, String)>,
}

impl PackageMap {
    /// The name-version pairs, in name order.
    pub closed spec fn pairs(self) -> Seq<(Seq<char>, Seq<char>)> {
        text_pairs(self.entries@)
    }

    #[verifier::type_invariant]
    spec fn names_in_order(self) -> bool {
        sorted_by_name(self.pairs())
    }
}

impl View for PackageMap {
    type V = Map<Seq<char>, Seq<char>>;

    open spec fn view(&self) -> Map<Seq<char>, Seq<char>> {
        pairs_map(self.pairs())
    }
}

impl PackageMap {
    pub fn new() -> (res: Self)
        ensures
            res.pairs() == Seq::<(Seq<char>, Seq<char>)>::empty(),
            res@ == Map::<Seq<char>, Seq<char>>::empty(),
    {
        let res = PackageMap { entries: Vec::new() };
        assert(res.pairs() =~= Seq::<(Seq<char>, Seq<char>)>::empty());
        assert(res@ =~= Map::<Seq<char>, Seq<char>>::empty());
        res
    }

    /// The position of the first entry whose name does not sort before
    /// `name`.
    fn lower_bound(&self, name: &str) -> (pos: usize)
        ensures
            pos <= self.pairs().len(),
            forall|j: int| 0 <= j < pos ==> str_less(#[trigger] self.pairs()[j].0, name@),
            pos < self.pairs().len() ==> !str_less(self.pairs()[pos as int].0, name@),
    {
        let mut i: usize = 0;
        while i < self.entries.len()
            invariant
                i <= self.entries.len(),
                self.pairs() == text_pairs(self.entries@),
                forall|j: int| 0 <= j < i ==> str_less(#[trigger] self.pairs()[j].0, name@),
            decreases self.entries.len() - i,
        {
            if !str_less_exec(self.entries[i].0.as_str(), name) {
                return i;
            }
            i = i + 1;
        }
        i
    }

    /// Sets the version of `name`, adding it when it is not there yet.
    pub fn insert(&mut self, name: String, version: String)
        ensures
            final(self)@ == old(self)@.insert(name@, version@),
    {
        proof {
            use_type_invariant(&*self);
        }
        let pos = self.lower_bound(name.as_str());
        let ghost p = self.pairs();
        let mut entries: Vec<(String, String)> = Vec::new();
        std::mem::swap(&mut entries, &mut self.entries);
        assert(text_pairs(entries@) == p);
        if pos < entries.len() && str_eq(entries[pos].0.as_str(), name.as_str()) {
            let ghost k = name@;
            entries.set(pos, (name, version));
            let ghost q = text_pairs(entries@);
            assert(q =~= p.update(pos as int, (k, version@)));
            assert(sorted_by_name(q));
            self.entries = entries;
            assert forall|key: Seq<char>| #![auto]
                pairs_map(q).contains_key(key) == pairs_map(p).insert(k, version@).contains_key(key)
                by {
                if has_name(p, key) && key != k {
                    let j = choose|j: int| 0 <= j < p.len() && #[trigger] p[j].0 == key;
                    assert(q[j].0 == key);
                }
                if has_name(q, key) && key != k {
                    let j = choose|j: int| 0 <= j < q.len() && #[trigger] q[j].0 == key;
                    assert(p[j].0 == key);
                }
                if key == k {
                    assert(q[pos as int].0 == k);
                }
            }
            assert forall|key: Seq<char>| #[trigger] pairs_map(q).contains_key(key) implies
                pairs_map(q)[key] == pairs_map(p).insert(k, version@)[key] by {
                let j = choose|j: int| 0 <= j < q.len() && #[trigger] q[j].0 == key;
                lemma_pairs_map_at(q, j);
                if key != k {
                    assert(j != pos);
                    lemma_pairs_map_at(p, j);
                } else {
                    lemma_pairs_map_at(q, pos as int);
                }
            }
            assert(self@ =~= old(self)@.insert(name@, version@));
        } else {
            let ghost k = name@;
            proof {
                if pos < p.len() {
                    assert(p[pos as int].0 != k);
                    lemma_str_less_total(p[pos as int].0, k);
                }
            }
            entries.insert(pos, (name, version));
            let ghost q = text_pairs(entries@);
            assert(q =~= p.insert(pos as int, (k, version@)));
            assert forall|i: int, j: int| 0 <= i < j < q.len() implies str_less(
                #[trigger] q[i].0,
                #[trigger] q[j].0,
            ) by {
                if j < pos {
                } else if j == pos {
                } else if i < pos {
                    // q[i] < k < q[j]
                    assert(str_less(q[i].0, k));
                    if j - 1 > pos {
                        assert(str_less(p[pos as int].0, p[j - 1].0));
                        lemma_str_less_transitive(k, p[pos as int].0, p[j - 1].0);
                    }
                    lemma_str_less_transitive(q[i].0, k, q[j].0);
                } else if i == pos {
                    if j - 1 > pos {
                        assert(str_less(p[pos as int].0, p[j - 1].0));
                        lemma_str_less_transitive(k, p[pos as int].0, p[j - 1].0);
                    }
                } else {
                    assert(str_less(p[i - 1].0, p[j - 1].0));
                }
            }
            self.entries = entries;
            assert(!has_name(p, k)) by {
                if has_name(p, k) {
                    let j = choose|j: int| 0 <= j < p.len() && #[trigger] p[j].0 == k;
                    if j < pos {
                        lemma_str_less_irreflexive(k);
                    } else {
                        assert(!str_less(p[pos as int].0, k));
                        if j > pos {
                            assert(str_less(p[pos as int].0, p[j].0));
                        }
                        lemma_str_less_irreflexive(k);
                    }
                }
            }
            assert forall|key: Seq<char>| #![auto]
                pairs_map(q).contains_key(key) == pairs_map(p).insert(k, version@).contains_key(key)
                by {
                if has_name(p, key) {
                    let j = choose|j: int| 0 <= j < p.len() && #[trigger] p[j].0 == key;
                    if j < pos {
                        assert(q[j].0 == key);
                    } else {
                        assert(q[j + 1].0 == key);
                    }
                }
                if has_name(q, key) && key != k {
                    let j = choose|j: int| 0 <= j < q.len() && #[trigger] q[j].0 == key;
                    if j < pos {
                        assert(p[j].0 == key);
                    } else {
                        assert(p[j - 1].0 == key);
                    }
                }
                if key == k {
                    assert(q[pos as int].0 == k);
                }
            }
            assert forall|key: Seq<char>| #[trigger] pairs_map(q).contains_key(key) implies
                pairs_map(q)[key] == pairs_map(p).insert(k, version@)[key] by {
                let j = choose|j: int| 0 <= j < q.len() && #[trigger] q[j].0 == key;
                lemma_pairs_map_at(q, j);
                if j < pos {
                    lemma_pairs_map_at(p, j);
                } else if j > pos {
                    lemma_pairs_map_at(p, j - 1);
                }
            }
            assert(self@ =~= old(self)@.insert(name@, version@));
        }
    }
}

impl PackageMap {
    /// Whether `name` has a version here.
    pub fn contains_key(&self, name: &str) -> (res: bool)
        ensures
            res == self@.contains_key(name@),
    {
        proof {
            use_type_invariant(self);
        }
        let pos = self.lower_bound(name);
        if pos < self.entries.len() && str_eq(self.entries[pos].0.as_str(), name) {
            proof {
                lemma_pairs_map_at(self.pairs(), pos as int);
            }
            true
        } else {
            proof {
                if has_name(self.pairs(), name@) {
                    let p = self.pairs();
                    let j = choose|j: int| 0 <= j < p.len() && #[trigger] p[j].0 == name@;
                    if j < pos {
                        lemma_str_less_irreflexive(name@);
                    } else if j > pos {
                        assert(str_less(p[pos as int].0, p[j].0));
                    }
                }
            }
            false
        }
    }

    /// The version of `name`, when it has one.
    pub fn get(&self, name: &str) -> (res: Option<String>)
        ensures
            res is Some <==> self@.contains_key(name@),
            res matches Some(v) ==> v@ == self@[name@],
    {
        proof {
            use_type_invariant(self);
        }
        let pos = self.lower_bound(name);
        if pos < self.entries.len() && str_eq(self.entries[pos].0.as_str(), name) {
            proof {
                lemma_pairs_map_at(self.pairs(), pos as int);
            }
            Some(self.entries[pos].1.clone())
        } else {
            let found = self.contains_key(name);
            proof {
                if has_name(self.pairs(), name@) {
                    let p = self.pairs();
                    let j = choose|j: int| 0 <= j < p.len() && #[trigger] p[j].0 == name@;
                    if j < pos {
                        lemma_str_less_irreflexive(name@);
                    } else if j > pos {
                        assert(str_less(p[pos as int].0, p[j].0));
                    }
                }
            }
            None
        }
    }

    /// Whether there is no package here.
    pub fn is_empty(&self) -> (res: bool)
        ensures
            res == (self.pairs().len() == 0),
            res == (self@.dom() == Set::<Seq<char>>::empty()),
    {
        proof {
            use_type_invariant(self);
            if self.pairs().len() > 0 {
                lemma_pairs_map_at(self.pairs(), 0);
            } else {
                assert(self@.dom() =~= Set::<Seq<char>>::empty());
            }
        }
        self.entries.len() == 0
    }

    /// The packages with their versions, in name order.
    pub fn entries(&self) -> (res: Vec<(String, String)>)
        ensures
            text_pairs(res@) == self.pairs(),
            sorted_by_name(self.pairs()),
            forall|i: int| 0 <= i < self.pairs().len() ==> #[trigger] self@.contains_key(self.pairs()[i].0)
                && self@[self.pairs()[i].0] == self.pairs()[i].1,
            forall|k: Seq<char>| #[trigger] self@.contains_key(k) ==> has_name(self.pairs(), k),
    {
        proof {
            use_type_invariant(self);
            assert forall|i: int| 0 <= i < self.pairs().len() implies #[trigger] self@.contains_key(
                self.pairs()[i].0,
            ) && self@[self.pairs()[i].0] == self.pairs()[i].1 by {
                lemma_pairs_map_at(self.pairs(), i);
            }
        }
        let mut res: Vec<(String, String)> = Vec::new();
        let mut i: usize = 0;
        while i < self.entries.len()
            invariant
                i <= self.entries.len(),
                text_pairs(res@) == text_pairs(self.entries@).take(i as int),
            decreases self.entries.len() - i,
        {
            let name = self.entries[i].0.clone();
            let version = self.entries[i].1.clone();
            assert(name@ == text_pairs(self.entries@)[i as int].0);
            assert(version@ == text_pairs(self.entries@)[i as int].1);
            let ghost before = text_pairs(res@);
            res.push((name, version));
            assert(text_pairs(res@) =~= before.push(text_pairs(self.entries@)[i as int]));
            i = i + 1;
            assert(text_pairs(res@) =~= text_pairs(self.entries@).take(i as int));
        }
        assert(text_pairs(self.entries@).take(i as int) =~= text_pairs(self.entries@));
        res
    }
}

/// What a lookup gives back after an insert: the name inserted has the
/// version inserted, and every other name keeps what it had.
pub proof fn lemma_lookup_after_insert(
    m: PackageMap,
    name: Seq<char>,
    version: Seq<char>,
    other: Seq<char>,
)
    ensures
        m@.insert(name, version).contains_key(name),
        m@.insert(name, version)[name] == version,
        other != name ==> m@.insert(name, version).contains_key(other) == m@.contains_key(other),
        other != name && m@.contains_key(other) ==> m@.insert(name, version)[other] == m@[other],
{
}

/// The package a line of `rpm -q --queryformat '%{NAME} %{VERSION}-%{RELEASE}\n'`
/// output names: the text before the first space and the text after it,
/// unless the line has no space or says `not installed`.
pub open spec fn rpm_line_entry(line: Seq<char>) -> Option<(Seq<char>, Seq<char>)> {
    if line.contains(' ') && !contains_seq(line, "not installed"@) {
        Some((before_char(line, ' '), after_char(line, ' ')))
    } else {
        None
    }
}

/// `m` with the packages of `lines` added in turn, a later line winning.
pub open spec fn add_rpm_lines(m: Map<Seq<char>, Seq<char>>, lines: Seq<Seq<char>>) -> Map<
    Seq<char>,
    Seq<char>,
>
    decreases lines.len(),
{
    if lines.len() == 0 {
        m
    } else {
        let before = add_rpm_lines(m, lines.drop_last());
        match rpm_line_entry(lines.last()) {
            Some((name, version)) => before.insert(name, version),
            None => before,
        }
    }
}

/// The installed packages that the outputs of the `rpm -q` queries report,
/// one output after the other.
pub open spec fn installed_from_outputs(outputs: Seq<Seq<char>>) -> Map<Seq<char>, Seq<char>>
    decreases outputs.len(),
{
    if outputs.len() == 0 {
        Map::empty()
    } else {
        add_rpm_lines(installed_from_outputs(outputs.drop_last()), lines(outputs.last()))
    }
}

/// The command that asks `rpm` for the installed packages matching
/// `pattern`, one `name version-release` line each.
pub fn rpm_query_command(pattern: &str) -> (res: String)
    ensures
        res@ == "rpm -q "@ + pattern@ + " --queryformat '%{NAME} %{VERSION}-%{RELEASE}\\n' 2>/dev/null"@,
{
    let head = concat("rpm -q ", pattern);
    concat(head.as_str(), " --queryformat '%{NAME} %{VERSION}-%{RELEASE}\\n' 2>/dev/null")
}

/// The command that asks `dnf` (from its cache) for the available packages
/// matching `pattern`.
pub fn dnf_available_command(pattern: &str) -> (res: String)
    ensures
        res@ == "dnf list --available --cacheonly "@ + pattern@ + " 2>/dev/null"@,
{
    let head = concat("dnf list --available --cacheonly ", pattern);
    concat(head.as_str(), " 2>/dev/null")
}

fn add_rpm_output(map: &mut PackageMap, output: &str)
    ensures
        final(map)@ == add_rpm_lines(old(map)@, lines(output@)),
{
    let ls = lines_of(output);
    let ghost start = map@;
    let mut i: usize = 0;
    assert(ls.deep_view().take(0) =~= Seq::<Seq<char>>::empty());
    while i < ls.len()
        invariant
            i <= ls.len(),
            ls.deep_view() == lines(output@),
            map@ == add_rpm_lines(start, ls.deep_view().take(i as int)),
        decreases ls.len() - i,
    {
        assert(ls.deep_view().take(i + 1).drop_last() =~= ls.deep_view().take(i as int));
        let line = ls[i].as_str();
        assert(line@ == ls.deep_view()[i as int]);
        if !contains_str(line, "not installed") {
            match split_once_char(line, ' ') {
                Some((name, version)) => {
                    map.insert(name, version);
                },
                None => {},
            }
        }
        i = i + 1;
    }
    assert(ls.deep_view().take(ls.len() as int) =~= ls.deep_view());
}

/// The installed packages that the outputs of the `rpm -q` queries report,
/// one output after the other; a package named twice keeps the version it
/// was named with last.
pub fn installed_packages(outputs: &Vec<String>) -> (res: PackageMap)
    ensures
        res@ == installed_from_outputs(outputs.deep_view()),
{
    let mut map = PackageMap::new();
    let mut i: usize = 0;
    assert(outputs.deep_view().take(0) =~= Seq::<Seq<char>>::empty());
    while i < outputs.len()
        invariant
            i <= outputs.len(),
            map@ == installed_from_outputs(outputs.deep_view().take(i as int)),
        decreases outputs.len() - i,
    {
        assert(outputs.deep_view().take(i + 1).drop_last() =~= outputs.deep_view().take(i as int));
        add_rpm_output(&mut map, outputs[i].as_str());
        i = i + 1;
    }
    assert(outputs.deep_view().take(outputs.len() as int) =~= outputs.deep_view());
    map
}

/// Whether `name` contains one of `patterns`, each taken without its `*`.
pub open spec fn matches_some_pattern(patterns: Seq<Seq<char>>, name: Seq<char>) -> bool {
    exists|i: int| 0 <= i < patterns.len() && contains_seq(name, without_char(#[trigger] patterns[i], '*'))
}

/// The package that the name and version groups of a `dnf list` line give,
/// when both are there and the name contains one of `patterns`.
pub open spec fn dnf_entry_of(
    patterns: Seq<Seq<char>>,
    name: Option<Seq<char>>,
    version: Option<Seq<char>>,
) -> Option<(Seq<char>, Seq<char>)> {
    match (name, version) {
        (Some(name), Some(version)) => if matches_some_pattern(patterns, name) {
            Some((name, version))
        } else {
            None
        },
        _ => None,
    }
}

/// The package a line of `dnf list` output names, read by the
/// [`DNF_PACKAGE_LINE`] pattern, when it matches one of `patterns`.
pub open spec fn dnf_line_entry(patterns: Seq<Seq<char>>, line: Seq<char>) -> Option<
    (Seq<char>, Seq<char>),
> {
    dnf_entry_of(
        patterns,
        regex_group(DNF_PACKAGE_LINE@, line, 1),
        regex_group(DNF_PACKAGE_LINE@, line, 2),
    )
}

/// `m` with the packages of the `dnf list` lines added in turn.
pub open spec fn add_dnf_lines(
    patterns: Seq<Seq<char>>,
    m: Map<Seq<char>, Seq<char>>,
    lines: Seq<Seq<char>>,
) -> Map<Seq<char>, Seq<char>>
    decreases lines.len(),
{
    if lines.len() == 0 {
        m
    } else {
        let before = add_dnf_lines(patterns, m, lines.drop_last());
        match dnf_line_entry(patterns, lines.last()) {
            Some((name, version)) => before.insert(name, version),
            None => before,
        }
    }
}

/// The available packages that the outputs of the `dnf list` queries report.
pub open spec fn available_from_outputs(patterns: Seq<Seq<char>>, outputs: Seq<Seq<char>>) -> Map<
    Seq<char>,
    Seq<char>,
>
    decreases outputs.len(),
{
    if outputs.len() == 0 {
        Map::empty()
    } else {
        add_dnf_lines(
            patterns,
            available_from_outputs(patterns, outputs.drop_last()),
            lines(outputs.last()),
        )
    }
}

fn matches_some_pattern_exec(patterns: &[&str], name: &str) -> (res: bool)
    ensures
        res == matches_some_pattern(patterns@.map_values(|p: &str| p@), name@),
{
    let ghost ps = patterns@.map_values(|p: &str| p@);
    let mut i: usize = 0;
    while i < patterns.len()
        invariant
            i <= patterns.len(),
            ps == patterns@.map_values(|p: &str| p@),
            forall|k: int| 0 <= k < i ==> !contains_seq(name@, without_char(#[trigger] ps[k], '*')),
        decreases patterns.len() - i,
    {
        let bare = remove_char(patterns[i], '*');
        if contains_str(name, bare.as_str()) {
            assert(contains_seq(name@, without_char(ps[i as int], '*')));
            return true;
        }
        i = i + 1;
    }
    false
}

/// The package that the name and version groups of a `dnf list` line give
/// (see [`dnf_entry_of`]).
pub fn dnf_entry(patterns: &[&str], name: Option<String>, version: Option<String>) -> (res: Option<
    (String, String),
>)
    ensures
        match res {
            Some((n, v)) => dnf_entry_of(
                patterns@.map_values(|p: &str| p@),
                option_view(name),
                option_view(version),
            ) == Some((n@, v@)),
            None => dnf_entry_of(
                patterns@.map_values(|p: &str| p@),
                option_view(name),
                option_view(version),
            ) is None,
        },
{
    match (name, version) {
        (Some(name), Some(version)) => {
            if matches_some_pattern_exec(patterns, name.as_str()) {
                Some((name, version))
            } else {
                None
            }
        },
        _ => None,
    }
}

fn add_dnf_output(map: &mut PackageMap, pats: &ParsePatterns, patterns: &[&str], output: &str)
    ensures
        final(map)@ == add_dnf_lines(patterns@.map_values(|p: &str| p@), old(map)@, lines(output@)),
{
    proof {
        use_type_invariant(pats);
    }
    let ghost ps = patterns@.map_values(|p: &str| p@);
    let ls = lines_of(output);
    let ghost start = map@;
    let mut i: usize = 0;
    assert(ls.deep_view().take(0) =~= Seq::<Seq<char>>::empty());
    while i < ls.len()
        invariant
            i <= ls.len(),
            ls.deep_view() == lines(output@),
            pats.dnf_package_line@ == DNF_PACKAGE_LINE@,
            ps == patterns@.map_values(|p: &str| p@),
            map@ == add_dnf_lines(ps, start, ls.deep_view().take(i as int)),
        decreases ls.len() - i,
    {
        assert(ls.deep_view().take(i + 1).drop_last() =~= ls.deep_view().take(i as int));
        let line = ls[i].as_str();
        assert(line@ == ls.deep_view()[i as int]);
        let name = capture_group(&pats.dnf_package_line, line, 1);
        let version = capture_group(&pats.dnf_package_line, line, 2);
        if let Some((name, version)) = dnf_entry(patterns, name, version) {
            map.insert(name, version);
        }
        i = i + 1;
    }
    assert(ls.deep_view().take(ls.len() as int) =~= ls.deep_view());
}

/// The available packages that the outputs of the `dnf list` queries
/// report: every line the [`DNF_PACKAGE_LINE`] pattern reads whose package
/// name contains one of `patterns` (taken without `*`), a later line
/// winning.
pub fn available_packages(pats: &ParsePatterns, patterns: &[&str], outputs: &Vec<String>) -> (res:
    PackageMap)
    ensures
        res@ == available_from_outputs(patterns@.map_values(|p: &str| p@), outputs.deep_view()),
{
    let ghost ps = patterns@.map_values(|p: &str| p@);
    let mut map = PackageMap::new();
    let mut i: usize = 0;
    assert(outputs.deep_view().take(0) =~= Seq::<Seq<char>>::empty());
    while i < outputs.len()
        invariant
            i <= outputs.len(),
            ps == patterns@.map_values(|p: &str| p@),
            map@ == available_from_outputs(ps, outputs.deep_view().take(i as int)),
        decreases outputs.len() - i,
    {
        assert(outputs.deep_view().take(i + 1).drop_last() =~= outputs.deep_view().take(i as int));
        add_dnf_output(&mut map, pats, patterns, outputs[i].as_str());
        i = i + 1;
    }
    assert(outputs.deep_view().take(outputs.len() as int) =~= outputs.deep_view());
    map
}

} // verus!
