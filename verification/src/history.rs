//! History walking: from a commit sequence to a file-time map.
//!
//! After a clone every working-tree file carries the checkout time, which
//! destroys the "last edited" signal the note list sorts by. The walker
//! visits the commit graph oldest-first and records, for every path a
//! commit's first-parent diff touched, that commit's timestamp; later
//! commits overwrite earlier ones, so each path ends up mapped to the most
//! recent commit that touched it. A merge commit is diffed only against its
//! first parent — a deliberate simplification that can misattribute
//! timestamps for changes introduced solely on a second parent.

use vstd::prelude::*;

verus! {

/// One commit as the history walker sees it: its timestamp (seconds since
/// epoch) and the paths its first-parent diff touched. For a root commit the
/// paths are every blob of its tree.
#[derive(Debug, Clone)]
pub struct CommitRecord {
    pub time: i64,
    pub paths: Vec<String>,
}

impl CommitRecord {
    /// Whether this commit touched path `p`.
    pub open spec fn touches(self, p: Seq<char>) -> bool {
        exists|j: int| 0 <= j < self.paths@.len() && self.paths@[j]@ == p
    }
}

/// No two entries share a key.
pub open spec fn unique_keys(s: Seq<(String, i64)>) -> bool {
    forall|i: int, j: int| 0 <= i < j < s.len() ==> s[i].0@ != s[j].0@
}

/// The mathematical map an entry sequence denotes; a later entry wins over
/// an earlier one with the same key.
pub open spec fn map_of(s: Seq<(String, i64)>) -> Map<Seq<char>, int>
    decreases s.len(),
{
    if s.len() == 0 {
        Map::empty()
    } else {
        map_of(s.drop_last()).insert(s.last().0@, s.last().1 as int)
    }
}

/// Mapping from repository-relative path to the timestamp of the most
/// recent commit that touched it. Built once per clone and discarded after
/// the timestamps are applied.
#[derive(Debug)]
pub struct FileTimeMap {
    pub entries: Vec<(String, i64)>,
}

impl View for FileTimeMap {
    type V = Map<Seq<char>, int>;

    open spec fn view(&self) -> Map<Seq<char>, int> {
        map_of(self.entries@)
    }
}

impl FileTimeMap {
    /// Entry keys are unique, so the entry count is the map's size.
    pub open spec fn wf(self) -> bool {
        unique_keys(self.entries@)
    }

    pub fn new() -> (r: FileTimeMap)
        ensures
            r.wf(),
            r@ == Map::<Seq<char>, int>::empty(),
            r.entries@.len() == 0,
    {
        FileTimeMap { entries: Vec::new() }
    }

    /// Record that the commit at `time` touched `path`, overwriting any
    /// earlier record for the same path.
    pub fn set(&mut self, path: String, time: i64)
        requires
            old(self).wf(),
        ensures
            final(self).wf(),
            final(self)@ == old(self)@.insert(path@, time as int),
            final(self).entries@.len() == old(self).entries@.len() + (if old(self)@.contains_key(
                path@,
            ) {
                0int
            } else {
                1int
            }),
    {
        let n = self.entries.len();
        let mut i: usize = 0;
        while i < n
            invariant
                n == self.entries@.len(),
                i <= n,
                forall|j: int| 0 <= j < i ==> self.entries@[j].0@ != path@,
                old(self).wf(),
                *self == *old(self),
            decreases n - i,
        {
            if self.entries[i].0 == path {
                proof {
                    lemma_map_of_props(self.entries@);
                    lemma_map_of_update(self.entries@, i as int, path, time);
                }
                self.entries[i] = (path, time);
                return ;
            }
            i += 1;
        }
        proof {
            lemma_map_of_props(self.entries@);
            lemma_map_of_push(self.entries@, (path, time));
        }
        self.entries.push((path, time));
    }

    /// Look a path up: the timestamp recorded for it, if any.
    pub fn get(&self, path: &String) -> (r: Option<i64>)
        requires
            self.wf(),
        ensures
            r matches Some(t) ==> self@.contains_key(path@) && self@[path@] == t as int,
            r is None ==> !self@.contains_key(path@),
    {
        let n = self.entries.len();
        let mut i: usize = 0;
        while i < n
            invariant
                n == self.entries@.len(),
                i <= n,
                forall|j: int| 0 <= j < i ==> self.entries@[j].0@ != path@,
                self.wf(),
            decreases n - i,
        {
            if self.entries[i].0 == *path {
                proof {
                    lemma_map_of_props(self.entries@);
                }
                return Some(self.entries[i].1);
            }
            i += 1;
        }
        proof {
            lemma_map_of_props(self.entries@);
        }
        None
    }

    /// How many paths the map holds.
    pub fn len(&self) -> (r: usize)
        requires
            self.wf(),
        ensures
            r == self.entries@.len(),
            r == self@.dom().len(),
    {
        proof {
            lemma_map_of_props(self.entries@);
        }
        self.entries.len()
    }

    /// The entry at position `i`: a path and the timestamp recorded for it.
    /// Distinct positions hold distinct paths, so walking all positions
    /// visits every path of the map exactly once.
    pub fn entry_at(&self, i: usize) -> (r: (String, i64))
        requires
            self.wf(),
            i < self.entries@.len(),
        ensures
            r.0@ == self.entries@[i as int].0@,
            r.1 == self.entries@[i as int].1,
            self@.contains_key(r.0@) && self@[r.0@] == r.1 as int,
    {
        proof {
            lemma_map_of_props(self.entries@);
        }
        let e = &self.entries[i];
        (e.0.clone(), e.1)
    }
}

/// The map after recording every path of `paths` at time `t`, over `m`.
pub open spec fn apply_paths(m: Map<Seq<char>, int>, paths: Seq<String>, t: int) -> Map<
    Seq<char>,
    int,
>
    decreases paths.len(),
{
    if paths.len() == 0 {
        m
    } else {
        apply_paths(m, paths.drop_last(), t).insert(paths.last()@, t)
    }
}

/// The map after one commit: every touched path now carries its time.
pub open spec fn apply_commit(m: Map<Seq<char>, int>, c: CommitRecord) -> Map<Seq<char>, int> {
    apply_paths(m, c.paths@, c.time as int)
}

/// The file-time map a commit sequence denotes, oldest commit first.
pub open spec fn file_times(commits: Seq<CommitRecord>) -> Map<Seq<char>, int>
    decreases commits.len(),
{
    if commits.len() == 0 {
        Map::empty()
    } else {
        apply_commit(file_times(commits.drop_last()), commits.last())
    }
}

/// Walk the commits oldest-first and record each touched path under the
/// commit's timestamp, so the latest touching commit wins.
pub fn build_file_time_map(commits: &Vec<CommitRecord>) -> (r: FileTimeMap)
    ensures
        r.wf(),
        r@ == file_times(commits@),
{
    let mut m = FileTimeMap::new();
    let n = commits.len();
    let mut i: usize = 0;
    while i < n
        invariant
            n == commits@.len(),
            i <= n,
            m.wf(),
            m@ == file_times(commits@.subrange(0, i as int)),
        decreases n - i,
    {
        let c = &commits[i];
        let pn = c.paths.len();
        let mut j: usize = 0;
        while j < pn
            invariant
                n == commits@.len(),
                i < n,
                c == commits@[i as int],
                pn == c.paths@.len(),
                j <= pn,
                m.wf(),
                m@ == apply_paths(
                    file_times(commits@.subrange(0, i as int)),
                    c.paths@.subrange(0, j as int),
                    c.time as int,
                ),
            decreases pn - j,
        {
            let path = c.paths[j].clone();
            proof {
                let pre = c.paths@.subrange(0, j as int);
                let post = c.paths@.subrange(0, j as int + 1);
                assert(post.drop_last() =~= pre);
                assert(post.last() == c.paths@[j as int]);
            }
            m.set(path, c.time);
            j += 1;
        }
        proof {
            assert(c.paths@.subrange(0, pn as int) =~= c.paths@);
            let pre = commits@.subrange(0, i as int);
            let post = commits@.subrange(0, i as int + 1);
            assert(post.drop_last() =~= pre);
            assert(post.last() == commits@[i as int]);
        }
        i += 1;
    }
    proof {
        assert(commits@.subrange(0, n as int) =~= commits@);
    }
    m
}

/// Whether any commit of the sequence touched path `p`.
pub open spec fn touched_by_any(commits: Seq<CommitRecord>, p: Seq<char>) -> bool {
    exists|i: int| 0 <= i < commits.len() && commits[i].touches(p)
}

/// The timestamp of the most recent commit that touched `p`.
pub open spec fn latest_touch_time(commits: Seq<CommitRecord>, p: Seq<char>) -> int
    decreases commits.len(),
{
    if commits.len() == 0 {
        0
    } else if commits.last().touches(p) {
        commits.last().time as int
    } else {
        latest_touch_time(commits.drop_last(), p)
    }
}

/// What `apply_paths` does to one key.
proof fn lemma_apply_paths_key(m: Map<Seq<char>, int>, paths: Seq<String>, t: int, p: Seq<char>)
    ensures
        apply_paths(m, paths, t).contains_key(p) <==> (m.contains_key(p) || exists|j: int|
            0 <= j < paths.len() && paths[j]@ == p),
        (exists|j: int| 0 <= j < paths.len() && paths[j]@ == p) ==> apply_paths(m, paths, t)[p]
            == t,
        !(exists|j: int| 0 <= j < paths.len() && paths[j]@ == p) && m.contains_key(p) ==> apply_paths(
            m,
            paths,
            t,
        )[p] == m[p],
    decreases paths.len(),
{
    if paths.len() > 0 {
        let d = paths.drop_last();
        lemma_apply_paths_key(m, d, t, p);
        if exists|j: int| 0 <= j < paths.len() && paths[j]@ == p {
            let j = choose|j: int| 0 <= j < paths.len() && paths[j]@ == p;
            if j < paths.len() - 1 {
                assert(d[j]@ == p);
            }
        }
        if exists|j: int| 0 <= j < d.len() && d[j]@ == p {
            let j = choose|j: int| 0 <= j < d.len() && d[j]@ == p;
            assert(paths[j]@ == p);
        }
    }
}

/// Law: the file-time map holds exactly the paths some commit touched, and
/// maps each to the timestamp of the most recent commit (first-parent
/// history, oldest first) whose diff touched that path. A path only touched
/// by the root commit therefore carries the root commit's timestamp.
pub proof fn lemma_file_times_latest(commits: Seq<CommitRecord>, p: Seq<char>)
    ensures
        file_times(commits).contains_key(p) <==> touched_by_any(commits, p),
        touched_by_any(commits, p) ==> file_times(commits)[p] == latest_touch_time(commits, p),
    decreases commits.len(),
{
    if commits.len() > 0 {
        let d = commits.drop_last();
        let c = commits.last();
        lemma_file_times_latest(d, p);
        lemma_apply_paths_key(file_times(d), c.paths@, c.time as int, p);
        if touched_by_any(d, p) {
            let i = choose|i: int| 0 <= i < d.len() && d[i].touches(p);
            assert(commits[i].touches(p));
        }
        if touched_by_any(commits, p) && !c.touches(p) {
            let i = choose|i: int| 0 <= i < commits.len() && commits[i].touches(p);
            assert(i < commits.len() - 1);
            assert(d[i].touches(p));
        }
    }
}

/// The summary a successful clone reports: where it went (already rendered
/// by the caller) and how many file timestamps were corrected.
pub fn clone_success_message(dest_repr: &str, fixed: usize) -> (r: String)
    ensures
        r@ == "Successfully cloned to "@ + dest_repr@ + " (fixed "@ + crate::strutil::decimal_of(
            fixed as int,
        ) + " file timestamps)"@,
{
    let mut s: String = "Successfully cloned to ".to_owned();
    s.append(dest_repr);
    s.append(" (fixed ");
    let count = crate::strutil::decimal_string(fixed);
    s.append(count.as_str());
    s.append(" file timestamps)");
    proof {
        assert(s@ =~= "Successfully cloned to "@ + dest_repr@ + " (fixed "@
            + crate::strutil::decimal_of(fixed as int) + " file timestamps)"@);
    }
    s
}

/// Law: a path that only the root commit touched carries the root commit's
/// timestamp.
pub proof fn lemma_untouched_since_root(commits: Seq<CommitRecord>, p: Seq<char>)
    requires
        commits.len() > 0,
        commits[0].touches(p),
        forall|i: int| 1 <= i < commits.len() ==> !(#[trigger] commits[i]).touches(p),
    ensures
        file_times(commits).contains_key(p),
        file_times(commits)[p] == commits[0].time as int,
    decreases commits.len(),
{
    lemma_file_times_latest(commits, p);
    assert(touched_by_any(commits, p)) by {
        assert(commits[0].touches(p));
    }
    lemma_latest_is_root(commits, p);
}

proof fn lemma_latest_is_root(commits: Seq<CommitRecord>, p: Seq<char>)
    requires
        commits.len() > 0,
        commits[0].touches(p),
        forall|i: int| 1 <= i < commits.len() ==> !(#[trigger] commits[i]).touches(p),
    ensures
        latest_touch_time(commits, p) == commits[0].time as int,
    decreases commits.len(),
{
    if commits.len() == 1 {
        assert(commits.last() == commits[0]);
    } else {
        assert(!commits.last().touches(p));
        let d = commits.drop_last();
        assert(d[0] == commits[0]);
        lemma_latest_is_root(d, p);
    }
}

/// Pushing a fresh entry inserts its key.
proof fn lemma_map_of_push(s: Seq<(String, i64)>, e: (String, i64))
    ensures
        map_of(s.push(e)) == map_of(s).insert(e.0@, e.1 as int),
{
    assert(s.push(e).drop_last() =~= s);
    assert(s.push(e).last() == e);
}

/// Overwriting the entry that holds a key inserts the new value for it.
proof fn lemma_map_of_update(s: Seq<(String, i64)>, i: int, path: String, time: i64)
    requires
        0 <= i < s.len(),
        unique_keys(s),
        s[i].0@ == path@,
    ensures
        map_of(s.update(i, (path, time))) == map_of(s).insert(path@, time as int),
    decreases s.len(),
{
    let e = (path, time);
    let s2 = s.update(i, e);
    if i == s.len() - 1 {
        assert(s2.drop_last() =~= s.drop_last());
        assert(s2.last() == e);
        assert(map_of(s2) == map_of(s.drop_last()).insert(path@, time as int));
        assert(map_of(s) == map_of(s.drop_last()).insert(s.last().0@, s.last().1 as int));
        assert(map_of(s).insert(path@, time as int) =~= map_of(s.drop_last()).insert(
            path@,
            time as int,
        ));
    } else {
        let d = s.drop_last();
        assert(s2.drop_last() =~= d.update(i, e));
        assert(forall|x: int, y: int| 0 <= x < y < d.len() ==> d[x].0@ != d[y].0@);
        lemma_map_of_update(d, i, path, time);
        assert(s2.last() == s.last());
        assert(map_of(s2) == map_of(d).insert(path@, time as int).insert(
            s.last().0@,
            s.last().1 as int,
        ));
        assert(s.last().0@ != path@);
        assert(map_of(d).insert(path@, time as int).insert(s.last().0@, s.last().1 as int)
            =~= map_of(d).insert(s.last().0@, s.last().1 as int).insert(path@, time as int));
    }
}

/// What an entry sequence's map contains: exactly the keys of its entries,
/// and (when keys are unique) each entry's own value under its key.
proof fn lemma_map_of_props(s: Seq<(String, i64)>)
    ensures
        map_of(s).dom().finite(),
        forall|k: Seq<char>|
            map_of(s).contains_key(k) <==> (exists|i: int| 0 <= i < s.len() && s[i].0@ == k),
        unique_keys(s) ==> map_of(s).dom().len() == s.len(),
        unique_keys(s) ==> forall|i: int|
            0 <= i < s.len() ==> map_of(s).contains_key(#[trigger] s[i].0@) && map_of(s)[s[i].0@]
                == s[i].1 as int,
    decreases s.len(),
{
    broadcast use vstd::set::axiom_set_empty_len;

    if s.len() == 0 {
    } else {
        let d = s.drop_last();
        lemma_map_of_props(d);
        assert forall|k: Seq<char>| map_of(s).contains_key(k) implies (exists|i: int|
            0 <= i < s.len() && s[i].0@ == k) by {
            if k == s.last().0@ {
                assert(s[s.len() - 1].0@ == k);
            } else {
                let i = choose|i: int| 0 <= i < d.len() && d[i].0@ == k;
                assert(s[i].0@ == k);
            }
        }
        assert forall|k: Seq<char>| (exists|i: int| 0 <= i < s.len() && s[i].0@ == k) implies map_of(
            s,
        ).contains_key(k) by {
            let i = choose|i: int| 0 <= i < s.len() && s[i].0@ == k;
            if i < s.len() - 1 {
                assert(d[i].0@ == k);
            }
        }
        if unique_keys(s) {
            assert(forall|x: int, y: int| 0 <= x < y < d.len() ==> d[x].0@ != d[y].0@);
            assert(!map_of(d).contains_key(s.last().0@));
            vstd::set::axiom_set_insert_len(map_of(d).dom(), s.last().0@);
            assert(map_of(s).dom() =~= map_of(d).dom().insert(s.last().0@));
            assert forall|i: int| 0 <= i < s.len() implies map_of(s).contains_key(
                #[trigger] s[i].0@,
            ) && map_of(s)[s[i].0@] == s[i].1 as int by {
                if i < s.len() - 1 {
                    assert(d[i].0@ == s[i].0@ && d[i].1 == s[i].1);
                    assert(s[i].0@ != s.last().0@);
                }
            }
        }
    }
}

} // verus!
