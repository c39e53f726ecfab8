//! Grouping the files found for a command by the file they are: paths that
//! reach the same device and inode (a symlink and its target, or one directory
//! reached through two names) become one match with the later paths as aliases.
use vstd::prelude::*;

verus! {

/// The identity of a file: its device and inode numbers.
pub type FileId = (u64, u64);

/// A file found under a command's name, in search order.
pub struct Candidate {
    /// The path under which it was found.
    pub path: String,
    /// Whether the current user may execute it.
    pub executable: bool,
    /// The device and inode of the file it reaches, where its metadata could be read.
    pub identity: Option<FileId>,
}

/// One match: the first path found for a file, and the later paths to the same file.
pub struct Group {
    /// The first path under which the file was found.
    pub path: String,
    /// Whether the current user may execute it.
    pub executable: bool,
    /// The device and inode of the file.
    pub identity: Option<FileId>,
    /// The later paths that reach the same file, in search order.
    pub aliases: Vec<String>,
}

/// The matches of a command and how many paths were folded into them as aliases.
pub struct Grouping {
    /// The matches, in the order of their first path.
    pub groups: Vec<Group>,
    /// The number of paths recorded as aliases.
    pub removed: usize,
}

/// The mathematical content of a candidate.
pub ghost struct CandidateView {
    pub path: Seq<char>,
    pub executable: bool,
    pub identity: Option<FileId>,
}

/// The mathematical content of a group.
pub ghost struct GroupView {
    pub path: Seq<char>,
    pub executable: bool,
    pub identity: Option<FileId>,
    pub aliases: Seq<Seq<char>>,
}

impl View for Candidate {
    type V = CandidateView;

    open spec fn view(&self) -> CandidateView {
        CandidateView { path: self.path@, executable: self.executable, identity: self.identity }
    }
}

impl View for Group {
    type V = GroupView;

    open spec fn view(&self) -> GroupView {
        GroupView {
            path: self.path@,
            executable: self.executable,
            identity: self.identity,
            aliases: self.aliases.deep_view(),
        }
    }
}

/// The views of a list of candidates.
pub open spec fn candidates_view(v: Seq<Candidate>) -> Seq<CandidateView> {
    Seq::new(v.len(), |i: int| v[i]@)
}

/// The views of a list of groups.
pub open spec fn groups_view(v: Seq<Group>) -> Seq<GroupView> {
    Seq::new(v.len(), |i: int| v[i]@)
}

/// The index of the group whose identity is `id`, if there is one (the first, if several).
pub open spec fn owner(groups: Seq<GroupView>, id: FileId) -> Option<int>
    decreases groups.len(),
{
    if groups.len() == 0 {
        None
    } else {
        match owner(groups.drop_last(), id) {
            Some(i) => Some(i),
            None => if groups.last().identity == Some(id) {
                Some(groups.len() - 1)
            } else {
                None
            },
        }
    }
}

/// A group holding only the candidate `c`.
pub open spec fn single(c: CandidateView) -> GroupView {
    GroupView { path: c.path, executable: c.executable, identity: c.identity, aliases: Seq::empty() }
}

/// Takes one more candidate into the groups: an alias of the group with the same
/// identity if there is one, a new group otherwise.
pub open spec fn take_candidate(state: (Seq<GroupView>, nat), c: CandidateView) -> (
    Seq<GroupView>,
    nat,
) {
    let groups = state.0;
    match c.identity {
        Some(id) => match owner(groups, id) {
            Some(i) => (
                groups.update(
                    i,
                    GroupView { aliases: groups[i].aliases.push(c.path), ..groups[i] },
                ),
                state.1 + 1,
            ),
            None => (groups.push(single(c)), state.1),
        },
        None => (groups.push(single(c)), state.1),
    }
}

/// The groups that the candidates form, in search order, and the number of
/// aliases; with `first_only`, the search stops at the first match.
pub open spec fn grouping(cands: Seq<CandidateView>, first_only: bool) -> (Seq<GroupView>, nat)
    decreases cands.len(),
{
    if cands.len() == 0 {
        (Seq::empty(), 0)
    } else {
        let prev = grouping(cands.drop_last(), first_only);
        if first_only && prev.0.len() > 0 {
            prev
        } else {
            take_candidate(prev, cands.last())
        }
    }
}

/// The number of aliases over all groups.
pub open spec fn alias_count(groups: Seq<GroupView>) -> nat
    decreases groups.len(),
{
    if groups.len() == 0 {
        0
    } else {
        alias_count(groups.drop_last()) + groups.last().aliases.len()
    }
}

/// No two groups share an identity.
pub open spec fn identities_distinct(groups: Seq<GroupView>) -> bool {
    forall|i: int, j: int|
        0 <= i < groups.len() && 0 <= j < groups.len() && i != j && (#[trigger] groups[i]).identity
            is Some ==> groups[i].identity != (#[trigger] groups[j]).identity
}

/// `owner` finds exactly the group with the given identity.
pub proof fn lemma_owner(groups: Seq<GroupView>, id: FileId)
    ensures
        owner(groups, id) matches Some(i) ==> 0 <= i < groups.len() && groups[i].identity == Some(
            id,
        ),
        owner(groups, id) is None ==> forall|k: int|
            0 <= k < groups.len() ==> #[trigger] groups[k].identity != Some(id),
    decreases groups.len(),
{
    if groups.len() > 0 {
        lemma_owner(groups.drop_last(), id);
        assert forall|k: int| 0 <= k < groups.len() - 1 implies groups.drop_last()[k]
            == #[trigger] groups[k] by {}
    }
}

/// Summing aliases over groups after one group gained an alias.
proof fn lemma_alias_count_update(groups: Seq<GroupView>, i: int, g: GroupView)
    requires
        0 <= i < groups.len(),
        g.aliases.len() == groups[i].aliases.len() + 1,
    ensures
        alias_count(groups.update(i, g)) == alias_count(groups) + 1,
    decreases groups.len(),
{
    if i < groups.len() - 1 {
        lemma_alias_count_update(groups.drop_last(), i, g);
        assert(groups.update(i, g).drop_last() == groups.drop_last().update(i, g));
    } else {
        assert(groups.update(i, g).drop_last() == groups.drop_last());
    }
}

/// Deduplication keeps one match per file: no two matches share an identity,
/// every alias recorded is counted, and with the whole search every path found
/// is either a match or an alias.
pub proof fn lemma_grouping_sound(cands: Seq<CandidateView>, first_only: bool)
    ensures
        identities_distinct(grouping(cands, first_only).0),
        grouping(cands, first_only).1 == alias_count(grouping(cands, first_only).0),
        !first_only ==> grouping(cands, first_only).0.len() + grouping(cands, first_only).1
            == cands.len(),
        first_only ==> grouping(cands, first_only).0.len() <= 1,
    decreases cands.len(),
{
    if cands.len() > 0 {
        let prev = grouping(cands.drop_last(), first_only);
        lemma_grouping_sound(cands.drop_last(), first_only);
        if !(first_only && prev.0.len() > 0) {
            let c = cands.last();
            let groups = prev.0;
            match c.identity {
                Some(id) => {
                    lemma_owner(groups, id);
                    match owner(groups, id) {
                        Some(i) => {
                            let g = GroupView { aliases: groups[i].aliases.push(c.path), ..groups[i] };
                            lemma_alias_count_update(groups, i, g);
                            let next = groups.update(i, g);
                            assert forall|a: int, b: int|
                                0 <= a < next.len() && 0 <= b < next.len() && a != b && (
                                #[trigger] next[a]).identity is Some implies next[a].identity != (
                            #[trigger] next[b]).identity by {
                                assert(groups[a].identity == next[a].identity);
                                assert(groups[b].identity == next[b].identity);
                            }
                        },
                        None => {
                            let next = groups.push(single(c));
                            assert(next.drop_last() == groups);
                            assert forall|a: int, b: int|
                                0 <= a < next.len() && 0 <= b < next.len() && a != b && (
                                #[trigger] next[a]).identity is Some implies next[a].identity != (
                            #[trigger] next[b]).identity by {
                                if a < groups.len() && b < groups.len() {
                                    assert(groups[a] == next[a] && groups[b] == next[b]);
                                } else if a < groups.len() {
                                    assert(groups[a] == next[a]);
                                } else {
                                    assert(groups[b] == next[b]);
                                }
                            }
                        },
                    }
                },
                None => {
                    let next = groups.push(single(c));
                    assert(next.drop_last() == groups);
                    assert forall|a: int, b: int|
                        0 <= a < next.len() && 0 <= b < next.len() && a != b && (
                        #[trigger] next[a]).identity is Some implies next[a].identity != (
                    #[trigger] next[b]).identity by {
                        if a < groups.len() && b < groups.len() {
                            assert(groups[a] == next[a] && groups[b] == next[b]);
                        } else if a < groups.len() {
                            assert(groups[a] == next[a]);
                        } else {
                            assert(groups[b] == next[b]);
                        }
                    }
                },
            }
        }
    }
}

/// Some candidate has path `a` and identity `id`.
pub open spec fn traced(cands: Seq<CandidateView>, a: Seq<char>, id: Option<FileId>) -> bool {
    exists|j: int|
        0 <= j < cands.len() && (#[trigger] cands[j]).path == a && cands[j].identity is Some
            && cands[j].identity == id
}

/// Every alias of every group is the path of a candidate with that group's identity.
pub open spec fn aliases_traced(cands: Seq<CandidateView>, groups: Seq<GroupView>) -> bool {
    forall|i: int, k: int|
        0 <= i < groups.len() && 0 <= k < groups[i].aliases.len() ==> traced(
            cands,
            #[trigger] groups[i].aliases[k],
            groups[i].identity,
        )
}

/// Every alias recorded shares the identity of its match: for each alias there
/// is a candidate found under that path that reaches the match's file.
pub proof fn lemma_aliases_share_identity(cands: Seq<CandidateView>, first_only: bool)
    ensures
        aliases_traced(cands, grouping(cands, first_only).0),
    decreases cands.len(),
{
    if cands.len() > 0 {
        let prev = grouping(cands.drop_last(), first_only);
        let before = cands.drop_last();
        lemma_aliases_share_identity(before, first_only);
        let next = grouping(cands, first_only).0;
        assert forall|i: int, k: int|
            0 <= i < next.len() && 0 <= k < next[i].aliases.len() implies traced(
            cands,
            #[trigger] next[i].aliases[k],
            next[i].identity,
        ) by {
            let c = cands.last();
            let active = !(first_only && prev.0.len() > 0);
            if active && c.identity is Some {
                lemma_owner(prev.0, c.identity->0);
            }
            let is_new = active && c.identity is Some && owner(prev.0, c.identity->0) == Some(i)
                && k == prev.0[i].aliases.len();
            if is_new {
                assert(cands[cands.len() - 1] == c);
            } else {
                if active && c.identity is Some && owner(prev.0, c.identity->0) is Some {
                    let o = owner(prev.0, c.identity->0)->0;
                    if i == o {
                        assert(next[i].aliases[k] == prev.0[i].aliases[k]);
                    }
                }
                assert(i < prev.0.len());
                assert(next[i].aliases[k] == prev.0[i].aliases[k]);
                assert(next[i].identity == prev.0[i].identity);
                assert(traced(before, prev.0[i].aliases[k], prev.0[i].identity));
                let j = choose|j: int|
                    0 <= j < before.len() && (#[trigger] before[j]).path == prev.0[i].aliases[k]
                        && before[j].identity is Some && before[j].identity == prev.0[i].identity;
                assert(cands[j] == before[j]);
            }
        }
    }
}

/// Some group has the identity of `c` and holds its path, as its own path or
/// as an alias.
pub open spec fn placed(groups: Seq<GroupView>, c: CandidateView) -> bool {
    exists|i: int|
        0 <= i < groups.len() && (#[trigger] groups[i]).identity == c.identity && (groups[i].path
            == c.path || groups[i].aliases.contains(c.path))
}

/// Nothing found is lost: with the whole search, every path found appears in
/// the result, as the path of the match of its file or as one of its aliases.
pub proof fn lemma_every_path_placed(cands: Seq<CandidateView>)
    ensures
        forall|j: int| 0 <= j < cands.len() ==> placed(grouping(cands, false).0, #[trigger] cands[j]),
    decreases cands.len(),
{
    if cands.len() > 0 {
        let before = cands.drop_last();
        lemma_every_path_placed(before);
        let groups = grouping(before, false).0;
        let c = cands.last();
        let next = grouping(cands, false).0;
        if c.identity is Some {
            lemma_owner(groups, c.identity->0);
        }
        assert forall|j: int| 0 <= j < cands.len() implies placed(next, #[trigger] cands[j]) by {
            if j < cands.len() - 1 {
                assert(cands[j] == before[j]);
                assert(placed(groups, before[j]));
                let i = choose|i: int|
                    0 <= i < groups.len() && (#[trigger] groups[i]).identity == before[j].identity
                        && (groups[i].path == before[j].path || groups[i].aliases.contains(
                        before[j].path,
                    ));
                let grown = c.identity is Some && owner(groups, c.identity->0) == Some(i);
                if grown {
                    assert(next[i].aliases == groups[i].aliases.push(c.path));
                    if groups[i].aliases.contains(before[j].path) {
                        let k = choose|k: int|
                            0 <= k < groups[i].aliases.len() && groups[i].aliases[k]
                                == before[j].path;
                        assert(next[i].aliases[k] == before[j].path);
                    }
                } else {
                    assert(next[i] == groups[i]);
                }
                assert(next[i].identity == cands[j].identity);
            } else {
                assert(cands[j] == c);
                if c.identity is Some && owner(groups, c.identity->0) is Some {
                    let o = owner(groups, c.identity->0)->0;
                    assert(next[o].aliases == groups[o].aliases.push(c.path));
                    assert(next[o].aliases[groups[o].aliases.len() as int] == c.path);
                    assert(next[o].identity == c.identity);
                } else {
                    assert(next[groups.len() as int] == single(c));
                }
            }
        }
    }
}

/// Candidate `j` is where group `g` comes from: `g` carries its path, its
/// executable flag and its identity, and no earlier candidate reached the same
/// file.
pub open spec fn found_first(cands: Seq<CandidateView>, g: GroupView, j: int) -> bool {
    &&& 0 <= j < cands.len()
    &&& cands[j].path == g.path
    &&& cands[j].executable == g.executable
    &&& cands[j].identity == g.identity
    &&& (g.identity is Some ==> forall|k: int| 0 <= k < j ==> #[trigger] cands[k].identity != g.identity)
}

/// The candidate that group `g` comes from, where there is one.
pub open spec fn origin_of(cands: Seq<CandidateView>, g: GroupView) -> int {
    choose|j: int| found_first(cands, g, j)
}

/// Every group comes from the first candidate found for its file.
pub open spec fn all_found_first(cands: Seq<CandidateView>, groups: Seq<GroupView>) -> bool {
    forall|i: int|
        0 <= i < groups.len() ==> found_first(cands, #[trigger] groups[i], origin_of(cands, groups[i]))
}

/// Grouping a non-empty list of candidates gives at least one match.
proof fn lemma_grouping_nonempty(cands: Seq<CandidateView>, first_only: bool)
    ensures
        cands.len() > 0 ==> grouping(cands, first_only).0.len() > 0,
    decreases cands.len(),
{
    if cands.len() > 0 {
        lemma_grouping_nonempty(cands.drop_last(), first_only);
        let prev = grouping(cands.drop_last(), first_only);
        if let Some(id) = cands.last().identity {
            lemma_owner(prev.0, id);
        }
    }
}

/// The `i`-th match of `cands` comes from the first candidate found for its
/// file, given that every match of all but the last candidate does.
proof fn lemma_group_found_first(cands: Seq<CandidateView>, first_only: bool, i: int)
    requires
        cands.len() > 0,
        all_found_first(cands.drop_last(), grouping(cands.drop_last(), first_only).0),
        0 <= i < grouping(cands, first_only).0.len(),
    ensures
        exists|j: int| found_first(cands, grouping(cands, first_only).0[i], j),
{
    let before = cands.drop_last();
    let prev = grouping(before, first_only).0;
    let next = grouping(cands, first_only).0;
    let c = cands.last();
    let last = cands.len() - 1;
    if c.identity is Some {
        lemma_owner(prev, c.identity->0);
    }
    if i < prev.len() {
        let j = origin_of(before, prev[i]);
        assert(found_first(before, prev[i], j));
        assert(next[i].path == prev[i].path && next[i].executable == prev[i].executable
            && next[i].identity == prev[i].identity);
        assert forall|k: int| 0 <= k < j implies #[trigger] cands[k] == before[k] by {}
        assert(cands[j] == before[j]);
        assert(found_first(cands, next[i], j));
    } else {
        assert(!(first_only && prev.len() > 0));
        assert(next[i] == single(c));
        if c.identity is Some {
            let id = c.identity->0;
            assert(owner(prev, id) is None);
            assert forall|k: int| 0 <= k < last implies #[trigger] cands[k].identity
                != c.identity by {
                assert(cands[k] == before[k]);
                if first_only {
                    lemma_grouping_nonempty(before, first_only);
                } else {
                    lemma_every_path_placed(before);
                    assert(placed(prev, before[k]));
                    let g = choose|g: int|
                        0 <= g < prev.len() && (#[trigger] prev[g]).identity
                            == before[k].identity && (prev[g].path == before[k].path
                            || prev[g].aliases.contains(before[k].path));
                    assert(prev[g].identity != Some(id));
                }
            }
        }
        assert(found_first(cands, next[i], last));
    }
}

/// Every match is the first path found for its file, as found: its path, its
/// executable flag and its identity are those of a candidate that no earlier
/// candidate with the same identity precedes.
pub proof fn lemma_match_is_first_found(cands: Seq<CandidateView>, first_only: bool)
    ensures
        all_found_first(cands, grouping(cands, first_only).0),
    decreases cands.len(),
{
    if cands.len() > 0 {
        lemma_match_is_first_found(cands.drop_last(), first_only);
        let next = grouping(cands, first_only).0;
        assert forall|i: int| 0 <= i < next.len() implies found_first(
            cands,
            #[trigger] next[i],
            origin_of(cands, next[i]),
        ) by {
            lemma_group_found_first(cands, first_only, i);
        }
    }
}

/// The index of the group whose identity is `id`.
fn find_owner(groups: &Vec<Group>, id: FileId) -> (r: Option<usize>)
    ensures
        r matches Some(i) ==> owner(groups_view(groups@), id) == Some(i as int),
        r is None ==> owner(groups_view(groups@), id) is None,
{
    let ghost gv = groups_view(groups@);
    proof {
        lemma_owner(gv, id);
    }
    for i in 0..groups.len()
        invariant
            gv == groups_view(groups@),
            forall|k: int| 0 <= k < i ==> #[trigger] gv[k].identity != Some(id),
    {
        if groups[i].identity == Some(id) {
            proof {
                lemma_owner_first(gv, id, i as int);
            }
            return Some(i);
        }
    }
    None
}

/// The first group with identity `id` is the one `owner` finds.
proof fn lemma_owner_first(groups: Seq<GroupView>, id: FileId, i: int)
    requires
        0 <= i < groups.len(),
        groups[i].identity == Some(id),
        forall|k: int| 0 <= k < i ==> #[trigger] groups[k].identity != Some(id),
    ensures
        owner(groups, id) == Some(i),
    decreases groups.len(),
{
    if i < groups.len() - 1 {
        lemma_owner_first(groups.drop_last(), id, i);
    } else {
        lemma_owner(groups.drop_last(), id);
        assert forall|k: int| 0 <= k < groups.len() - 1 implies #[trigger] groups.drop_last()[k].identity
            != Some(id) by {
            assert(groups.drop_last()[k] == groups[k]);
        }
    }
}

/// Groups the files found for a command by identity, as the search found them:
/// a file reached again is recorded as an alias of its first path. With
/// `first_only` the search stops at the first match.
pub fn group_candidates(cands: &Vec<Candidate>, first_only: bool) -> (r: Grouping)
    ensures
        groups_view(r.groups@) == grouping(candidates_view(cands@), first_only).0,
        r.removed == grouping(candidates_view(cands@), first_only).1,
{
    let ghost cv = candidates_view(cands@);
    let mut groups: Vec<Group> = Vec::new();
    let mut removed: usize = 0;
    for n in 0..cands.len()
        invariant
            cv == candidates_view(cands@),
            groups_view(groups@) == grouping(cv.take(n as int), first_only).0,
            removed == grouping(cv.take(n as int), first_only).1,
            removed <= n,
    {
        assert(cv.take(n + 1).drop_last() == cv.take(n as int));
        assert(cv.take(n + 1).last() == cands@[n as int]@);
        if first_only && groups.len() > 0 {
            assert(grouping(cv.take(n + 1), first_only) == grouping(cv.take(n as int), first_only));
        } else {
            let c = &cands[n];
            let ghost before = groups_view(groups@);
            let found = match c.identity {
                Some(id) => find_owner(&groups, id),
                None => None,
            };
            match found {
                Some(i) => {
                    proof {
                        lemma_owner(before, c.identity->0);
                    }
                    let mut g = groups.remove(i);
                    g.aliases.push(c.path.clone());
                    groups.insert(i, g);
                    removed = removed + 1;
                    proof {
                        let id = c.identity->0;
                        lemma_owner(before, id);
                        let expect = GroupView {
                            aliases: before[i as int].aliases.push(c.path@),
                            ..before[i as int]
                        };
                        assert(groups_view(groups@)[i as int].aliases =~= expect.aliases);
                        assert(groups_view(groups@) =~= before.update(i as int, expect));
                    }
                },
                None => {
                    let g = Group {
                        path: c.path.clone(),
                        executable: c.executable,
                        identity: c.identity,
                        aliases: Vec::new(),
                    };
                    groups.push(g);
                    proof {
                        assert(groups@[groups.len() - 1].aliases.deep_view() =~= Seq::<
                            Seq<char>,
                        >::empty());
                        assert(groups_view(groups@) =~= before.push(single(cands@[n as int]@)));
                    }
                },
            }
        }
    }
    assert(cv.take(cands.len() as int) == cv);
    Grouping { groups, removed }
}

} // verus!
