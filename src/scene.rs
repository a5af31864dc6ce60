use vstd::prelude::*;

use crate::model::{CellInstance, Component, Connection, Group, Scene};

verus! {

/// A broken invariant of a scene.
#[derive(Clone, Debug, PartialEq)]
pub enum Violation {
    /// A connection starts at a uuid that names no cell or component.
    DanglingSource { connection: String, uuid: String },
    /// A connection ends at a uuid that names no cell or component.
    DanglingTarget { connection: String, uuid: String },
    /// A group lists a member uuid that names no cell, component or group.
    DanglingMember { group: String, uuid: String },
    /// A uuid that an earlier entity of the scene already has.
    DuplicateUuid { uuid: String },
    /// A group contains itself, directly or through other groups; `members`
    /// lists, in scene order, every group on that cycle, `group` first of them.
    GroupCycle { group: String, members: Vec<String> },
}

/// What a violation says, over the texts of its uuids.
pub ghost enum Issue {
    DanglingSource(Seq<char>, Seq<char>),
    DanglingTarget(Seq<char>, Seq<char>),
    DanglingMember(Seq<char>, Seq<char>),
    GroupCycle(Seq<char>, Seq<Seq<char>>),
    DuplicateUuid(Seq<char>),
}

impl View for Violation {
    type V = Issue;

    open spec fn view(&self) -> Issue {
        match self {
            Violation::DanglingSource { connection, uuid } => Issue::DanglingSource(
                connection@,
                uuid@,
            ),
            Violation::DanglingTarget { connection, uuid } => Issue::DanglingTarget(
                connection@,
                uuid@,
            ),
            Violation::DanglingMember { group, uuid } => Issue::DanglingMember(group@, uuid@),
            Violation::DuplicateUuid { uuid } => Issue::DuplicateUuid(uuid@),
            Violation::GroupCycle { group, members } => Issue::GroupCycle(
                group@,
                texts_of(members@),
            ),
        }
    }
}

/// The texts of a list of strings, in order.
pub open spec fn texts_of(v: Seq<String>) -> Seq<Seq<char>> {
    v.map_values(|x: String| x@)
}

/// The issues that a list of violations states, in order.
pub open spec fn issues_of(v: Seq<Violation>) -> Seq<Issue> {
    v.map_values(|x: Violation| x@)
}

/// `u` is the uuid of a cell instance or of a component.
pub open spec fn is_part(s: Scene, u: Seq<char>) -> bool {
    (exists|i: int| 0 <= i < s.cells@.len() && #[trigger] s.cells@[i].uuid@ == u) || (exists|
        i: int,
    |
        0 <= i < s.components@.len() && #[trigger] s.components@[i].uuid@ == u)
}

/// `u` is the uuid of a group.
pub open spec fn is_group(s: Scene, u: Seq<char>) -> bool {
    exists|i: int| 0 <= i < s.groups@.len() && #[trigger] s.groups@[i].uuid@ == u
}

/// The issues of the first `n` connections: a dangling source, then a dangling
/// target, for each connection in order.
pub open spec fn connection_issues(s: Scene, n: int) -> Seq<Issue>
    decreases n,
{
    if n <= 0 || n > s.connections@.len() {
        Seq::empty()
    } else {
        let c = s.connections@[n - 1];
        let src = if is_part(s, c.source_uuid@) {
            Seq::empty()
        } else {
            seq![Issue::DanglingSource(c.uuid@, c.source_uuid@)]
        };
        let dst = if is_part(s, c.target_uuid@) {
            Seq::empty()
        } else {
            seq![Issue::DanglingTarget(c.uuid@, c.target_uuid@)]
        };
        connection_issues(s, n - 1) + src + dst
    }
}

/// The issues of the first `k` members of group `g`.
pub open spec fn member_issues(s: Scene, g: Group, k: int) -> Seq<Issue>
    decreases k,
{
    if k <= 0 || k > g.member_uuids@.len() {
        Seq::empty()
    } else {
        let u = g.member_uuids@[k - 1]@;
        let here = if is_part(s, u) || is_group(s, u) {
            Seq::empty()
        } else {
            seq![Issue::DanglingMember(g.uuid@, u)]
        };
        member_issues(s, g, k - 1) + here
    }
}

/// The dangling members of the first `n` groups, group by group.
pub open spec fn group_member_issues(s: Scene, n: int) -> Seq<Issue>
    decreases n,
{
    if n <= 0 || n > s.groups@.len() {
        Seq::empty()
    } else {
        let g = s.groups@[n - 1];
        group_member_issues(s, n - 1) + member_issues(s, g, g.member_uuids@.len() as int)
    }
}

/// Group `b` is listed among the members of group `a`.
pub open spec fn links(s: Scene, a: int, b: int) -> bool {
    exists|k: int|
        0 <= k < s.groups@[a].member_uuids@.len() && #[trigger] s.groups@[a].member_uuids@[k]@
            == s.groups@[b].uuid@
}

/// Group `b` can be reached from group `a` in one to `k` membership steps.
pub open spec fn reaches(s: Scene, a: int, b: int, k: int) -> bool
    decreases k,
{
    if k <= 0 {
        false
    } else {
        links(s, a, b) || exists|c: int|
            0 <= c < s.groups@.len() && reaches(s, a, c, k - 1) && #[trigger] links(s, c, b)
    }
}

proof fn lemma_reach_step(s: Scene, a: int, b: int, c: int, k: int)
    requires
        k > 0,
        0 <= c < s.groups@.len(),
        reaches(s, a, c, k - 1),
        links(s, c, b),
    ensures
        reaches(s, a, b, k),
{
    reveal_with_fuel(reaches, 1);
}

/// Group `g` contains itself through a chain of at most as many steps as there are groups.
pub open spec fn on_cycle(s: Scene, g: int) -> bool {
    reaches(s, g, g, s.groups@.len() as int)
}

/// Groups `a` and `b` each reach the other: they lie on one cycle.
pub open spec fn mutual(s: Scene, a: int, b: int) -> bool {
    reaches(s, a, b, s.groups@.len() as int) && reaches(s, b, a, s.groups@.len() as int)
}

/// Groups `a` and `b` lie on cycles with the same groups.
pub open spec fn same_cycle(s: Scene, a: int, b: int) -> bool {
    forall|h: int| 0 <= h < s.groups@.len() ==> mutual(s, a, h) == mutual(s, b, h)
}

/// Group `g` lies on a cycle and comes first in the scene among the groups of it.
pub open spec fn opens_cycle(s: Scene, g: int) -> bool {
    on_cycle(s, g) && forall|x: int|
        0 <= x < g ==> !(on_cycle(s, x) && #[trigger] same_cycle(s, x, g))
}

/// The uuids of the first `k` groups that lie on a cycle with group `g`.
pub open spec fn cycle_members(s: Scene, g: int, k: int) -> Seq<Seq<char>>
    decreases k,
{
    if k <= 0 || k > s.groups@.len() {
        Seq::empty()
    } else {
        let here = if mutual(s, g, k - 1) {
            seq![s.groups@[k - 1].uuid@]
        } else {
            Seq::empty()
        };
        cycle_members(s, g, k - 1) + here
    }
}

/// One cycle issue for each cycle among the first `n` groups, raised at the
/// first group of it and naming all of its groups.
pub open spec fn cycle_issues(s: Scene, n: int) -> Seq<Issue>
    decreases n,
{
    if n <= 0 || n > s.groups@.len() {
        Seq::empty()
    } else {
        let here = if opens_cycle(s, n - 1) {
            seq![
                Issue::GroupCycle(
                    s.groups@[n - 1].uuid@,
                    cycle_members(s, n - 1, s.groups@.len() as int),
                ),
            ]
        } else {
            Seq::empty()
        };
        cycle_issues(s, n - 1) + here
    }
}

/// The uuids of all entities: cells, connections, components, then groups,
/// each in scene order.
pub open spec fn entity_uuids(s: Scene) -> Seq<Seq<char>> {
    s.cells@.map_values(|c: CellInstance| c.uuid@) + s.connections@.map_values(
        |c: Connection| c.uuid@,
    ) + s.components@.map_values(|c: Component| c.uuid@) + s.groups@.map_values(
        |g: Group| g.uuid@,
    )
}

/// A duplicate issue for each of the first `n` uuids that an earlier one repeats.
pub open spec fn duplicate_issues(u: Seq<Seq<char>>, n: int) -> Seq<Issue>
    decreases n,
{
    if n <= 0 || n > u.len() {
        Seq::empty()
    } else {
        let here = if exists|j: int| 0 <= j < n - 1 && #[trigger] u[j] == u[n - 1] {
            seq![Issue::DuplicateUuid(u[n - 1])]
        } else {
            Seq::empty()
        };
        duplicate_issues(u, n - 1) + here
    }
}

/// Every issue of a scene: its connections, then its group members, then its
/// cycles, then its repeated uuids.
pub open spec fn scene_issues(s: Scene) -> Seq<Issue> {
    connection_issues(s, s.connections@.len() as int) + group_member_issues(
        s,
        s.groups@.len() as int,
    ) + cycle_issues(s, s.groups@.len() as int) + duplicate_issues(
        entity_uuids(s),
        entity_uuids(s).len() as int,
    )
}

proof fn lemma_source_in_prefix(s: Scene, n: int, i: int)
    requires
        0 <= i < n <= s.connections@.len(),
        !is_part(s, s.connections@[i].source_uuid@),
    ensures
        connection_issues(s, n).contains(
            Issue::DanglingSource(s.connections@[i].uuid@, s.connections@[i].source_uuid@),
        ),
    decreases n,
{
    let c = s.connections@[i];
    let want = Issue::DanglingSource(c.uuid@, c.source_uuid@);
    let prev = connection_issues(s, n - 1);
    let d = s.connections@[n - 1];
    let dst = if is_part(s, d.target_uuid@) {
        Seq::<Issue>::empty()
    } else {
        seq![Issue::DanglingTarget(d.uuid@, d.target_uuid@)]
    };
    if i == n - 1 {
        let whole = prev + seq![want] + dst;
        assert(whole[prev.len() as int] == want);
        assert(connection_issues(s, n) == whole);
    } else {
        lemma_source_in_prefix(s, n - 1, i);
        let j = choose|j: int| 0 <= j < prev.len() && prev[j] == want;
        assert(connection_issues(s, n)[j] == want);
    }
}

proof fn lemma_opening_group(s: Scene, g: int)
    requires
        0 <= g < s.groups@.len(),
        on_cycle(s, g),
    ensures
        exists|x: int| 0 <= x <= g && opens_cycle(s, x) && #[trigger] same_cycle(s, x, g),
    decreases g,
{
    if opens_cycle(s, g) {
        assert(same_cycle(s, g, g));
    } else {
        let x = choose|x: int| 0 <= x < g && on_cycle(s, x) && #[trigger] same_cycle(s, x, g);
        lemma_opening_group(s, x);
        let y = choose|y: int| 0 <= y <= x && opens_cycle(s, y) && #[trigger] same_cycle(s, y, x);
        assert(same_cycle(s, y, g));
    }
}

proof fn lemma_member_listed(s: Scene, g: int, h: int, k: int)
    requires
        0 <= h < k <= s.groups@.len(),
        mutual(s, g, h),
    ensures
        cycle_members(s, g, k).contains(s.groups@[h].uuid@),
    decreases k,
{
    let prev = cycle_members(s, g, k - 1);
    if h == k - 1 {
        assert(cycle_members(s, g, k)[prev.len() as int] == s.groups@[h].uuid@);
    } else {
        lemma_member_listed(s, g, h, k - 1);
        let j = choose|j: int| 0 <= j < prev.len() && prev[j] == s.groups@[h].uuid@;
        assert(cycle_members(s, g, k)[j] == s.groups@[h].uuid@);
    }
}

proof fn lemma_cycle_in_prefix(s: Scene, n: int, g: int)
    requires
        0 <= g < n <= s.groups@.len(),
        opens_cycle(s, g),
    ensures
        cycle_issues(s, n).contains(
            Issue::GroupCycle(s.groups@[g].uuid@, cycle_members(s, g, s.groups@.len() as int)),
        ),
    decreases n,
{
    let want = Issue::GroupCycle(s.groups@[g].uuid@, cycle_members(s, g, s.groups@.len() as int));
    let prev = cycle_issues(s, n - 1);
    if g == n - 1 {
        assert(cycle_issues(s, n) == prev + seq![want]);
        assert(cycle_issues(s, n)[prev.len() as int] == want);
    } else {
        lemma_cycle_in_prefix(s, n - 1, g);
        let j = choose|j: int| 0 <= j < prev.len() && prev[j] == want;
        assert(cycle_issues(s, n)[j] == want);
    }
}

/// A connection whose source names no cell or component is reported with that
/// uuid, and a group that contains itself is named among the members of a
/// reported cycle.
pub proof fn lemma_broken_references_reported(s: Scene, i: int, g: int)
    ensures
        0 <= i < s.connections@.len() && !is_part(s, s.connections@[i].source_uuid@)
            ==> scene_issues(s).contains(
            Issue::DanglingSource(s.connections@[i].uuid@, s.connections@[i].source_uuid@),
        ),
        0 <= g < s.groups@.len() && on_cycle(s, g) ==> exists|x: int|
            0 <= x < s.groups@.len() && #[trigger] scene_issues(s).contains(
                Issue::GroupCycle(s.groups@[x].uuid@, cycle_members(s, x, s.groups@.len() as int)),
            ) && cycle_members(s, x, s.groups@.len() as int).contains(s.groups@[g].uuid@),
{
    let a = connection_issues(s, s.connections@.len() as int);
    let b = group_member_issues(s, s.groups@.len() as int);
    let c = cycle_issues(s, s.groups@.len() as int);
    let d = duplicate_issues(entity_uuids(s), entity_uuids(s).len() as int);
    assert(scene_issues(s) == a + b + c + d);
    if 0 <= i < s.connections@.len() && !is_part(s, s.connections@[i].source_uuid@) {
        lemma_source_in_prefix(s, s.connections@.len() as int, i);
        let want = Issue::DanglingSource(s.connections@[i].uuid@, s.connections@[i].source_uuid@);
        let j = choose|j: int| 0 <= j < a.len() && a[j] == want;
        assert(scene_issues(s)[j] == want);
    }
    if 0 <= g < s.groups@.len() && on_cycle(s, g) {
        lemma_opening_group(s, g);
        let x = choose|x: int| 0 <= x <= g && opens_cycle(s, x) && #[trigger] same_cycle(s, x, g);
        let n = s.groups@.len() as int;
        lemma_cycle_in_prefix(s, n, x);
        let want = Issue::GroupCycle(s.groups@[x].uuid@, cycle_members(s, x, n));
        let j = choose|j: int| 0 <= j < c.len() && c[j] == want;
        assert(scene_issues(s)[a.len() + b.len() + j] == want);
        assert(scene_issues(s).contains(want));
        assert(mutual(s, g, g));
        assert(mutual(s, x, g) == mutual(s, g, g));
        lemma_member_listed(s, x, g, n);
        assert(0 <= x < n && scene_issues(s).contains(want) && cycle_members(s, x, n).contains(
            s.groups@[g].uuid@,
        ));
    }
}

/// Whether a uuid names a cell instance or a component of the scene.
pub fn names_part(s: &Scene, u: &String) -> (r: bool)
    ensures
        r == is_part(*s, u@),
{
    let mut i: usize = 0;
    while i < s.cells.len()
        invariant
            i <= s.cells@.len(),
            forall|j: int| 0 <= j < i ==> s.cells@[j].uuid@ != u@,
        decreases s.cells@.len() - i,
    {
        if s.cells[i].uuid == *u {
            return true;
        }
        i = i + 1;
    }
    let mut i: usize = 0;
    while i < s.components.len()
        invariant
            i <= s.components@.len(),
            forall|j: int| 0 <= j < s.cells@.len() ==> s.cells@[j].uuid@ != u@,
            forall|j: int| 0 <= j < i ==> s.components@[j].uuid@ != u@,
        decreases s.components@.len() - i,
    {
        if s.components[i].uuid == *u {
            return true;
        }
        i = i + 1;
    }
    false
}

/// Whether a uuid names a group of the scene.
pub fn names_group(s: &Scene, u: &String) -> (r: bool)
    ensures
        r == is_group(*s, u@),
{
    let mut i: usize = 0;
    while i < s.groups.len()
        invariant
            i <= s.groups@.len(),
            forall|j: int| 0 <= j < i ==> s.groups@[j].uuid@ != u@,
        decreases s.groups@.len() - i,
    {
        if s.groups[i].uuid == *u {
            return true;
        }
        i = i + 1;
    }
    false
}

/// Appends the dangling sources and targets of every connection.
fn push_connection_violations(s: &Scene, out: &mut Vec<Violation>)
    ensures
        issues_of(final(out)@) == issues_of(old(out)@) + connection_issues(
            *s,
            s.connections@.len() as int,
        ),
{
    let ghost start = issues_of(out@);
    let mut i: usize = 0;
    while i < s.connections.len()
        invariant
            i <= s.connections@.len(),
            issues_of(out@) == start + connection_issues(*s, i as int),
        decreases s.connections@.len() - i,
    {
        let c = &s.connections[i];
        let ghost before = issues_of(out@);
        if !names_part(s, &c.source_uuid) {
            out.push(
                Violation::DanglingSource {
                    connection: c.uuid.clone(),
                    uuid: c.source_uuid.clone(),
                },
            );
        }
        let ghost mid = issues_of(out@);
        if !names_part(s, &c.target_uuid) {
            out.push(
                Violation::DanglingTarget {
                    connection: c.uuid.clone(),
                    uuid: c.target_uuid.clone(),
                },
            );
        }
        proof {
            let src = if is_part(*s, c.source_uuid@) {
                Seq::<Issue>::empty()
            } else {
                seq![Issue::DanglingSource(c.uuid@, c.source_uuid@)]
            };
            let dst = if is_part(*s, c.target_uuid@) {
                Seq::<Issue>::empty()
            } else {
                seq![Issue::DanglingTarget(c.uuid@, c.target_uuid@)]
            };
            assert(mid =~= before + src);
            assert(issues_of(out@) =~= mid + dst);
            assert(connection_issues(*s, i + 1) == connection_issues(*s, i as int) + src + dst);
            assert(issues_of(out@) =~= start + connection_issues(*s, i + 1));
        }
        i = i + 1;
    }
}

/// Appends the dangling members of every group.
fn push_member_violations(s: &Scene, out: &mut Vec<Violation>)
    ensures
        issues_of(final(out)@) == issues_of(old(out)@) + group_member_issues(
            *s,
            s.groups@.len() as int,
        ),
{
    let ghost start = issues_of(out@);
    let mut i: usize = 0;
    while i < s.groups.len()
        invariant
            i <= s.groups@.len(),
            issues_of(out@) == start + group_member_issues(*s, i as int),
        decreases s.groups@.len() - i,
    {
        let g = &s.groups[i];
        let ghost outer = issues_of(out@);
        let mut k: usize = 0;
        while k < g.member_uuids.len()
            invariant
                i < s.groups@.len(),
                *g == s.groups@[i as int],
                k <= g.member_uuids@.len(),
                issues_of(out@) == outer + member_issues(*s, *g, k as int),
            decreases g.member_uuids@.len() - k,
        {
            let u = &g.member_uuids[k];
            let ghost before = issues_of(out@);
            if !names_part(s, u) && !names_group(s, u) {
                out.push(Violation::DanglingMember { group: g.uuid.clone(), uuid: u.clone() });
            }
            proof {
                let here = if is_part(*s, u@) || is_group(*s, u@) {
                    Seq::<Issue>::empty()
                } else {
                    seq![Issue::DanglingMember(g.uuid@, u@)]
                };
                assert(issues_of(out@) =~= before + here);
                assert(issues_of(out@) =~= outer + member_issues(*s, *g, k + 1));
            }
            k = k + 1;
        }
        proof {
            assert(issues_of(out@) =~= start + group_member_issues(*s, i + 1));
        }
        i = i + 1;
    }
}

/// Whether group `b` is listed among the members of group `a`.
fn group_links(s: &Scene, a: usize, b: usize) -> (r: bool)
    requires
        a < s.groups@.len(),
        b < s.groups@.len(),
    ensures
        r == links(*s, a as int, b as int),
{
    let members = &s.groups[a].member_uuids;
    let target = &s.groups[b].uuid;
    let mut k: usize = 0;
    while k < members.len()
        invariant
            *members == s.groups@[a as int].member_uuids,
            *target == s.groups@[b as int].uuid,
            k <= members@.len(),
            forall|j: int| 0 <= j < k ==> members@[j]@ != target@,
        decreases members@.len() - k,
    {
        if members[k] == *target {
            return true;
        }
        k = k + 1;
    }
    false
}

/// The membership relation between groups, as a square table.
fn link_table(s: &Scene) -> (t: Vec<Vec<bool>>)
    ensures
        t@.len() == s.groups@.len(),
        forall|a: int| 0 <= a < t@.len() ==> (#[trigger] t@[a])@.len() == s.groups@.len(),
        forall|a: int, b: int|
            0 <= a < t@.len() && 0 <= b < t@.len() ==> t@[a]@[b] == links(*s, a, b),
{
    let n = s.groups.len();
    let mut t: Vec<Vec<bool>> = Vec::new();
    let mut a: usize = 0;
    while a < n
        invariant
            n == s.groups@.len(),
            a <= n,
            t@.len() == a,
            forall|x: int| 0 <= x < a ==> (#[trigger] t@[x])@.len() == n,
            forall|x: int, y: int| 0 <= x < a && 0 <= y < n ==> t@[x]@[y] == links(*s, x, y),
        decreases n - a,
    {
        let mut row: Vec<bool> = Vec::new();
        let mut b: usize = 0;
        while b < n
            invariant
                n == s.groups@.len(),
                a < n,
                b <= n,
                row@.len() == b,
                forall|y: int| 0 <= y < b ==> row@[y] == links(*s, a as int, y),
            decreases n - b,
        {
            row.push(group_links(s, a, b));
            b = b + 1;
        }
        t.push(row);
        a = a + 1;
    }
    t
}

/// Which groups group `g` reaches in at most as many steps as there are groups.
fn reach_row(s: &Scene, t: &Vec<Vec<bool>>, g: usize) -> (r: Vec<bool>)
    requires
        g < s.groups@.len(),
        t@.len() == s.groups@.len(),
        forall|a: int| 0 <= a < t@.len() ==> (#[trigger] t@[a])@.len() == s.groups@.len(),
        forall|a: int, b: int|
            0 <= a < t@.len() && 0 <= b < t@.len() ==> t@[a]@[b] == links(*s, a, b),
    ensures
        r@.len() == s.groups@.len(),
        forall|y: int| 0 <= y < r@.len() ==> r@[y] == reaches(*s, g as int, y, s.groups@.len() as int),
{
    let n = s.groups.len();
    let mut cur: Vec<bool> = Vec::new();
    let mut b: usize = 0;
    while b < n
        invariant
            n == s.groups@.len(),
            b <= n,
            cur@.len() == b,
            forall|y: int| 0 <= y < b ==> cur@[y] == reaches(*s, g as int, y, 0),
        decreases n - b,
    {
        cur.push(false);
        b = b + 1;
    }
    let mut step: usize = 0;
    while step < n
        invariant
            n == s.groups@.len(),
            g < n,
            t@.len() == n,
            forall|a: int| 0 <= a < n ==> (#[trigger] t@[a])@.len() == n,
            forall|a: int, b: int| 0 <= a < n && 0 <= b < n ==> t@[a]@[b] == links(*s, a, b),
            step <= n,
            cur@.len() == n,
            forall|y: int| 0 <= y < n ==> cur@[y] == reaches(*s, g as int, y, step as int),
        decreases n - step,
    {
        let mut next: Vec<bool> = Vec::new();
        let mut b: usize = 0;
        while b < n
            invariant
                n == s.groups@.len(),
                g < n,
                t@.len() == n,
                forall|a: int| 0 <= a < n ==> (#[trigger] t@[a])@.len() == n,
                forall|a: int, b: int| 0 <= a < n && 0 <= b < n ==> t@[a]@[b] == links(*s, a, b),
                step < n,
                cur@.len() == n,
                forall|y: int| 0 <= y < n ==> cur@[y] == reaches(*s, g as int, y, step as int),
                b <= n,
                next@.len() == b,
                forall|y: int| 0 <= y < b ==> next@[y] == reaches(*s, g as int, y, step + 1),
            decreases n - b,
        {
            let mut found = t[g][b];
            proof {
                if found {
                    assert(reaches(*s, g as int, b as int, step + 1));
                }
            }
            let mut c: usize = 0;
            while c < n && !found
                invariant
                    n == s.groups@.len(),
                    g < n,
                    b < n,
                    t@.len() == n,
                    forall|a: int| 0 <= a < n ==> (#[trigger] t@[a])@.len() == n,
                    forall|a: int, b: int|
                        0 <= a < n && 0 <= b < n ==> t@[a]@[b] == links(*s, a, b),
                    cur@.len() == n,
                    forall|y: int|
                        0 <= y < n ==> cur@[y] == reaches(*s, g as int, y, step as int),
                    c <= n,
                    found ==> reaches(*s, g as int, b as int, step + 1),
                    !found ==> !links(*s, g as int, b as int),
                    !found ==> forall|x: int|
                        0 <= x < c ==> !(reaches(*s, g as int, x, step as int) && links(
                            *s,
                            x,
                            b as int,
                        )),
                decreases n - c,
            {
                if cur[c] && t[c][b] {
                    proof {
                        let k = step + 1;
                        assert(links(*s, c as int, b as int));
                        lemma_reach_step(*s, g as int, b as int, c as int, k);
                    }
                    found = true;
                }
                c = c + 1;
            }
            proof {
                if !found {
                    assert(!reaches(*s, g as int, b as int, step + 1));
                }
            }
            next.push(found);
            b = b + 1;
        }
        cur = next;
        step = step + 1;
    }
    cur
}

/// Reachability between groups, as a square table.
fn reach_table(s: &Scene) -> (r: Vec<Vec<bool>>)
    ensures
        r@.len() == s.groups@.len(),
        forall|a: int| 0 <= a < r@.len() ==> (#[trigger] r@[a])@.len() == s.groups@.len(),
        forall|a: int, b: int|
            0 <= a < r@.len() && 0 <= b < r@.len() ==> r@[a]@[b] == reaches(
                *s,
                a,
                b,
                s.groups@.len() as int,
            ),
{
    let t = link_table(s);
    let n = s.groups.len();
    let mut r: Vec<Vec<bool>> = Vec::new();
    let mut g: usize = 0;
    while g < n
        invariant
            n == s.groups@.len(),
            g <= n,
            t@.len() == n,
            forall|a: int| 0 <= a < n ==> (#[trigger] t@[a])@.len() == n,
            forall|a: int, b: int| 0 <= a < n && 0 <= b < n ==> t@[a]@[b] == links(*s, a, b),
            r@.len() == g,
            forall|a: int| 0 <= a < g ==> (#[trigger] r@[a])@.len() == n,
            forall|a: int, b: int|
                0 <= a < g && 0 <= b < n ==> r@[a]@[b] == reaches(*s, a, b, n as int),
        decreases n - g,
    {
        r.push(reach_row(s, &t, g));
        g = g + 1;
    }
    r
}

/// Whether groups `a` and `b` lie on cycles with the same groups.
fn same_cycle_rows(s: &Scene, r: &Vec<Vec<bool>>, a: usize, b: usize) -> (res: bool)
    requires
        a < s.groups@.len(),
        b < s.groups@.len(),
        r@.len() == s.groups@.len(),
        forall|x: int| 0 <= x < r@.len() ==> (#[trigger] r@[x])@.len() == s.groups@.len(),
        forall|x: int, y: int|
            0 <= x < r@.len() && 0 <= y < r@.len() ==> r@[x]@[y] == reaches(
                *s,
                x,
                y,
                s.groups@.len() as int,
            ),
    ensures
        res == same_cycle(*s, a as int, b as int),
{
    let n = s.groups.len();
    let mut h: usize = 0;
    while h < n
        invariant
            n == s.groups@.len(),
            a < n,
            b < n,
            h <= n,
            r@.len() == n,
            forall|x: int| 0 <= x < n ==> (#[trigger] r@[x])@.len() == n,
            forall|x: int, y: int| 0 <= x < n && 0 <= y < n ==> r@[x]@[y] == reaches(*s, x, y, n as int),
            forall|y: int| 0 <= y < h ==> mutual(*s, a as int, y) == mutual(*s, b as int, y),
        decreases n - h,
    {
        if (r[a][h] && r[h][a]) != (r[b][h] && r[h][b]) {
            proof {
                assert(mutual(*s, a as int, h as int) != mutual(*s, b as int, h as int));
            }
            return false;
        }
        h = h + 1;
    }
    true
}

/// Appends one cycle violation for each cycle, at its first group.
fn push_cycle_violations(s: &Scene, out: &mut Vec<Violation>)
    ensures
        issues_of(final(out)@) == issues_of(old(out)@) + cycle_issues(
            *s,
            s.groups@.len() as int,
        ),
{
    let r = reach_table(s);
    let n = s.groups.len();
    let ghost start = issues_of(out@);
    let mut i: usize = 0;
    while i < n
        invariant
            n == s.groups@.len(),
            i <= n,
            r@.len() == n,
            forall|x: int| 0 <= x < n ==> (#[trigger] r@[x])@.len() == n,
            forall|x: int, y: int| 0 <= x < n && 0 <= y < n ==> r@[x]@[y] == reaches(*s, x, y, n as int),
            issues_of(out@) == start + cycle_issues(*s, i as int),
        decreases n - i,
    {
        let ghost before = issues_of(out@);
        let mut first = r[i][i];
        let mut x: usize = 0;
        while x < i && first
            invariant
                n == s.groups@.len(),
                i < n,
                x <= i,
                r@.len() == n,
                forall|x: int| 0 <= x < n ==> (#[trigger] r@[x])@.len() == n,
                forall|x: int, y: int|
                    0 <= x < n && 0 <= y < n ==> r@[x]@[y] == reaches(*s, x, y, n as int),
                first ==> on_cycle(*s, i as int),
                first ==> forall|z: int|
                    0 <= z < x ==> !(on_cycle(*s, z) && #[trigger] same_cycle(*s, z, i as int)),
                !first ==> !opens_cycle(*s, i as int),
            decreases i - x,
        {
            if r[x][x] && same_cycle_rows(s, &r, x, i) {
                first = false;
            }
            x = x + 1;
        }
        if first {
            let mut members: Vec<String> = Vec::new();
            let mut h: usize = 0;
            while h < n
                invariant
                    n == s.groups@.len(),
                    i < n,
                    h <= n,
                    r@.len() == n,
                    forall|x: int| 0 <= x < n ==> (#[trigger] r@[x])@.len() == n,
                    forall|x: int, y: int|
                        0 <= x < n && 0 <= y < n ==> r@[x]@[y] == reaches(*s, x, y, n as int),
                    texts_of(members@) == cycle_members(*s, i as int, h as int),
                decreases n - h,
            {
                if r[i][h] && r[h][i] {
                    members.push(s.groups[h].uuid.clone());
                }
                h = h + 1;
                proof {
                    assert(texts_of(members@) =~= cycle_members(*s, i as int, h as int));
                }
            }
            out.push(Violation::GroupCycle { group: s.groups[i].uuid.clone(), members });
        }
        proof {
            let here = if opens_cycle(*s, i as int) {
                seq![
                    Issue::GroupCycle(
                        s.groups@[i as int].uuid@,
                        cycle_members(*s, i as int, n as int),
                    ),
                ]
            } else {
                Seq::<Issue>::empty()
            };
            assert(issues_of(out@) =~= before + here);
            assert(issues_of(out@) =~= start + cycle_issues(*s, i + 1));
        }
        i = i + 1;
    }
}

/// The uuids of all entities, in the order of `entity_uuids`.
fn collect_uuids(s: &Scene) -> (r: Vec<String>)
    ensures
        texts_of(r@) == entity_uuids(*s),
{
    let ghost n1 = s.cells@.len() as int;
    let ghost n2 = n1 + s.connections@.len();
    let ghost n3 = n2 + s.components@.len();
    let mut r: Vec<String> = Vec::new();
    let mut i: usize = 0;
    while i < s.cells.len()
        invariant
            i <= s.cells@.len(),
            r@.len() == i,
            forall|k: int| 0 <= k < i ==> (#[trigger] r@[k])@ == s.cells@[k].uuid@,
        decreases s.cells@.len() - i,
    {
        r.push(s.cells[i].uuid.clone());
        i = i + 1;
    }
    let mut i: usize = 0;
    while i < s.connections.len()
        invariant
            n1 == s.cells@.len(),
            i <= s.connections@.len(),
            r@.len() == n1 + i,
            forall|k: int| 0 <= k < n1 ==> (#[trigger] r@[k])@ == s.cells@[k].uuid@,
            forall|k: int| n1 <= k < n1 + i ==> (#[trigger] r@[k])@ == s.connections@[k - n1].uuid@,
        decreases s.connections@.len() - i,
    {
        r.push(s.connections[i].uuid.clone());
        i = i + 1;
    }
    let mut i: usize = 0;
    while i < s.components.len()
        invariant
            n1 == s.cells@.len(),
            n2 == n1 + s.connections@.len(),
            i <= s.components@.len(),
            r@.len() == n2 + i,
            forall|k: int| 0 <= k < n1 ==> (#[trigger] r@[k])@ == s.cells@[k].uuid@,
            forall|k: int| n1 <= k < n2 ==> (#[trigger] r@[k])@ == s.connections@[k - n1].uuid@,
            forall|k: int| n2 <= k < n2 + i ==> (#[trigger] r@[k])@ == s.components@[k - n2].uuid@,
        decreases s.components@.len() - i,
    {
        r.push(s.components[i].uuid.clone());
        i = i + 1;
    }
    let mut i: usize = 0;
    while i < s.groups.len()
        invariant
            n1 == s.cells@.len(),
            n2 == n1 + s.connections@.len(),
            n3 == n2 + s.components@.len(),
            i <= s.groups@.len(),
            r@.len() == n3 + i,
            forall|k: int| 0 <= k < n1 ==> (#[trigger] r@[k])@ == s.cells@[k].uuid@,
            forall|k: int| n1 <= k < n2 ==> (#[trigger] r@[k])@ == s.connections@[k - n1].uuid@,
            forall|k: int| n2 <= k < n3 ==> (#[trigger] r@[k])@ == s.components@[k - n2].uuid@,
            forall|k: int| n3 <= k < n3 + i ==> (#[trigger] r@[k])@ == s.groups@[k - n3].uuid@,
        decreases s.groups@.len() - i,
    {
        r.push(s.groups[i].uuid.clone());
        i = i + 1;
    }
    proof {
        let e = entity_uuids(*s);
        assert forall|k: int| 0 <= k < r@.len() implies texts_of(r@)[k] == e[k] by {
            if k < n1 {
            } else if k < n2 {
            } else if k < n3 {
            } else {
            }
        }
        assert(texts_of(r@) =~= entity_uuids(*s));
    }
    r
}

/// Appends a duplicate violation for each uuid that an earlier entity has.
fn push_duplicate_violations(s: &Scene, out: &mut Vec<Violation>)
    ensures
        issues_of(final(out)@) == issues_of(old(out)@) + duplicate_issues(
            entity_uuids(*s),
            entity_uuids(*s).len() as int,
        ),
{
    let u = collect_uuids(s);
    let ghost t = entity_uuids(*s);
    let ghost start = issues_of(out@);
    let mut i: usize = 0;
    while i < u.len()
        invariant
            texts_of(u@) == t,
            i <= u@.len(),
            issues_of(out@) == start + duplicate_issues(t, i as int),
        decreases u@.len() - i,
    {
        let ghost before = issues_of(out@);
        let mut seen = false;
        let mut j: usize = 0;
        while j < i && !seen
            invariant
                texts_of(u@) == t,
                i < u@.len(),
                j <= i,
                seen ==> exists|k: int| 0 <= k < i && #[trigger] t[k] == t[i as int],
                !seen ==> forall|k: int| 0 <= k < j ==> t[k] != t[i as int],
            decreases i - j,
        {
            if u[j] == u[i] {
                proof {
                    assert(t[j as int] == u@[j as int]@ && t[i as int] == u@[i as int]@);
                }
                seen = true;
            }
            j = j + 1;
        }
        if seen {
            out.push(Violation::DuplicateUuid { uuid: u[i].clone() });
        }
        proof {
            let k = i + 1;
            let here = if exists|j: int| 0 <= j < k - 1 && #[trigger] t[j] == t[k - 1] {
                seq![Issue::DuplicateUuid(t[k - 1])]
            } else {
                Seq::<Issue>::empty()
            };
            assert(t[i as int] == u@[i as int]@);
            assert(issues_of(out@) =~= before + here);
            assert(issues_of(out@) =~= start + duplicate_issues(t, i + 1));
        }
        i = i + 1;
    }
}

/// Checks a scene: every connection end and every group member must name an
/// entity of the scene, no group may contain itself, and no two entities may
/// share a uuid. All violations are returned, connections first, then group
/// members, then cycles, then repeated uuids.
pub fn validate_scene(s: &Scene) -> (r: Vec<Violation>)
    ensures
        issues_of(r@) == scene_issues(*s),
{
    let mut out: Vec<Violation> = Vec::new();
    proof {
        assert(issues_of(out@) =~= Seq::<Issue>::empty());
    }
    push_connection_violations(s, &mut out);
    push_member_violations(s, &mut out);
    push_cycle_violations(s, &mut out);
    push_duplicate_violations(s, &mut out);
    proof {
        assert(issues_of(out@) =~= scene_issues(*s));
    }
    out
}

} // verus!
