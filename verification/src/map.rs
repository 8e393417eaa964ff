use vstd::prelude::*;
use std::collections::HashMap;

use crate::command::{
    Command, CompleteAnd, CompleteAt, CompleteCommand, CompleteCommandSegment,
    CompleteCommandTarget, CompleteIn, CompleteRef,
};
use crate::direction::OrdinalDirection;
use crate::location::{AirLocation, Destination, GroundLocation, Location};
use crate::map_objects::{Airport, Beacon, Exit};
use crate::plane::{spec_exec, spec_tick, wrap_inc_u32, Plane, Visibility};
use crate::text::{eq_ignore_case, lower_val};
use crate::GameSettings;
use crate::GameStatus;

verus! {

broadcast use vstd::std_specs::hash::group_hash_axioms;

/// The immutable description of a map: its size and its fixed
/// objects.
#[derive(Debug)]
pub struct MapStatic {
    pub name: String,
    pub author: String,
    pub width: u16,
    pub height: u16,
    pub exits: Vec<Exit>,
    pub beacons: Vec<Beacon>,
    pub airports: Vec<Airport>,
    pub path_markers: Vec<GroundLocation>,
}

/// A command tree with every indirection node replaced by what its
/// slot holds right now (or an empty node for an unset slot).
pub open spec fn spec_resolve(
    seg: CompleteCommandSegment,
    slots: Map<u16, CompleteCommand>,
) -> CompleteCommandSegment
    decreases seg,
{
    match seg {
        CompleteCommandSegment::At(a) => CompleteCommandSegment::At(
            CompleteAt { tail: Box::new(spec_resolve(*a.tail, slots)), poi: a.poi },
        ),
        CompleteCommandSegment::In(i) => CompleteCommandSegment::In(
            CompleteIn { tail: Box::new(spec_resolve(*i.tail, slots)), time: i.time },
        ),
        CompleteCommandSegment::And(a) => CompleteCommandSegment::And(
            CompleteAnd {
                left: Box::new(spec_resolve(*a.left, slots)),
                right: Box::new(spec_resolve(*a.right, slots)),
            },
        ),
        CompleteCommandSegment::Ref(r) => {
            if slots.dom().contains(r.0) {
                slots[r.0].head
            } else {
                CompleteCommandSegment::Empty
            }
        },
        _ => seg,
    }
}

/// Every tree stored in the registry is itself free of indirection
/// nodes (it was resolved when it was stored).
pub open spec fn slots_wf(slots: Map<u16, CompleteCommand>) -> bool {
    forall|k: u16| slots.dom().contains(k) ==> (#[trigger] slots[k]).head.ref_free()
}

/// Resolution against a well-formed registry removes every
/// indirection node.
pub proof fn lemma_resolve_ref_free(seg: CompleteCommandSegment, slots: Map<u16, CompleteCommand>)
    requires
        slots_wf(slots),
    ensures
        spec_resolve(seg, slots).ref_free(),
    decreases seg,
{
    match seg {
        CompleteCommandSegment::At(a) => lemma_resolve_ref_free(*a.tail, slots),
        CompleteCommandSegment::In(i) => lemma_resolve_ref_free(*i.tail, slots),
        CompleteCommandSegment::And(a) => {
            lemma_resolve_ref_free(*a.left, slots);
            lemma_resolve_ref_free(*a.right, slots);
        },
        _ => {},
    }
}

/// A tree without indirection nodes resolves to itself.
pub proof fn lemma_resolve_ref_free_identity(
    seg: CompleteCommandSegment,
    slots: Map<u16, CompleteCommand>,
)
    requires
        seg.ref_free(),
    ensures
        spec_resolve(seg, slots) == seg,
    decreases seg,
{
    match seg {
        CompleteCommandSegment::At(a) => lemma_resolve_ref_free_identity(*a.tail, slots),
        CompleteCommandSegment::In(i) => lemma_resolve_ref_free_identity(*i.tail, slots),
        CompleteCommandSegment::And(a) => {
            lemma_resolve_ref_free_identity(*a.left, slots);
            lemma_resolve_ref_free_identity(*a.right, slots);
        },
        _ => {},
    }
}

/// Reference transparency: an indirection node resolves to exactly
/// the tree its slot holds right now, so it behaves as if that tree
/// had been written in its place; an unset slot resolves to an empty
/// node.
pub proof fn lemma_reference_transparency(n: u16, slots: Map<u16, CompleteCommand>)
    ensures
        slots.dom().contains(n) ==> spec_resolve(
            CompleteCommandSegment::Ref(CompleteRef(n)),
            slots,
        ) == slots[n].head,
        !slots.dom().contains(n) ==> spec_resolve(
            CompleteCommandSegment::Ref(CompleteRef(n)),
            slots,
        ) == CompleteCommandSegment::Empty,
{
}

/// Slot overwrite atomicity: once a slot is overwritten, every later
/// dereference of it resolves to the whole new tree, never a mix,
/// and other slots are untouched.
pub proof fn lemma_slot_overwrite(
    n: u16,
    c: CompleteCommand,
    slots: Map<u16, CompleteCommand>,
    k: u16,
)
    ensures
        spec_resolve(CompleteCommandSegment::Ref(CompleteRef(n)), slots.insert(n, c)) == c.head,
        k != n ==> spec_resolve(CompleteCommandSegment::Ref(CompleteRef(k)), slots.insert(n, c))
            == spec_resolve(CompleteCommandSegment::Ref(CompleteRef(k)), slots),
{
}

/// The exits offered as journey endpoints, one entry per exit, with
/// an excluded endpoint left out.
pub open spec fn pool_exits(exits: Seq<Exit>, exclude: Option<Destination>) -> Seq<Destination>
    decreases exits.len(),
{
    if exits.len() == 0 {
        Seq::<Destination>::empty()
    } else {
        let rest = pool_exits(exits.drop_last(), exclude);
        let cand = Destination::Exit(exits.last());
        if exclude == Some(cand) {
            rest
        } else {
            rest.push(cand)
        }
    }
}

/// The airports offered as journey endpoints, with an excluded
/// endpoint left out.
pub open spec fn pool_airports(
    airports: Seq<Airport>,
    exclude: Option<Destination>,
) -> Seq<Destination>
    decreases airports.len(),
{
    if airports.len() == 0 {
        Seq::<Destination>::empty()
    } else {
        let rest = pool_airports(airports.drop_last(), exclude);
        let cand = Destination::Airport(airports.last());
        if exclude == Some(cand) {
            rest
        } else {
            rest.push(cand)
        }
    }
}

/// All endpoints a journey may start at or end at: exits always, and
/// airports except as the destination of a journey when landing is
/// disallowed.
pub open spec fn spawn_pool(
    m: MapStatic,
    allow_landing: bool,
    exclude: Option<Destination>,
    is_dest: bool,
) -> Seq<Destination> {
    pool_exits(m.exits@, exclude) + (if !is_dest || allow_landing {
        pool_airports(m.airports@, exclude)
    } else {
        Seq::<Destination>::empty()
    })
}

/// The map offers at least one start point, and a destination
/// whatever start was drawn.
pub open spec fn spawn_ok(m: MapStatic, allow_landing: bool) -> bool {
    &&& spawn_pool(m, allow_landing, None, false).len() > 0
    &&& forall|d: Destination| spawn_pool(m, allow_landing, Some(d), true).len() > 0
}

/// Excluding an endpoint that is not on offer changes nothing.
pub proof fn lemma_pool_exits_exclude_absent(exits: Seq<Exit>, d: Destination)
    requires
        !pool_exits(exits, None).contains(d),
    ensures
        pool_exits(exits, Some(d)) == pool_exits(exits, None),
    decreases exits.len(),
{
    if exits.len() > 0 {
        let rest = pool_exits(exits.drop_last(), None);
        let cand = Destination::Exit(exits.last());
        assert(pool_exits(exits, None) == rest.push(cand));
        assert(cand != d) by {
            if cand == d {
                assert(pool_exits(exits, None)[rest.len() as int] == d);
            }
        }
        assert(!rest.contains(d)) by {
            if rest.contains(d) {
                let a = choose|a: int| 0 <= a < rest.len() && rest[a] == d;
                assert(rest.push(cand)[a] == d);
            }
        }
        lemma_pool_exits_exclude_absent(exits.drop_last(), d);
    }
}

/// Excluding an endpoint that is not on offer changes nothing.
pub proof fn lemma_pool_airports_exclude_absent(airports: Seq<Airport>, d: Destination)
    requires
        !pool_airports(airports, None).contains(d),
    ensures
        pool_airports(airports, Some(d)) == pool_airports(airports, None),
    decreases airports.len(),
{
    if airports.len() > 0 {
        let rest = pool_airports(airports.drop_last(), None);
        let cand = Destination::Airport(airports.last());
        assert(pool_airports(airports, None) == rest.push(cand));
        assert(cand != d) by {
            if cand == d {
                assert(pool_airports(airports, None)[rest.len() as int] == d);
            }
        }
        assert(!rest.contains(d)) by {
            if rest.contains(d) {
                let a = choose|a: int| 0 <= a < rest.len() && rest[a] == d;
                assert(rest.push(cand)[a] == d);
            }
        }
        lemma_pool_airports_exclude_absent(airports.drop_last(), d);
    }
}

/// An endpoint outside the offered destination pool filters nothing
/// out of it.
pub proof fn lemma_spawn_pool_exclude_absent(m: MapStatic, allow_landing: bool, d: Destination)
    requires
        !spawn_pool(m, allow_landing, None, true).contains(d),
    ensures
        spawn_pool(m, allow_landing, Some(d), true) == spawn_pool(m, allow_landing, None, true),
{
    let ep = pool_exits(m.exits@, None);
    let ap = if allow_landing {
        pool_airports(m.airports@, None)
    } else {
        Seq::<Destination>::empty()
    };
    assert(!ep.contains(d)) by {
        if ep.contains(d) {
            let a = choose|a: int| 0 <= a < ep.len() && ep[a] == d;
            assert((ep + ap)[a] == d);
        }
    }
    assert(!ap.contains(d)) by {
        if ap.contains(d) {
            let a = choose|a: int| 0 <= a < ap.len() && ap[a] == d;
            assert((ep + ap)[ep.len() + a] == d);
        }
    }
    lemma_pool_exits_exclude_absent(m.exits@, d);
    if allow_landing {
        lemma_pool_airports_exclude_absent(m.airports@, d);
    }
    assert(spawn_pool(m, allow_landing, Some(d), true) =~= spawn_pool(
        m,
        allow_landing,
        None,
        true,
    ));
}

/// Whether the map offers enough journey endpoints: at least one
/// start, and a destination distinct from whatever start was drawn.
pub fn can_spawn(m: &MapStatic, allow_landing: bool) -> (r: bool)
    ensures
        r == spawn_ok(*m, allow_landing),
{
    let start_pool = build_pool(&m.exits, &m.airports, true, None);
    proof {
        assert(start_pool@ =~= spawn_pool(*m, allow_landing, None, false));
    }
    if start_pool.len() == 0 {
        return false;
    }
    let dest_pool = build_pool(&m.exits, &m.airports, allow_landing, None);
    proof {
        assert(dest_pool@ =~= spawn_pool(*m, allow_landing, None, true));
    }
    if dest_pool.len() == 0 {
        proof {
            let d = Destination::Exit(
                Exit {
                    index: 0,
                    entry_location: crate::location::AirLocation(0, 0, 0),
                    entry_direction: OrdinalDirection::North,
                    exit_location: crate::location::AirLocation(0, 0, 0),
                    exit_direction: OrdinalDirection::North,
                },
            );
            lemma_spawn_pool_exclude_absent(*m, allow_landing, d);
        }
        return false;
    }
    let dlen = dest_pool.len();
    let mut i: usize = 0;
    while i < dlen
        invariant
            dlen == dest_pool@.len(),
            i <= dlen,
            dest_pool@ == spawn_pool(*m, allow_landing, None, true),
            forall|j: int|
                0 <= j < i ==> spawn_pool(
                    *m,
                    allow_landing,
                    Some(#[trigger] dest_pool@[j]),
                    true,
                ).len() > 0,
        decreases dlen - i,
    {
        let d = dest_pool[i];
        let minus = build_pool(&m.exits, &m.airports, allow_landing, Some(d));
        proof {
            assert(minus@ =~= spawn_pool(*m, allow_landing, Some(d), true));
        }
        if minus.len() == 0 {
            return false;
        }
        i += 1;
    }
    proof {
        assert forall|d: Destination| spawn_pool(*m, allow_landing, Some(d), true).len()
            > 0 by {
            if dest_pool@.contains(d) {
                let j = choose|j: int| 0 <= j < dest_pool@.len() && dest_pool@[j] == d;
                assert(spawn_pool(*m, allow_landing, Some(dest_pool@[j]), true).len() > 0);
            } else {
                lemma_spawn_pool_exclude_absent(*m, allow_landing, d);
            }
        }
    }
    true
}

/// Index of the first plane whose callsign matches the letter,
/// compared case-insensitively.
pub open spec fn find_plane(planes: Seq<Plane>, p: char) -> Option<int>
    decreases planes.len(),
{
    if planes.len() == 0 {
        None
    } else if lower_val(planes[0].callsign) == lower_val(p) {
        Some(0)
    } else {
        match find_plane(planes.drop_first(), p) {
            Some(r) => Some(r + 1),
            None => None,
        }
    }
}

/// A scan that matched nothing before `i` agrees with `find_plane`.
pub proof fn lemma_find_plane(s: Seq<Plane>, p: char, i: int)
    requires
        0 <= i <= s.len(),
        forall|j: int| 0 <= j < i ==> lower_val(#[trigger] s[j].callsign) != lower_val(p),
    ensures
        i == s.len() ==> find_plane(s, p) is None,
        i < s.len() && lower_val(s[i].callsign) == lower_val(p) ==> find_plane(s, p) == Some(i),
    decreases i,
{
    if i > 0 {
        assert(lower_val(s[0].callsign) != lower_val(p));
        assert(forall|j: int|
            0 <= j < i - 1 ==> lower_val(#[trigger] s.drop_first()[j].callsign) != lower_val(p))
            by {
            assert(forall|j: int|
                0 <= j < i - 1 ==> #[trigger] s.drop_first()[j] == s[j + 1]);
        }
        lemma_find_plane(s.drop_first(), p, i - 1);
    }
}

/// Two airborne entities within one square and one level of each
/// other.
pub open spec fn collides(a: Plane, b: Plane) -> bool {
    match (a.location, b.location) {
        (Location::Flight(la), Location::Flight(lb)) => {
            &&& -1 <= la.0 - lb.0 <= 1
            &&& -1 <= la.1 - lb.1 <= 1
            &&& -1 <= la.2 - lb.2 <= 1
        },
        _ => false,
    }
}

/// The first index after `j` (skipping `i` itself) that collides with
/// entity `i`.
pub open spec fn first_partner(s: Seq<Plane>, i: int, j: int) -> Option<int>
    decreases s.len() - j,
{
    if j < 0 || j >= s.len() {
        None
    } else if j != i && collides(s[i], s[j]) {
        Some(j)
    } else {
        first_partner(s, i, j + 1)
    }
}

/// The first colliding ordered pair at or after row `i`, scanning
/// rows outward and partners inward.
pub open spec fn first_collision_from(s: Seq<Plane>, i: int) -> Option<(int, int)>
    decreases s.len() - i,
{
    if i < 0 || i >= s.len() {
        None
    } else {
        match first_partner(s, i, 0) {
            Some(j) => Some((i, j)),
            None => first_collision_from(s, i + 1),
        }
    }
}

fn collides_exec(a: &Plane, b: &Plane) -> (r: bool)
    ensures
        r == collides(*a, *b),
{
    match (a.location, b.location) {
        (Location::Flight(la), Location::Flight(lb)) => {
            let dx = la.0 as i32 - lb.0 as i32;
            let dy = la.1 as i32 - lb.1 as i32;
            let dz = la.2 as i32 - lb.2 as i32;
            -1 <= dx && dx <= 1 && -1 <= dy && dy <= 1 && -1 <= dz && dz <= 1
        },
        _ => false,
    }
}

/// The failure status for the first colliding pair, if any pair of
/// entities stands too close.
pub fn find_collision(planes: &Vec<Plane>) -> (r: Option<GameStatus>)
    ensures
        match first_collision_from(planes@, 0) {
            Some(p) => r == Some(
                GameStatus::PlanesCrashed(planes@[p.0].callsign, planes@[p.1].callsign),
            ),
            None => r is None,
        },
{
    let len = planes.len();
    let mut i: usize = 0;
    while i < len
        invariant
            len == planes@.len(),
            i <= len,
            first_collision_from(planes@, 0) == first_collision_from(planes@, i as int),
        decreases len - i,
    {
        let mut j: usize = 0;
        while j < len
            invariant
                len == planes@.len(),
                i < len,
                j <= len,
                first_collision_from(planes@, 0) == first_collision_from(planes@, i as int),
                first_partner(planes@, i as int, 0) == first_partner(planes@, i as int, j as int),
            decreases len - j,
        {
            if i != j && collides_exec(&planes[i], &planes[j]) {
                return Some(
                    GameStatus::PlanesCrashed(planes[i].callsign, planes[j].callsign),
                );
            }
            j += 1;
        }
        i += 1;
    }
    None
}

/// Whether an airport at this square accepts a landing in this
/// direction.
pub open spec fn landing_ok(m: MapStatic, g: GroundLocation, dir: OrdinalDirection) -> bool {
    exists|i: int|
        0 <= i < m.airports@.len() && (#[trigger] m.airports@[i]).location == g
            && m.airports@[i].launch_direction.widen_spec() == dir
}

pub fn landing_ok_exec(m: &MapStatic, g: GroundLocation, dir: OrdinalDirection) -> (r: bool)
    ensures
        r == landing_ok(*m, g, dir),
{
    let len = m.airports.len();
    let mut i: usize = 0;
    while i < len
        invariant
            len == m.airports@.len(),
            i <= len,
            forall|j: int|
                0 <= j < i ==> !((#[trigger] m.airports@[j]).location == g
                    && m.airports@[j].launch_direction.widen_spec() == dir),
        decreases len - i,
    {
        let a = m.airports[i];
        if a.location == g && a.launch_direction.widen() == dir {
            proof {
                assert((m.airports@[i as int]).location == g
                    && m.airports@[i as int].launch_direction.widen_spec() == dir);
            }
            return true;
        }
        i += 1;
    }
    false
}

/// Whether an exit at this position accepts a crossing in this
/// direction.
pub open spec fn exit_ok(m: MapStatic, loc: AirLocation, dir: OrdinalDirection) -> bool {
    exists|i: int|
        0 <= i < m.exits@.len() && (#[trigger] m.exits@[i]).exit_location == loc
            && m.exits@[i].exit_direction == dir
}

pub fn exit_ok_exec(m: &MapStatic, loc: AirLocation, dir: OrdinalDirection) -> (r: bool)
    ensures
        r == exit_ok(*m, loc, dir),
{
    let len = m.exits.len();
    let mut i: usize = 0;
    while i < len
        invariant
            len == m.exits@.len(),
            i <= len,
            forall|j: int|
                0 <= j < i ==> !((#[trigger] m.exits@[j]).exit_location == loc
                    && m.exits@[j].exit_direction == dir),
        decreases len - i,
    {
        let e = m.exits[i];
        if e.exit_location == loc && e.exit_direction == dir {
            proof {
                assert((m.exits@[i as int]).exit_location == loc
                    && m.exits@[i as int].exit_direction == dir);
            }
            return true;
        }
        i += 1;
    }
    false
}

/// Whether a square lies on the map border.
pub open spec fn on_border(m: MapStatic, x: u16, y: u16) -> bool {
    x == 0 || x == m.width - 1 || y == 0 || y == m.height - 1
}

/// What the per-entity pass decides about one entity after its
/// motion.
#[derive(Debug, Clone, Copy, PartialEq, Eq, Structural)]
pub enum PlaneOutcome {
    Removed,
    FailedLanding,
    Exited,
    Kept,
}

pub open spec fn plane_outcome(p: Plane, m: MapStatic) -> PlaneOutcome {
    match p.location {
        Location::Flight(al) => {
            if al.2 == 0 {
                if landing_ok(m, al.ground_spec(), p.current_direction) {
                    PlaneOutcome::Removed
                } else {
                    PlaneOutcome::FailedLanding
                }
            } else {
                if exit_ok(m, al, p.current_direction) {
                    PlaneOutcome::Removed
                } else if on_border(m, al.0, al.1) {
                    PlaneOutcome::Exited
                } else {
                    PlaneOutcome::Kept
                }
            }
        },
        Location::Airport(_) => PlaneOutcome::Kept,
    }
}

/// The failure set during one per-entity pass; a later entity's
/// failure overwrites an earlier one's.
pub open spec fn last_failure(s: Seq<Plane>, m: MapStatic) -> Option<GameStatus>
    decreases s.len(),
{
    if s.len() == 0 {
        None
    } else {
        match plane_outcome(s.last(), m) {
            PlaneOutcome::FailedLanding => Some(GameStatus::PlaneFailedLanding(s.last().callsign)),
            PlaneOutcome::Exited => Some(GameStatus::PlaneExited(s.last().callsign)),
            _ => last_failure(s.drop_last(), m),
        }
    }
}

/// The indices flagged for removal during one per-entity pass, in
/// ascending order.
pub open spec fn removal_indices(s: Seq<Plane>, m: MapStatic) -> Seq<int>
    decreases s.len(),
{
    if s.len() == 0 {
        Seq::<int>::empty()
    } else {
        removal_indices(s.drop_last(), m) + (if plane_outcome(s.last(), m) is Removed {
            seq![s.len() - 1]
        } else {
            Seq::<int>::empty()
        })
    }
}

/// Whether a value occurs somewhere in a sequence of entities.
pub open spec fn is_member(s: Seq<Plane>, x: Plane) -> bool {
    exists|k: int| 0 <= k < s.len() && #[trigger] s[k] == x
}

/// How many listed indices lie below a position.
pub open spec fn count_lt(idx: Seq<int>, k: int) -> int
    decreases idx.len(),
{
    if idx.len() == 0 {
        0
    } else {
        count_lt(idx.drop_last(), k) + if idx.last() < k {
            1int
        } else {
            0int
        }
    }
}

pub open spec fn strictly_ascending(idx: Seq<int>) -> bool {
    forall|a: int, b: int| 0 <= a < b < idx.len() ==> idx[a] < idx[b]
}

/// Counts are bounded by the list length.
pub proof fn lemma_count_bounds(idx: Seq<int>, k: int)
    ensures
        0 <= count_lt(idx, k) <= idx.len(),
    decreases idx.len(),
{
    if idx.len() > 0 {
        lemma_count_bounds(idx.drop_last(), k);
    }
}

/// In an ascending list of non-negative indices, the entry at
/// position `a` is at least `a`.
pub proof fn lemma_asc_ge(idx: Seq<int>, a: int)
    requires
        strictly_ascending(idx),
        forall|e: int| 0 <= e < idx.len() ==> idx[e] >= 0,
        0 <= a < idx.len(),
    ensures
        idx[a] >= a,
    decreases a,
{
    if a > 0 {
        lemma_asc_ge(idx, a - 1);
    }
}

/// A prefix whose entries all lie below `k` counts in full.
pub proof fn lemma_count_all(idx: Seq<int>, j: int, k: int)
    requires
        0 <= j <= idx.len(),
        forall|a: int| 0 <= a < j ==> idx[a] < k,
    ensures
        count_lt(idx.take(j), k) == j,
    decreases j,
{
    if j > 0 {
        assert(idx.take(j).drop_last() =~= idx.take(j - 1));
        lemma_count_all(idx, j - 1, k);
    }
}

/// A position not in the list does not change the count when the
/// bound steps over it.
pub proof fn lemma_count_succ(idx: Seq<int>, k: int)
    requires
        !idx.contains(k),
    ensures
        count_lt(idx, k + 1) == count_lt(idx, k),
    decreases idx.len(),
{
    if idx.len() > 0 {
        assert(idx.last() != k);
        assert(!idx.drop_last().contains(k)) by {
            if idx.drop_last().contains(k) {
                let a = choose|a: int| 0 <= a < idx.drop_last().len() && idx.drop_last()[a] == k;
                assert(idx[a] == k);
            }
        }
        lemma_count_succ(idx.drop_last(), k);
    }
}

/// At most `k` distinct non-negative indices lie below `k`.
pub proof fn lemma_count_le(idx: Seq<int>, j: int, k: int)
    requires
        strictly_ascending(idx),
        forall|e: int| 0 <= e < idx.len() ==> idx[e] >= 0,
        0 <= j <= idx.len(),
        k >= 0,
    ensures
        count_lt(idx.take(j), k) <= k,
    decreases j,
{
    if j > 0 {
        assert(idx.take(j).drop_last() =~= idx.take(j - 1));
        if idx[j - 1] < k {
            lemma_count_all(idx, j, k);
            lemma_asc_ge(idx, j - 1);
        } else {
            lemma_count_le(idx, j - 1, k);
        }
    }
}

/// Distinct ascending entries below `B` leave no more uncounted room
/// than the gap between `k` and `B`.
pub proof fn lemma_gap(idx: Seq<int>, j: int, k: int, b: int)
    requires
        strictly_ascending(idx),
        0 <= j <= idx.len(),
        forall|a: int| 0 <= a < j ==> idx[a] < b,
        k <= b,
    ensures
        j - count_lt(idx.take(j), k) <= b - k,
    decreases j,
{
    if j > 0 {
        assert(idx.take(j).drop_last() =~= idx.take(j - 1));
        if idx[j - 1] < k {
            lemma_gap(idx, j - 1, k, b);
        } else {
            lemma_gap(idx, j - 1, k, idx[j - 1]);
        }
    }
}

/// Removes the entities at the listed positions, ascending original
/// positions compensated by the count already removed. Every other
/// entity keeps its relative order: it ends at its original position
/// minus the number of removed positions below it.
pub fn remove_indices(planes: &mut Vec<Plane>, idx: &Vec<usize>)
    requires
        strictly_ascending(idx@.map_values(|v: usize| v as int)),
        forall|a: int| 0 <= a < idx@.len() ==> #[trigger] idx@[a] < old(planes)@.len(),
    ensures
        final(planes)@.len() == old(planes)@.len() - idx@.len(),
        forall|k: int|
            0 <= k < old(planes)@.len() && !idx@.map_values(|v: usize| v as int).contains(k)
                ==> final(planes)@[k - count_lt(idx@.map_values(|v: usize| v as int), k)] == old(
                planes,
            )@[k],
        forall|t: int|
            0 <= t < final(planes)@.len() ==> is_member(old(planes)@, #[trigger] final(planes)@[t]),
{
    let ghost orig = planes@;
    let ghost ii = idx@.map_values(|v: usize| v as int);
    proof {
        assert forall|t: int| 0 <= t < planes@.len() implies is_member(
            orig,
            #[trigger] planes@[t],
        ) by {
            assert(planes@[t] == orig[t]);
        }
    }
    let n = idx.len();
    let mut j: usize = 0;
    while j < n
        invariant
            n == idx@.len(),
            ii == idx@.map_values(|v: usize| v as int),
            strictly_ascending(ii),
            forall|a: int| 0 <= a < ii.len() ==> 0 <= #[trigger] ii[a] < orig.len(),
            j <= n,
            planes@.len() == orig.len() - j,
            forall|k: int|
                0 <= k < orig.len() && !ii.take(j as int).contains(k) ==> planes@[k - count_lt(
                    ii.take(j as int),
                    k,
                )] == orig[k],
            forall|t: int| 0 <= t < planes@.len() ==> is_member(orig, #[trigger] planes@[t]),
        decreases n - j,
    {
        proof {
            lemma_asc_ge(ii, j as int);
        }
        let q = idx[j] - j;
        let ghost jj = j as int;
        let ghost prev = planes@;
        proof {
            // The removed entry currently sits at position q.
            assert(!ii.take(jj).contains(ii[jj])) by {
                if ii.take(jj).contains(ii[jj]) {
                    let a = choose|a: int| 0 <= a < jj && ii.take(jj)[a] == ii[jj];
                    assert(ii[a] < ii[jj]);
                }
            }
            lemma_count_all(ii, jj, ii[jj]);
            assert(prev[ii[jj] - jj] == orig[ii[jj]]);
            lemma_count_bounds(ii.take(jj), ii[jj]);
        }
        planes.remove(q);
        proof {
            prev.remove_ensures(ii[jj] - jj);
            assert forall|t: int| 0 <= t < planes@.len() implies is_member(
                orig,
                #[trigger] planes@[t],
            ) by {
                if t < ii[jj] - jj {
                    assert(planes@[t] == prev[t]);
                } else {
                    assert(planes@[t] == prev[t + 1]);
                }
            }
            assert(ii.take(jj + 1).drop_last() =~= ii.take(jj));
            assert forall|k: int|
                0 <= k < orig.len() && !ii.take(jj + 1).contains(k) implies planes@[k - count_lt(
                ii.take(jj + 1),
                k,
            )] == orig[k] by {
                assert(!ii.take(jj).contains(k)) by {
                    if ii.take(jj).contains(k) {
                        let a = choose|a: int| 0 <= a < jj && ii.take(jj)[a] == k;
                        assert(ii.take(jj + 1)[a] == k);
                    }
                }
                assert(k != ii[jj]) by {
                    if k == ii[jj] {
                        assert(ii.take(jj + 1)[jj] == k);
                    }
                }
                lemma_count_bounds(ii.take(jj), k);
                let p0 = k - count_lt(ii.take(jj), k);
                assert(prev[p0] == orig[k]);
                if k < ii[jj] {
                    // The survivor sits strictly below the removed
                    // position, so it does not move.
                    assert(!ii.take(jj).contains(k));
                    lemma_count_succ(ii.take(jj), k);
                    lemma_gap(ii, jj, k + 1, ii[jj]);
                    lemma_count_le(ii, jj, k);
                    assert(0 <= p0 < ii[jj] - jj);
                    prev.remove_ensures(ii[jj] - jj);
                    assert(planes@[p0] == prev[p0]);
                    assert(count_lt(ii.take(jj + 1), k) == count_lt(ii.take(jj), k));
                } else {
                    // The survivor sits above the removed position
                    // and slides down by one.
                    lemma_count_all(ii, jj, k);
                    assert(count_lt(ii.take(jj), k) == jj);
                    assert(p0 > ii[jj] - jj);
                    prev.remove_ensures(ii[jj] - jj);
                    assert(planes@[p0 - 1] == prev[p0]);
                    assert(count_lt(ii.take(jj + 1), k) == jj + 1);
                }
            }
        }
        j += 1;
    }
    proof {
        assert(ii.take(n as int) =~= ii);
    }
}

/// Relies on rand::random_range over `0..n`: some value below the
/// bound; nothing more is assumed of a random draw.
#[verifier::external_body]
fn random_below(n: usize) -> (r: usize)
    requires
        n > 0,
    ensures
        r < n,
{
    rand::random_range(0..n)
}

/// A counter stepped by an amount, wrapping at the top of its range.
pub open spec fn wrap_add_u32(a: u32, n: int) -> u32 {
    ((a + n) % 0x1_0000_0000) as u32
}

/// The fields a freshly spawned entity starts with.
pub open spec fn spec_new_plane(start: Destination, dest: Destination, cs: char, jet: bool) -> Plane {
    Plane {
        location: start.entry_spec(),
        destination: dest,
        target_flight_level: start.entry_height_spec(),
        callsign: cs,
        is_jet: jet,
        ticks_active: 0,
        target_direction: start.entry_dir_spec(),
        current_direction: start.entry_dir_spec(),
        show: Visibility::Marked,
        command: None,
    }
}

/// Builds the endpoint pool as a vector.
fn build_pool(
    exits: &Vec<Exit>,
    airports: &Vec<Airport>,
    use_airports: bool,
    exclude: Option<Destination>,
) -> (r: Vec<Destination>)
    ensures
        r@ == pool_exits(exits@, exclude) + (if use_airports {
            pool_airports(airports@, exclude)
        } else {
            Seq::<Destination>::empty()
        }),
{
    let mut pool: Vec<Destination> = Vec::new();
    let elen = exits.len();
    let mut i: usize = 0;
    while i < elen
        invariant
            elen == exits@.len(),
            i <= elen,
            pool@ == pool_exits(exits@.take(i as int), exclude),
        decreases elen - i,
    {
        let cand = Destination::Exit(exits[i]);
        let keep = match exclude {
            Some(d) => !(d == cand),
            None => true,
        };
        if keep {
            pool.push(cand);
        }
        proof {
            assert(exits@.take(i + 1).drop_last() =~= exits@.take(i as int));
        }
        i += 1;
    }
    proof {
        assert(exits@.take(elen as int) =~= exits@);
    }
    if use_airports {
        proof {
            assert(pool@ =~= pool_exits(exits@, exclude) + pool_airports(
                airports@.take(0),
                exclude,
            ));
        }
        let alen = airports.len();
        let mut j: usize = 0;
        while j < alen
            invariant
                alen == airports@.len(),
                j <= alen,
                pool@ == pool_exits(exits@, exclude) + pool_airports(
                    airports@.take(j as int),
                    exclude,
                ),
            decreases alen - j,
        {
            let cand = Destination::Airport(airports[j]);
            let keep = match exclude {
                Some(d) => !(d == cand),
                None => true,
            };
            if keep {
                pool.push(cand);
            }
            proof {
                assert(airports@.take(j + 1).drop_last() =~= airports@.take(j as int));
                assert(pool@ =~= pool_exits(exits@, exclude) + pool_airports(
                    airports@.take(j + 1),
                    exclude,
                ));
            }
            j += 1;
        }
        proof {
            assert(airports@.take(alen as int) =~= airports@);
        }
    }
    pool
}

/// The world: static map data, live entities, the draft command and
/// the slot registry.
#[derive(Debug)]
pub struct GameMap {
    pub info: MapStatic,
    pub settings: GameSettings,
    pub current_command: Command,
    pub planes: Vec<Plane>,
    pub exit_state: Option<GameStatus>,
    pub tick_no: u32,
    pub planes_landed: u32,
    pub command_slots: HashMap<u16, CompleteCommand>,
}

impl GameMap {
    /// The world invariant: stored slot trees and standing commands
    /// are free of indirection nodes, the map has usable borders, a
    /// positive spawn cadence, and enough start and destination
    /// points to draw from.
    pub open spec fn wf(self) -> bool {
        &&& slots_wf(self.command_slots@)
        &&& forall|i: int| 0 <= i < self.planes@.len() ==> (#[trigger] self.planes@[i]).wf()
        &&& self.info.width >= 1
        &&& self.info.height >= 1
        &&& self.settings.plane_spawn_rate > 0
        &&& spawn_ok(self.info, self.settings.allow_landing)
    }

    /// A fresh world over the given map and settings.
    pub fn new(settings: GameSettings, data: MapStatic) -> (r: GameMap)
        requires
            data.width >= 1,
            data.height >= 1,
            settings.plane_spawn_rate > 0,
            spawn_ok(data, settings.allow_landing),
        ensures
            r.wf(),
            r.info == data,
            r.settings == settings,
            r.current_command == Command::empty_spec(),
            r.planes@.len() == 0,
            r.exit_state is None,
            r.tick_no == 0,
            r.planes_landed == 0,
            r.command_slots@ == Map::<u16, CompleteCommand>::empty(),
    {
        GameMap {
            info: data,
            settings,
            current_command: Command::new(),
            planes: Vec::new(),
            exit_state: None,
            tick_no: 0,
            planes_landed: 0,
            command_slots: HashMap::new(),
        }
    }

    /// One tree with all indirections replaced from the registry.
    pub fn resolve_segment(&self, seg: CompleteCommandSegment) -> (r: CompleteCommandSegment)
        ensures
            r == spec_resolve(seg, self.command_slots@),
        decreases seg,
    {
        match seg {
            CompleteCommandSegment::At(a) => {
                let CompleteAt { tail, poi } = a;
                CompleteCommandSegment::At(
                    CompleteAt { tail: Box::new(self.resolve_segment(*tail)), poi },
                )
            },
            CompleteCommandSegment::In(i) => {
                let CompleteIn { tail, time } = i;
                CompleteCommandSegment::In(
                    CompleteIn { tail: Box::new(self.resolve_segment(*tail)), time },
                )
            },
            CompleteCommandSegment::And(a) => {
                let CompleteAnd { left, right } = a;
                CompleteCommandSegment::And(
                    CompleteAnd {
                        left: Box::new(self.resolve_segment(*left)),
                        right: Box::new(self.resolve_segment(*right)),
                    },
                )
            },
            CompleteCommandSegment::Ref(r) => {
                match self.command_slots.get(&r.0) {
                    Some(c) => c.head.duplicate(),
                    None => CompleteCommandSegment::Empty,
                }
            },
            other => other,
        }
    }

    /// Replaces every indirection node in place from the registry.
    pub fn traverse_command(&self, command: &mut CompleteCommandSegment)
        ensures
            *final(command) == spec_resolve(*old(command), self.command_slots@),
    {
        let mut seg = CompleteCommandSegment::Empty;
        core::mem::swap(&mut seg, command);
        *command = self.resolve_segment(seg);
    }

    /// Draws one endpoint from the offered pool, never the excluded
    /// one.
    pub fn generate_location(&self, exclude: Option<Destination>, is_dest: bool) -> (r:
        Destination)
        requires
            spawn_pool(self.info, self.settings.allow_landing, exclude, is_dest).len() > 0,
        ensures
            spawn_pool(self.info, self.settings.allow_landing, exclude, is_dest).contains(r),
    {
        let use_airports = !is_dest || self.settings.allow_landing;
        let pool = build_pool(&self.info.exits, &self.info.airports, use_airports, exclude);
        proof {
            assert(pool@ =~= spawn_pool(self.info, self.settings.allow_landing, exclude, is_dest));
        }
        let i = random_below(pool.len());
        let r = pool[i];
        proof {
            assert(spawn_pool(self.info, self.settings.allow_landing, exclude, is_dest)[i as int]
                == r);
        }
        r
    }

    /// Whether some entity already answers to this letter,
    /// case-insensitively.
    pub fn has_callsign(&self, c: char) -> (r: bool)
        ensures
            r == exists|i: int|
                0 <= i < self.planes@.len() && lower_val(
                    (#[trigger] self.planes@[i]).callsign,
                ) == lower_val(c),
    {
        let len = self.planes.len();
        let mut i: usize = 0;
        while i < len
            invariant
                len == self.planes@.len(),
                i <= len,
                forall|j: int|
                    0 <= j < i ==> lower_val((#[trigger] self.planes@[j]).callsign) != lower_val(
                        c,
                    ),
            decreases len - i,
        {
            if eq_ignore_case(self.planes[i].callsign, c) {
                proof {
                    assert(lower_val(self.planes@[i as int].callsign) == lower_val(c));
                }
                return true;
            }
            i += 1;
        }
        false
    }

    /// Spawns at most one new entity: a start and a distinct
    /// destination are drawn from the map's endpoints, and an unused
    /// callsign letter is drawn, lower case for jets. With the roster
    /// full (or, never in practice, no free letter) nothing changes.
    pub fn generate_plane(&mut self)
        requires
            old(self).wf(),
        ensures
            final(self).wf(),
            final(self).info == old(self).info,
            final(self).settings == old(self).settings,
            final(self).current_command == old(self).current_command,
            final(self).exit_state == old(self).exit_state,
            final(self).tick_no == old(self).tick_no,
            final(self).planes_landed == old(self).planes_landed,
            final(self).command_slots@ == old(self).command_slots@,
            old(self).planes@.len() >= 26 ==> final(self).planes@ == old(self).planes@,
            final(self).planes@.len() == old(self).planes@.len() || final(self).planes@.len()
                == old(self).planes@.len() + 1,
            forall|k: int|
                0 <= k < old(self).planes@.len() ==> final(self).planes@[k] == old(
                    self,
                ).planes@[k],
            final(self).planes@.len() == old(self).planes@.len() + 1 ==> ({
                let p = final(self).planes@.last();
                &&& exists|s: Destination, d: Destination|
                    {
                        &&& spawn_pool(
                            old(self).info,
                            old(self).settings.allow_landing,
                            None,
                            false,
                        ).contains(s)
                        &&& spawn_pool(
                            old(self).info,
                            old(self).settings.allow_landing,
                            Some(s),
                            true,
                        ).contains(d)
                        &&& p == spec_new_plane(s, d, p.callsign, p.is_jet)
                    }
                &&& ('a' <= p.callsign && p.callsign <= 'z') || ('A' <= p.callsign && p.callsign
                    <= 'Z')
                &&& forall|k: int|
                    0 <= k < old(self).planes@.len() ==> lower_val(p.callsign) != lower_val(
                        (#[trigger] old(self).planes@[k]).callsign,
                    )
            }),
    {
        if self.planes.len() >= 26 {
            return ;
        }
        let start = self.generate_location(None, false);
        let finish = self.generate_location(Some(start), true);
        let is_jet = random_below(2) == 1;
        let base: u8 = if is_jet {
            97
        } else {
            65
        };
        let mut candidates: Vec<u8> = Vec::new();
        let mut li: u8 = 0;
        while li < 26
            invariant
                li <= 26,
                base == 97 || base == 65,
                forall|a: int|
                    0 <= a < candidates@.len() ==> base <= #[trigger] candidates@[a] < base + li,
                forall|a: int|
                    0 <= a < candidates@.len() ==> !exists|j: int|
                        0 <= j < self.planes@.len() && lower_val(
                            (#[trigger] self.planes@[j]).callsign,
                        ) == lower_val((#[trigger] candidates@[a]) as char),
            decreases 26 - li,
        {
            let c: char = (base + li) as char;
            if !self.has_callsign(c) {
                candidates.push(base + li);
            }
            li += 1;
        }
        if candidates.len() == 0 {
            return ;
        }
        let pick = random_below(candidates.len());
        let cs_byte = candidates[pick];
        let callsign: char = cs_byte as char;
        let entry = start.entry();
        let entry_dir = start.entry_dir();
        let p = Plane {
            location: entry,
            destination: finish,
            target_flight_level: start.entry_height(),
            callsign,
            is_jet,
            ticks_active: 0,
            target_direction: entry_dir,
            current_direction: entry_dir,
            show: Visibility::Marked,
            command: None,
        };
        self.planes.push(p);
        proof {
            let q = self.planes@.last();
            assert(q == spec_new_plane(start, finish, callsign, is_jet));
            assert(exists|s: Destination, d: Destination|
                {
                    &&& spawn_pool(
                        old(self).info,
                        old(self).settings.allow_landing,
                        None,
                        false,
                    ).contains(s)
                    &&& spawn_pool(
                        old(self).info,
                        old(self).settings.allow_landing,
                        Some(s),
                        true,
                    ).contains(d)
                    &&& q == spec_new_plane(s, d, q.callsign, q.is_jet)
                }) by {
                assert(spawn_pool(
                    old(self).info,
                    old(self).settings.allow_landing,
                    None,
                    false,
                ).contains(start) && spawn_pool(
                    old(self).info,
                    old(self).settings.allow_landing,
                    Some(start),
                    true,
                ).contains(finish) && q == spec_new_plane(start, finish, q.callsign, q.is_jet));
            }
            assert forall|k: int| 0 <= k < old(self).planes@.len() implies lower_val(q.callsign)
                != lower_val((#[trigger] old(self).planes@[k]).callsign) by {
                assert(!exists|j: int|
                    0 <= j < old(self).planes@.len() && lower_val(
                        (#[trigger] old(self).planes@[j]).callsign,
                    ) == lower_val((candidates@[pick as int]) as char));
            }
        }
    }

    /// One tick of the whole world. A frozen world (a failure already
    /// recorded) does not advance. Otherwise every entity is ticked
    /// in roster order, finished journeys are collected and removed
    /// in ascending order, a failed landing or exit freezes the
    /// world, a collision found after all motion freezes it too, and
    /// on the spawn cadence one new entity may appear.
    pub fn tick(&mut self)
        requires
            old(self).wf(),
        ensures
            final(self).wf(),
            final(self).info == old(self).info,
            final(self).settings == old(self).settings,
            final(self).current_command == old(self).current_command,
            final(self).command_slots@ == old(self).command_slots@,
            old(self).exit_state is Some ==> *final(self) == *old(self),
            old(self).exit_state is None ==> ({
                let m = old(self).info;
                let ticked = old(self).planes@.map_values(|p: Plane| spec_tick(p, m));
                let removed = removal_indices(ticked, m);
                let kept_len = ticked.len() - removed.len();
                &&& final(self).exit_state == (match first_collision_from(ticked, 0) {
                    Some(pr) => Some(
                        GameStatus::PlanesCrashed(ticked[pr.0].callsign, ticked[pr.1].callsign),
                    ),
                    None => last_failure(ticked, m),
                })
                &&& final(self).tick_no == wrap_inc_u32(old(self).tick_no)
                &&& final(self).planes_landed == wrap_add_u32(
                    old(self).planes_landed,
                    removed.len() as int,
                )
                &&& forall|k: int|
                    0 <= k < ticked.len() && !removed.contains(k) ==> final(self).planes@[k
                        - count_lt(removed, k)] == ticked[k]
                &&& final(self).planes@.len() == kept_len || final(self).planes@.len() == kept_len
                    + 1
                &&& (old(self).tick_no % old(self).settings.plane_spawn_rate != 0
                    ==> final(self).planes@.len() == kept_len)
            }),
    {
        if self.exit_state.is_some() {
            return ;
        }
        let ghost m = self.info;
        let ghost orig = self.planes@;
        let ghost ticked = orig.map_values(|p: Plane| spec_tick(p, m));
        let mut to_remove: Vec<usize> = Vec::new();
        let len = self.planes.len();
        let mut i: usize = 0;
        while i < len
            invariant
                (*old(self)).wf(),
                m == old(self).info,
                orig == old(self).planes@,
                ticked == orig.map_values(|p: Plane| spec_tick(p, m)),
                len == orig.len(),
                i <= len,
                self.info == old(self).info,
                self.settings == old(self).settings,
                self.current_command == old(self).current_command,
                self.command_slots@ == old(self).command_slots@,
                self.tick_no == old(self).tick_no,
                self.planes_landed == old(self).planes_landed,
                self.planes@.len() == len,
                forall|k: int| i <= k < len ==> self.planes@[k] == orig[k],
                forall|k: int| 0 <= k < i ==> self.planes@[k] == ticked[k],
                forall|k: int| 0 <= k < len ==> (#[trigger] self.planes@[k]).wf(),
                to_remove@.map_values(|v: usize| v as int) == removal_indices(
                    self.planes@.take(i as int),
                    m,
                ),
                forall|a: int| 0 <= a < to_remove@.len() ==> #[trigger] to_remove@[a] < i,
                forall|a: int, b: int|
                    0 <= a < b < to_remove@.len() ==> to_remove@[a] < to_remove@[b],
                self.exit_state == last_failure(self.planes@.take(i as int), m),
            decreases len - i,
        {
            let ghost prev_planes = self.planes@;
            let ghost prev_remove = to_remove@;
            let mut pl = self.planes.remove(i);
            pl.tick(&self.info);
            self.planes.insert(i, pl);
            proof {
                assert(self.planes@ =~= prev_planes.update(i as int, spec_tick(orig[i as int], m)));
                assert(self.planes@.take(i + 1).drop_last() =~= self.planes@.take(i as int));
                assert(self.planes@.take(i as int) =~= prev_planes.take(i as int));
            }
            let outcome_remove: bool;
            match self.planes[i].location {
                Location::Flight(al) => {
                    let AirLocation(x, y, level) = al;
                    if level == 0 {
                        if landing_ok_exec(
                            &self.info,
                            GroundLocation(x, y),
                            self.planes[i].current_direction,
                        ) {
                            outcome_remove = true;
                        } else {
                            self.exit_state = Some(
                                GameStatus::PlaneFailedLanding(self.planes[i].callsign),
                            );
                            outcome_remove = false;
                        }
                    } else {
                        if exit_ok_exec(&self.info, al, self.planes[i].current_direction) {
                            outcome_remove = true;
                        } else {
                            if x == 0 || x == self.info.width - 1 || y == 0 || y == self.info.height
                                - 1 {
                                self.exit_state = Some(
                                    GameStatus::PlaneExited(self.planes[i].callsign),
                                );
                            }
                            outcome_remove = false;
                        }
                    }
                },
                Location::Airport(_) => {
                    outcome_remove = false;
                },
            }
            if outcome_remove {
                to_remove.push(i);
            }
            proof {
                let tseq = self.planes@.take(i + 1);
                assert(tseq.last() == ticked[i as int]);
                if outcome_remove {
                    assert(plane_outcome(tseq.last(), m) is Removed);
                    assert(to_remove@.map_values(|v: usize| v as int) =~= removal_indices(
                        tseq,
                        m,
                    ));
                } else {
                    assert(!(plane_outcome(tseq.last(), m) is Removed));
                    assert(to_remove@.map_values(|v: usize| v as int) =~= removal_indices(
                        tseq,
                        m,
                    ));
                }
            }
            i += 1;
        }
        proof {
            assert(self.planes@.take(len as int) =~= self.planes@);
            assert(self.planes@ =~= ticked);
        }
        let col = find_collision(&self.planes);
        match col {
            Some(g) => {
                self.exit_state = Some(g);
            },
            None => {},
        }
        let ghost removed = removal_indices(ticked, m);
        let ghost pre_removal = self.planes@;
        let count = to_remove.len();
        remove_indices(&mut self.planes, &to_remove);
        proof {
            assert(to_remove@.map_values(|v: usize| v as int) == removed);
            assert(removed.take(removed.len() as int) =~= removed);
            assert forall|k: int| 0 <= k < ticked.len() && !removed.contains(k) implies 0 <= k
                - count_lt(removed, k) < ticked.len() - removed.len() && self.planes@[k - count_lt(
                removed,
                k,
            )] == ticked[k] by {
                lemma_count_bounds(removed, k);
                lemma_count_le(removed, removed.len() as int, k);
                lemma_count_succ(removed, k);
                lemma_gap(removed, removed.len() as int, k + 1, ticked.len() as int);
            }
            assert forall|t: int| 0 <= t < self.planes@.len() implies (
            #[trigger] self.planes@[t]).wf() by {
                assert(is_member(pre_removal, self.planes@[t]));
                let k = choose|k: int|
                    0 <= k < pre_removal.len() && #[trigger] pre_removal[k] == self.planes@[t];
                assert(pre_removal[k].wf());
            }
        }
        let new_landed: u128 = self.planes_landed as u128 + count as u128;
        self.planes_landed = (new_landed % 0x1_0000_0000) as u32;
        if self.tick_no % self.settings.plane_spawn_rate == 0 {
            self.generate_plane();
        }
        self.tick_no = if self.tick_no == 0xffff_ffff {
            0
        } else {
            self.tick_no + 1
        };
    }

    /// Dispatches a finalized command: its body is resolved against
    /// the registry once, here; a slot target stores it, a plane
    /// target hands it to the first matching entity (none matching is
    /// a silent no-op).
    pub fn exec(&mut self, command: CompleteCommand)
        requires
            old(self).wf(),
        ensures
            final(self).wf(),
            final(self).info == old(self).info,
            final(self).settings == old(self).settings,
            final(self).current_command == old(self).current_command,
            final(self).exit_state == old(self).exit_state,
            final(self).tick_no == old(self).tick_no,
            final(self).planes_landed == old(self).planes_landed,
            ({
                let resolved = spec_resolve(command.head, old(self).command_slots@);
                match command.target {
                    CompleteCommandTarget::Slot(s) => {
                        &&& final(self).command_slots@ == old(self).command_slots@.insert(
                            s,
                            CompleteCommand { target: command.target, head: resolved },
                        )
                        &&& final(self).planes@ == old(self).planes@
                    },
                    CompleteCommandTarget::Plane(pc) => {
                        &&& final(self).command_slots@ == old(self).command_slots@
                        &&& match find_plane(old(self).planes@, pc) {
                            Some(i) => final(self).planes@ == old(self).planes@.update(
                                i,
                                spec_exec(old(self).planes@[i], resolved, old(self).info).0,
                            ),
                            None => final(self).planes@ == old(self).planes@,
                        }
                    },
                }
            }),
    {
        let CompleteCommand { target, head } = command;
        let head = self.resolve_segment(head);
        proof {
            lemma_resolve_ref_free(command.head, self.command_slots@);
        }
        match target {
            CompleteCommandTarget::Plane(p) => {
                let len = self.planes.len();
                let mut i: usize = 0;
                while i < len
                    invariant
                        *self == *old(self),
                        (*old(self)).wf(),
                        len == self.planes@.len(),
                        i <= len,
                        head == spec_resolve(command.head, self.command_slots@),
                        head.ref_free(),
                        target == command.target,
                        target == CompleteCommandTarget::Plane(p),
                        forall|j: int|
                            0 <= j < i ==> lower_val(
                                #[trigger] self.planes@[j].callsign,
                            ) != lower_val(p),
                    decreases len - i,
                {
                    if eq_ignore_case(self.planes[i].callsign, p) {
                        proof {
                            lemma_find_plane(self.planes@, p, i as int);
                        }
                        let mut pl = self.planes.remove(i);
                        pl.exec(head, &self.info);
                        self.planes.insert(i, pl);
                        proof {
                            assert(self.planes@ =~= old(self).planes@.update(
                                i as int,
                                spec_exec(
                                    old(self).planes@[i as int],
                                    spec_resolve(command.head, old(self).command_slots@),
                                    old(self).info,
                                ).0,
                            ));
                        }
                        return;
                    }
                    i += 1;
                }
                proof {
                    lemma_find_plane(self.planes@, p, len as int);
                }
            },
            CompleteCommandTarget::Slot(s) => {
                self.command_slots.insert(s, CompleteCommand { target, head });
            },
        }
    }
}

} // verus!
