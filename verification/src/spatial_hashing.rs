//! Spatial hashing of a level that does not change.
//!
//! The level is a list of bodies, each known here by its place in the list
//! (its id) and by the block of grid cells it occupies. The index keeps, for
//! every cell that some body occupies, the ids of the bodies on that cell. A
//! query names a block of cells and gets the ids of the bodies that share a
//! cell with it, each id once.
//!
//! The table is an `fnv::FnvHashMap`, and a query marks the ids it has met in
//! an `fnv::FnvHashSet`. What the two hold is named by [`cell_lists`] and
//! [`seen_ids`]; the functions that touch them are the trusted part of this
//! module, and each says which method of the standard hash table it calls.

use crate::grid::cell_point;
use crate::grid::cell_points;
use crate::grid::lemma_cells_distinct;
use crate::grid::lemma_cells_exact;
use crate::grid::lemma_overlaps_shares_cell;
use crate::grid::Cell;
use crate::grid::CellRange;
use fnv::FnvHashMap;
use fnv::FnvHashSet;
use vstd::prelude::*;

verus! {

/// `fnv::FnvHasher`, the hasher of the table and of the set. Nothing is
/// stated of it.
#[verifier::external_type_specification]
#[verifier::external_body]
pub struct ExFnvHasher(fnv::FnvHasher);

/// `std::hash::BuildHasherDefault`, through which the table and the set make
/// their hashers. Nothing is stated of it.
#[verifier::external_type_specification]
#[verifier::external_body]
#[verifier::reject_recursive_types(H)]
pub struct ExBuildHasherDefault<H>(std::hash::BuildHasherDefault<H>);

/// The table of the index: from a cell to the ids of the bodies on it.
pub type CellMap = FnvHashMap<Cell, Vec<usize>>;

/// The set of ids that a query has met.
pub type IdSet = FnvHashSet<usize>;

/// What the index holds, as a map from a cell's column and row to the ids
/// listed for that cell.
pub type Buckets = Map<(int, int), Seq<usize>>;

/// The entries of an `FnvHashMap` from cells to lists of ids: a cell is a key
/// exactly when the table has an entry for it, and its value is the list
/// stored there. Nothing is proved of this name; the functions below say
/// what each method of the table does to it.
pub uninterp spec fn cell_lists(map: CellMap) -> Buckets;

/// The members of an `FnvHashSet` of ids. Nothing is proved of this name;
/// the functions below say what each method of the set does to it.
pub uninterp spec fn seen_ids(set: IdSet) -> Set<usize>;

/// `FnvHashMap::default()`: a table without entries.
#[verifier::external_body]
fn empty_cell_map() -> (fresh: CellMap)
    ensures
        cell_lists(fresh) == Buckets::empty(),
{
    FnvHashMap::default()
}

/// `HashMap::remove`: takes the entry of `cell` out of the table and returns
/// its list, or returns `None` and leaves the table as it was when the cell
/// has no entry.
#[verifier::external_body]
fn cell_map_remove(map: &mut CellMap, cell: &Cell) -> (list: Option<Vec<usize>>)
    ensures
        cell_lists(*final(map)) == cell_lists(*old(map)).remove(cell_point(*cell)),
        match list {
            Some(ids) => cell_lists(*old(map)).contains_key(cell_point(*cell)) && ids@
                == cell_lists(*old(map))[cell_point(*cell)],
            None => !cell_lists(*old(map)).contains_key(cell_point(*cell)),
        },
{
    map.remove(cell)
}

/// `HashMap::insert`: makes `list` the entry of `cell`, in place of an
/// earlier one if there was one; the other entries stay.
#[verifier::external_body]
fn cell_map_insert(map: &mut CellMap, cell: Cell, list: Vec<usize>)
    ensures
        cell_lists(*final(map)) == cell_lists(*old(map)).insert(cell_point(cell), list@),
{
    map.insert(cell, list);
}

/// `HashMap::get`: the list stored for `cell`, or `None` when the cell has no
/// entry.
#[verifier::external_body]
fn cell_map_get<'a>(map: &'a CellMap, cell: &Cell) -> (list: Option<&'a Vec<usize>>)
    ensures
        match list {
            Some(ids) => cell_lists(*map).contains_key(cell_point(*cell)) && ids@ == cell_lists(
                *map,
            )[cell_point(*cell)],
            None => !cell_lists(*map).contains_key(cell_point(*cell)),
        },
{
    map.get(cell)
}

/// `FnvHashSet::default()`: a set without members.
#[verifier::external_body]
fn empty_id_set() -> (fresh: IdSet)
    ensures
        seen_ids(fresh) == Set::<usize>::empty(),
{
    FnvHashSet::default()
}

/// `HashSet::contains`: whether `id` is a member.
#[verifier::external_body]
fn id_set_contains(set: &IdSet, id: usize) -> (found: bool)
    ensures
        found == seen_ids(*set).contains(id),
{
    set.contains(&id)
}

/// `HashSet::insert`: makes `id` a member; the other members stay.
#[verifier::external_body]
fn id_set_insert(set: &mut IdSet, id: usize)
    ensures
        seen_ids(*final(set)) == seen_ids(*old(set)).insert(id),
{
    set.insert(id);
}

/// The ids of the bodies whose block holds the cell `(x, y)`, ascending.
pub open spec fn covering(ranges: Seq<CellRange>, x: int, y: int) -> Seq<usize>
    decreases ranges.len(),
{
    if ranges.len() == 0 {
        Seq::empty()
    } else {
        let before = covering(ranges.drop_last(), x, y);
        if ranges.last().contains(x, y) {
            before.push((ranges.len() - 1) as usize)
        } else {
            before
        }
    }
}

/// The index of a level: an entry for every cell that some body's block
/// holds, listing the ids of those bodies, ascending.
pub open spec fn grid_index(ranges: Seq<CellRange>) -> Buckets {
    Map::new(
        |c: (int, int)| covering(ranges, c.0, c.1).len() > 0,
        |c: (int, int)| covering(ranges, c.0, c.1),
    )
}

/// The ids listed for a cell; none when the cell has no entry.
pub open spec fn bucket_of(buckets: Buckets, c: (int, int)) -> Seq<usize> {
    if buckets.contains_key(c) {
        buckets[c]
    } else {
        Seq::empty()
    }
}

/// `seen`, followed by the members of `ids` not met before, in the order of
/// `ids`.
pub open spec fn merge_unseen(seen: Seq<usize>, ids: Seq<usize>) -> Seq<usize>
    decreases ids.len(),
{
    if ids.len() == 0 {
        seen
    } else {
        let so_far = merge_unseen(seen, ids.drop_last());
        if so_far.contains(ids.last()) {
            so_far
        } else {
            so_far.push(ids.last())
        }
    }
}

/// The ids met when the cells are visited in order and the list of each is
/// read front to back, every id at the place where it is first met.
pub open spec fn gather(buckets: Buckets, cells: Seq<(int, int)>) -> Seq<usize>
    decreases cells.len(),
{
    if cells.len() == 0 {
        Seq::empty()
    } else {
        merge_unseen(gather(buckets, cells.drop_last()), bucket_of(buckets, cells.last()))
    }
}

/// `base` with `id` added at the end of the list of each cell in `cells`.
spec fn with_block(base: Buckets, id: usize, cells: Seq<(int, int)>) -> Buckets {
    Map::new(
        |c: (int, int)| base.contains_key(c) || cells.contains(c),
        |c: (int, int)|
            if cells.contains(c) {
                bucket_of(base, c).push(id)
            } else {
                bucket_of(base, c)
            },
    )
}

/// The spatial index of a level.
pub struct SpatialHashing {
    map: CellMap,
}

impl View for SpatialHashing {
    type V = Buckets;

    /// The entries of the index.
    closed spec fn view(&self) -> Buckets {
        cell_lists(self.map)
    }
}

impl SpatialHashing {
    /// Builds the index of a level from the blocks of its bodies. The id of a
    /// body is its place in `bodies`.
    pub fn new(bodies: &Vec<CellRange>) -> (index: SpatialHashing)
        ensures
            index@ == grid_index(bodies@),
    {
        let mut map = empty_cell_map();
        let mut id: usize = 0;
        assert(cell_lists(map) =~= grid_index(bodies@.take(0)));
        while id < bodies.len()
            invariant
                id <= bodies.len(),
                cell_lists(map) == grid_index(bodies@.take(id as int)),
            decreases bodies.len() - id,
        {
            let range = bodies[id];
            let cells = range.cells();
            let ghost base = cell_lists(map);
            let ghost points = range.spec_cells();
            proof {
                lemma_cells_distinct(range);
            }
            assert(cell_lists(map) =~= with_block(base, id, points.take(0)));
            let mut k: usize = 0;
            while k < cells.len()
                invariant
                    k <= cells.len(),
                    points == cell_points(cells@),
                    points.no_duplicates(),
                    cell_lists(map) == with_block(base, id, points.take(k as int)),
                decreases cells.len() - k,
            {
                let cell = cells[k];
                let mut list = match cell_map_remove(&mut map, &cell) {
                    Some(list) => list,
                    None => Vec::new(),
                };
                list.push(id);
                cell_map_insert(&mut map, cell, list);
                proof {
                    let c = cell_point(cell);
                    assert(points[k as int] == c);
                    assert(points.take(k + 1) =~= points.take(k as int).push(c));
                    assert(!points.take(k as int).contains(c));
                    assert(list@ == bucket_of(base, c).push(id));
                    let grown = with_block(base, id, points.take(k + 1));
                    assert forall|d: (int, int)| #[trigger]
                        grown.dom().contains(d) == cell_lists(map).dom().contains(d) by {
                        lemma_push_contains(points.take(k as int), c, d);
                    }
                    assert forall|d: (int, int)| #[trigger]
                        grown.dom().contains(d) implies grown[d] == cell_lists(map)[d] by {
                        lemma_push_contains(points.take(k as int), c, d);
                    }
                    assert(cell_lists(map) =~= grown);
                }
                k = k + 1;
            }
            proof {
                assert(points.take(k as int) =~= points);
                lemma_index_grows(bodies@.take(id + 1));
                assert(bodies@.take(id + 1).drop_last() =~= bodies@.take(id as int));
            }
            id = id + 1;
        }
        assert(bodies@.take(id as int) =~= bodies@);
        SpatialHashing { map }
    }

    /// The ids of the bodies that share a cell with `range`, each once. The
    /// cells of `range` are visited column by column, the list of each cell is
    /// read from the lowest id up, and an id stands where it is first met.
    pub fn get_on_body(&self, range: &CellRange) -> (found: Vec<usize>)
        ensures
            found@ == gather(self@, range.spec_cells()),
    {
        let mut found: Vec<usize> = Vec::new();
        let mut ids = empty_id_set();
        let cells = range.cells();
        let ghost points = range.spec_cells();
        let ghost buckets = cell_lists(self.map);
        assert(points.take(0) =~= Seq::<(int, int)>::empty());
        assert(found@.to_set() =~= Set::<usize>::empty());
        let mut i: usize = 0;
        while i < cells.len()
            invariant
                i <= cells.len(),
                points == cell_points(cells@),
                buckets == cell_lists(self.map),
                found@ == gather(buckets, points.take(i as int)),
                seen_ids(ids) == found@.to_set(),
            decreases cells.len() - i,
        {
            let cell = cells[i];
            let ghost start = found@;
            proof {
                assert(points.take(i + 1).drop_last() =~= points.take(i as int));
                assert(points.take(i + 1).last() == cell_point(cell));
            }
            match cell_map_get(&self.map, &cell) {
                Some(list) => {
                    let mut j: usize = 0;
                    assert(list@.take(0) =~= Seq::<usize>::empty());
                    while j < list.len()
                        invariant
                            j <= list.len(),
                            found@ == merge_unseen(start, list@.take(j as int)),
                            seen_ids(ids) == found@.to_set(),
                        decreases list.len() - j,
                    {
                        let id = list[j];
                        proof {
                            assert(list@.take(j + 1).drop_last() =~= list@.take(j as int));
                            assert(list@.take(j + 1).last() == id);
                        }
                        if !id_set_contains(&ids, id) {
                            id_set_insert(&mut ids, id);
                            proof {
                                found@.lemma_push_to_set_commute(id);
                            }
                            found.push(id);
                        }
                        j = j + 1;
                    }
                    assert(list@.take(j as int) =~= list@);
                },
                None => {},
            }
            i = i + 1;
        }
        assert(points.take(i as int) =~= points);
        found
    }
}

/// Adding the last body of a level to the index of the bodies before it gives
/// the index of the level.
proof fn lemma_index_grows(ranges: Seq<CellRange>)
    requires
        0 < ranges.len() <= usize::MAX + 1,
    ensures
        with_block(
            grid_index(ranges.drop_last()),
            (ranges.len() - 1) as usize,
            ranges.last().spec_cells(),
        ) == grid_index(ranges),
{
    let base = grid_index(ranges.drop_last());
    let id = (ranges.len() - 1) as usize;
    let grown = with_block(base, id, ranges.last().spec_cells());
    assert forall|c: (int, int)| #[trigger]
        grown.dom().contains(c) == grid_index(ranges).dom().contains(c) by {
        lemma_cells_exact(ranges.last(), c.0, c.1);
    }
    assert forall|c: (int, int)| #[trigger]
        grown.dom().contains(c) implies grown[c] == grid_index(ranges)[c] by {
        lemma_cells_exact(ranges.last(), c.0, c.1);
        assert(bucket_of(base, c) =~= covering(ranges.drop_last(), c.0, c.1));
    }
    assert(grown =~= grid_index(ranges));
}

/// The ids listed for a cell are those of the bodies whose block holds it, and
/// no id is listed twice, in a level whose ids fit `usize`.
pub proof fn lemma_covering_exact(ranges: Seq<CellRange>, x: int, y: int)
    requires
        ranges.len() <= usize::MAX + 1,
    ensures
        covering(ranges, x, y).no_duplicates(),
        forall|id: usize|
            covering(ranges, x, y).contains(id) <==> (id < ranges.len() && ranges[id as int].contains(
                x,
                y,
            )),
    decreases ranges.len(),
{
    if ranges.len() > 0 {
        let before = covering(ranges.drop_last(), x, y);
        let last = (ranges.len() - 1) as usize;
        lemma_covering_exact(ranges.drop_last(), x, y);
        assert forall|id: usize|
            covering(ranges, x, y).contains(id) <==> (id < ranges.len() && ranges[id as int].contains(
                x,
                y,
            )) by {
            if ranges.last().contains(x, y) {
                lemma_push_contains(before, last, id);
            }
        }
        if ranges.last().contains(x, y) {
            lemma_push_distinct(before, last);
        }
    }
}

/// A sequence with one more value at its end holds that value and what it
/// held before.
proof fn lemma_push_contains<A>(s: Seq<A>, last: A, v: A)
    ensures
        s.push(last).contains(v) <==> (s.contains(v) || v == last),
{
    if s.contains(v) {
        let k = choose|k: int| 0 <= k < s.len() && s[k] == v;
        assert(s.push(last)[k] == v);
    }
    if v == last {
        assert(s.push(last)[s.len() as int] == v);
    }
}

/// A value that a sequence without repeats does not hold can be put at its
/// end without making a repeat.
proof fn lemma_push_distinct(s: Seq<usize>, last: usize)
    requires
        s.no_duplicates(),
        !s.contains(last),
    ensures
        s.push(last).no_duplicates(),
{
}

/// Merging a list into what was seen keeps what was seen free of repeats,
/// and the result holds what was seen and what the list holds.
pub proof fn lemma_merge_unseen_exact(seen: Seq<usize>, ids: Seq<usize>)
    requires
        seen.no_duplicates(),
    ensures
        merge_unseen(seen, ids).no_duplicates(),
        forall|v: usize|
            merge_unseen(seen, ids).contains(v) <==> (seen.contains(v) || ids.contains(v)),
    decreases ids.len(),
{
    if ids.len() > 0 {
        let so_far = merge_unseen(seen, ids.drop_last());
        lemma_merge_unseen_exact(seen, ids.drop_last());
        assert forall|v: usize|
            merge_unseen(seen, ids).contains(v) <==> (seen.contains(v) || ids.contains(v)) by {
            assert(ids =~= ids.drop_last().push(ids.last()));
            lemma_push_contains(ids.drop_last(), ids.last(), v);
            lemma_push_contains(so_far, ids.last(), v);
        }
        if !so_far.contains(ids.last()) {
            lemma_push_distinct(so_far, ids.last());
        }
    }
}

/// A query's result has no repeats, and holds an id exactly when the list of
/// one of the visited cells holds it.
pub proof fn lemma_gather_exact(buckets: Buckets, cells: Seq<(int, int)>)
    ensures
        gather(buckets, cells).no_duplicates(),
        forall|v: usize|
            gather(buckets, cells).contains(v) <==> (exists|k: int|
                0 <= k < cells.len() && #[trigger] bucket_of(buckets, cells[k]).contains(v)),
    decreases cells.len(),
{
    if cells.len() > 0 {
        let before = gather(buckets, cells.drop_last());
        let list = bucket_of(buckets, cells.last());
        lemma_gather_exact(buckets, cells.drop_last());
        lemma_merge_unseen_exact(before, list);
        assert forall|v: usize|
            gather(buckets, cells).contains(v) <==> (exists|k: int|
                0 <= k < cells.len() && #[trigger] bucket_of(buckets, cells[k]).contains(v)) by {
            if before.contains(v) {
                let k = choose|k: int|
                    0 <= k < cells.drop_last().len() && #[trigger] bucket_of(
                        buckets,
                        cells.drop_last()[k],
                    ).contains(v);
                assert(bucket_of(buckets, cells[k]).contains(v));
            }
            if list.contains(v) {
                assert(bucket_of(buckets, cells[cells.len() - 1]).contains(v));
            }
            if exists|k: int|
                0 <= k < cells.len() && #[trigger] bucket_of(buckets, cells[k]).contains(v) {
                let k = choose|k: int|
                    0 <= k < cells.len() && #[trigger] bucket_of(buckets, cells[k]).contains(v);
                if k < cells.len() - 1 {
                    assert(bucket_of(buckets, cells.drop_last()[k]).contains(v));
                }
            }
        }
    }
}

/// Round trip of the index: a query on the index of a level returns the ids
/// of exactly those bodies whose block overlaps the queried block, each id
/// once. The level is one whose ids fit `usize`, as every level held in a
/// `Vec` is.
pub proof fn lemma_query_exact(ranges: Seq<CellRange>, query: CellRange)
    requires
        ranges.len() <= usize::MAX + 1,
    ensures
        gather(grid_index(ranges), query.spec_cells()).no_duplicates(),
        forall|id: usize|
            gather(grid_index(ranges), query.spec_cells()).contains(id) <==> (id < ranges.len()
                && ranges[id as int].overlaps(query)),
{
    let buckets = grid_index(ranges);
    let cells = query.spec_cells();
    lemma_gather_exact(buckets, cells);
    assert forall|id: usize|
        gather(buckets, cells).contains(id) <==> (id < ranges.len() && ranges[id as int].overlaps(
            query,
        )) by {
        if gather(buckets, cells).contains(id) {
            let k = choose|k: int|
                0 <= k < cells.len() && #[trigger] bucket_of(buckets, cells[k]).contains(id);
            let c = cells[k];
            assert(cells.contains(c));
            lemma_cells_exact(query, c.0, c.1);
            lemma_covering_exact(ranges, c.0, c.1);
            lemma_overlaps_shares_cell(ranges[id as int], query);
        }
        if id < ranges.len() && ranges[id as int].overlaps(query) {
            lemma_overlaps_shares_cell(ranges[id as int], query);
            let (x, y) = choose|x: int, y: int|
                ranges[id as int].contains(x, y) && query.contains(x, y);
            lemma_cells_exact(query, x, y);
            lemma_covering_exact(ranges, x, y);
            let k = choose|k: int| 0 <= k < cells.len() && cells[k] == (x, y);
            assert(covering(ranges, x, y).contains(id));
            assert(bucket_of(buckets, cells[k]).contains(id));
        }
    }
}

} // verus!
