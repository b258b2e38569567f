//! The canvas: a grid of cells and the users that painted on it.

use vstd::prelude::*;
use crate::error::Error;
use crate::model::{User, PixelWithLocation, XY, blank_pixel};

verus! {

/// The cell at `loc` of a grid given row by row.
pub open spec fn read_cell(cells: Seq<Seq<PixelWithLocation>>, loc: XY) -> PixelWithLocation {
    cells[loc.y as int][loc.x as int]
}

/// The grid after `p` is written into the cell at `p.location`.
pub open spec fn write_cell(cells: Seq<Seq<PixelWithLocation>>, p: PixelWithLocation) -> Seq<
    Seq<PixelWithLocation>,
> {
    cells.update(p.location.y as int, cells[p.location.y as int].update(p.location.x as int, p))
}

/// The rows of a grid, each by its contents.
pub open spec fn grid(data: Seq<Vec<PixelWithLocation>>) -> Seq<Seq<PixelWithLocation>> {
    data.map_values(|r: Vec<PixelWithLocation>| r@)
}

/// `i` is the first position in `users` of a user with id `id`.
pub open spec fn is_first_match(users: Seq<User>, id: Seq<char>, i: int) -> bool {
    &&& 0 <= i < users.len()
    &&& users[i].id@ == id
    &&& forall|j: int| 0 <= j < i ==> users[j].id@ != id
}

/// Some user in `users` has id `id`.
pub open spec fn has_user(users: Seq<User>, id: Seq<char>) -> bool {
    exists|i: int| is_first_match(users, id, i)
}

/// The position of the first user with id `id` (meaningful when `has_user`).
pub open spec fn user_index(users: Seq<User>, id: Seq<char>) -> int {
    choose|i: int| is_first_match(users, id, i)
}

/// The user stored under `id`, if any.
pub open spec fn lookup_user(users: Seq<User>, id: Seq<char>) -> Option<User> {
    if has_user(users, id) {
        Some(users[user_index(users, id)])
    } else {
        None
    }
}

/// `users` after storing `u` under its id: it replaces the user with that
/// id, or joins at the end.
pub open spec fn upsert_user(users: Seq<User>, u: User) -> Seq<User> {
    if has_user(users, u.id@) {
        users.update(user_index(users, u.id@), u)
    } else {
        users.push(u)
    }
}

/// No two users share an id.
pub open spec fn unique_ids(users: Seq<User>) -> bool {
    forall|i: int, j: int|
        0 <= i < users.len() && 0 <= j < users.len() && i != j ==> users[i].id@ != users[j].id@
}

/// Storing a user under its id keeps the ids apart, and the user is then
/// the one found under its id.
pub proof fn lemma_upsert_keeps_unique(users: Seq<User>, u: User)
    requires
        unique_ids(users),
    ensures
        unique_ids(upsert_user(users, u)),
        lookup_user(upsert_user(users, u), u.id@) == Some(u),
{
    let after = upsert_user(users, u);
    if has_user(users, u.id@) {
        let k = user_index(users, u.id@);
        assert(is_first_match(users, u.id@, k));
        assert forall|i: int, j: int| 0 <= i < after.len() && 0 <= j < after.len() && i != j implies after[i].id@
            != after[j].id@ by {
            assert(after[i].id@ == users[i].id@);
            assert(after[j].id@ == users[j].id@);
        }
        assert(is_first_match(after, u.id@, k));
        lemma_first_match_unique(after, u.id@, k, user_index(after, u.id@));
    } else {
        let n = users.len() as int;
        assert forall|j: int| 0 <= j < n implies users[j].id@ != u.id@ by {
            if users[j].id@ == u.id@ {
                lemma_match_has_first(users, u.id@, j);
            }
        }
        assert forall|i: int, j: int| 0 <= i < after.len() && 0 <= j < after.len() && i != j implies after[i].id@
            != after[j].id@ by {
            if i < n && j < n {
                assert(after[i] == users[i] && after[j] == users[j]);
            } else if i == n {
                assert(after[j] == users[j]);
            } else {
                assert(after[i] == users[i]);
            }
        }
        assert(is_first_match(after, u.id@, n));
        lemma_first_match_unique(after, u.id@, n, user_index(after, u.id@));
    }
}

/// A first match is unique.
pub proof fn lemma_first_match_unique(users: Seq<User>, id: Seq<char>, i: int, k: int)
    requires
        is_first_match(users, id, i),
        is_first_match(users, id, k),
    ensures
        i == k,
{
}

/// Any match makes a first match exist.
pub proof fn lemma_match_has_first(users: Seq<User>, id: Seq<char>, i: int)
    requires
        0 <= i < users.len(),
        users[i].id@ == id,
    ensures
        has_user(users, id),
        user_index(users, id) <= i,
    decreases i,
{
    if exists|j: int| 0 <= j < i && users[j].id@ == id {
        let j = choose|j: int| 0 <= j < i && users[j].id@ == id;
        lemma_match_has_first(users, id, j);
    } else {
        assert(is_first_match(users, id, i));
    }
}

/// The result of a search that stopped at `i`: no match before `i`, and a
/// match at `i` when `i` is inside.
proof fn lemma_search_result(users: Seq<User>, id: Seq<char>, i: int)
    requires
        0 <= i <= users.len(),
        forall|j: int| 0 <= j < i ==> users[j].id@ != id,
        i < users.len() ==> users[i].id@ == id,
    ensures
        i < users.len() ==> has_user(users, id) && user_index(users, id) == i,
        i == users.len() ==> !has_user(users, id),
{
    if i < users.len() {
        assert(is_first_match(users, id, i));
        lemma_first_match_unique(users, id, i, user_index(users, id));
    }
}

/// Finds the first user with id `id`.
pub fn find_user(users: &Vec<User>, id: &str) -> (r: Option<usize>)
    ensures
        r matches Some(i) ==> has_user(users@, id@) && user_index(users@, id@) == i,
        r is None ==> !has_user(users@, id@),
{
    let mut i: usize = 0;
    while i < users.len()
        invariant
            i <= users.len(),
            forall|j: int| 0 <= j < i ==> users@[j].id@ != id@,
        decreases users.len() - i,
    {
        if crate::text::text_eq(users[i].id.as_str(), id) {
            proof { lemma_search_result(users@, id@, i as int); }
            return Some(i);
        }
        i = i + 1;
    }
    proof { lemma_search_result(users@, id@, i as int); }
    None
}

/// The canvas: `data[y][x]` is the cell at `(x, y)`, and `users` holds
/// each user once, under its id (`users_unique`, which the canvas's own
/// operations keep).
#[derive(Debug, PartialEq, Eq)]
pub struct Place {
    pub data: Vec<Vec<PixelWithLocation>>,
    pub users: Vec<User>,
}

impl Place {
    /// No two stored users share an id.
    pub open spec fn users_unique(&self) -> bool {
        unique_ids(self.users@)
    }

    /// The cells, row by row.
    pub open spec fn cells(&self) -> Seq<Seq<PixelWithLocation>> {
        grid(self.data@)
    }

    /// `loc` lies inside the canvas, as measured by its first row and its
    /// number of rows.
    pub open spec fn in_bounds(&self, loc: XY) -> bool {
        &&& loc.x < self.data@[0].len()
        &&& loc.y < self.data@.len()
    }

    /// Reading or writing the cell at `loc` through its bounds check cannot
    /// fail on a missing row or a short row.
    pub open spec fn addressable(&self, loc: XY) -> bool {
        &&& self.data@.len() > 0
        &&& self.in_bounds(loc) ==> loc.x < self.data@[loc.y as int].len()
    }

    /// An empty canvas of `size.x` columns and `size.y` rows, without users.
    pub fn new(size: XY) -> (p: Place)
        ensures
            p.data@.len() == size.y as usize,
            forall|i: int| 0 <= i < p.data@.len() ==> #[trigger] p.cells()[i] =~= Seq::new(
                size.x as usize as nat,
                |j: int| blank_pixel(),
            ),
            p.users@.len() == 0,
            p.users_unique(),
    {
        let w = #[verifier::truncate] (size.x as usize);
        let h = #[verifier::truncate] (size.y as usize);
        let mut data: Vec<Vec<PixelWithLocation>> = Vec::new();
        let mut i: usize = 0;
        while i < h
            invariant
                i <= h,
                data@.len() == i,
                forall|k: int| 0 <= k < i ==> #[trigger] grid(data@)[k] =~= Seq::new(
                    w as nat,
                    |j: int| blank_pixel(),
                ),
            decreases h - i,
        {
            let mut row: Vec<PixelWithLocation> = Vec::new();
            let mut j: usize = 0;
            while j < w
                invariant
                    j <= w,
                    row@ =~= Seq::new(j as nat, |k: int| blank_pixel()),
                decreases w - j,
            {
                row.push(PixelWithLocation::default());
                j = j + 1;
            }
            let ghost old_data = data@;
            data.push(row);
            proof {
                assert forall|k: int| 0 <= k < i + 1 implies #[trigger] grid(data@)[k] =~= Seq::new(
                    w as nat,
                    |j: int| blank_pixel(),
                ) by {
                    if k < i {
                        assert(data@[k] == old_data[k]);
                        assert(grid(old_data)[k] == old_data[k]@);
                    }
                }
            }
            i = i + 1;
        }
        Place { data, users: Vec::new() }
    }

    /// Whether the cell at `loc` can be read or written without failing.
    pub fn can_address(&self, loc: XY) -> (b: bool)
        ensures
            b == self.addressable(loc),
    {
        if self.data.len() == 0 {
            return false;
        }
        if loc.x < self.data[0].len() as u64 && loc.y < self.data.len() as u64 {
            loc.x < self.data[loc.y as usize].len() as u64
        } else {
            true
        }
    }

    /// Writes `pixel` into the cell at its own location.
    pub fn set_pixel(&mut self, pixel: PixelWithLocation) -> (r: Result<(), Error>)
        requires
            old(self).addressable(pixel.location),
        ensures
            !old(self).in_bounds(pixel.location) ==> r == Err::<(), Error>(Error::PixelOutOfBounds)
                && *final(self) == *old(self),
            old(self).in_bounds(pixel.location) ==> r == Ok::<(), Error>(()) && final(self).cells()
                == write_cell(old(self).cells(), pixel) && final(self).users == old(self).users,
    {
        let loc = pixel.location;
        if loc.x >= self.data[0].len() as u64 || loc.y >= self.data.len() as u64 {
            return Err(Error::PixelOutOfBounds);
        }
        let y = loc.y as usize;
        let x = loc.x as usize;
        self.data[y][x] = pixel;
        proof {
            assert(self.cells() =~= old(self).cells().update(
                y as int,
                old(self).cells()[y as int].update(x as int, pixel),
            ));
        }
        Ok(())
    }

    /// The cell at `location`.
    pub fn get_pixel(&self, location: XY) -> (r: Result<PixelWithLocation, Error>)
        requires
            self.addressable(location),
        ensures
            !self.in_bounds(location) ==> r == Err::<PixelWithLocation, Error>(Error::PixelOutOfBounds),
            self.in_bounds(location) ==> r == Ok::<PixelWithLocation, Error>(
                read_cell(self.cells(), location),
            ),
    {
        if location.x >= self.data[0].len() as u64 || location.y >= self.data.len() as u64 {
            return Err(Error::PixelOutOfBounds);
        }
        Ok(self.data[location.y as usize][location.x as usize].clone())
    }

    /// Stores `user` under its id, replacing the user stored there before.
    pub fn set_user(&mut self, user: User) -> (r: Result<(), Error>)
        ensures
            r == Ok::<(), Error>(()),
            final(self).users@ == upsert_user(old(self).users@, user),
            final(self).data == old(self).data,
            old(self).users_unique() ==> final(self).users_unique(),
    {
        proof {
            if old(self).users_unique() {
                lemma_upsert_keeps_unique(old(self).users@, user);
            }
        }
        match find_user(&self.users, user.id.as_str()) {
            Some(i) => {
                self.users.set(i, user);
            },
            None => {
                self.users.push(user);
            },
        }
        Ok(())
    }

    /// The user stored under `id`.
    pub fn get_user(&self, id: String) -> (r: Option<User>)
        ensures
            r == lookup_user(self.users@, id@),
    {
        match find_user(&self.users, id.as_str()) {
            Some(i) => Some(self.users[i].clone()),
            None => None,
        }
    }
}

/// The size of a grid whose rows all have the length of the first one.
pub open spec fn rectangular(rows: Seq<Seq<PixelWithLocation>>) -> bool {
    forall|i: int| 0 <= i < rows.len() ==> (#[trigger] rows[i]).len() == rows[0].len()
}

impl XY {
    /// The size of a grid: its row length and its number of rows, when it has
    /// rows and they all have the same length.
    pub fn from_nested_vec(vec: &Vec<Vec<PixelWithLocation>>) -> (r: Result<XY, Error>)
        ensures
            vec@.len() == 0 ==> r == Err::<XY, Error>(Error::EmptyVec),
            vec@.len() > 0 && !rectangular(grid(vec@)) ==> r == Err::<XY, Error>(Error::UnevenVec),
            vec@.len() > 0 && rectangular(grid(vec@)) ==> r == Ok::<XY, Error>(
                XY { x: vec@[0].len() as u64, y: vec@.len() as u64 },
            ),
    {
        if vec.len() == 0 {
            return Err(Error::EmptyVec);
        }
        let y = vec.len() as u64;
        let x = vec[0].len() as u64;
        let mut i: usize = 0;
        while i < vec.len()
            invariant
                0 < vec@.len(),
                i <= vec@.len(),
                x == vec@[0].len() as u64,
                forall|k: int| 0 <= k < i ==> (#[trigger] vec@[k]).len() == vec@[0].len(),
            decreases vec.len() - i,
        {
            if vec[i].len() != x as usize {
                proof {
                    assert(grid(vec@)[i as int].len() != grid(vec@)[0].len());
                }
                return Err(Error::UnevenVec);
            }
            i = i + 1;
        }
        proof {
            assert forall|k: int| 0 <= k < grid(vec@).len() implies (#[trigger] grid(vec@)[k]).len()
                == grid(vec@)[0].len() by {
                assert(vec@[k].len() == vec@[0].len());
            }
        }
        Ok(XY { x, y })
    }
}

impl Place {
    /// Whether the canvas's size differs from `size`; the canvas must have
    /// rows of equal length.
    pub fn size_differs(&self, size: XY) -> (b: bool)
        requires
            self.data@.len() > 0,
            rectangular(self.cells()),
        ensures
            b == (XY { x: self.data@[0].len() as u64, y: self.data@.len() as u64 } != size),
    {
        match XY::from_nested_vec(&self.data) {
            Ok(s) => s != size,
            Err(_) => true,
        }
    }
}

/// A new canvas has rows of equal length, as many as asked for, each as
/// long as asked for.
pub proof fn lemma_new_canvas_size(p: Place, size: XY)
    requires
        size.x <= usize::MAX,
        size.y <= usize::MAX,
        size.y > 0,
        p.data@.len() == size.y as usize,
        forall|i: int| 0 <= i < p.data@.len() ==> #[trigger] p.cells()[i] =~= Seq::new(
            size.x as usize as nat,
            |j: int| blank_pixel(),
        ),
    ensures
        rectangular(p.cells()),
        p.data@.len() == size.y,
        p.data@[0].len() == size.x,
{
    assert(p.cells()[0].len() == size.x);
    assert forall|i: int| 0 <= i < p.cells().len() implies (#[trigger] p.cells()[i]).len() == p.cells()[0].len() by {
        assert(p.cells()[i].len() == size.x);
    }
}

/// Reading a cell after writing one gives what was written when it is the
/// same cell, and what the cell held before otherwise; every row keeps its
/// length.
pub proof fn lemma_read_after_write(
    before: Seq<Seq<PixelWithLocation>>,
    p: PixelWithLocation,
    loc: XY,
)
    requires
        p.location.y < before.len(),
        p.location.x < before[p.location.y as int].len(),
        loc.y < before.len(),
        loc.x < before[loc.y as int].len(),
    ensures
        loc == p.location ==> read_cell(write_cell(before, p), loc) == p,
        loc != p.location ==> read_cell(write_cell(before, p), loc) == read_cell(before, loc),
        write_cell(before, p).len() == before.len(),
        forall|i: int| 0 <= i < before.len() ==> (#[trigger] write_cell(before, p)[i]).len() == before[i].len(),
{
}

/// Storing a user makes it the one found under its id, and leaves what is
/// found under every other id as it was.
pub proof fn lemma_upsert_lookup(users: Seq<User>, u: User, id: Seq<char>)
    ensures
        lookup_user(upsert_user(users, u), u.id@) == Some(u),
        id != u.id@ ==> lookup_user(upsert_user(users, u), id) == lookup_user(users, id),
{
    let after = upsert_user(users, u);
    if has_user(users, u.id@) {
        let i = user_index(users, u.id@);
        assert(is_first_match(after, u.id@, i));
        lemma_first_match_unique(after, u.id@, i, user_index(after, u.id@));
    } else {
        let n = users.len() as int;
        assert forall|j: int| 0 <= j < n implies after[j].id@ != u.id@ by {
            if after[j].id@ == u.id@ {
                lemma_match_has_first(users, u.id@, j);
            }
        }
        assert(is_first_match(after, u.id@, n));
        lemma_first_match_unique(after, u.id@, n, user_index(after, u.id@));
    }
    if id != u.id@ {
        if has_user(users, id) {
            let k = user_index(users, id);
            assert(is_first_match(after, id, k));
            lemma_first_match_unique(after, id, k, user_index(after, id));
        } else if has_user(after, id) {
            let k = user_index(after, id);
            if k < users.len() {
                lemma_match_has_first(users, id, k);
            }
        }
    }
}

} // verus!
