use vstd::prelude::*;

verus! {

/// The favourites row of the home screen.
pub const HOME_SECTION_FAVORITES: i32 = 0;
/// The recently played row of the home screen.
pub const HOME_SECTION_RECENT: i32 = 1;
/// The new games row of the games screen.
pub const GAME_SECTION_NEW: i32 = 0;
/// The top games row of the games screen.
pub const GAME_SECTION_TOP: i32 = 1;
/// The all games row of the games screen.
pub const GAME_SECTION_ALL: i32 = 2;

/// `v` cut to `lo..=hi`.
pub open spec fn clamp(v: int, lo: int, hi: int) -> int {
    if v < lo { lo } else if v > hi { hi } else { v }
}

/// Rows of games, each a list of catalog indices, with the selected entry
/// of each row and the selected row.
#[derive(Debug, Clone)]
pub struct SectionRows {
    pub rows: Vec<Vec<i32>>,
    pub selected: Vec<i32>,
    pub section: i32,
}

impl SectionRows {
    /// One selection per row.
    pub open spec fn wf(&self) -> bool {
        &&& self.rows@.len() == self.selected@.len()
        &&& self.rows@.len() < 0x4000_0000
        &&& forall|s: int| 0 <= s < self.rows@.len() ==> #[trigger] self.rows@[s]@.len() < 0x4000_0000
    }

    /// A normalised row exists and has games.
    pub proof fn lemma_normalized_valid(&self)
        ensures
            self.normalized() matches Some(s) ==> 0 <= s < self.rows@.len() && self.count(s) > 0,
    {
        if exists|s: int| 0 <= s < self.rows@.len() && self.count(s) > 0 {
            let c = choose|s: int| 0 <= s < self.rows@.len() && self.count(s) > 0;
            self.lemma_first_exists(c);
        }
    }

    proof fn lemma_first_exists(&self, c: int)
        requires
            0 <= c < self.rows@.len(),
            self.count(c) > 0,
        ensures
            exists|s: int| 0 <= s < self.rows@.len() && self.count(s) > 0 && forall|t: int| 0 <= t < s ==> #[trigger] self.count(t) == 0,
        decreases c,
    {
        if exists|t: int| 0 <= t < c && self.count(t) > 0 {
            let t = choose|t: int| 0 <= t < c && self.count(t) > 0;
            self.lemma_first_exists(t);
        } else {
            assert(forall|t: int| 0 <= t < c ==> #[trigger] self.count(t) == 0);
        }
    }

    /// The number of games in row `s` (none for a row that does not exist).
    pub open spec fn count(&self, s: int) -> int {
        if 0 <= s < self.rows@.len() { self.rows@[s]@.len() as int } else { 0 }
    }

    /// The selected entry of row `s` (0 for a row that does not exist).
    pub open spec fn sel(&self, s: int) -> int {
        if 0 <= s < self.selected@.len() { self.selected@[s] as int } else { 0 }
    }

    /// The first row that has games.
    pub open spec fn first_nonempty(&self) -> Option<int> {
        if exists|s: int| 0 <= s < self.rows@.len() && self.count(s) > 0 {
            Some(choose|s: int| 0 <= s < self.rows@.len() && self.count(s) > 0 && forall|t: int| 0 <= t < s ==> #[trigger] self.count(t) == 0)
        } else {
            None
        }
    }

    /// The row the selection is on once normalised: the selected row (cut to
    /// the existing rows) when it has games, else the first row that has
    /// games.
    pub open spec fn normalized(&self) -> Option<int> {
        let cur = clamp(self.section as int, 0, self.rows@.len() - 1);
        if self.count(cur) > 0 { Some(cur) } else { self.first_nonempty() }
    }

    /// The number of games in row `s`.
    pub fn row_count(&self, s: i32) -> (r: usize)
        requires
            self.wf(),
        ensures
            r == self.count(s as int),
    {
        if 0 <= s && (s as usize) < self.rows.len() {
            self.rows[s as usize].len()
        } else {
            0
        }
    }

    /// The selected entry of row `s`.
    pub fn selected_index(&self, s: i32) -> (r: i32)
        requires
            self.wf(),
        ensures
            r == self.sel(s as int),
    {
        if 0 <= s && (s as usize) < self.selected.len() {
            self.selected[s as usize]
        } else {
            0
        }
    }

    /// Sets the selected entry of row `s` (nothing for a row that does not
    /// exist).
    pub fn set_selected_index(&mut self, s: i32, index: i32)
        requires
            old(self).wf(),
        ensures
            final(self).wf(),
            final(self).rows == old(self).rows,
            final(self).section == old(self).section,
            final(self).selected@ == if 0 <= s < old(self).selected@.len() {
                old(self).selected@.update(s as int, index)
            } else {
                old(self).selected@
            },
    {
        if 0 <= s && (s as usize) < self.selected.len() {
            self.selected.set(s as usize, index);
        }
    }

    /// The first row that has games.
    pub fn first_available(&self) -> (r: Option<i32>)
        requires
            self.wf(),
        ensures
            match r {
                Some(s) => self.first_nonempty() == Some(s as int),
                None => self.first_nonempty() is None,
            },
    {
        let mut s: usize = 0;
        while s < self.rows.len()
            invariant
                self.wf(),
                s <= self.rows@.len(),
                forall|t: int| 0 <= t < s ==> #[trigger] self.count(t) == 0,
            decreases self.rows.len() - s,
        {
            if self.rows[s].len() > 0 {
                proof {
                    assert(self.count(s as int) > 0);
                    let c = choose|c: int| 0 <= c < self.rows@.len() && self.count(c) > 0 && forall|t: int| 0 <= t < c ==> #[trigger] self.count(t) == 0;
                    if c < s {
                    } else if c > s {
                        assert(self.count(s as int) == 0);
                    }
                }
                return Some(s as i32);
            }
            s = s + 1;
        }
        proof {
            if exists|c: int| 0 <= c < self.rows@.len() && self.count(c) > 0 {
                let c = choose|c: int| 0 <= c < self.rows@.len() && self.count(c) > 0;
                assert(self.count(c) == 0);
            }
        }
        None
    }
}

/// The game that a navigation step asks the screen to show.
#[derive(Debug, Clone, Copy, PartialEq, Eq)]
pub enum GameSelection {
    /// Show the game with this catalog index.
    Select(i32),
    /// Show the first game of the catalog (the rows are empty).
    Reset,
    /// Leave the shown game as it is.
    Keep,
}

/// The selected entry of row `s` cut to the row.
pub open spec fn clamped_sel(rows: SectionRows, s: int) -> int {
    clamp(rows.sel(s), 0, rows.count(s) - 1)
}

/// The rows after the selected entry of row `s` was cut to the row.
pub open spec fn with_clamped(rows: SectionRows, s: int) -> Seq<i32> {
    if clamped_sel(rows, s) != rows.sel(s) && 0 <= s < rows.selected@.len() {
        rows.selected@.update(s, clamped_sel(rows, s) as i32)
    } else {
        rows.selected@
    }
}

impl SectionRows {
    /// Puts the selection on a row that has games, if one has; returns it.
    pub fn normalize_home(&mut self) -> (r: Option<i32>)
        requires
            old(self).wf(),
            old(self).rows@.len() > 0,
        ensures
            final(self).wf(),
            final(self).rows == old(self).rows,
            final(self).selected == old(self).selected,
            match r {
                Some(s) => old(self).normalized() == Some(s as int) && final(self).section == s,
                None => old(self).normalized() is None && final(self).section == old(self).section,
            },
    {
        let last = (self.rows.len() - 1) as i32;
        let cur = if self.section < 0 { 0 } else if self.section > last { last } else { self.section };
        let r = if self.row_count(cur) > 0 { Some(cur) } else { self.first_available() };
        if let Some(s) = r {
            self.section = s;
        }
        r
    }

    /// Puts the selection on a row that has games, else on the first row;
    /// returns it.
    pub fn normalize_games(&mut self) -> (r: i32)
        requires
            old(self).wf(),
            old(self).rows@.len() > 0,
        ensures
            final(self).wf(),
            final(self).rows == old(self).rows,
            final(self).selected == old(self).selected,
            r as int == match old(self).normalized() {
                Some(s) => s,
                None => 0,
            },
            final(self).section == r,
    {
        let s = match self.normalize_home() {
            Some(s) => s,
            None => 0,
        };
        self.section = s;
        s
    }

    /// Cuts the selected entry of row `s` to the row and returns the game it
    /// shows.
    fn clamp_and_pick(&mut self, s: i32) -> (game: i32)
        requires
            old(self).wf(),
            0 <= s < old(self).rows@.len(),
            old(self).count(s as int) > 0,
        ensures
            final(self).wf(),
            final(self).rows == old(self).rows,
            final(self).section == old(self).section,
            final(self).selected@ == with_clamped(*old(self), s as int),
            game == old(self).rows@[s as int]@[clamped_sel(*old(self), s as int)],
    {
        let rc = self.row_count(s) as i32;
        let cur = self.selected_index(s);
        let idx = if cur < 0 { 0 } else if cur > rc - 1 { rc - 1 } else { cur };
        if idx != cur {
            self.set_selected_index(s, idx);
        }
        self.rows[s as usize][idx as usize]
    }

    /// Shows the selected game of the selected home row (nothing when no row
    /// has games).
    pub fn sync_home(&mut self) -> (r: GameSelection)
        requires
            old(self).wf(),
            old(self).rows@.len() > 0,
        ensures
            final(self).wf(),
            sync_home_post(*old(self), *final(self), r),
    {
        proof {
            old(self).lemma_normalized_valid();
        }
        match self.normalize_home() {
            None => GameSelection::Keep,
            Some(s) => GameSelection::Select(self.clamp_and_pick(s)),
        }
    }

    /// Shows the selected game of the selected games row (the first game
    /// when no row has games).
    pub fn sync_games(&mut self) -> (r: GameSelection)
        requires
            old(self).wf(),
            old(self).rows@.len() > 0,
        ensures
            final(self).wf(),
            sync_games_post(*old(self), *final(self), r),
    {
        proof {
            old(self).lemma_normalized_valid();
        }
        let s = self.normalize_games();
        if self.row_count(s) == 0 {
            proof {
                if old(self).normalized() is Some {
                    assert(old(self).count(s as int) > 0);
                }
            }
            return GameSelection::Reset;
        }
        let ghost mid = *self;
        proof {
            if old(self).normalized() is None {
                assert(old(self).first_nonempty() is None);
                assert(!(exists|t: int| 0 <= t < old(self).rows@.len() && old(self).count(t) > 0));
                assert(old(self).count(s as int) > 0);
            }
            assert(old(self).normalized() == Some(s as int));
            assert(mid.rows == old(self).rows && mid.selected == old(self).selected);
            assert(clamped_sel(mid, s as int) == clamped_sel(*old(self), s as int));
            assert(with_clamped(mid, s as int) == with_clamped(*old(self), s as int));
        }
        GameSelection::Select(self.clamp_and_pick(s))
    }
}

/// The first row with games met walking from row `s` in steps of `delta`
/// while inside the rows.
pub open spec fn scan(rows: SectionRows, s: int, delta: int) -> Option<int>
    decreases (if delta > 0 { if s < rows.rows@.len() { rows.rows@.len() - s } else { 0 } } else if s >= 0 { s + 1 } else { 0 }),
{
    if delta == 0 || !(0 <= s < rows.rows@.len()) {
        None
    } else if rows.count(s) > 0 {
        Some(s)
    } else {
        scan(rows, s + delta, delta)
    }
}

/// A scan looks at the rows only.
pub proof fn lemma_scan_rows_only(a: SectionRows, b: SectionRows, s: int, delta: int)
    requires
        a.rows == b.rows,
    ensures
        scan(a, s, delta) == scan(b, s, delta),
    decreases (if delta > 0 { if s < a.rows@.len() { a.rows@.len() - s } else { 0 } } else if s >= 0 { s + 1 } else { 0 }),
{
    if delta != 0 && 0 <= s < a.rows@.len() && a.count(s) == 0 {
        lemma_scan_rows_only(a, b, s + delta, delta);
    }
}

impl SectionRows {
    /// Moves the home selection to the neighbouring row `delta` away when it
    /// has games; says whether it moved and which game to show.
    pub fn move_home_vertical(&mut self, delta: i32) -> (r: (bool, GameSelection))
        requires
            old(self).wf(),
            old(self).rows@.len() > 0,
            delta <= i32::MAX - old(self).rows@.len(),
        ensures
            final(self).wf(),
            home_vertical_post(*old(self), *final(self), delta as int, r),
    {
        proof {
            old(self).lemma_normalized_valid();
        }
        let cur = match self.normalize_home() {
            None => {
                return (false, GameSelection::Keep);
            },
            Some(c) => c,
        };
        let next = cur + delta;
        if next < 0 || next as usize >= self.rows.len() {
            return (false, GameSelection::Keep);
        }
        if self.row_count(next) == 0 {
            return (false, GameSelection::Keep);
        }
        self.section = next;
        let ghost mid = *self;
        proof {
            assert(mid.normalized() == Some(next as int));
        }
        let g = self.sync_home();
        (true, g)
    }

    /// Moves the selection along the selected row by `delta` (stopping at its
    /// ends); says whether it moved and which game to show.
    pub fn move_horizontal(&mut self, delta: i32, home: bool) -> (r: (bool, GameSelection))
        requires
            old(self).wf(),
            old(self).rows@.len() > 0,
            old(self).normalized() matches Some(s) ==> clamped_sel(*old(self), s) + delta <= i32::MAX,
        ensures
            final(self).wf(),
            horizontal_post(*old(self), *final(self), delta as int, home, r),
    {
        proof {
            old(self).lemma_normalized_valid();
        }
        let s = if home {
            match self.normalize_home() {
                None => {
                    return (false, GameSelection::Keep);
                },
                Some(s) => s,
            }
        } else {
            self.normalize_games()
        };
        let rc = self.row_count(s) as i32;
        if rc <= 0 {
            proof {
                if old(self).normalized() is Some {
                    assert(old(self).count(s as int) > 0);
                }
            }
            return (false, GameSelection::Keep);
        }
        proof {
            if old(self).normalized() is None {
                assert(old(self).first_nonempty() is None);
                assert(!(exists|t: int| 0 <= t < old(self).rows@.len() && old(self).count(t) > 0));
                assert(old(self).count(s as int) > 0);
            }
            assert(old(self).normalized() == Some(s as int));
        }
        let sel = self.selected_index(s);
        let cur = if sel < 0 { 0 } else if sel > rc - 1 { rc - 1 } else { sel };
        let moved: i64 = cur as i64 + delta as i64;
        let next: i32 = if moved < 0 { 0 } else if moved > (rc - 1) as i64 { rc - 1 } else { moved as i32 };
        if next == cur {
            return (false, GameSelection::Keep);
        }
        assert(cur == clamped_sel(*old(self), s as int));
        self.set_selected_index(s, next);
        let ghost mid = *self;
        proof {
            assert(mid.selected@ == old(self).selected@.update(s as int, next));
            assert(mid.normalized() == Some(s as int));
            assert(clamped_sel(mid, s as int) == next);
            assert(with_clamped(mid, s as int) == mid.selected@);
        }
        let g = if home { self.sync_home() } else { self.sync_games() };
        (true, g)
    }

    /// Moves the games selection to the next row `delta` away that has
    /// games, on its first entry; says whether it moved and which game to
    /// show.
    pub fn move_games_vertical(&mut self, delta: i32) -> (r: (bool, GameSelection))
        requires
            old(self).wf(),
            old(self).rows@.len() > 0,
            delta != 0,
            delta <= i32::MAX - old(self).rows@.len(),
        ensures
            final(self).wf(),
            games_vertical_post(*old(self), *final(self), delta as int, r),
    {
        proof {
            old(self).lemma_normalized_valid();
        }
        let cur = self.normalize_games();
        let ghost mid = *self;
        proof {
            assert(mid.rows == old(self).rows);
            lemma_scan_rows_only(mid, *old(self), cur + delta, delta as int);
        }
        match self.scan_rows(cur, delta) {
            None => (false, GameSelection::Keep),
            Some(t) => {
                self.section = t;
                self.set_selected_index(t, 0);
                let ghost mid = *self;
                proof {
                    assert(mid.normalized() == Some(t as int));
                    assert(clamped_sel(mid, t as int) == 0);
                    assert(with_clamped(mid, t as int) == mid.selected@);
                }
                let g = self.sync_games();
                (true, g)
            },
        }
    }

    /// The first row with games walking from row `cur + delta` in steps of
    /// `delta`.
    fn scan_rows(&self, cur: i32, delta: i32) -> (r: Option<i32>)
        requires
            self.wf(),
            delta != 0,
            0 <= cur < self.rows@.len(),
            delta <= i32::MAX - self.rows@.len(),
        ensures
            match r {
                Some(t) => scan(*self, cur + delta, delta as int) == Some(t as int) && 0 <= t < self.rows@.len()
                    && self.count(t as int) > 0,
                None => scan(*self, cur + delta, delta as int) is None,
            },
    {
        let mut section: i64 = cur as i64 + delta as i64;
        let n = self.rows.len();
        while 0 <= section && section < n as i64
            invariant
                self.wf(),
                n == self.rows@.len(),
                delta != 0,
                delta <= i32::MAX - n,
                scan(*self, cur + delta, delta as int) == scan(*self, section as int, delta as int),
                i32::MIN - 1 <= section <= i32::MAX,
            decreases (if delta > 0 { if section < n { n - section } else { 0 } } else if section >= 0 { section + 1 } else { 0 }),
        {
            let sc = section as i32;
            if self.row_count(sc) > 0 {
                return Some(sc);
            }
            section = section + delta as i64;
        }
        None
    }
}

/// What showing the selected game of the home rows does: nothing when no
/// row has games; else the selection moves to a row with games, its entry
/// is cut to the row, and that entry's game is shown.
pub open spec fn sync_home_post(o: SectionRows, n: SectionRows, r: GameSelection) -> bool {
    &&& n.rows == o.rows
    &&& match o.normalized() {
        None => r == GameSelection::Keep && n == o,
        Some(s) => {
            &&& n.section == s
            &&& n.selected@ == with_clamped(o, s)
            &&& r == GameSelection::Select(o.rows@[s]@[clamped_sel(o, s)])
        },
    }
}

/// What showing the selected game of the games rows does: as for the home
/// rows, except that with no games the first row is selected and the first
/// game of the catalog shown.
pub open spec fn sync_games_post(o: SectionRows, n: SectionRows, r: GameSelection) -> bool {
    &&& n.rows == o.rows
    &&& match o.normalized() {
        None => r == GameSelection::Reset && n.section == 0 && n.selected == o.selected,
        Some(s) => {
            &&& n.section == s
            &&& n.selected@ == with_clamped(o, s)
            &&& r == GameSelection::Select(o.rows@[s]@[clamped_sel(o, s)])
        },
    }
}

/// What a vertical move on the home rows does: to the row `delta` away when
/// it has games (keeping that row's entry, cut to it), else nothing.
pub open spec fn home_vertical_post(o: SectionRows, n: SectionRows, delta: int, r: (bool, GameSelection)) -> bool {
    &&& n.rows == o.rows
    &&& match o.normalized() {
        None => r == (false, GameSelection::Keep) && n == o,
        Some(cur) => {
            let next = cur + delta;
            if 0 <= next < o.rows@.len() && o.count(next) > 0 {
                &&& r.0
                &&& n.section == next
                &&& n.selected@ == with_clamped(o, next)
                &&& r.1 == GameSelection::Select(o.rows@[next]@[clamped_sel(o, next)])
            } else {
                &&& r == (false, GameSelection::Keep)
                &&& n.section == cur
                &&& n.selected == o.selected
            }
        },
    }
}

/// What a horizontal move does: along the selected row, stopping at its
/// ends.
pub open spec fn horizontal_post(o: SectionRows, n: SectionRows, delta: int, home: bool, r: (bool, GameSelection)) -> bool {
    &&& n.rows == o.rows
    &&& match o.normalized() {
        None => {
            &&& r == (false, GameSelection::Keep)
            &&& n.selected == o.selected
            &&& n.section == if home { o.section } else { 0 }
        },
        Some(s) => {
            let cur = clamped_sel(o, s);
            let next = clamp(cur + delta, 0, o.count(s) - 1);
            &&& n.section == s
            &&& if next == cur {
                r == (false, GameSelection::Keep) && n.selected == o.selected
            } else {
                &&& r == (true, GameSelection::Select(o.rows@[s]@[next]))
                &&& n.selected@ == o.selected@.update(s, next as i32)
            }
        },
    }
}

/// What a vertical move on the games rows does: to the first row with games
/// `delta`, `2 * delta`, ... away, on its first entry, else nothing.
pub open spec fn games_vertical_post(o: SectionRows, n: SectionRows, delta: int, r: (bool, GameSelection)) -> bool {
    &&& n.rows == o.rows
    &&& {
        let cur = match o.normalized() { Some(s) => s, None => 0 };
        match scan(o, cur + delta, delta) {
            None => r == (false, GameSelection::Keep) && n.section == cur && n.selected == o.selected,
            Some(t) => {
                &&& r == (true, GameSelection::Select(o.rows@[t]@[0]))
                &&& n.section == t
                &&& n.selected@ == o.selected@.update(t, 0)
            },
        }
    }
}

} // verus!
