use vstd::prelude::*;
use vstd::string::*;

use crate::text::{owned, str_eq};

verus! {

broadcast use vstd::string::group_string_axioms;

/// Where the favourites and the recently played games are kept.
pub const DEFAULT_GAME_STATE_PATH: &'static str = "/data/openconsole/game-state.json";

/// How many recently played games are remembered.
pub const RECENTLY_PLAYED_LIMIT: usize = 10;

/// The player's favourite games and the games played most recently (most
/// recent first).
#[derive(Debug, Clone)]
pub struct GameState {
    pub favorite_game_ids: Vec<String>,
    pub recently_played_game_ids: Vec<String>,
}

/// The character sequences of a list of strings.
pub open spec fn ids(v: Seq<String>) -> Seq<Seq<char>> {
    v.map_values(|s: String| s@)
}

/// `s` without any occurrence of `x`, the rest in order.
pub open spec fn without(s: Seq<Seq<char>>, x: Seq<char>) -> Seq<Seq<char>>
    decreases s.len(),
{
    if s.len() == 0 {
        s
    } else if s.last() == x {
        without(s.drop_last(), x)
    } else {
        without(s.drop_last(), x).push(s.last())
    }
}

/// The recently played list after playing `x`: `x` first, then the others
/// without `x`, at most ten in all.
pub open spec fn recent_after(s: Seq<Seq<char>>, x: Seq<char>) -> Seq<Seq<char>> {
    let r = seq![x] + without(s, x);
    if r.len() <= RECENTLY_PLAYED_LIMIT { r } else { r.take(RECENTLY_PLAYED_LIMIT as int) }
}

/// The favourites after toggling `x`: the first occurrence removed when `x`
/// is there, else `x` added at the end.
pub open spec fn toggled(s: Seq<Seq<char>>, x: Seq<char>) -> Seq<Seq<char>> {
    if position_of(s, x) < s.len() {
        s.remove(position_of(s, x) as int)
    } else {
        s.push(x)
    }
}

/// Position of the first `x` in `s`, or `s.len()` when there is none.
pub open spec fn position_of<T>(s: Seq<T>, x: T) -> nat
    decreases s.len(),
{
    if s.len() == 0 {
        0
    } else if s[0] == x {
        0
    } else {
        1 + position_of(s.drop_first(), x)
    }
}

/// `position_of` is the first position of `x`, and `s.len()` exactly when
/// `x` does not occur.
pub proof fn lemma_position_of<T>(s: Seq<T>, x: T)
    ensures
        position_of(s, x) <= s.len(),
        position_of(s, x) < s.len() ==> s[position_of(s, x) as int] == x,
        forall|j: int| 0 <= j < position_of(s, x) ==> s[j] != x,
        s.contains(x) <==> position_of(s, x) < s.len(),
    decreases s.len(),
{
    if s.len() > 0 && s[0] != x {
        lemma_position_of(s.drop_first(), x);
        assert forall|j: int| 0 <= j < position_of(s, x) implies s[j] != x by {
            if j > 0 {
                assert(s[j] == s.drop_first()[j - 1]);
            }
        }
        if s.contains(x) {
            let k = choose|k: int| 0 <= k < s.len() && s[k] == x;
            assert(s.drop_first()[k - 1] == x);
        }
        if position_of(s, x) < s.len() {
            assert(s.drop_first()[position_of(s, x) - 1] == x);
        }
    }
    if s.len() > 0 && s[0] == x {
        assert(s.contains(x));
    }
}

/// Removing an element other than `y` keeps whether `y` occurs.
pub proof fn lemma_remove_keeps<T>(s: Seq<T>, k: int, y: T)
    requires
        0 <= k < s.len(),
        s[k] != y,
    ensures
        s.remove(k).contains(y) == s.contains(y),
{
    let t = s.remove(k);
    if s.contains(y) {
        let j = choose|j: int| 0 <= j < s.len() && s[j] == y;
        if j < k {
            assert(t[j] == y);
        } else {
            assert(t[j - 1] == y);
        }
    }
    if t.contains(y) {
        let j = choose|j: int| 0 <= j < t.len() && t[j] == y;
        if j < k {
            assert(s[j] == y);
        } else {
            assert(s[j + 1] == y);
        }
    }
}

/// Appending `x` adds `x` and keeps the rest.
pub proof fn lemma_push_contains<T>(s: Seq<T>, x: T, y: T)
    ensures
        s.push(x).contains(y) == (s.contains(y) || y == x),
{
    let t = s.push(x);
    if t.contains(y) {
        let j = choose|j: int| 0 <= j < t.len() && t[j] == y;
        if j < s.len() {
            assert(s[j] == y);
        }
    }
    if s.contains(y) {
        let j = choose|j: int| 0 <= j < s.len() && s[j] == y;
        assert(t[j] == y);
    }
    if y == x {
        assert(t[s.len() as int] == y);
    }
}

/// `without` keeps exactly the elements other than `x`.
pub proof fn lemma_without(s: Seq<Seq<char>>, x: Seq<char>)
    ensures
        !without(s, x).contains(x),
        without(s, x).len() <= s.len(),
        forall|y: Seq<char>| y != x ==> (#[trigger] without(s, x).contains(y) <==> s.contains(y)),
        s.no_duplicates() ==> without(s, x).no_duplicates(),
    decreases s.len(),
{
    if s.len() > 0 {
        let d = s.drop_last();
        let w = without(d, x);
        lemma_without(d, x);
        assert(s == d.push(s.last()));
        assert forall|y: Seq<char>| #![auto] s.contains(y) == (d.contains(y) || y == s.last()) by {
            lemma_push_contains(d, s.last(), y);
        }
        assert forall|y: Seq<char>| y != x implies (#[trigger] without(s, x).contains(y) <==> s.contains(y)) by {
            lemma_push_contains(d, s.last(), y);
            lemma_push_contains(w, s.last(), y);
            assert(w.contains(y) == d.contains(y));
        }
        if s.last() != x {
            lemma_push_contains(w, s.last(), x);
        }
        if s.no_duplicates() {
            assert(d.no_duplicates()) by {
                assert forall|i: int, j: int| 0 <= i < d.len() && 0 <= j < d.len() && i != j implies d[i] != d[j] by {
                    assert(d[i] == s[i] && d[j] == s[j]);
                }
            }
            if s.last() != x {
                assert(!d.contains(s.last())) by {
                    if d.contains(s.last()) {
                        let k = choose|k: int| 0 <= k < d.len() && d[k] == s.last();
                        assert(s[k] == s[s.len() - 1]);
                    }
                }
                assert(!w.contains(s.last()));
                let u = w.push(s.last());
                assert(u.no_duplicates()) by {
                    assert forall|i: int, j: int| 0 <= i < u.len() && 0 <= j < u.len() && i != j implies u[i] != u[j] by {
                        if i < w.len() && j < w.len() {
                            assert(u[i] == w[i] && u[j] == w[j]);
                        } else if i < w.len() {
                            assert(u[i] == w[i]);
                        } else if j < w.len() {
                            assert(u[j] == w[j]);
                        }
                    }
                }
            }
        }
    }
}

impl GameState {
    /// A state with no favourites and nothing played.
    pub fn new() -> (s: Self)
        ensures
            s.favorite_game_ids@.len() == 0,
            s.recently_played_game_ids@.len() == 0,
    {
        GameState { favorite_game_ids: Vec::new(), recently_played_game_ids: Vec::new() }
    }

    /// `game_id` is a favourite.
    pub fn is_favorite(&self, game_id: &str) -> (r: bool)
        ensures
            r == ids(self.favorite_game_ids@).contains(game_id@),
    {
        let r = self.favorite_position(game_id).is_some();
        proof {
            lemma_position_of(ids(self.favorite_game_ids@), game_id@);
        }
        r
    }

    fn favorite_position(&self, game_id: &str) -> (r: Option<usize>)
        ensures
            r matches Some(i) ==> i == position_of(ids(self.favorite_game_ids@), game_id@)
                && i < self.favorite_game_ids@.len(),
            r is None ==> position_of(ids(self.favorite_game_ids@), game_id@) == self.favorite_game_ids@.len(),
    {
        let ghost v = ids(self.favorite_game_ids@);
        let mut i: usize = 0;
        while i < self.favorite_game_ids.len()
            invariant
                i <= self.favorite_game_ids.len(),
                v == ids(self.favorite_game_ids@),
                forall|j: int| 0 <= j < i ==> v[j] != game_id@,
            decreases self.favorite_game_ids.len() - i,
        {
            if str_eq(self.favorite_game_ids[i].as_str(), game_id) {
                proof {
                    lemma_position_of(v, game_id@);
                    let k = position_of(v, game_id@);
                    if k < i {
                        assert(v[k as int] != game_id@);
                    }
                    if k > i {
                        assert(v[i as int] != game_id@);
                    }
                }
                return Some(i);
            }
            i = i + 1;
        }
        proof {
            lemma_position_of(v, game_id@);
            let k = position_of(v, game_id@);
            if k < v.len() {
                assert(v[k as int] != game_id@);
            }
        }
        None
    }

    /// Adds `game_id` to the favourites, or takes it out when it is there.
    /// Returns whether it is a favourite afterwards.
    pub fn toggle_favorite(&mut self, game_id: &str) -> (added: bool)
        ensures
            added == !ids(old(self).favorite_game_ids@).contains(game_id@),
            ids(final(self).favorite_game_ids@) == toggled(ids(old(self).favorite_game_ids@), game_id@),
            final(self).recently_played_game_ids@ == old(self).recently_played_game_ids@,
    {
        match self.favorite_position(game_id) {
            Some(position) => {
                let ghost before = self.favorite_game_ids@;
                self.favorite_game_ids.remove(position);
                proof {
                    assert(ids(self.favorite_game_ids@) =~= ids(before).remove(position as int));
                    lemma_position_of(ids(before), game_id@);
                }
                false
            },
            None => {
                let ghost before = self.favorite_game_ids@;
                self.favorite_game_ids.push(owned(game_id));
                proof {
                    assert(ids(self.favorite_game_ids@) =~= ids(before).push(game_id@));
                    lemma_position_of(ids(before), game_id@);
                }
                true
            },
        }
    }

    /// Puts `game_id` first in the recently played list, drops its other
    /// occurrences and keeps at most ten games.
    pub fn record_recently_played(&mut self, game_id: &str)
        ensures
            ids(final(self).recently_played_game_ids@) == recent_after(
                ids(old(self).recently_played_game_ids@),
                game_id@,
            ),
            final(self).favorite_game_ids@ == old(self).favorite_game_ids@,
    {
        let ghost old_ids = ids(self.recently_played_game_ids@);
        let mut kept: Vec<String> = Vec::new();
        let mut i: usize = 0;
        while i < self.recently_played_game_ids.len()
            invariant
                i <= self.recently_played_game_ids.len(),
                old_ids == ids(self.recently_played_game_ids@),
                ids(kept@) == without(old_ids.take(i as int), game_id@),
            decreases self.recently_played_game_ids.len() - i,
        {
            proof {
                assert(old_ids.take(i + 1).drop_last() == old_ids.take(i as int));
                assert(old_ids.take(i + 1).last() == self.recently_played_game_ids@[i as int]@);
            }
            if !str_eq(self.recently_played_game_ids[i].as_str(), game_id) {
                let ghost k0 = kept@;
                kept.push(self.recently_played_game_ids[i].clone());
                proof {
                    assert(ids(kept@) =~= ids(k0).push(self.recently_played_game_ids@[i as int]@));
                }
            }
            i = i + 1;
        }
        proof {
            assert(old_ids.take(self.recently_played_game_ids@.len() as int) == old_ids);
        }
        let ghost k1 = kept@;
        kept.insert(0, owned(game_id));
        proof {
            assert(ids(kept@) =~= seq![game_id@] + ids(k1));
        }
        let ghost k2 = kept@;
        kept.truncate(RECENTLY_PLAYED_LIMIT);
        proof {
            if k2.len() > RECENTLY_PLAYED_LIMIT {
                assert(ids(kept@) =~= ids(k2).take(RECENTLY_PLAYED_LIMIT as int));
            }
        }
        self.recently_played_game_ids = kept;
    }
}

/// Playing a game puts it first in the recently played list, exactly once,
/// and the list never holds more than ten games.
pub proof fn lemma_recently_played(s: Seq<Seq<char>>, x: Seq<char>)
    ensures
        recent_after(s, x).len() >= 1,
        recent_after(s, x)[0] == x,
        recent_after(s, x).len() <= RECENTLY_PLAYED_LIMIT,
        forall|i: int| 1 <= i < recent_after(s, x).len() ==> #[trigger] recent_after(s, x)[i] != x,
        s.no_duplicates() ==> recent_after(s, x).no_duplicates(),
{
    lemma_without(s, x);
    let w = without(s, x);
    let r = seq![x] + w;
    assert forall|i: int| 1 <= i < r.len() implies #[trigger] r[i] != x by {
        assert(r[i] == w[i - 1]);
        if w[i - 1] == x {
            assert(w.contains(x));
        }
    }
    if s.no_duplicates() {
        assert(r.no_duplicates()) by {
            assert forall|i: int, j: int| 0 <= i < r.len() && 0 <= j < r.len() && i != j implies r[i] != r[j] by {
                if i > 0 && j > 0 {
                    assert(r[i] == w[i - 1] && r[j] == w[j - 1]);
                }
            }
        }
    }
    let t = recent_after(s, x);
    assert forall|i: int| 1 <= i < t.len() implies #[trigger] t[i] != x by {
        assert(t[i] == r[i]);
    }
    if s.no_duplicates() && r.len() > RECENTLY_PLAYED_LIMIT {
        assert(t.no_duplicates()) by {
            assert forall|i: int, j: int| 0 <= i < t.len() && 0 <= j < t.len() && i != j implies t[i] != t[j] by {
                assert(t[i] == r[i] && t[j] == r[j]);
            }
        }
    }
}

/// In a favourites list without repetitions, toggling a game takes it out
/// when it is there and adds it when it is not, keeps every other game's
/// favourite status and the list without repetitions; toggling twice leaves
/// every status as it was, and, when the game was not a favourite, the list
/// exactly as it was.
pub proof fn lemma_toggle_twice(s: Seq<Seq<char>>, x: Seq<char>)
    requires
        s.no_duplicates(),
    ensures
        toggled(s, x).no_duplicates(),
        toggled(s, x).contains(x) == !s.contains(x),
        forall|y: Seq<char>| y != x ==> #[trigger] toggled(s, x).contains(y) == s.contains(y),
        forall|y: Seq<char>| #[trigger] toggled(toggled(s, x), x).contains(y) == s.contains(y),
        !s.contains(x) ==> toggled(toggled(s, x), x) == s,
{
    lemma_toggle_once(s, x);
    lemma_toggle_once(toggled(s, x), x);
    if !s.contains(x) {
        lemma_position_of(s, x);
        let t = s.push(x);
        lemma_position_of(t, x);
        let k = position_of(t, x);
        assert(k == s.len()) by {
            if k < s.len() {
                assert(t[k as int] == s[k as int]);
            }
            lemma_push_contains(s, x, x);
        }
        assert(t.remove(k as int) =~= s);
    }
}

proof fn lemma_toggle_once(s: Seq<Seq<char>>, x: Seq<char>)
    requires
        s.no_duplicates(),
    ensures
        toggled(s, x).no_duplicates(),
        toggled(s, x).contains(x) == !s.contains(x),
        forall|y: Seq<char>| y != x ==> #[trigger] toggled(s, x).contains(y) == s.contains(y),
{
    lemma_position_of(s, x);
    let k = position_of(s, x);
    if k < s.len() {
        let t = s.remove(k as int);
        assert forall|y: Seq<char>| y != x implies #[trigger] t.contains(y) == s.contains(y) by {
            lemma_remove_keeps(s, k as int, y);
        }
        assert(!t.contains(x)) by {
            if t.contains(x) {
                let j = choose|j: int| 0 <= j < t.len() && t[j] == x;
                if j < k {
                    assert(s[j] == x);
                } else {
                    assert(s[j + 1] == x);
                    assert(s[k as int] == x);
                }
            }
        }
        assert(t.no_duplicates()) by {
            assert forall|i: int, j: int| 0 <= i < t.len() && 0 <= j < t.len() && i != j implies t[i] != t[j] by {
                let si = if i < k { i } else { i + 1 };
                let sj = if j < k { j } else { j + 1 };
                assert(t[i] == s[si] && t[j] == s[sj]);
            }
        }
    } else {
        assert forall|y: Seq<char>| #![auto] s.push(x).contains(y) == (s.contains(y) || y == x) by {
            lemma_push_contains(s, x, y);
        }
        let t = s.push(x);
        assert(t.no_duplicates()) by {
            assert forall|i: int, j: int| 0 <= i < t.len() && 0 <= j < t.len() && i != j implies t[i] != t[j] by {
                if i < s.len() && j < s.len() {
                    assert(t[i] == s[i] && t[j] == s[j]);
                } else if i < s.len() {
                    assert(t[i] == s[i]);
                } else if j < s.len() {
                    assert(t[j] == s[j]);
                }
            }
        }
    }
}

} // verus!
