//! The playable games of the account's title list: titles it is entitled to, or that one
//! of its subscriptions covers, ordered by id with one game per id (the first title that
//! lists it).
use vstd::prelude::*;
use crate::catalog::texts;
use crate::collections::contains_text;
use crate::text::chars_of;

verus! {

/// One title of the title list, with what decides whether it can be played.
pub struct TitleEntry {
    /// The title's id, which is also what launches it.
    pub slug: Option<String>,
    pub product_id: Option<String>,
    pub has_entitlement: bool,
    /// The programs that include the title.
    pub programs: Vec<String>,
    /// The programs the account subscribes to.
    pub user_subscriptions: Vec<String>,
}

/// A playable game.
pub struct Game {
    pub id: String,
    pub launch_id: String,
    pub metadata_id: Option<String>,
}

/// `a` comes before `b` when compared character by character from position `k` on (by
/// code point, which is also the order of their UTF-8 bytes); a proper prefix comes first.
pub open spec fn text_lt_from(a: Seq<char>, b: Seq<char>, k: nat) -> bool
    decreases a.len() - k,
{
    if k >= b.len() {
        false
    } else if k >= a.len() {
        true
    } else if a[k as int] != b[k as int] {
        a[k as int] < b[k as int]
    } else {
        text_lt_from(a, b, k + 1)
    }
}

/// The lexicographic order of texts.
pub open spec fn text_lt(a: Seq<char>, b: Seq<char>) -> bool {
    text_lt_from(a, b, 0)
}

proof fn lemma_text_order_total(a: Seq<char>, b: Seq<char>, k: nat)
    requires
        a != b,
        k <= a.len(),
        k <= b.len(),
        a.take(k as int) == b.take(k as int),
    ensures
        text_lt_from(a, b, k) || text_lt_from(b, a, k),
    decreases a.len() - k,
{
    if k >= a.len() && k >= b.len() {
        assert(a =~= a.take(k as int));
        assert(b =~= b.take(k as int));
    } else if k < a.len() && k < b.len() && a[k as int] == b[k as int] {
        assert(a.take(k as int + 1) =~= a.take(k as int).push(a[k as int]));
        assert(b.take(k as int + 1) =~= b.take(k as int).push(b[k as int]));
        lemma_text_order_total(a, b, k + 1);
    }
}

proof fn lemma_text_order_irreflexive(a: Seq<char>, k: nat)
    ensures
        !text_lt_from(a, a, k),
    decreases a.len() - k,
{
    if k < a.len() {
        lemma_text_order_irreflexive(a, k + 1);
    }
}

proof fn lemma_text_order_transitive(a: Seq<char>, b: Seq<char>, c: Seq<char>, k: nat)
    requires
        k <= a.len(),
        k <= b.len(),
        k <= c.len(),
        text_lt_from(a, b, k),
        text_lt_from(b, c, k),
    ensures
        text_lt_from(a, c, k),
    decreases a.len() - k,
{
    if k < a.len() && k < b.len() && k < c.len() && a[k as int] == b[k as int] && b[k as int] == c[k as int] {
        lemma_text_order_transitive(a, b, c, k + 1);
    }
}

/// Texts are ordered strictly and totally: no text comes before itself, the order is
/// transitive, and of two different texts one comes first.
pub proof fn law_text_order_is_strict_and_total(a: Seq<char>, b: Seq<char>, c: Seq<char>)
    ensures
        !text_lt(a, a),
        text_lt(a, b) && text_lt(b, c) ==> text_lt(a, c),
        a != b ==> text_lt(a, b) || text_lt(b, a),
{
    lemma_text_order_irreflexive(a, 0);
    if text_lt(a, b) && text_lt(b, c) {
        lemma_text_order_transitive(a, b, c, 0);
    }
    if a != b {
        assert(a.take(0) =~= b.take(0));
        lemma_text_order_total(a, b, 0);
    }
}

/// Whether `a` comes before `b`.
fn text_less(a: &Vec<char>, b: &Vec<char>) -> (less: bool)
    ensures
        less == text_lt(a@, b@),
{
    let mut k: usize = 0;
    while k < a.len() && k < b.len()
        invariant
            k <= a@.len(),
            k <= b@.len(),
            text_lt_from(a@, b@, k as nat) == text_lt(a@, b@),
        decreases a@.len() - k,
    {
        if a[k] != b[k] {
            return a[k] < b[k];
        }
        k += 1;
    }
    k < b.len()
}

pub open spec fn opt_text(o: Option<String>) -> Option<Seq<char>> {
    match o {
        Some(s) => Some(s@),
        None => None,
    }
}

/// One of the programs that include the title is subscribed to.
pub open spec fn subscribed(e: TitleEntry) -> bool {
    exists|i: int|
        #![trigger e.programs@[i]]
        0 <= i < e.programs@.len() && texts(e.user_subscriptions@).contains(e.programs@[i]@)
}

pub open spec fn playable(e: TitleEntry) -> bool {
    e.has_entitlement || subscribed(e)
}

/// The id under which the title is listed: its slug, when it has one and is playable.
pub open spec fn listed(e: TitleEntry) -> Option<Seq<char>> {
    match e.slug {
        Some(slug) => if playable(e) { Some(slug@) } else { None },
        None => None,
    }
}

/// Title `k` is the first that lists its id.
pub open spec fn first_listing(entries: Seq<TitleEntry>, k: int) -> bool {
    &&& listed(entries[k]) is Some
    &&& forall|j: int| 0 <= j < k ==> listed(#[trigger] entries[j]) != listed(entries[k])
}

/// `g` is the game of the first title that lists its id.
pub open spec fn made_from_first_listing(entries: Seq<TitleEntry>, g: Game) -> bool {
    exists|k: int| 0 <= k < entries.len() && first_listing(entries, k) && made_from(g, #[trigger] entries[k])
}

/// `g` is the game of title `e`: launched and identified by its slug, with its product id.
pub open spec fn made_from(g: Game, e: TitleEntry) -> bool {
    &&& e.slug matches Some(slug) && g.id@ == slug@
    &&& g.launch_id@ == g.id@
    &&& opt_text(g.metadata_id) == opt_text(e.product_id)
}

fn is_playable(e: &TitleEntry) -> (p: bool)
    ensures
        p == playable(*e),
{
    if e.has_entitlement {
        return true;
    }
    let mut i: usize = 0;
    while i < e.programs.len()
        invariant
            i <= e.programs@.len(),
            forall|j: int| 0 <= j < i ==> !texts(e.user_subscriptions@).contains(#[trigger] e.programs@[j]@),
        decreases e.programs@.len() - i,
    {
        if contains_text(&e.user_subscriptions, &e.programs[i]) {
            assert(texts(e.user_subscriptions@).contains(e.programs@[i as int]@));
            return true;
        }
        i += 1;
    }
    false
}

fn clone_text(o: &Option<String>) -> (c: Option<String>)
    ensures
        opt_text(c) == opt_text(*o),
{
    match o {
        Some(s) => Some(s.clone()),
        None => None,
    }
}

/// The games built from the first `k` titles: ascending by id; game `i` is the game of
/// title `sources[i]`, the first that lists its id; and every title `m` listed so far
/// has its game at `positions[m]`.
spec fn built(games: Seq<Game>, sources: Seq<int>, positions: Seq<int>, entries: Seq<TitleEntry>, k: int) -> bool {
    &&& sources.len() == games.len()
    &&& positions.len() == k
    &&& forall|i: int| 0 <= i < games.len() - 1 ==> text_lt(#[trigger] games[i].id@, games[i + 1].id@)
    &&& forall|i: int|
        0 <= i < games.len() ==> 0 <= #[trigger] sources[i] < k && first_listing(entries, sources[i]) && made_from(
            games[i],
            entries[sources[i]],
        )
    &&& forall|m: int|
        0 <= m < k && listed(#[trigger] entries[m]) is Some ==> 0 <= positions[m] < games.len() && listed(entries[m])
            == Some(games[positions[m]].id@)
}

proof fn lemma_insert(
    old: Seq<Game>,
    sources: Seq<int>,
    positions: Seq<int>,
    entries: Seq<TitleEntry>,
    k: int,
    p: int,
    g: Game,
)
    requires
        0 <= k < entries.len(),
        0 <= p <= old.len(),
        built(old, sources, positions, entries, k),
        listed(entries[k]) == Some(g.id@),
        made_from(g, entries[k]),
        forall|i: int| 0 <= i < old.len() ==> #[trigger] old[i].id@ != g.id@,
        forall|i: int| 0 <= i < p ==> text_lt(#[trigger] old[i].id@, g.id@),
        p < old.len() ==> text_lt(g.id@, old[p].id@),
    ensures
        built(
            old.insert(p, g),
            sources.insert(p, k),
            positions.map_values(|j: int| if j >= p { j + 1 } else { j }).push(p),
            entries,
            k + 1,
        ),
{
    let games = old.insert(p, g);
    let new_sources = sources.insert(p, k);
    let new_positions = positions.map_values(|j: int| if j >= p { j + 1 } else { j }).push(p);
    assert(first_listing(entries, k)) by {
        assert forall|j: int| 0 <= j < k implies listed(#[trigger] entries[j]) != listed(entries[k]) by {
            if listed(entries[j]) == Some(g.id@) {
                assert(old[positions[j]].id@ == g.id@);
            }
        }
    }
    assert forall|i: int| 0 <= i < games.len() - 1 implies text_lt(#[trigger] games[i].id@, games[i + 1].id@) by {
        if i + 1 < p {
            assert(games[i] == old[i] && games[i + 1] == old[i + 1]);
        } else if i + 1 == p {
            assert(games[i] == old[i]);
        } else if i == p {
            assert(games[i + 1] == old[i]);
        } else {
            assert(games[i] == old[i - 1] && games[i + 1] == old[i]);
        }
    }
    assert forall|i: int| 0 <= i < games.len() implies 0 <= #[trigger] new_sources[i] < k + 1 && first_listing(
        entries,
        new_sources[i],
    ) && made_from(games[i], entries[new_sources[i]]) by {
        if i < p {
            assert(games[i] == old[i] && new_sources[i] == sources[i]);
        } else if i > p {
            assert(games[i] == old[i - 1] && new_sources[i] == sources[i - 1]);
        }
    }
    assert forall|m: int| 0 <= m < k + 1 && listed(#[trigger] entries[m]) is Some implies 0 <= new_positions[m]
        < games.len() && listed(entries[m]) == Some(games[new_positions[m]].id@) by {
        if m < k {
            let j = positions[m];
            if j >= p {
                assert(games[j + 1] == old[j]);
            } else {
                assert(games[j] == old[j]);
            }
        }
    }
}

/// The playable games of `entries`, ascending by id, one per id: the game of the first
/// playable title with that id.
pub fn extract_games(entries: &Vec<TitleEntry>) -> (games: Vec<Game>)
    ensures
        forall|i: int| 0 <= i < games@.len() - 1 ==> text_lt(#[trigger] games@[i].id@, games@[i + 1].id@),
        forall|i: int| 0 <= i < games@.len() ==> made_from_first_listing(entries@, #[trigger] games@[i]),
        forall|k: int|
            0 <= k < entries@.len() && listed(#[trigger] entries@[k]) is Some ==> exists|i: int|
                0 <= i < games@.len() && listed(entries@[k]) == Some(#[trigger] games@[i].id@),
{
    let mut games: Vec<Game> = Vec::new();
    let mut keys: Vec<Vec<char>> = Vec::new();
    let mut ids: Vec<String> = Vec::new();
    let ghost mut sources: Seq<int> = Seq::empty();
    let ghost mut positions: Seq<int> = Seq::empty();
    let mut k: usize = 0;
    while k < entries.len()
        invariant
            k <= entries@.len(),
            games@.len() == keys@.len(),
            games@.len() == ids@.len(),
            forall|i: int| 0 <= i < games@.len() ==> #[trigger] keys@[i]@ == games@[i].id@,
            forall|i: int| 0 <= i < games@.len() ==> #[trigger] ids@[i]@ == games@[i].id@,
            built(games@, sources, positions, entries@, k as int),
        decreases entries@.len() - k,
    {
        let e = &entries[k];
        let ghost listing = listed(entries@[k as int]);
        let mut fresh: Option<&String> = None;
        if let Some(slug) = &e.slug {
            if is_playable(e) {
                assert(listing == Some(slug@));
                if contains_text(&ids, slug) {
                    proof {
                        let i = choose|i: int| 0 <= i < ids@.len() && texts(ids@)[i] == slug@;
                        assert(ids@[i]@ == slug@);
                        positions = positions.push(i);
                    }
                } else {
                    fresh = Some(slug);
                }
            }
        }
        match fresh {
            None => {
                proof {
                    if listing is None {
                        positions = positions.push(0);
                    }
                }
            },
            Some(slug) => {
                assert forall|i: int| 0 <= i < games@.len() implies #[trigger] games@[i].id@ != slug@ by {
                    assert(texts(ids@)[i] == ids@[i]@);
                }
                let key = chars_of(slug.as_str());
                let mut p: usize = 0;
                while p < keys.len() && text_less(&keys[p], &key)
                    invariant
                        p <= keys@.len(),
                        games@.len() == keys@.len(),
                        key@ == slug@,
                        forall|i: int| 0 <= i < games@.len() ==> #[trigger] keys@[i]@ == games@[i].id@,
                        forall|i: int| 0 <= i < p ==> text_lt(#[trigger] games@[i].id@, slug@),
                    decreases keys@.len() - p,
                {
                    p += 1;
                }
                if p < keys.len() {
                    proof {
                        assert(games@[p as int].id@ != slug@);
                        assert(slug@.take(0) =~= games@[p as int].id@.take(0));
                        lemma_text_order_total(slug@, games@[p as int].id@, 0);
                    }
                }
                let game = Game { id: slug.clone(), launch_id: slug.clone(), metadata_id: clone_text(&e.product_id) };
                proof {
                    lemma_insert(games@, sources, positions, entries@, k as int, p as int, game);
                    sources = sources.insert(p as int, k as int);
                    positions = positions.map_values(|j: int| if j >= p { j + 1 } else { j }).push(p as int);
                }
                let ghost old_games = games@;
                games.insert(p, game);
                keys.insert(p, key);
                ids.insert(p, slug.clone());
                assert forall|i: int| 0 <= i < games@.len() implies #[trigger] keys@[i]@ == games@[i].id@ by {
                    if i > p {
                        assert(games@[i] == old_games[i - 1]);
                    }
                }
                assert forall|i: int| 0 <= i < games@.len() implies #[trigger] ids@[i]@ == games@[i].id@ by {
                    if i > p {
                        assert(games@[i] == old_games[i - 1]);
                    }
                }
            },
        }
        k += 1;
    }
    assert forall|i: int| 0 <= i < games@.len() implies made_from_first_listing(entries@, #[trigger] games@[i]) by {
        assert(0 <= sources[i] < entries@.len() && first_listing(entries@, sources[i]));
    }
    assert forall|k: int| 0 <= k < entries@.len() && listed(#[trigger] entries@[k]) is Some implies exists|i: int|
        0 <= i < games@.len() && listed(entries@[k]) == Some(#[trigger] games@[i].id@) by {
        assert(listed(entries@[k]) == Some(games@[positions[k]].id@));
    }
    games
}

/// Games whose ids ascend from each one to the next ascend over any two positions, so
/// no id occurs twice.
pub proof fn law_games_have_distinct_ascending_ids(games: Seq<Game>)
    requires
        forall|i: int| 0 <= i < games.len() - 1 ==> text_lt(#[trigger] games[i].id@, games[i + 1].id@),
    ensures
        forall|i: int, j: int| 0 <= i < j < games.len() ==> text_lt(#[trigger] games[i].id@, #[trigger] games[j].id@),
        forall|i: int, j: int| 0 <= i < j < games.len() ==> #[trigger] games[i].id@ != #[trigger] games[j].id@,
{
    assert forall|i: int, j: int| 0 <= i < j < games.len() implies text_lt(#[trigger] games[i].id@, #[trigger] games[j].id@) by {
        lemma_ascending_from(games, i, j);
    }
    assert forall|i: int, j: int| 0 <= i < j < games.len() implies #[trigger] games[i].id@ != #[trigger] games[j].id@ by {
        lemma_ascending_from(games, i, j);
        lemma_text_order_irreflexive(games[i].id@, 0);
    }
}

proof fn lemma_ascending_from(games: Seq<Game>, i: int, j: int)
    requires
        forall|i: int| 0 <= i < games.len() - 1 ==> text_lt(#[trigger] games[i].id@, games[i + 1].id@),
        0 <= i < j < games.len(),
    ensures
        text_lt(games[i].id@, games[j].id@),
    decreases j - i,
{
    if j > i + 1 {
        lemma_ascending_from(games, i + 1, j);
        assert(text_lt(games[i].id@, games[i + 1].id@));
        lemma_text_order_transitive(games[i].id@, games[i + 1].id@, games[j].id@, 0);
    }
}

} // verus!
