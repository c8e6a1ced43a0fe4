//! Local catalog organization, keyed by provider-stable game ID, never row index.
use vstd::prelude::*;

verus! {

pub const MAX_RECENTLY_PLAYED: usize = 50;

#[derive(Clone, Copy, PartialEq, Eq, Structural, Debug)]
pub enum CatalogSection {
    All,
    Favorites,
    RecentlyPlayed,
    RecentlyAdded,
}

pub open spec fn section_key(section: CatalogSection) -> Seq<char> {
    match section {
        CatalogSection::All => "catalog-all"@,
        CatalogSection::Favorites => "catalog-favorites"@,
        CatalogSection::RecentlyPlayed => "catalog-recently-played"@,
        CatalogSection::RecentlyAdded => "catalog-recently-added"@,
    }
}

impl CatalogSection {
    /// Every section, in display order.
    pub fn all() -> (sections: [CatalogSection; 4])
        ensures
            sections@ == seq![CatalogSection::All, CatalogSection::Favorites, CatalogSection::RecentlyPlayed,
                CatalogSection::RecentlyAdded],
    {
        let sections = [CatalogSection::All, CatalogSection::Favorites, CatalogSection::RecentlyPlayed,
            CatalogSection::RecentlyAdded];
        assert(sections@ =~= seq![CatalogSection::All, CatalogSection::Favorites, CatalogSection::RecentlyPlayed,
                CatalogSection::RecentlyAdded]);
        sections
    }

    /// Translation key of the section's label.
    pub fn label_key(self) -> (key: &'static str)
        ensures
            key@ == section_key(self),
    {
        match self {
            CatalogSection::All => "catalog-all",
            CatalogSection::Favorites => "catalog-favorites",
            CatalogSection::RecentlyPlayed => "catalog-recently-played",
            CatalogSection::RecentlyAdded => "catalog-recently-added",
        }
    }
}

impl Default for CatalogSection {
    fn default() -> (section: Self)
        ensures
            section == CatalogSection::All,
    {
        CatalogSection::All
    }
}

/// The texts of a list of strings.
pub open spec fn texts(list: Seq<String>) -> Seq<Seq<char>> {
    list.map_values(|s: String| s@)
}

/// `list` without any entry equal to `id`, in order.
pub open spec fn without_text(list: Seq<Seq<char>>, id: Seq<char>) -> Seq<Seq<char>>
    decreases list.len(),
{
    if list.len() == 0 {
        list
    } else {
        let rest = without_text(list.drop_last(), id);
        if list.last() == id { rest } else { rest.push(list.last()) }
    }
}

/// History after playing `id`: `id` first, then the earlier entries without it, at most fifty.
pub open spec fn history_after(history: Seq<Seq<char>>, id: Seq<char>) -> Seq<Seq<char>> {
    let all = seq![id] + without_text(history, id);
    if all.len() > MAX_RECENTLY_PLAYED { all.take(MAX_RECENTLY_PLAYED as int) } else { all }
}

/// Index of the last id equal to `id` (the one a map built in order keeps).
pub open spec fn last_index(ids: Seq<Seq<char>>, id: Seq<char>) -> Option<int>
    decreases ids.len(),
{
    if ids.len() == 0 {
        None
    } else if ids.last() == id {
        Some(ids.len() - 1)
    } else {
        last_index(ids.drop_last(), id)
    }
}

/// Provider order mapped to row indices: unavailable ids are skipped and each row
/// appears once, at its first mention.
pub open spec fn ordered(ids: Seq<Seq<char>>, order: Seq<Seq<char>>) -> Seq<usize>
    decreases order.len(),
{
    if order.len() == 0 {
        Seq::empty()
    } else {
        let acc = ordered(ids, order.drop_last());
        match last_index(ids, order.last()) {
            Some(i) => if acc.contains(i as usize) { acc } else { acc.push(i as usize) },
            None => acc,
        }
    }
}

/// Rows, in catalog order, whose id is a favorite.
pub open spec fn favorite_rows(ids: Seq<Seq<char>>, favorites: Set<Seq<char>>) -> Seq<usize>
    decreases ids.len(),
{
    if ids.len() == 0 {
        Seq::empty()
    } else {
        let acc = favorite_rows(ids.drop_last(), favorites);
        if favorites.contains(ids.last()) { acc.push((ids.len() - 1) as usize) } else { acc }
    }
}

/// Favorites and local play history.
pub struct CatalogPreferences {
    pub favorites: Vec<String>,
    /// Most recently successfully started first. This is local, not Xbox history.
    pub recently_played: Vec<String>,
}

impl CatalogPreferences {
    /// Favorites form a set: no id twice.
    pub open spec fn wf(&self) -> bool {
        texts(self.favorites@).no_duplicates()
    }

    pub open spec fn favorite_set(&self) -> Set<Seq<char>> {
        texts(self.favorites@).to_set()
    }

    pub fn new() -> (prefs: Self)
        ensures
            prefs.wf(),
            prefs.favorites@.len() == 0,
            prefs.recently_played@.len() == 0,
    {
        CatalogPreferences { favorites: Vec::new(), recently_played: Vec::new() }
    }

    fn find(list: &Vec<String>, id: &String) -> (index: Option<usize>)
        ensures
            match index {
                Some(i) => i < list@.len() && list@[i as int]@ == id@
                    && forall|j: int| 0 <= j < i ==> list@[j]@ != id@,
                None => forall|j: int| 0 <= j < list@.len() ==> list@[j]@ != id@,
            },
    {
        let mut k: usize = 0;
        while k < list.len()
            invariant
                k <= list@.len(),
                forall|j: int| 0 <= j < k ==> list@[j]@ != id@,
            decreases list@.len() - k,
        {
            if list[k] == *id {
                return Some(k);
            }
            k += 1;
        }
        None
    }

    /// Add `id` to the favorites, or remove it when it is already one.
    pub fn toggle_favorite(&mut self, id: &str)
        requires
            old(self).wf(),
        ensures
            final(self).wf(),
            final(self).recently_played@ == old(self).recently_played@,
            final(self).favorite_set() == (if old(self).favorite_set().contains(id@) {
                old(self).favorite_set().remove(id@)
            } else {
                old(self).favorite_set().insert(id@)
            }),
    {
        let owned = id.to_owned();
        let ghost before = texts(self.favorites@);
        match Self::find(&self.favorites, &owned) {
            Some(i) => {
                proof {
                    assert(before[i as int] == id@);
                }
                self.favorites.remove(i);
                proof {
                    let after = texts(self.favorites@);
                    assert(after =~= before.remove(i as int));
                    assert forall|a: int, b: int| 0 <= a < b < after.len() implies after[a] != after[b] by {
                        let oa = if a < i { a } else { a + 1 };
                        let ob = if b < i { b } else { b + 1 };
                        assert(after[a] == before[oa] && after[b] == before[ob]);
                    }
                    assert forall|x: Seq<char>| after.to_set().contains(x) == before.to_set().remove(id@).contains(x) by {
                        if after.contains(x) {
                            let j = choose|j: int| 0 <= j < after.len() && after[j] == x;
                            let o = if j < i { j } else { j + 1 };
                            assert(before[o] == x);
                            assert(o != i as int);
                        }
                        if before.contains(x) && x != id@ {
                            let o = choose|o: int| 0 <= o < before.len() && before[o] == x;
                            assert(o != i as int);
                            let j = if o < i { o } else { o - 1 };
                            assert(after[j] == x);
                        }
                    }
                    assert(after.to_set() =~= before.to_set().remove(id@));
                }
            },
            None => {
                self.favorites.push(owned);
                proof {
                    let after = texts(self.favorites@);
                    assert(after =~= before.push(id@));
                    before.lemma_push_to_set_commute(id@);
                    assert(!before.contains(id@));
                    assert forall|a: int, b: int| 0 <= a < b < after.len() implies after[a] != after[b] by {
                        if b == before.len() {
                            assert(after[a] == before[a]);
                        } else {
                            assert(after[a] == before[a] && after[b] == before[b]);
                        }
                    }
                }
            },
        }
    }

    /// Move `id` to the front of the history, without duplicates, keeping at most 50.
    pub fn record_played(&mut self, id: &str)
        ensures
            final(self).favorites@ == old(self).favorites@,
            texts(final(self).recently_played@) == history_after(texts(old(self).recently_played@), id@),
    {
        let owned = id.to_owned();
        let ghost before = texts(self.recently_played@);
        let mut kept: Vec<String> = Vec::new();
        let mut k: usize = 0;
        while k < self.recently_played.len()
            invariant
                k <= self.recently_played@.len(),
                before == texts(self.recently_played@),
                owned@ == id@,
                texts(kept@) == without_text(before.take(k as int), id@),
            decreases self.recently_played@.len() - k,
        {
            assert(before.take(k as int + 1).drop_last() =~= before.take(k as int));
            if self.recently_played[k] != owned {
                let entry = self.recently_played[k].clone();
                kept.push(entry);
                assert(texts(kept@) =~= without_text(before.take(k as int + 1), id@));
            } else {
                assert(texts(kept@) =~= without_text(before.take(k as int + 1), id@));
            }
            k += 1;
        }
        assert(before.take(before.len() as int) =~= before);
        kept.insert(0, owned);
        kept.truncate(MAX_RECENTLY_PLAYED);
        proof {
            assert(texts(kept@) =~= history_after(before, id@));
        }
        self.recently_played = kept;
    }
}

impl Default for CatalogPreferences {
    fn default() -> (prefs: Self)
        ensures
            prefs.wf(),
            prefs.favorites@.len() == 0,
            prefs.recently_played@.len() == 0,
    {
        CatalogPreferences::new()
    }
}

/// Provider-supplied order in stable game IDs. None means unsupported/not loaded;
/// Some(empty) means loaded with no matching titles. Never derive this from a
/// game's release date or from the order in which its metadata finished loading.
pub struct CatalogCollections {
    pub recently_added: Option<Vec<String>>,
}

impl CatalogCollections {
    pub fn new() -> (collections: Self)
        ensures
            collections.recently_added is None,
    {
        CatalogCollections { recently_added: None }
    }

    pub fn supports(&self, section: CatalogSection) -> (supported: bool)
        ensures
            supported == (section != CatalogSection::RecentlyAdded || self.recently_added is Some),
    {
        section != CatalogSection::RecentlyAdded || self.recently_added.is_some()
    }

    /// Row indices of `ids` shown in `section`, in the section's order.
    pub fn indices(&self, ids: &[&str], section: CatalogSection, prefs: &CatalogPreferences) -> (rows: Vec<usize>)
        ensures
            ({
                let names = ids@.map_values(|s: &str| s@);
                rows@ == match section {
                    CatalogSection::All => Seq::new(ids@.len(), |i: int| i as usize),
                    CatalogSection::Favorites => favorite_rows(names, prefs.favorite_set()),
                    CatalogSection::RecentlyPlayed => ordered(names, texts(prefs.recently_played@)),
                    CatalogSection::RecentlyAdded => match self.recently_added {
                        Some(order) => ordered(names, texts(order@)),
                        None => Seq::empty(),
                    },
                }
            }),
    {
        let names = owned_names(ids);
        match section {
            CatalogSection::All => {
                let mut rows: Vec<usize> = Vec::new();
                let mut k: usize = 0;
                while k < ids.len()
                    invariant
                        k <= ids@.len(),
                        rows@ == Seq::new(k as nat, |i: int| i as usize),
                    decreases ids@.len() - k,
                {
                    rows.push(k);
                    k += 1;
                    assert(rows@ =~= Seq::new(k as nat, |i: int| i as usize));
                }
                rows
            },
            CatalogSection::Favorites => favorite_indices(&names, &prefs.favorites),
            CatalogSection::RecentlyPlayed => ordered_indices(&names, &prefs.recently_played),
            CatalogSection::RecentlyAdded => match &self.recently_added {
                Some(order) => ordered_indices(&names, order),
                None => Vec::new(),
            },
        }
    }
}

impl Default for CatalogCollections {
    fn default() -> (collections: Self)
        ensures
            collections.recently_added is None,
    {
        CatalogCollections::new()
    }
}

fn owned_names(ids: &[&str]) -> (names: Vec<String>)
    ensures
        texts(names@) == ids@.map_values(|s: &str| s@),
{
    let mut names: Vec<String> = Vec::new();
    let mut k: usize = 0;
    while k < ids.len()
        invariant
            k <= ids@.len(),
            names@.len() == k,
            forall|j: int| 0 <= j < k ==> (#[trigger] names@[j])@ == ids@[j]@,
        decreases ids@.len() - k,
    {
        names.push(ids[k].to_owned());
        k += 1;
    }
    assert(texts(names@) =~= ids@.map_values(|s: &str| s@));
    names
}

fn favorite_indices(names: &Vec<String>, favorites: &Vec<String>) -> (rows: Vec<usize>)
    ensures
        rows@ == favorite_rows(texts(names@), texts(favorites@).to_set()),
{
    let ghost all = texts(names@);
    let ghost favs = texts(favorites@).to_set();
    let mut rows: Vec<usize> = Vec::new();
    let mut k: usize = 0;
    while k < names.len()
        invariant
            k <= names@.len(),
            all == texts(names@),
            favs == texts(favorites@).to_set(),
            rows@ == favorite_rows(all.take(k as int), favs),
        decreases names@.len() - k,
    {
        assert(all.take(k as int + 1).drop_last() =~= all.take(k as int));
        let found = CatalogPreferences::find(favorites, &names[k]);
        proof {
            if found is Some {
                assert(texts(favorites@)[found->0 as int] == all[k as int]);
                assert(favs.contains(all[k as int]));
            } else {
                assert(!texts(favorites@).contains(all[k as int]));
            }
        }
        if found.is_some() {
            rows.push(k);
        }
        k += 1;
    }
    assert(all.take(names@.len() as int) =~= all);
    rows
}

fn last_position(names: &Vec<String>, id: &String) -> (index: Option<usize>)
    ensures
        match index {
            Some(i) => last_index(texts(names@), id@) == Some(i as int),
            None => last_index(texts(names@), id@) is None,
        },
{
    let ghost all = texts(names@);
    let mut k: usize = names.len();
    assert(all.take(k as int) =~= all);
    while k > 0
        invariant
            k <= names@.len(),
            all == texts(names@),
            last_index(all, id@) == last_index(all.take(k as int), id@),
        decreases k,
    {
        assert(all.take(k as int).drop_last() =~= all.take(k as int - 1));
        if names[k - 1] == *id {
            return Some(k - 1);
        }
        k -= 1;
    }
    None
}

fn ordered_indices(names: &Vec<String>, order: &Vec<String>) -> (rows: Vec<usize>)
    ensures
        rows@ == ordered(texts(names@), texts(order@)),
{
    let ghost all = texts(names@);
    let ghost wanted = texts(order@);
    let mut rows: Vec<usize> = Vec::new();
    let mut k: usize = 0;
    proof {
        assert(all.take(all.len() as int) =~= all);
    }
    while k < order.len()
        invariant
            k <= order@.len(),
            all == texts(names@),
            wanted == texts(order@),
            rows@ == ordered(all, wanted.take(k as int)),
        decreases order@.len() - k,
    {
        assert(wanted.take(k as int + 1).drop_last() =~= wanted.take(k as int));
        assert(wanted.take(k as int + 1).last() == order@[k as int]@);
        proof {
            assert(all.take(all.len() as int) =~= all);
        }
        match last_position(names, &order[k]) {
            Some(i) => {
                let mut seen = false;
                let mut j: usize = 0;
                while j < rows.len()
                    invariant
                        j <= rows@.len(),
                        seen == exists|m: int| 0 <= m < j && rows@[m] == i,
                    decreases rows@.len() - j,
                {
                    if rows[j] == i {
                        seen = true;
                    }
                    j += 1;
                }
                if !seen {
                    rows.push(i);
                }
            },
            None => {},
        }
        k += 1;
    }
    assert(wanted.take(order@.len() as int) =~= wanted);
    rows
}

/// A favorite is found wherever its game now sits in the catalog: favorites are keyed
/// by id, so reordering the catalog reorders the rows but never loses or adds one.
pub proof fn law_favorites_follow_ids(ids: Seq<Seq<char>>, favorites: Set<Seq<char>>, k: int)
    requires
        0 <= k < ids.len(),
        ids.len() <= usize::MAX,
    ensures
        favorite_rows(ids, favorites).contains(k as usize) <==> favorites.contains(ids[k]),
    decreases ids.len(),
{
    let rest = ids.drop_last();
    let acc = favorite_rows(rest, favorites);
    let all = favorite_rows(ids, favorites);
    lemma_favorite_rows_below(rest, favorites);
    if k < ids.len() - 1 {
        law_favorites_follow_ids(rest, favorites, k);
        assert(rest[k] == ids[k]);
        if favorites.contains(ids.last()) {
            assert(all == acc.push((ids.len() - 1) as usize));
            if acc.contains(k as usize) {
                let m = choose|m: int| 0 <= m < acc.len() && acc[m] == k as usize;
                assert(all[m] == k as usize);
            }
            if all.contains(k as usize) {
                let m = choose|m: int| 0 <= m < all.len() && all[m] == k as usize;
                if m < acc.len() {
                    assert(acc[m] == k as usize);
                }
            }
        }
    } else {
        if favorites.contains(ids.last()) {
            assert(all[acc.len() as int] == k as usize);
        } else {
            if all.contains(k as usize) {
                let m = choose|m: int| 0 <= m < all.len() && all[m] == k as usize;
                assert(acc[m] < rest.len());
            }
        }
    }
}

proof fn lemma_favorite_rows_below(ids: Seq<Seq<char>>, favorites: Set<Seq<char>>)
    requires
        ids.len() <= usize::MAX,
    ensures
        forall|m: int| 0 <= m < favorite_rows(ids, favorites).len() ==> (#[trigger] favorite_rows(ids, favorites)[m]) < ids.len(),
    decreases ids.len(),
{
    if ids.len() > 0 {
        lemma_favorite_rows_below(ids.drop_last(), favorites);
        let acc = favorite_rows(ids.drop_last(), favorites);
        assert forall|m: int| 0 <= m < favorite_rows(ids, favorites).len() implies (#[trigger] favorite_rows(ids, favorites)[m]) < ids.len() by {
            if m < acc.len() {
                assert(favorite_rows(ids, favorites)[m] == acc[m]);
            }
        }
    }
}

/// The history never holds an id twice and never more than fifty entries.
pub proof fn law_history_is_bounded_and_distinct(history: Seq<Seq<char>>, id: Seq<char>)
    requires
        history.no_duplicates(),
    ensures
        history_after(history, id).len() <= MAX_RECENTLY_PLAYED,
        history_after(history, id).no_duplicates(),
        history_after(history, id)[0] == id,
{
    lemma_without_text(history, id);
    let rest = without_text(history, id);
    let all = seq![id] + rest;
    assert forall|a: int, b: int| 0 <= a < b < all.len() implies all[a] != all[b] by {
        if a == 0 {
            assert(all[b] == rest[b - 1]);
        } else {
            assert(all[a] == rest[a - 1] && all[b] == rest[b - 1]);
        }
    }
}

proof fn lemma_without_text(list: Seq<Seq<char>>, id: Seq<char>)
    ensures
        forall|k: int| 0 <= k < without_text(list, id).len() ==> #[trigger] without_text(list, id)[k] != id,
        forall|k: int| 0 <= k < without_text(list, id).len() ==> list.contains(#[trigger] without_text(list, id)[k]),
        list.no_duplicates() ==> without_text(list, id).no_duplicates(),
    decreases list.len(),
{
    if list.len() > 0 {
        let rest = list.drop_last();
        lemma_without_text(rest, id);
        let w = without_text(list, id);
        let wr = without_text(rest, id);
        assert forall|k: int| 0 <= k < w.len() implies list.contains(#[trigger] w[k]) by {
            if k < wr.len() {
                assert(w[k] == wr[k]);
                let o = choose|o: int| 0 <= o < rest.len() && rest[o] == wr[k];
                assert(list[o] == rest[o]);
            } else {
                assert(w[k] == list[list.len() - 1]);
            }
        }
        if list.no_duplicates() {
            assert forall|a: int, b: int| 0 <= a < b < rest.len() implies rest[a] != rest[b] by {
                assert(rest[a] == list[a] && rest[b] == list[b]);
            }
            assert forall|a: int, b: int| 0 <= a < b < w.len() implies w[a] != w[b] by {
                if b == wr.len() {
                    assert(w[b] == list.last());
                    assert(w[a] == wr[a]);
                    let o = choose|o: int| 0 <= o < rest.len() && rest[o] == wr[a];
                    assert(list[o] == rest[o]);
                } else {
                    assert(w[a] == wr[a] && w[b] == wr[b]);
                }
            }
        }
    }
}

} // verus!
