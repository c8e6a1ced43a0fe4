//! Provider-ordered title collections: the account's play history, read page by page,
//! and gallery feeds. Server order is kept as it comes; these lists are never sorted.
use vstd::prelude::*;
use crate::catalog::texts;

verus! {

/// History pages read at most.
pub const MAX_HISTORY_PAGES: u32 = 20;

/// One title of a history page.
pub struct RecentTitle {
    pub title_id: String,
}

/// One page of the account's recently played titles.
pub struct RecentPage {
    pub results: Vec<RecentTitle>,
    pub continuation_token: Option<String>,
}

/// Why a history could not be read.
#[derive(Clone, Copy, Debug, PartialEq, Eq, Structural)]
pub enum HistoryError {
    /// The server handed out a continuation token it had already given.
    RepeatedToken,
    /// More pages than the limit.
    PageLimit,
}

/// What to do after a page.
pub enum HistoryStep {
    /// Fetch the page after this continuation token.
    Fetch(String),
    /// The whole history, in server order.
    Done(Vec<String>),
    Failed(HistoryError),
}

/// Abstract state of a history read.
pub ghost struct PagerModel {
    pub order: Seq<Seq<char>>,
    pub tokens: Seq<Seq<char>>,
    pub pages: nat,
}

pub open spec fn page_ids(page: RecentPage) -> Seq<Seq<char>> {
    page.results@.map_values(|t: RecentTitle| t.title_id@)
}

pub open spec fn step_model(step: HistoryStep) -> Result<(bool, Seq<Seq<char>>), HistoryError> {
    match step {
        HistoryStep::Fetch(token) => Ok((false, seq![token@])),
        HistoryStep::Done(order) => Ok((true, texts(order@))),
        HistoryStep::Failed(error) => Err(error),
    }
}

impl PagerModel {
    /// After a page: its titles follow the earlier ones; an absent or empty token ends the
    /// history; a token seen before, or a twentieth page that still continues, fails.
    pub open spec fn after(self, page: RecentPage) -> (Self, Result<(bool, Seq<Seq<char>>), HistoryError>) {
        let order = self.order + page_ids(page);
        let pages = self.pages + 1;
        match page.continuation_token {
            Some(token) if token@.len() > 0 => {
                if self.tokens.contains(token@) {
                    (PagerModel { order, pages, ..self }, Err(HistoryError::RepeatedToken))
                } else if pages >= MAX_HISTORY_PAGES {
                    (PagerModel { order, pages, tokens: self.tokens.push(token@) }, Err(HistoryError::PageLimit))
                } else {
                    (PagerModel { order, pages, tokens: self.tokens.push(token@) }, Ok((false, seq![token@])))
                }
            },
            _ => (PagerModel { order, pages, ..self }, Ok((true, order))),
        }
    }
}

/// The titles of several pages, page after page.
pub open spec fn pages_ids(pages: Seq<RecentPage>) -> Seq<Seq<char>>
    decreases pages.len(),
{
    if pages.len() == 0 {
        Seq::empty()
    } else {
        pages_ids(pages.drop_last()) + page_ids(pages.last())
    }
}

/// The read after several pages in turn.
pub open spec fn after_pages(m: PagerModel, pages: Seq<RecentPage>) -> PagerModel
    decreases pages.len(),
{
    if pages.len() == 0 {
        m
    } else {
        after_pages(m, pages.drop_last()).after(pages.last()).0
    }
}

/// Server order is kept: after any pages the titles are the earlier ones followed by
/// each page's titles in turn, and a history that ends hands out exactly that order.
pub proof fn law_history_keeps_server_order(m: PagerModel, pages: Seq<RecentPage>)
    ensures
        after_pages(m, pages).order == m.order + pages_ids(pages),
        pages.len() > 0 ==> (after_pages(m, pages.drop_last()).after(pages.last()).1 matches Ok((true, order))
            ==> order == m.order + pages_ids(pages)),
    decreases pages.len(),
{
    if pages.len() == 0 {
        assert(m.order + pages_ids(pages) =~= m.order);
    } else {
        law_history_keeps_server_order(m, pages.drop_last());
        let before = after_pages(m, pages.drop_last());
        assert(before.order + page_ids(pages.last()) =~= m.order + pages_ids(pages));
    }
}

/// Reads a history page by page. The first request has no continuation token.
pub struct HistoryPager {
    order: Vec<String>,
    tokens: Vec<String>,
    pages: u32,
}

impl View for HistoryPager {
    type V = PagerModel;

    closed spec fn view(&self) -> PagerModel {
        PagerModel { order: texts(self.order@), tokens: texts(self.tokens@), pages: self.pages as nat }
    }
}

pub(crate) fn contains_text(list: &Vec<String>, item: &String) -> (found: bool)
    ensures
        found == texts(list@).contains(item@),
{
    let mut k: usize = 0;
    while k < list.len()
        invariant
            k <= list@.len(),
            forall|i: int| 0 <= i < k ==> list@[i]@ != item@,
        decreases list@.len() - k,
    {
        if list[k] == *item {
            assert(texts(list@)[k as int] == item@);
            return true;
        }
        k += 1;
    }
    assert forall|i: int| 0 <= i < texts(list@).len() implies texts(list@)[i] != item@ by {
        assert(texts(list@)[i] == list@[i]@);
    }
    false
}

impl HistoryPager {
    pub fn new() -> (pager: Self)
        ensures
            pager@ == (PagerModel { order: Seq::empty(), tokens: Seq::empty(), pages: 0 }),
            pager.wf(),
    {
        let pager = HistoryPager { order: Vec::new(), tokens: Vec::new(), pages: 0 };
        assert(texts(pager.order@) =~= Seq::empty());
        assert(texts(pager.tokens@) =~= Seq::empty());
        pager
    }

    pub closed spec fn wf(&self) -> bool {
        self.pages < MAX_HISTORY_PAGES
    }

    /// The answer to a page request.
    pub fn receive(&mut self, page: RecentPage) -> (step: HistoryStep)
        requires
            old(self).wf(),
        ensures
            (final(self)@, step_model(step)) == old(self)@.after(page),
            step matches HistoryStep::Fetch(_) ==> final(self).wf(),
    {
        let ghost before = self@;
        let ghost ids = page_ids(page);
        let RecentPage { results, continuation_token } = page;
        let mut k: usize = 0;
        while k < results.len()
            invariant
                k <= results@.len(),
                ids == results@.map_values(|t: RecentTitle| t.title_id@),
                texts(self.order@) == before.order + ids.take(k as int),
                self.tokens == old(self).tokens,
                self.pages == old(self).pages,
            decreases results@.len() - k,
        {
            let ghost prev = self.order@;
            self.order.push(results[k].title_id.clone());
            assert(texts(self.order@) =~= texts(prev).push(results@[k as int].title_id@));
            assert(ids.take(k as int + 1) =~= ids.take(k as int).push(ids[k as int]));
            k += 1;
        }
        assert(ids.take(k as int) =~= ids);
        self.pages = self.pages + 1;
        match continuation_token {
            Some(token) => {
                if token.as_str().is_empty() {
                    assert(token@.len() == 0);
                    return HistoryStep::Done(self.order.clone());
                }
                if contains_text(&self.tokens, &token) {
                    return HistoryStep::Failed(HistoryError::RepeatedToken);
                }
                let ghost prev_tokens = self.tokens@;
                self.tokens.push(token.clone());
                assert(texts(self.tokens@) =~= texts(prev_tokens).push(token@));
                if self.pages >= MAX_HISTORY_PAGES {
                    return HistoryStep::Failed(HistoryError::PageLimit);
                }
                HistoryStep::Fetch(token)
            },
            None => HistoryStep::Done(self.order.clone()),
        }
    }
}

/// One row of a gallery response: its product id when the row has a string `id`, and
/// whether it carries a `siglId` (the feed's leading metadata row).
pub struct GalleryEntry {
    pub id: Option<String>,
    pub sigl: bool,
}

/// Why a gallery response is refused.
#[derive(Clone, Copy, Debug, PartialEq, Eq, Structural)]
pub enum GalleryError {
    EmptyProductId,
    /// A row with neither a product id nor a `siglId`: an unknown row is not an empty list.
    InvalidEntry,
}

/// The product ids of `entries` in feed order, or the first row's reason to refuse.
pub open spec fn gallery_ids(entries: Seq<GalleryEntry>) -> Result<Seq<Seq<char>>, GalleryError>
    decreases entries.len(),
{
    if entries.len() == 0 {
        Ok(Seq::empty())
    } else {
        match gallery_ids(entries.drop_last()) {
            Err(e) => Err(e),
            Ok(ids) => match entries.last().id {
                Some(id) => if id@.len() == 0 { Err(GalleryError::EmptyProductId) } else { Ok(ids.push(id@)) },
                None => if entries.last().sigl { Ok(ids) } else { Err(GalleryError::InvalidEntry) },
            },
        }
    }
}

proof fn lemma_gallery_error_persists(entries: Seq<GalleryEntry>, n: int)
    requires
        0 <= n <= entries.len(),
        gallery_ids(entries.take(n)) is Err,
    ensures
        gallery_ids(entries) == gallery_ids(entries.take(n)),
    decreases entries.len() - n,
{
    if n < entries.len() {
        assert(entries.take(n + 1).drop_last() =~= entries.take(n));
        lemma_gallery_error_persists(entries, n + 1);
    } else {
        assert(entries.take(n) =~= entries);
    }
}

/// The product ids of a gallery, in the provider's order (never by release date or name).
pub fn gallery_products(entries: &Vec<GalleryEntry>) -> (ids: Result<Vec<String>, GalleryError>)
    ensures
        match ids {
            Ok(list) => gallery_ids(entries@) == Ok::<Seq<Seq<char>>, GalleryError>(texts(list@)),
            Err(e) => gallery_ids(entries@) == Err::<Seq<Seq<char>>, GalleryError>(e),
        },
{
    let mut ids: Vec<String> = Vec::new();
    let mut k: usize = 0;
    assert(entries@.take(0) =~= Seq::<GalleryEntry>::empty());
    assert(texts(ids@) =~= Seq::empty());
    while k < entries.len()
        invariant
            k <= entries@.len(),
            gallery_ids(entries@.take(k as int)) == Ok::<Seq<Seq<char>>, GalleryError>(texts(ids@)),
        decreases entries@.len() - k,
    {
        assert(entries@.take(k as int + 1).drop_last() =~= entries@.take(k as int));
        match &entries[k].id {
            Some(id) => {
                if id.as_str().is_empty() {
                    proof {
                        lemma_gallery_error_persists(entries@, k as int + 1);
                    }
                    return Err(GalleryError::EmptyProductId);
                }
                let ghost prev = ids@;
                ids.push(id.clone());
                assert(texts(ids@) =~= texts(prev).push(id@));
            },
            None => {
                if !entries[k].sigl {
                    proof {
                        lemma_gallery_error_persists(entries@, k as int + 1);
                    }
                    return Err(GalleryError::InvalidEntry);
                }
            },
        }
        k += 1;
    }
    assert(entries@.take(k as int) =~= entries@);
    Ok(ids)
}

/// The id of the last of `games` whose product id is `product`; the catalog's games are
/// `(id, product id)` pairs.
pub open spec fn game_for_product(games: Seq<(String, Option<String>)>, product: Seq<char>) -> Option<Seq<char>>
    decreases games.len(),
{
    if games.len() == 0 {
        None
    } else if games.last().1 matches Some(p) && p@ == product {
        Some(games.last().0@)
    } else {
        game_for_product(games.drop_last(), product)
    }
}

/// The catalog ids of a gallery's products, in gallery order; products with no game in
/// the catalog are left out.
pub open spec fn gallery_game_ids(products: Seq<Seq<char>>, games: Seq<(String, Option<String>)>) -> Seq<Seq<char>>
    decreases products.len(),
{
    if products.len() == 0 {
        Seq::empty()
    } else {
        let rest = gallery_game_ids(products.drop_last(), games);
        match game_for_product(games, products.last()) {
            Some(id) => rest.push(id),
            None => rest,
        }
    }
}

fn find_game(games: &[(String, Option<String>)], product: &String) -> (id: Option<String>)
    ensures
        match id {
            Some(s) => game_for_product(games@, product@) == Some(s@),
            None => game_for_product(games@, product@) is None,
        },
{
    let mut k: usize = games.len();
    assert(games@.take(k as int) =~= games@);
    while k > 0
        invariant
            k <= games@.len(),
            game_for_product(games@, product@) == game_for_product(games@.take(k as int), product@),
        decreases k,
    {
        let ghost prefix = games@.take(k as int);
        assert(prefix.drop_last() =~= games@.take(k as int - 1));
        match &games[k - 1].1 {
            Some(p) => {
                if *p == *product {
                    return Some(games[k - 1].0.clone());
                }
            },
            None => {},
        }
        k -= 1;
    }
    None
}

/// The catalog ids of a gallery's products, in gallery order (never re-sorted): each
/// product maps to the last catalog game that names it, and unknown products drop out.
pub fn gallery_games(products: &Vec<String>, games: &[(String, Option<String>)]) -> (ids: Vec<String>)
    ensures
        texts(ids@) == gallery_game_ids(texts(products@), games@),
{
    let mut ids: Vec<String> = Vec::new();
    let mut k: usize = 0;
    while k < products.len()
        invariant
            k <= products@.len(),
            texts(ids@) == gallery_game_ids(texts(products@).take(k as int), games@),
        decreases products@.len() - k,
    {
        let ghost before = ids@;
        assert(texts(products@).take(k as int + 1).drop_last() =~= texts(products@).take(k as int));
        assert(texts(products@).take(k as int + 1).last() == products@[k as int]@);
        match find_game(games, &products[k]) {
            Some(id) => {
                ids.push(id);
                assert(texts(ids@) =~= texts(before).push(ids@.last()@));
            },
            None => {},
        }
        k += 1;
    }
    assert(texts(products@).take(k as int) =~= texts(products@));
    ids
}

} // verus!
