//! What holds of pages of accounts.

use vstd::prelude::*;

use crate::storage::{is_page, listable, organization_account, TablesView};
use crate::text::{text_before, text_before_irreflexive, text_before_total, text_before_transitive};

verus! {

/// Of two pages that agree up to `i`, neither is ahead of the other at `i`.
proof fn lemma_pages_agree_at(
    t: TablesView,
    organization_id: Seq<char>,
    after: Option<Seq<char>>,
    limit: nat,
    a: Seq<Seq<char>>,
    b: Seq<Seq<char>>,
    i: int,
)
    requires
        is_page(t, organization_id, after, limit, a),
        is_page(t, organization_id, after, limit, b),
        0 <= i < a.len(),
        i < b.len(),
        forall|k: int| 0 <= k < i ==> a[k] == b[k],
    ensures
        !text_before(a[i], b[i]),
{
    let x = a[i];
    let y = b[i];
    assert(listable(t, organization_id, after, x));
    text_before_irreflexive(x);
    if text_before(x, y) {
        if b.contains(x) {
            let k = b.index_of(x);
            if k < i {
                assert(text_before(a[k], a[i]));
            } else if k > i {
                assert(text_before(b[i], b[k]));
                text_before_transitive(x, y, x);
            }
        } else {
            assert(text_before(b[i], x));
            text_before_transitive(x, y, x);
        }
    }
}

/// Of two pages that agree as far as both go, neither ends before the other.
proof fn lemma_pages_end_together(
    t: TablesView,
    organization_id: Seq<char>,
    after: Option<Seq<char>>,
    limit: nat,
    a: Seq<Seq<char>>,
    b: Seq<Seq<char>>,
)
    requires
        is_page(t, organization_id, after, limit, a),
        is_page(t, organization_id, after, limit, b),
        forall|k: int| 0 <= k < a.len() && k < b.len() ==> a[k] == b[k],
    ensures
        a.len() <= b.len(),
{
    if b.len() < a.len() {
        let x = a[b.len() as int];
        assert(listable(t, organization_id, after, x));
        if b.contains(x) {
            let k = b.index_of(x);
            assert(text_before(a[k], a[b.len() as int]));
            text_before_irreflexive(x);
        }
    }
}

proof fn lemma_pages_agree_up_to(
    t: TablesView,
    organization_id: Seq<char>,
    after: Option<Seq<char>>,
    limit: nat,
    a: Seq<Seq<char>>,
    b: Seq<Seq<char>>,
    i: int,
)
    requires
        is_page(t, organization_id, after, limit, a),
        is_page(t, organization_id, after, limit, b),
        0 <= i <= a.len(),
        i <= b.len(),
    ensures
        forall|k: int| 0 <= k < i ==> a[k] == b[k],
    decreases i,
{
    if i > 0 {
        lemma_pages_agree_up_to(t, organization_id, after, limit, a, b, i - 1);
        text_before_total(a[i - 1], b[i - 1]);
        lemma_pages_agree_at(t, organization_id, after, limit, a, b, i - 1);
        lemma_pages_agree_at(t, organization_id, after, limit, b, a, i - 1);
    }
}

/// A query has one page only.
pub proof fn pages_are_unique(
    t: TablesView,
    organization_id: Seq<char>,
    after: Option<Seq<char>>,
    limit: nat,
    a: Seq<Seq<char>>,
    b: Seq<Seq<char>>,
)
    requires
        is_page(t, organization_id, after, limit, a),
        is_page(t, organization_id, after, limit, b),
    ensures
        a == b,
{
    let shorter = if a.len() <= b.len() {
        a.len()
    } else {
        b.len()
    };
    lemma_pages_agree_up_to(t, organization_id, after, limit, a, b, shorter as int);
    lemma_pages_end_together(t, organization_id, after, limit, a, b);
    lemma_pages_end_together(t, organization_id, after, limit, b, a);
    assert(a =~= b);
}

/// A full page followed by the page after its last account is one longer page:
/// paging neither skips nor repeats an account.
pub proof fn pages_join(
    t: TablesView,
    organization_id: Seq<char>,
    after: Option<Seq<char>>,
    first: Seq<Seq<char>>,
    limit: nat,
    second: Seq<Seq<char>>,
)
    requires
        first.len() > 0,
        is_page(t, organization_id, after, first.len(), first),
        is_page(t, organization_id, Some(first.last()), limit, second),
    ensures
        is_page(t, organization_id, after, first.len() + limit, first + second),
{
    let last = first.last();
    let all = first + second;
    let n = first.len() as int;
    assert(listable(t, organization_id, after, first[n - 1]));
    assert forall|j: int| 0 <= j < second.len() implies {
        &&& listable(t, organization_id, after, #[trigger] second[j])
        &&& text_before(last, second[j])
    } by {
        assert(listable(t, organization_id, Some(last), second[j]));
        if after is Some {
            text_before_transitive(after.unwrap(), last, second[j]);
        }
    }
    assert forall|i: int| 0 <= i < all.len() implies listable(
        t,
        organization_id,
        after,
        #[trigger] all[i],
    ) by {
        if i < n {
            assert(all[i] == first[i]);
        } else {
            assert(all[i] == second[i - n]);
        }
    }
    assert forall|i: int, j: int| 0 <= i < j < all.len() implies text_before(
        #[trigger] all[i],
        #[trigger] all[j],
    ) by {
        if j < n {
            assert(all[i] == first[i] && all[j] == first[j]);
        } else if i >= n {
            assert(all[i] == second[i - n] && all[j] == second[j - n]);
        } else {
            assert(all[i] == first[i] && all[j] == second[j - n]);
            if i < n - 1 {
                assert(text_before(first[i], first[n - 1]));
                text_before_transitive(first[i], last, second[j - n]);
            }
        }
    }
    assert forall|id: Seq<char>| #[trigger]
        listable(t, organization_id, after, id) && !all.contains(id) implies {
        &&& all.len() == first.len() + limit
        &&& forall|i: int| 0 <= i < all.len() ==> text_before(#[trigger] all[i], id)
    } by {
        if first.contains(id) {
            let k = first.index_of(id);
            assert(all[k] == id);
        }
        if second.contains(id) {
            let k = second.index_of(id);
            assert(all[n + k] == id);
        }
        assert(text_before(first[n - 1], id));
        assert(listable(t, organization_id, Some(last), id));
        assert forall|i: int| 0 <= i < all.len() implies text_before(#[trigger] all[i], id) by {
            if i < n {
                assert(all[i] == first[i]);
            } else {
                assert(all[i] == second[i - n]);
            }
        }
    }
}

/// The accounts that `pages` show, in their order.
pub open spec fn shown_by(pages: Seq<Seq<Seq<char>>>) -> Seq<Seq<char>>
    decreases pages.len(),
{
    if pages.len() == 0 {
        Seq::empty()
    } else {
        shown_by(pages.drop_last()) + pages.last()
    }
}

/// Some account of the organization follows the page that was asked for after
/// `after`.
pub open spec fn has_more(
    t: TablesView,
    organization_id: Seq<char>,
    after: Option<Seq<char>>,
    page: Seq<Seq<char>>,
) -> bool {
    exists|id: Seq<char>| #[trigger]
        listable(t, organization_id, after, id) && !page.contains(id)
}

/// The cursor with which page `k` is asked for: none for the first page, and
/// the last account of the page before for every other.
pub open spec fn cursor_of(pages: Seq<Seq<Seq<char>>>, k: int) -> Option<Seq<char>> {
    if k == 0 {
        None
    } else {
        Some(pages[k - 1].last())
    }
}

/// `pages` are read one after the other, at most `limit` accounts each, from the
/// first page on as long as there is more.
pub open spec fn is_traversal(
    t: TablesView,
    organization_id: Seq<char>,
    limit: nat,
    pages: Seq<Seq<Seq<char>>>,
) -> bool {
    &&& pages.len() > 0
    &&& forall|k: int|
        0 <= k < pages.len() ==> {
            &&& is_page(t, organization_id, cursor_of(pages, k), limit, #[trigger] pages[k])
            &&& has_more(t, organization_id, cursor_of(pages, k), pages[k]) == (k < pages.len()
                - 1)
        }
}

/// The first `n` pages of a traversal make one page.
proof fn lemma_traversed(
    t: TablesView,
    organization_id: Seq<char>,
    limit: nat,
    pages: Seq<Seq<Seq<char>>>,
    n: int,
)
    requires
        limit > 0,
        is_traversal(t, organization_id, limit, pages),
        1 <= n <= pages.len(),
    ensures
        is_page(t, organization_id, None, (n * limit) as nat, shown_by(pages.take(n))),
        n < pages.len() ==> shown_by(pages.take(n)).len() == n * limit,
        n < pages.len() ==> shown_by(pages.take(n)).last() == pages[n - 1].last(),
    decreases n,
{
    let shown = shown_by(pages.take(n));
    let page = pages[n - 1];
    assert(pages.take(n).drop_last() =~= pages.take(n - 1));
    assert(pages.take(n).last() == page);
    if n < pages.len() {
        assert(has_more(t, organization_id, cursor_of(pages, n - 1), page));
        assert(page.len() == limit);
    }
    if n == 1 {
        assert(pages.take(0).len() == 0);
        assert(shown =~= page);
    } else {
        lemma_traversed(t, organization_id, limit, pages, n - 1);
        let first = shown_by(pages.take(n - 1));
        assert(n * limit == (n - 1) * limit + limit) by (nonlinear_arith);
        assert((n - 1) * limit > 0) by (nonlinear_arith)
            requires
                n > 1,
                limit > 0,
        ;
        pages_join(t, organization_id, None, first, limit, page);
    }
}

/// Reading page after page, each after the last account of the one before, shows
/// every account of the organization once, and in order.
pub proof fn a_traversal_shows_every_account_once(
    t: TablesView,
    organization_id: Seq<char>,
    limit: nat,
    pages: Seq<Seq<Seq<char>>>,
)
    requires
        limit > 0,
        is_traversal(t, organization_id, limit, pages),
    ensures
        forall|id: Seq<char>|
            #[trigger] shown_by(pages).contains(id) == organization_account(t, organization_id, id),
        shown_by(pages).no_duplicates(),
        forall|i: int, j: int|
            0 <= i < j < shown_by(pages).len() ==> text_before(
                #[trigger] shown_by(pages)[i],
                #[trigger] shown_by(pages)[j],
            ),
{
    let n = pages.len() as int;
    let shown = shown_by(pages);
    lemma_traversed(t, organization_id, limit, pages, n);
    assert(pages.take(n) =~= pages);
    let page = pages[n - 1];
    let cursor = cursor_of(pages, n - 1);
    assert(!has_more(t, organization_id, cursor, page));
    assert(pages.last() == page);
    if n > 1 {
        lemma_traversed(t, organization_id, limit, pages, n - 1);
        assert(pages.take(n - 1) =~= pages.drop_last());
    }
    let earlier = shown_by(pages.drop_last());
    assert forall|id: Seq<char>| #[trigger]
        shown.contains(id) == organization_account(t, organization_id, id) by {
        if shown.contains(id) {
            assert(listable(t, organization_id, None, shown[shown.index_of(id)]));
        }
        if organization_account(t, organization_id, id) && !shown.contains(id) {
            assert(listable(t, organization_id, None, id));
            if page.contains(id) {
                assert(shown[earlier.len() + page.index_of(id)] == id);
            }
            if n > 1 {
                if earlier.contains(id) {
                    assert(shown[earlier.index_of(id)] == id);
                }
                assert(text_before(earlier[earlier.len() - 1], id));
                assert(listable(t, organization_id, cursor, id));
            }
            assert(false);
        }
    }
    assert forall|i: int, j: int| 0 <= i < shown.len() && 0 <= j < shown.len() && i != j implies
        shown[i] != shown[j] by {
        text_before_irreflexive(shown[i]);
        if i < j {
            assert(text_before(shown[i], shown[j]));
        } else {
            assert(text_before(shown[j], shown[i]));
        }
    }
}

} // verus!
