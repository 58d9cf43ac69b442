//! A side-specific ordered container of resting orders with cached
//! best-price metadata.

use vstd::prelude::*;
use crate::order::{Order, TradeType};

verus! {

/// Best-price placeholder of an empty bid book; below every real price.
pub const EMPTY_BID_PRICE: i64 = i64::MIN;

/// Best-price placeholder of an empty ask book; above every real price.
pub const EMPTY_ASK_PRICE: i64 = i64::MAX;

/// Why a book refused a mutation.
#[derive(Clone, Copy, Debug, PartialEq, Eq, Structural)]
pub enum BookError {
    /// The order belongs to the other side.
    SideMismatch,
    /// An order with the same trader id already rests in this book.
    DuplicateId,
    /// No resting order carries the requested trader id.
    IdNotFound,
}

/// The placeholder price an empty book on `side` reports for both extrema.
pub open spec fn neutral_price(side: TradeType) -> i64 {
    match side {
        TradeType::Bid => EMPTY_BID_PRICE,
        TradeType::Ask => EMPTY_ASK_PRICE,
    }
}

/// Every order in `s` belongs to `side`.
pub open spec fn side_matches(s: Seq<Order>, side: TradeType) -> bool {
    forall|i: int| 0 <= i < s.len() ==> s[i].trade_type == side
}

/// No two orders in `s` share a trader id.
pub open spec fn ids_unique(s: Seq<Order>) -> bool {
    forall|i: int, j: int| 0 <= i < j < s.len() ==> s[i].trader_id@ != s[j].trader_id@
}

/// Some order in `s` carries the trader id `id`.
pub open spec fn contains_id(s: Seq<Order>, id: Seq<char>) -> bool {
    exists|i: int| 0 <= i < s.len() && s[i].trader_id@ == id
}

/// The index of the first order in `s` whose trader id is `id`, or `-1`
/// when no order carries it.
pub open spec fn find_id(s: Seq<Order>, id: Seq<char>) -> int
    decreases s.len(),
{
    if s.len() == 0 {
        -1
    } else if s[0].trader_id@ == id {
        0
    } else if find_id(s.drop_first(), id) == -1 {
        -1
    } else {
        1 + find_id(s.drop_first(), id)
    }
}

/// The orders stand in best-at-the-tail order for `side`: prices ascend
/// toward the tail of a bid book and descend toward the tail of an ask
/// book.
pub open spec fn sorted_for(side: TradeType, s: Seq<Order>) -> bool {
    match side {
        TradeType::Bid => forall|i: int, j: int|
            0 <= i <= j < s.len() ==> s[i].price <= s[j].price,
        TradeType::Ask => forall|i: int, j: int|
            0 <= i <= j < s.len() ==> s[i].price >= s[j].price,
    }
}

/// The least price among the orders of `s`; 0 when `s` is empty.
pub open spec fn seq_min_price(s: Seq<Order>) -> int
    decreases s.len(),
{
    if s.len() == 0 {
        0
    } else if s.len() == 1 {
        s[0].price as int
    } else {
        vstd::math::min(seq_min_price(s.drop_last()), s.last().price as int)
    }
}

/// The greatest price among the orders of `s`; 0 when `s` is empty.
pub open spec fn seq_max_price(s: Seq<Order>) -> int
    decreases s.len(),
{
    if s.len() == 0 {
        0
    } else if s.len() == 1 {
        s[0].price as int
    } else {
        vstd::math::max(seq_max_price(s.drop_last()), s.last().price as int)
    }
}

/// The least price resting in an ask book's contents, or the empty-book
/// placeholder: what [`Book::get_min_price`] reports for a well-formed ask
/// book.
pub open spec fn ask_book_min_price(s: Seq<Order>) -> int {
    if s.len() == 0 {
        EMPTY_ASK_PRICE as int
    } else {
        seq_min_price(s)
    }
}

/// The greatest price resting in a bid book's contents, or the empty-book
/// placeholder: what [`Book::get_max_price`] reports for a well-formed bid
/// book.
pub open spec fn bid_book_max_price(s: Seq<Order>) -> int {
    if s.len() == 0 {
        EMPTY_BID_PRICE as int
    } else {
        seq_max_price(s)
    }
}

/// Where a newcomer at `price` is placed in `s`: the position closest to
/// the head that keeps the book sorted, so that on a price tie the newcomer
/// stands behind every resting order at that price and the resting tail
/// keeps its priority.
pub open spec fn insert_idx(side: TradeType, s: Seq<Order>, price: int) -> int
    decreases s.len(),
{
    if s.len() == 0 {
        0
    } else {
        match side {
            TradeType::Bid => if s[0].price >= price {
                0
            } else {
                1 + insert_idx(side, s.drop_first(), price)
            },
            TradeType::Ask => if s[0].price <= price {
                0
            } else {
                1 + insert_idx(side, s.drop_first(), price)
            },
        }
    }
}

/// What adding an order to a book on `side` holding `s` yields: the new
/// contents, and whether the order was refused. An order is refused exactly
/// when it belongs to the other side or its trader id already rests here;
/// otherwise it is placed at [`insert_idx`].
pub open spec fn add_outcome(side: TradeType, s: Seq<Order>, o: Order) -> (Seq<Order>, Result<
    (),
    BookError,
>) {
    if o.trade_type != side {
        (s, Err(BookError::SideMismatch))
    } else if contains_id(s, o.trader_id@) {
        (s, Err(BookError::DuplicateId))
    } else {
        (s.insert(insert_idx(side, s, o.price as int), o), Ok(()))
    }
}

/// What cancelling the order with trader id `id` from contents `s` yields:
/// the resting order is removed when present, and the request is refused
/// when absent.
pub open spec fn cancel_outcome(s: Seq<Order>, id: Seq<char>) -> (Seq<Order>, Result<
    (),
    BookError,
>) {
    if contains_id(s, id) {
        (s.remove(find_id(s, id)), Ok(()))
    } else {
        (s, Err(BookError::IdNotFound))
    }
}

proof fn lemma_find_id_at(s: Seq<Order>, id: Seq<char>, k: int)
    requires
        0 <= k < s.len(),
        s[k].trader_id@ == id,
        forall|i: int| 0 <= i < k ==> s[i].trader_id@ != id,
    ensures
        find_id(s, id) == k,
    decreases k,
{
    if k > 0 {
        let s2 = s.drop_first();
        assert forall|i: int| 0 <= i < k - 1 implies s2[i].trader_id@ != id by {
            assert(s2[i] == s[i + 1]);
        }
        assert(s2[k - 1] == s[k]);
        lemma_find_id_at(s2, id, k - 1);
    }
}

proof fn lemma_find_id_none(s: Seq<Order>, id: Seq<char>)
    requires
        forall|i: int| 0 <= i < s.len() ==> s[i].trader_id@ != id,
    ensures
        find_id(s, id) == -1,
    decreases s.len(),
{
    if s.len() > 0 {
        let s2 = s.drop_first();
        assert forall|i: int| 0 <= i < s2.len() implies s2[i].trader_id@ != id by {
            assert(s2[i] == s[i + 1]);
        }
        lemma_find_id_none(s2, id);
    }
}

/// [`find_id`] finds exactly the ids that rest in `s`, and points at the
/// first order carrying the id it finds.
pub proof fn lemma_find_id_props(s: Seq<Order>, id: Seq<char>)
    ensures
        (find_id(s, id) == -1) <==> !contains_id(s, id),
        contains_id(s, id) ==> 0 <= find_id(s, id) < s.len() && s[find_id(s, id)].trader_id@ == id
            && (forall|i: int| 0 <= i < find_id(s, id) ==> s[i].trader_id@ != id),
{
    if contains_id(s, id) {
        let j = choose|j: int| 0 <= j < s.len() && s[j].trader_id@ == id;
        let k = first_match(s, id, j);
        lemma_find_id_at(s, id, k);
    } else {
        assert forall|i: int| 0 <= i < s.len() implies s[i].trader_id@ != id by {
            if s[i].trader_id@ == id {
                assert(contains_id(s, id));
            }
        }
        lemma_find_id_none(s, id);
    }
}

/// Some index at or before `j` that carries `id`, with none before it.
proof fn first_match(s: Seq<Order>, id: Seq<char>, j: int) -> (k: int)
    requires
        0 <= j < s.len(),
        s[j].trader_id@ == id,
    ensures
        0 <= k < s.len(),
        s[k].trader_id@ == id,
        forall|i: int| 0 <= i < k ==> s[i].trader_id@ != id,
    decreases j,
{
    if exists|i: int| 0 <= i < j && s[i].trader_id@ == id {
        let j2 = choose|i: int| 0 <= i < j && s[i].trader_id@ == id;
        first_match(s, id, j2)
    } else {
        j
    }
}

/// The recursive extrema of a nonempty sequence bound every resting price
/// and are attained.
pub proof fn lemma_seq_extrema_bounds(s: Seq<Order>)
    requires
        s.len() > 0,
    ensures
        forall|i: int|
            0 <= i < s.len() ==> seq_min_price(s) <= #[trigger] s[i].price && s[i].price
                <= seq_max_price(s),
        exists|i: int| 0 <= i < s.len() && s[i].price == seq_min_price(s),
        exists|i: int| 0 <= i < s.len() && s[i].price == seq_max_price(s),
    decreases s.len(),
{
    if s.len() > 1 {
        let s2 = s.drop_last();
        lemma_seq_extrema_bounds(s2);
        assert forall|i: int|
            0 <= i < s.len() implies seq_min_price(s) <= #[trigger] s[i].price && s[i].price
            <= seq_max_price(s) by {
            if i < s.len() - 1 {
                assert(s2[i] == s[i]);
            }
        }
        if seq_min_price(s) == seq_min_price(s2) {
            let w = choose|i: int| 0 <= i < s2.len() && s2[i].price == seq_min_price(s2);
            assert(s[w].price == seq_min_price(s));
        } else {
            assert(s[s.len() - 1].price == seq_min_price(s));
        }
        if seq_max_price(s) == seq_max_price(s2) {
            let w = choose|i: int| 0 <= i < s2.len() && s2[i].price == seq_max_price(s2);
            assert(s[w].price == seq_max_price(s));
        } else {
            assert(s[s.len() - 1].price == seq_max_price(s));
        }
    }
}

/// The insertion position always lies within the sequence's bounds.
pub proof fn lemma_insert_idx_bounds(side: TradeType, s: Seq<Order>, price: int)
    ensures
        0 <= insert_idx(side, s, price) <= s.len(),
    decreases s.len(),
{
    if s.len() > 0 {
        lemma_insert_idx_bounds(side, s.drop_first(), price);
    }
}

proof fn lemma_insert_idx_at(side: TradeType, s: Seq<Order>, price: int, k: int)
    requires
        0 <= k <= s.len(),
        match side {
            TradeType::Bid => (forall|i: int| 0 <= i < k ==> s[i].price < price) && (k < s.len()
                ==> s[k].price >= price),
            TradeType::Ask => (forall|i: int| 0 <= i < k ==> s[i].price > price) && (k < s.len()
                ==> s[k].price <= price),
        },
    ensures
        insert_idx(side, s, price) == k,
    decreases k,
{
    if k > 0 {
        let s2 = s.drop_first();
        assert forall|i: int| 0 <= i < k - 1 implies s2[i] == s[i + 1] by {}
        lemma_insert_idx_at(side, s2, price, k - 1);
    }
}

proof fn lemma_insert_keeps_shape(side: TradeType, s: Seq<Order>, o: Order, k: int)
    requires
        sorted_for(side, s),
        ids_unique(s),
        side_matches(s, side),
        o.trade_type == side,
        !contains_id(s, o.trader_id@),
        0 <= k <= s.len(),
        match side {
            TradeType::Bid => (forall|i: int| 0 <= i < k ==> s[i].price < o.price) && (k < s.len()
                ==> s[k].price >= o.price),
            TradeType::Ask => (forall|i: int| 0 <= i < k ==> s[i].price > o.price) && (k < s.len()
                ==> s[k].price <= o.price),
        },
    ensures
        sorted_for(side, s.insert(k, o)),
        ids_unique(s.insert(k, o)),
        side_matches(s.insert(k, o), side),
{
    let t = s.insert(k, o);
    assert(t.len() == s.len() + 1);
    assert forall|i: int| 0 <= i < t.len() implies t[i] == (if i < k {
        s[i]
    } else if i == k {
        o
    } else {
        s[i - 1]
    }) by {}
    assert forall|i: int| 0 <= i < s.len() && s[i].trader_id@ == o.trader_id@ implies false by {
        assert(contains_id(s, o.trader_id@));
    }
    match side {
        TradeType::Bid => {
            assert forall|i: int, j: int| 0 <= i <= j < t.len() implies t[i].price
                <= t[j].price by {
                if k < s.len() {
                    assert(forall|m: int| k <= m < s.len() ==> s[k].price <= #[trigger] s[m].price);
                }
            }
        },
        TradeType::Ask => {
            assert forall|i: int, j: int| 0 <= i <= j < t.len() implies t[i].price
                >= t[j].price by {
                if k < s.len() {
                    assert(forall|m: int| k <= m < s.len() ==> s[k].price >= #[trigger] s[m].price);
                }
            }
        },
    }
}

proof fn lemma_remove_keeps_shape(side: TradeType, s: Seq<Order>, k: int)
    requires
        sorted_for(side, s),
        ids_unique(s),
        side_matches(s, side),
        0 <= k < s.len(),
    ensures
        sorted_for(side, s.remove(k)),
        ids_unique(s.remove(k)),
        side_matches(s.remove(k), side),
        forall|id: Seq<char>|
            #[trigger] contains_id(s.remove(k), id) ==> contains_id(s, id),
{
    let t = s.remove(k);
    assert(t.len() == s.len() - 1);
    assert forall|i: int| 0 <= i < t.len() implies t[i] == (if i < k {
        s[i]
    } else {
        s[i + 1]
    }) by {}
    assert forall|id: Seq<char>| #[trigger] contains_id(t, id) implies contains_id(s, id) by {
        let w = choose|i: int| 0 <= i < t.len() && t[i].trader_id@ == id;
        if w < k {
            assert(s[w].trader_id@ == id);
        } else {
            assert(s[w + 1].trader_id@ == id);
        }
    }
}

/// A book of resting orders for one side of the market.
///
/// The orders stand so that the tail is the best-priced one: the highest
/// bid, or the lowest ask. `min_price` and `max_price` cache the extrema of
/// the current contents and are recomputed by a full scan on every
/// mutation; the two must never diverge from `orders`.
pub struct Book {
    pub side: TradeType,
    pub orders: Vec<Order>,
    pub min_price: i64,
    pub max_price: i64,
}

impl View for Book {
    type V = Seq<Order>;

    open spec fn view(&self) -> Seq<Order> {
        self.orders@
    }
}

impl Book {
    /// The cached extrema agree with the contents: the side's neutral
    /// placeholder when empty, the least and greatest resting price
    /// otherwise.
    pub open spec fn extrema_ok(self) -> bool {
        if self@.len() == 0 {
            self.min_price == neutral_price(self.side) && self.max_price == neutral_price(
                self.side,
            )
        } else {
            self.min_price == seq_min_price(self@) && self.max_price == seq_max_price(self@)
        }
    }

    /// Well-formedness: every order belongs to this side, trader ids are
    /// unique, prices stand best-at-the-tail, and the cached extrema agree
    /// with the contents.
    pub open spec fn wf(self) -> bool {
        &&& side_matches(self@, self.side)
        &&& ids_unique(self@)
        &&& sorted_for(self.side, self@)
        &&& self.extrema_ok()
    }

    /// An empty book for `side`, with the side's neutral extrema.
    pub fn new(side: TradeType) -> (r: Book)
        ensures
            r.wf(),
            r@ == Seq::<Order>::empty(),
            r.side == side,
    {
        let neutral: i64 = match &side {
            TradeType::Bid => EMPTY_BID_PRICE,
            TradeType::Ask => EMPTY_ASK_PRICE,
        };
        Book { side, orders: Vec::new(), min_price: neutral, max_price: neutral }
    }

    /// The cached least resting price, or the neutral placeholder when the
    /// book is empty.
    pub fn get_min_price(&self) -> (r: i64)
        ensures
            r == self.min_price,
    {
        self.min_price
    }

    /// The cached greatest resting price, or the neutral placeholder when
    /// the book is empty.
    pub fn get_max_price(&self) -> (r: i64)
        ensures
            r == self.max_price,
    {
        self.max_price
    }

    /// The number of resting orders.
    pub fn len(&self) -> (r: usize)
        ensures
            r == self@.len(),
    {
        self.orders.len()
    }

    /// Recomputes the cached extrema by a full scan over the contents.
    fn scan_extrema(&mut self)
        ensures
            final(self).orders == old(self).orders,
            final(self).side == old(self).side,
            final(self).extrema_ok(),
    {
        let n = self.orders.len();
        if n == 0 {
            let neutral: i64 = match &self.side {
                TradeType::Bid => EMPTY_BID_PRICE,
                TradeType::Ask => EMPTY_ASK_PRICE,
            };
            self.min_price = neutral;
            self.max_price = neutral;
        } else {
            let mut mn: i64 = self.orders[0].price;
            let mut mx: i64 = self.orders[0].price;
            let mut i: usize = 1;
            proof {
                assert(self.orders@.take(1) =~= seq![self.orders@[0]]);
            }
            while i < n
                invariant
                    1 <= i <= n,
                    n == self.orders@.len(),
                    mn == seq_min_price(self.orders@.take(i as int)),
                    mx == seq_max_price(self.orders@.take(i as int)),
                decreases n - i,
            {
                proof {
                    let pre = self.orders@.take(i as int);
                    let post = self.orders@.take(i as int + 1);
                    assert(post.drop_last() =~= pre);
                    assert(post.last() == self.orders@[i as int]);
                }
                let p = self.orders[i].price;
                if p < mn {
                    mn = p;
                }
                if p > mx {
                    mx = p;
                }
                i += 1;
            }
            proof {
                assert(self.orders@.take(n as int) =~= self.orders@);
            }
            self.min_price = mn;
            self.max_price = mx;
        }
    }

    /// The index of the resting order with trader id `id`, if any.
    fn position_of(&self, id: &String) -> (r: Option<usize>)
        ensures
            match r {
                Some(i) => find_id(self@, id@) == i as int && i < self@.len(),
                None => find_id(self@, id@) == -1,
            },
    {
        let n = self.orders.len();
        let mut i: usize = 0;
        while i < n
            invariant
                0 <= i <= n,
                n == self@.len(),
                forall|k: int| 0 <= k < i ==> self@[k].trader_id@ != id@,
            decreases n - i,
        {
            if self.orders[i].trader_id == *id {
                proof {
                    lemma_find_id_at(self@, id@, i as int);
                }
                return Some(i);
            }
            i += 1;
        }
        proof {
            lemma_find_id_none(self@, id@);
        }
        None
    }

    /// The current index of the resting order with this trader id, if one
    /// rests here.
    pub fn peek_id_pos(&self, trader_id: String) -> (r: Option<usize>)
        ensures
            match r {
                Some(i) => i < self@.len() && self@[i as int].trader_id@ == trader_id@ && find_id(
                    self@,
                    trader_id@,
                ) == i as int,
                None => !contains_id(self@, trader_id@),
            },
    {
        let r = self.position_of(&trader_id);
        proof {
            lemma_find_id_props(self@, trader_id@);
        }
        r
    }

    /// Admits a resting order: placed so that the tail stays the
    /// best-priced order, with a newcomer standing behind resting orders at
    /// the same price. Refused exactly when the order belongs to the other
    /// side or its trader id already rests here; a refused order leaves the
    /// book unchanged.
    pub fn add_order(&mut self, order: Order) -> (r: Result<(), BookError>)
        requires
            old(self).wf(),
        ensures
            final(self).wf(),
            final(self).side == old(self).side,
            final(self)@ == add_outcome(old(self).side, old(self)@, order).0,
            r == add_outcome(old(self).side, old(self)@, order).1,
    {
        if !(order.trade_type == self.side) {
            return Err(BookError::SideMismatch);
        }
        match self.position_of(&order.trader_id) {
            Some(_) => {
                proof {
                    lemma_find_id_props(self@, order.trader_id@);
                }
                return Err(BookError::DuplicateId);
            },
            None => {
                proof {
                    lemma_find_id_props(self@, order.trader_id@);
                }
            },
        }
        let n = self.orders.len();
        let mut idx: usize = 0;
        match &self.side {
            TradeType::Bid => {
                while idx < n && self.orders[idx].price < order.price
                    invariant
                        0 <= idx <= n,
                        n == self@.len(),
                        forall|k: int| 0 <= k < idx ==> self@[k].price < order.price,
                    decreases n - idx,
                {
                    idx += 1;
                }
            },
            TradeType::Ask => {
                while idx < n && self.orders[idx].price > order.price
                    invariant
                        0 <= idx <= n,
                        n == self@.len(),
                        forall|k: int| 0 <= k < idx ==> self@[k].price > order.price,
                    decreases n - idx,
                {
                    idx += 1;
                }
            },
        }
        proof {
            lemma_insert_idx_at(self.side, self@, order.price as int, idx as int);
            lemma_insert_keeps_shape(self.side, self@, order, idx as int);
        }
        self.orders.insert(idx, order);
        self.scan_extrema();
        Ok(())
    }

    /// Removes the resting order that carries this trader id; refused, and
    /// the book left unchanged, when no resting order carries it.
    pub fn cancel_order_by_index(&mut self, trader_id: &String) -> (r: Result<(), BookError>)
        requires
            old(self).wf(),
        ensures
            final(self).wf(),
            final(self).side == old(self).side,
            final(self)@ == cancel_outcome(old(self)@, trader_id@).0,
            r == cancel_outcome(old(self)@, trader_id@).1,
    {
        proof {
            lemma_find_id_props(self@, trader_id@);
        }
        match self.position_of(trader_id) {
            Some(i) => {
                proof {
                    lemma_remove_keeps_shape(self.side, self@, i as int);
                }
                self.orders.remove(i);
                self.scan_extrema();
                Ok(())
            },
            None => Err(BookError::IdNotFound),
        }
    }

    /// Removes the resting order whose trader id matches the one this
    /// cancel request carries; refused when none does.
    pub fn cancel_order(&mut self, order: Order) -> (r: Result<(), BookError>)
        requires
            old(self).wf(),
        ensures
            final(self).wf(),
            final(self).side == old(self).side,
            final(self)@ == cancel_outcome(old(self)@, order.trader_id@).0,
            r == cancel_outcome(old(self)@, order.trader_id@).1,
    {
        self.cancel_order_by_index(&order.trader_id)
    }

    /// Detaches and returns the best-priced resting order — the tail — or
    /// nothing when the book is empty. The extrema are recomputed.
    pub fn pop_from_end(&mut self) -> (r: Option<Order>)
        requires
            old(self).wf(),
        ensures
            final(self).wf(),
            final(self).side == old(self).side,
            old(self)@.len() == 0 ==> r is None && final(self)@ == old(self)@
                && final(self).min_price == old(self).min_price
                && final(self).max_price == old(self).max_price,
            old(self)@.len() > 0 ==> r == Some(old(self)@.last()) && final(self)@ == old(
                self,
            )@.drop_last(),
    {
        let popped = self.orders.pop();
        match popped {
            Some(o) => {
                proof {
                    let t = old(self)@.drop_last();
                    assert(forall|i: int| 0 <= i < t.len() ==> t[i] == old(self)@[i]);
                }
                self.scan_extrema();
                Some(o)
            },
            None => {
                proof {
                    assert(self.orders@ =~= old(self)@);
                }
                None
            },
        }
    }

    /// Appends an order at the tail without reordering. The caller
    /// guarantees that the order is still the best on this side — at least
    /// as good as the current tail — so the book stays sorted.
    pub fn push_to_end(&mut self, order: Order)
        requires
            old(self).wf(),
            order.trade_type == old(self).side,
            !contains_id(old(self)@, order.trader_id@),
            old(self)@.len() > 0 ==> match old(self).side {
                TradeType::Bid => order.price >= old(self)@.last().price,
                TradeType::Ask => order.price <= old(self)@.last().price,
            },
        ensures
            final(self).wf(),
            final(self).side == old(self).side,
            final(self)@ == old(self)@.push(order),
    {
        proof {
            let s = self@;
            let t = s.push(order);
            assert(forall|i: int| 0 <= i < s.len() ==> t[i] == s[i]);
            assert forall|i: int| 0 <= i < s.len() && s[i].trader_id@ == order.trader_id@
                implies false by {
                assert(contains_id(s, order.trader_id@));
            }
            if s.len() > 0 {
                match self.side {
                    TradeType::Bid => {
                        assert(forall|i: int|
                            0 <= i < s.len() ==> #[trigger] s[i].price <= s.last().price);
                    },
                    TradeType::Ask => {
                        assert(forall|i: int|
                            0 <= i < s.len() ==> #[trigger] s[i].price >= s.last().price);
                    },
                }
            }
        }
        self.orders.push(order);
        self.scan_extrema();
    }
}

/// After any sequence of mutations the cached extrema of a well-formed,
/// nonempty book are exactly the least and greatest resting prices: both
/// bound every resting order and both are attained.
pub proof fn lemma_book_extrema(b: &Book)
    requires
        b.wf(),
        b@.len() > 0,
    ensures
        forall|i: int|
            0 <= i < b@.len() ==> b.min_price <= #[trigger] b@[i].price && b@[i].price
                <= b.max_price,
        exists|i: int| 0 <= i < b@.len() && b@[i].price == b.min_price,
        exists|i: int| 0 <= i < b@.len() && b@[i].price == b.max_price,
{
    lemma_seq_extrema_bounds(b@);
}

/// In a sorted nonempty book sequence the tail price is the extreme the
/// side cares about: the greatest price on the bid side, the least on the
/// ask side.
pub proof fn lemma_tail_price(side: TradeType, s: Seq<Order>)
    requires
        sorted_for(side, s),
        s.len() > 0,
    ensures
        side == TradeType::Bid ==> s.last().price == seq_max_price(s),
        side == TradeType::Ask ==> s.last().price == seq_min_price(s),
{
    lemma_seq_extrema_bounds(s);
    let last = s.len() - 1;
    match side {
        TradeType::Bid => {
            let w = choose|i: int| 0 <= i < s.len() && s[i].price == seq_max_price(s);
            assert(s[w].price <= s[last].price);
        },
        TradeType::Ask => {
            let w = choose|i: int| 0 <= i < s.len() && s[i].price == seq_min_price(s);
            assert(s[w].price >= s[last].price);
        },
    }
}

/// The tail of a well-formed, nonempty book is its best-priced order: its
/// price is the cached maximum for a bid book and the cached minimum for an
/// ask book.
pub proof fn lemma_tail_is_best(b: &Book)
    requires
        b.wf(),
        b@.len() > 0,
    ensures
        b.side == TradeType::Bid ==> b@.last().price == b.max_price,
        b.side == TradeType::Ask ==> b@.last().price == b.min_price,
{
    lemma_tail_price(b.side, b@);
}

/// At most one resting order per trader id: two resting positions that
/// carry the same id are the same position.
pub proof fn lemma_identity_unique(b: &Book, i: int, j: int)
    requires
        b.wf(),
        0 <= i < b@.len(),
        0 <= j < b@.len(),
        b@[i].trader_id@ == b@[j].trader_id@,
    ensures
        i == j,
{
}

} // verus!
