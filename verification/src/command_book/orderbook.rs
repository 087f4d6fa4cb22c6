//! The order book: orders kept in arrival order, each id at most once.
use vstd::prelude::*;

use super::error::{OrderBookError, OrderError};
use super::order::{Order, OrderModel};
use super::side::Side;
use super::summary::OrderBookSummary;

verus! {

/// Whether no two orders of `s` share an id.
pub open spec fn ids_unique(s: Seq<OrderModel>) -> bool {
    forall|i: int, j: int| 0 <= i < s.len() && 0 <= j < s.len() && i != j ==> s[i].id != s[j].id
}

/// Whether some order of `s` has the id `id`.
pub open spec fn has_id(s: Seq<OrderModel>, id: u32) -> bool {
    exists|i: int| 0 <= i < s.len() && s[i].id == id
}

/// The position of the order with id `id` in `s` (meaningful when
/// `has_id(s, id)`; with unique ids it is the only such position).
pub open spec fn index_of(s: Seq<OrderModel>, id: u32) -> int {
    choose|i: int| 0 <= i < s.len() && s[i].id == id
}

/// The total open quantity of the orders of `s`.
pub open spec fn total_quantity(s: Seq<OrderModel>) -> nat
    decreases s.len(),
{
    if s.len() == 0 {
        0
    } else {
        total_quantity(s.drop_last()) + (s.last().quantity as nat)
    }
}

/// How many orders of `s` are on the side `side`.
pub open spec fn side_count(s: Seq<OrderModel>, side: Side) -> nat
    decreases s.len(),
{
    if s.len() == 0 {
        0
    } else {
        side_count(s.drop_last(), side) + (if s.last().side == side { 1nat } else { 0nat })
    }
}

/// The summary of the orders `s`.
pub open spec fn summary_of(s: Seq<OrderModel>) -> OrderBookSummary {
    OrderBookSummary {
        order_count: s.len() as usize,
        buy_count: side_count(s, Side::Buy) as usize,
        sell_count: side_count(s, Side::Sell) as usize,
        total_quantity: total_quantity(s) as u64,
    }
}

/// What reducing the order `id` of `s` by `amount` leaves and returns.
pub open spec fn reduce_outcome(s: Seq<OrderModel>, id: u32, amount: u64) -> (Seq<OrderModel>, Result<u64, OrderBookError>) {
    if !has_id(s, id) {
        (s, Err(OrderBookError::NotFound(id)))
    } else {
        let i = index_of(s, id);
        let o = s[i];
        if amount == 0 {
            (s, Err(OrderBookError::OrderError(OrderError::ZeroReduceAmount)))
        } else if amount > o.quantity {
            (s, Err(OrderBookError::OrderError(OrderError::ReduceAmountExceedsRemaining)))
        } else if amount == o.quantity {
            (s.remove(i), Ok(0u64))
        } else {
            let rest = (o.quantity - amount) as u64;
            (s.update(i, OrderModel { quantity: rest, ..o }), Ok(rest))
        }
    }
}

/// With unique ids, the order at `i` with id `id` is the one `index_of` finds.
pub proof fn lemma_index_of_unique(s: Seq<OrderModel>, id: u32, i: int)
    requires
        ids_unique(s),
        0 <= i < s.len(),
        s[i].id == id,
    ensures
        has_id(s, id),
        index_of(s, id) == i,
{
    assert(has_id(s, id));
    let j = index_of(s, id);
    assert(0 <= j < s.len() && s[j].id == id);
}

proof fn lemma_total_quantity_prefix(s: Seq<OrderModel>, k: int)
    requires
        0 <= k <= s.len(),
    ensures
        total_quantity(s.take(k)) <= total_quantity(s),
    decreases s.len(),
{
    if k < s.len() {
        assert(s.drop_last().take(k) =~= s.take(k));
        lemma_total_quantity_prefix(s.drop_last(), k);
    } else {
        assert(s.take(k) =~= s);
    }
}

/// An order added under a new id is what a lookup of that id finds, and
/// ids stay unique.
pub proof fn law_get_after_add(book: Seq<OrderModel>, order: OrderModel)
    requires
        ids_unique(book),
        !has_id(book, order.id),
    ensures
        ids_unique(book.push(order)),
        has_id(book.push(order), order.id),
        book.push(order)[index_of(book.push(order), order.id)] == order,
{
    let after = book.push(order);
    assert(after[book.len() as int] == order);
    assert(ids_unique(after)) by {
        assert forall|i: int, j: int| 0 <= i < after.len() && 0 <= j < after.len() && i != j implies after[i].id
            != after[j].id by {
            if i == book.len() {
                assert(after[j] == book[j]);
            } else if j == book.len() {
                assert(after[i] == book[i]);
            } else {
                assert(after[i] == book[i]);
                assert(after[j] == book[j]);
            }
        }
    }
    lemma_index_of_unique(after, order.id, book.len() as int);
}

/// Cancelling an order right after adding it gives the book back.
pub proof fn law_cancel_undoes_add(book: Seq<OrderModel>, order: OrderModel)
    requires
        ids_unique(book),
        !has_id(book, order.id),
    ensures
        book.push(order).remove(index_of(book.push(order), order.id)) == book,
{
    law_get_after_add(book, order);
    lemma_index_of_unique(book.push(order), order.id, book.len() as int);
    assert(book.push(order).remove(book.len() as int) =~= book);
}

proof fn lemma_total_update(s: Seq<OrderModel>, i: int, x: OrderModel)
    requires
        0 <= i < s.len(),
    ensures
        total_quantity(s.update(i, x)) + s[i].quantity == total_quantity(s) + x.quantity,
    decreases s.len(),
{
    let u = s.update(i, x);
    if i == s.len() - 1 {
        assert(u.drop_last() =~= s.drop_last());
    } else {
        lemma_total_update(s.drop_last(), i, x);
        assert(u.drop_last() =~= s.drop_last().update(i, x));
        assert(u.last() == s.last());
    }
}

proof fn lemma_total_remove(s: Seq<OrderModel>, i: int)
    requires
        0 <= i < s.len(),
    ensures
        total_quantity(s.remove(i)) + s[i].quantity == total_quantity(s),
    decreases s.len(),
{
    let r = s.remove(i);
    if i == s.len() - 1 {
        assert(r =~= s.drop_last());
    } else {
        lemma_total_remove(s.drop_last(), i);
        assert(r.drop_last() =~= s.drop_last().remove(i));
        assert(r.last() == s.last());
    }
}

/// A reduce that succeeds takes exactly `amount` off the book's total
/// open quantity, and what it returns is what remains of that order.
pub proof fn law_reduce_takes_amount(book: Seq<OrderModel>, id: u32, amount: u64)
    requires
        reduce_outcome(book, id, amount).1 is Ok,
    ensures
        total_quantity(reduce_outcome(book, id, amount).0) + amount == total_quantity(book),
        reduce_outcome(book, id, amount).1 == Ok::<u64, OrderBookError>(
            (book[index_of(book, id)].quantity - amount) as u64,
        ),
{
    let i = index_of(book, id);
    let o = book[i];
    if amount == o.quantity {
        lemma_total_remove(book, i);
    } else {
        lemma_total_update(book, i, OrderModel { quantity: (o.quantity - amount) as u64, ..o });
    }
}

/// A reduce changes nothing but the order it names. When it fails, the book
/// is as it was. When it succeeds, the order had the id, the amount was
/// positive and at most its quantity, and what is returned is the quantity
/// left; an order with some left keeps its place, id, side and price and
/// only its quantity drops by `amount`; an order with nothing left is
/// taken out, the others keeping their order. No other order changes.
pub proof fn law_reduce_changes_only_that_order(book: Seq<OrderModel>, id: u32, amount: u64)
    ensures
        reduce_outcome(book, id, amount).1 is Err ==> reduce_outcome(book, id, amount).0 == book,
        reduce_outcome(book, id, amount).1 is Ok ==> {
            let i = index_of(book, id);
            let after = reduce_outcome(book, id, amount).0;
            &&& has_id(book, id)
            &&& 0 <= i < book.len()
            &&& book[i].id == id
            &&& 0 < amount <= book[i].quantity
            &&& reduce_outcome(book, id, amount).1 == Ok::<u64, OrderBookError>((book[i].quantity - amount) as u64)
            &&& amount < book[i].quantity ==> {
                &&& after.len() == book.len()
                &&& after[i].id == book[i].id
                &&& after[i].side == book[i].side
                &&& after[i].price == book[i].price
                &&& after[i].quantity == book[i].quantity - amount
                &&& forall|j: int| 0 <= j < book.len() && j != i ==> #[trigger] after[j] == book[j]
            }
            &&& amount == book[i].quantity ==> {
                &&& after.len() + 1 == book.len()
                &&& forall|j: int| 0 <= j < i ==> #[trigger] after[j] == book[j]
                &&& forall|j: int| i <= j < after.len() ==> #[trigger] after[j] == book[j + 1]
            }
        },
{
    if has_id(book, id) {
        let i = index_of(book, id);
        assert(0 <= i < book.len() && book[i].id == id);
    }
}

/// Every order is on one side or the other: the two side counts add up to
/// the number of orders.
pub proof fn law_side_counts_add_up(book: Seq<OrderModel>)
    ensures
        side_count(book, Side::Buy) + side_count(book, Side::Sell) == book.len(),
    decreases book.len(),
{
    if book.len() > 0 {
        law_side_counts_add_up(book.drop_last());
    }
}

/// The orders, in arrival order; no two share an id.
#[derive(Debug)]
pub struct OrderBook {
    orders: Vec<Order>,
}

impl View for OrderBook {
    type V = Seq<OrderModel>;

    closed spec fn view(&self) -> Seq<OrderModel> {
        Seq::new(self.orders@.len(), |i: int| self.orders@[i]@)
    }
}

impl OrderBook {
    /// No two orders share an id.
    #[verifier::type_invariant]
    spec fn ids_are_unique(&self) -> bool {
        ids_unique(Seq::new(self.orders@.len(), |i: int| self.orders@[i]@))
    }

    pub fn new() -> (b: Self)
        ensures
            b@ == Seq::<OrderModel>::empty(),
    {
        let b = Self { orders: Vec::new() };
        assert(b@ =~= Seq::<OrderModel>::empty());
        b
    }

    /// Moves the orders out, leaving the book empty.
    fn take_orders(&mut self) -> (orders: Vec<Order>)
        ensures
            Seq::new(orders@.len(), |i: int| orders@[i]@) == old(self)@,
            final(self)@ == Seq::<OrderModel>::empty(),
    {
        let mut orders: Vec<Order> = Vec::new();
        std::mem::swap(&mut orders, &mut self.orders);
        assert(Seq::new(orders@.len(), |i: int| orders@[i]@) =~= old(self)@);
        assert(self@ =~= Seq::<OrderModel>::empty());
        orders
    }

    /// The position of the order with id `id`, if there is one.
    fn position(&self, id: u32) -> (r: Option<usize>)
        ensures
            ids_unique(self@),
            match r {
                Some(i) => has_id(self@, id) && i == index_of(self@, id) && i < self@.len(),
                None => !has_id(self@, id),
            },
    {
        proof {
            use_type_invariant(&*self);
        }
        for i in 0..self.orders.len()
            invariant
                forall|j: int| 0 <= j < i ==> self@[j].id != id,
                ids_unique(self@),
                self.orders@.len() == self@.len(),
        {
            assert(self@[i as int] == self.orders@[i as int]@);
            if self.orders[i].id() == id {
                proof {
                    lemma_index_of_unique(self@, id, i as int);
                }
                return Some(i);
            }
        }
        None
    }

    /// Adds `order`; fails with `DuplicateId`, changing nothing, when an
    /// order with its id is already in the book.
    pub fn add(&mut self, order: Order) -> (r: Result<(), OrderBookError>)
        ensures
            ids_unique(final(self)@),
            has_id(old(self)@, order@.id) ==> r == Err::<(), OrderBookError>(OrderBookError::DuplicateId(order@.id))
                && final(self)@ == old(self)@,
            !has_id(old(self)@, order@.id) ==> r == Ok::<(), OrderBookError>(()) && final(self)@ == old(self)@.push(order@),
    {
        proof {
            use_type_invariant(&*self);
        }
        let id = order.id();
        if let Some(_) = self.position(id) {
            return Err(OrderBookError::DuplicateId(id));
        }
        let ghost before = self@;
        let mut orders = self.take_orders();
        orders.push(order);
        assert(Seq::new(orders@.len(), |i: int| orders@[i]@) =~= before.push(order@));
        self.orders = orders;
        assert(self@ =~= before.push(order@));
        Ok(())
    }

    /// The order with id `id`, if the book holds one.
    pub fn get(&self, id: u32) -> (r: Option<&Order>)
        ensures
            ids_unique(self@),
            match r {
                Some(o) => has_id(self@, id) && o@ == self@[index_of(self@, id)],
                None => !has_id(self@, id),
            },
    {
        proof {
            use_type_invariant(&*self);
        }
        match self.position(id) {
            Some(i) => Some(&self.orders[i]),
            None => None,
        }
    }

    /// Removes the order with id `id`; fails with `NotFound`, changing
    /// nothing, when there is none.
    pub fn cancel(&mut self, id: u32) -> (r: Result<(), OrderBookError>)
        ensures
            ids_unique(final(self)@),
            has_id(old(self)@, id) ==> r == Ok::<(), OrderBookError>(())
                && final(self)@ == old(self)@.remove(index_of(old(self)@, id)),
            !has_id(old(self)@, id) ==> r == Err::<(), OrderBookError>(OrderBookError::NotFound(id))
                && final(self)@ == old(self)@,
    {
        proof {
            use_type_invariant(&*self);
        }
        match self.position(id) {
            Some(i) => {
                let ghost before = self@;
                let mut orders = self.take_orders();
                orders.remove(i);
                assert(Seq::new(orders@.len(), |k: int| orders@[k]@) =~= before.remove(i as int));
                self.orders = orders;
                assert(self@ =~= before.remove(i as int));
                Ok(())
            },
            None => Err(OrderBookError::NotFound(id)),
        }
    }

    /// Takes `amount` off the order with id `id` and returns what remains
    /// of it; an order left with nothing is removed. Fails, changing
    /// nothing, with `NotFound` or with the order's own error.
    pub fn reduce(&mut self, id: u32, amount: u64) -> (r: Result<u64, OrderBookError>)
        ensures
            ids_unique(final(self)@),
            (final(self)@, r) == reduce_outcome(old(self)@, id, amount),
    {
        proof {
            use_type_invariant(&*self);
        }
        let index = match self.position(id) {
            Some(i) => i,
            None => return Err(OrderBookError::NotFound(id)),
        };
        let ghost before = self@;
        let mut order = self.orders[index];
        assert(order@ == before[index as int]);
        let remaining = match order.reduce(amount) {
            Ok(q) => q,
            Err(e) => return Err(OrderBookError::OrderError(e)),
        };
        let mut orders = self.take_orders();
        if remaining == 0 {
            orders.remove(index);
            assert(Seq::new(orders@.len(), |k: int| orders@[k]@) =~= before.remove(index as int));
        } else {
            orders.set(index, order);
            let ghost after = Seq::new(orders@.len(), |k: int| orders@[k]@);
            assert(after =~= before.update(index as int, order@));
            assert forall|i: int, j: int|
                0 <= i < after.len() && 0 <= j < after.len() && i != j implies after[i].id != after[j].id by {
                assert(before[i].id == after[i].id);
                assert(before[j].id == after[j].id);
            }
        }
        self.orders = orders;
        Ok(remaining)
    }

    /// Counts the orders, those on each side, and their total open
    /// quantity (which must fit in a `u64`).
    pub fn summary(&self) -> (r: Result<OrderBookSummary, OrderBookError>)
        requires
            total_quantity(self@) <= u64::MAX,
        ensures
            r == Ok::<OrderBookSummary, OrderBookError>(summary_of(self@)),
            ids_unique(self@),
    {
        proof {
            use_type_invariant(self);
        }
        let mut buy_count: usize = 0;
        let mut sell_count: usize = 0;
        let mut total: u64 = 0;
        let n = self.orders.len();
        for i in 0..n
            invariant
                n == self@.len(),
                n == self.orders@.len(),
                buy_count == side_count(self@.take(i as int), Side::Buy),
                sell_count == side_count(self@.take(i as int), Side::Sell),
                buy_count + sell_count == i,
                total == total_quantity(self@.take(i as int)),
                total_quantity(self@) <= u64::MAX,
        {
            let order = &self.orders[i];
            assert(order@ == self@[i as int]);
            assert(self@.take(i + 1).drop_last() =~= self@.take(i as int));
            proof {
                lemma_total_quantity_prefix(self@, i + 1);
            }
            if order.is_buy() {
                buy_count += 1;
            } else {
                sell_count += 1;
            }
            total += order.quantity();
        }
        assert(self@.take(n as int) =~= self@);
        Ok(OrderBookSummary { order_count: n, buy_count, sell_count, total_quantity: total })
    }

    /// Whether the total open quantity fits in a `u64`, as `summary` needs.
    pub fn total_quantity_fits(&self) -> (b: bool)
        ensures
            b == (total_quantity(self@) <= u64::MAX),
    {
        let mut total: u64 = 0;
        let n = self.orders.len();
        for i in 0..n
            invariant
                n == self@.len(),
                n == self.orders@.len(),
                total == total_quantity(self@.take(i as int)),
        {
            let q = self.orders[i].quantity();
            assert(self.orders@[i as int]@ == self@[i as int]);
            assert(self@.take(i + 1).drop_last() =~= self@.take(i as int));
            if q > u64::MAX - total {
                proof {
                    lemma_total_quantity_prefix(self@, i + 1);
                }
                return false;
            }
            total = total + q;
        }
        assert(self@.take(n as int) =~= self@);
        true
    }

    pub fn len(&self) -> (r: usize)
        ensures
            r == self@.len(),
    {
        self.orders.len()
    }
}

} // verus!
