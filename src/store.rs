use vstd::prelude::*;

use crate::error::Error;
use crate::types::{OrderItemRequest, OrderItemResponse, OrderModel, OrderResponse};

verus! {

/// The `(product id, amount)` pairs of a request, in request order.
pub open spec fn request_pairs(items: Seq<OrderItemRequest>) -> Seq<(i64, i64)> {
    items.map_values(|r: OrderItemRequest| (r.product_id, r.amount))
}

/// The `(product id, amount)` pairs of stored lines, in stored order.
pub open spec fn line_pairs(items: Seq<OrderItemResponse>) -> Seq<(i64, i64)> {
    items.map_values(|l: OrderItemResponse| (l.product_id, l.amount))
}

/// The stored lines made from a request, with ids numbered from `first_id`.
pub open spec fn lines_from(first_id: int, items: Seq<OrderItemRequest>) -> Seq<OrderItemResponse> {
    Seq::new(
        items.len(),
        |k: int|
            OrderItemResponse {
                id: (first_id + k) as i64,
                product_id: items[k].product_id,
                amount: items[k].amount,
            },
    )
}

/// The abstract values of a sequence of orders.
pub open spec fn models(orders: Seq<OrderResponse>) -> Seq<OrderModel> {
    orders.map_values(|o: OrderResponse| o@)
}

pub open spec fn contains_order(s: Seq<OrderModel>, id: i64) -> bool {
    exists|i: int| 0 <= i < s.len() && s[i].id == id
}

/// No two orders share an id.
pub open spec fn ids_unique(s: Seq<OrderModel>) -> bool {
    forall|i: int, j: int| 0 <= i < s.len() && 0 <= j < s.len() && i != j ==> s[i].id != s[j].id
}

/// No two lines, in one order or in two, share an id.
pub open spec fn line_ids_unique(s: Seq<OrderModel>) -> bool {
    forall|i: int, k: int, j: int, l: int|
        0 <= i < s.len() && 0 <= k < s[i].items.len() && 0 <= j < s.len() && 0 <= l
            < s[j].items.len() && (i != j || k != l) ==> #[trigger] s[i].items[k].id
            != #[trigger] s[j].items[l].id
}

/// The order with the given id, if there is one.
pub open spec fn lookup(s: Seq<OrderModel>, id: i64) -> Option<OrderModel> {
    if contains_order(s, id) {
        Some(s[choose|i: int| 0 <= i < s.len() && s[i].id == id])
    } else {
        None
    }
}

/// The orders that belong to a customer, in store order.
pub open spec fn orders_of(s: Seq<OrderModel>, customer_id: i64) -> Seq<OrderModel> {
    s.filter(of_customer(customer_id))
}

pub open spec fn of_customer(customer_id: i64) -> spec_fn(OrderModel) -> bool {
    |o: OrderModel| o.customer_id == customer_id
}

/// `after` is `before` with one new order appended.
pub open spec fn created(
    before: Seq<OrderModel>,
    after: Seq<OrderModel>,
    id: i64,
    customer_id: i64,
    items: Seq<OrderItemRequest>,
    first_line_id: int,
) -> bool {
    &&& !contains_order(before, id)
    &&& after == before.push(
        OrderModel { id, customer_id, items: lines_from(first_line_id, items) },
    )
}

/// `after` is `before` with the order `id` given a new customer and new lines.
pub open spec fn replaced(
    before: Seq<OrderModel>,
    after: Seq<OrderModel>,
    id: i64,
    customer_id: i64,
    items: Seq<OrderItemRequest>,
    first_line_id: int,
) -> bool {
    &&& after.len() == before.len()
    &&& forall|i: int|
        0 <= i < before.len() ==> #[trigger] after[i] == if before[i].id == id {
            OrderModel { id, customer_id, items: lines_from(first_line_id, items) }
        } else {
            before[i]
        }
}

/// `after` is `before` without the order `id`, the others kept in order.
pub open spec fn deleted(before: Seq<OrderModel>, after: Seq<OrderModel>, id: i64) -> bool {
    if contains_order(before, id) {
        exists|i: int| 0 <= i < before.len() && before[i].id == id && after == before.remove(i)
    } else {
        after == before
    }
}

pub(crate) proof fn lemma_lookup_at(s: Seq<OrderModel>, i: int)
    requires
        ids_unique(s),
        0 <= i < s.len(),
    ensures
        lookup(s, s[i].id) == Some(s[i]),
{
    let id = s[i].id;
    assert(contains_order(s, id));
    let j = choose|j: int| 0 <= j < s.len() && s[j].id == id;
    assert(i == j);
}

/// The orders and their lines, with the counters that hand out ids.
pub struct OrderStore {
    orders: Vec<OrderResponse>,
    next_order_id: i64,
    next_line_id: i64,
}

impl View for OrderStore {
    type V = Seq<OrderModel>;

    closed spec fn view(&self) -> Seq<OrderModel> {
        models(self.orders@)
    }
}

fn copy_order(o: &OrderResponse) -> (r: OrderResponse)
    ensures
        r@ == o@,
{
    let mut items: Vec<OrderItemResponse> = Vec::new();
    let mut k: usize = 0;
    while k < o.items.len()
        invariant
            k <= o.items.len(),
            items@ == o.items@.take(k as int),
        decreases o.items.len() - k,
    {
        items.push(o.items[k]);
        k += 1;
        assert(items@ =~= o.items@.take(k as int));
    }
    assert(o.items@.take(o.items.len() as int) =~= o.items@);
    OrderResponse { id: o.id, customer_id: o.customer_id, items }
}

fn make_lines(first_id: i64, items: &Vec<OrderItemRequest>) -> (r: Vec<OrderItemResponse>)
    requires
        0 <= first_id,
        first_id + items.len() <= i64::MAX,
    ensures
        r@ == lines_from(first_id as int, items@),
{
    let mut out: Vec<OrderItemResponse> = Vec::new();
    let mut k: usize = 0;
    while k < items.len()
        invariant
            k <= items.len(),
            0 <= first_id,
            first_id + items.len() <= i64::MAX,
            out.len() == k,
            forall|j: int|
                0 <= j < k ==> #[trigger] out@[j] == lines_from(first_id as int, items@)[j],
        decreases items.len() - k,
    {
        let it = items[k];
        out.push(
            OrderItemResponse { id: first_id + k as i64, product_id: it.product_id, amount: it.amount },
        );
        k += 1;
    }
    assert(out@ =~= lines_from(first_id as int, items@));
    out
}

impl OrderStore {
    /// Every order id and line id was handed out by the counters, and order
    /// ids are unique.
    pub closed spec fn wf(&self) -> bool {
        &&& 1 <= self.next_order_id
        &&& 1 <= self.next_line_id
        &&& ids_unique(self@)
        &&& line_ids_unique(self@)
        &&& forall|i: int|
            0 <= i < self.orders@.len() ==> 1 <= #[trigger] self.orders@[i].id < self.next_order_id
        &&& forall|i: int, k: int|
            0 <= i < self.orders@.len() && 0 <= k < self.orders@[i].items@.len() ==> 1
                <= #[trigger] self.orders@[i].items@[k].id < self.next_line_id
    }

    /// The id that the next created order receives.
    pub closed spec fn fresh_order_id(&self) -> i64 {
        self.next_order_id
    }

    /// The id that the first line of the next stored line set receives.
    pub closed spec fn fresh_line_id(&self) -> i64 {
        self.next_line_id
    }

    /// Whether ids remain for one more order with `n` lines.
    pub open spec fn has_room(&self, n: int) -> bool {
        self.fresh_order_id() < i64::MAX && self.fresh_line_id() + n <= i64::MAX
    }

    /// Whether ids remain for a new set of `n` lines.
    pub open spec fn has_line_room(&self, n: int) -> bool {
        self.fresh_line_id() + n <= i64::MAX
    }

    /// Facts that every well-formed store offers its users.
    pub proof fn lemma_wf(&self)
        requires
            self.wf(),
        ensures
            ids_unique(self@),
            line_ids_unique(self@),
            forall|i: int| 0 <= i < self@.len() ==> #[trigger] self@[i].id < self.fresh_order_id(),
    {
    }

    /// An empty store.
    pub fn new() -> (r: OrderStore)
        ensures
            r.wf(),
            r@ == Seq::<OrderModel>::empty(),
            r.fresh_order_id() == 1,
            r.fresh_line_id() == 1,
    {
        let r = OrderStore { orders: Vec::new(), next_order_id: 1, next_line_id: 1 };
        assert(r@ =~= Seq::<OrderModel>::empty());
        r
    }

    /// Stores a new order header for `customer_id` together with its lines.
    pub fn insert_order(&mut self, customer_id: i64, items: &Vec<OrderItemRequest>) -> (r: Result<
        i64,
        Error,
    >)
        requires
            old(self).wf(),
        ensures
            final(self).wf(),
            r.is_ok() <==> old(self).has_room(items@.len() as int),
            match r {
                Ok(id) => {
                    &&& id == old(self).fresh_order_id()
                    &&& created(
                        old(self)@,
                        final(self)@,
                        id,
                        customer_id,
                        items@,
                        old(self).fresh_line_id() as int,
                    )
                    &&& final(self).fresh_order_id() == id + 1
                    &&& final(self).fresh_line_id() == old(self).fresh_line_id() + items@.len()
                },
                Err(e) => e == Error::StorageError && *final(self) == *old(self),
            },
    {
        if self.next_order_id == i64::MAX || items.len() as u64 > (i64::MAX - self.next_line_id) as u64 {
            return Err(Error::StorageError);
        }
        let id = self.next_order_id;
        let first = self.next_line_id;
        let lines = make_lines(first, items);
        let ghost before = self@;
        self.orders.push(OrderResponse { id, customer_id, items: lines });
        self.next_order_id = id + 1;
        self.next_line_id = first + items.len() as i64;
        assert(self@ =~= before.push(
            OrderModel { id, customer_id, items: lines_from(first as int, items@) },
        ));
        assert forall|i: int, j: int|
            0 <= i < self@.len() && 0 <= j < self@.len() && i != j implies self@[i].id
            != self@[j].id by {
            if i < before.len() && j < before.len() {
                assert(before[i] == self@[i] && before[j] == self@[j]);
            } else if i < before.len() {
                assert(self.orders@[i].id < id);
            } else {
                assert(self.orders@[j].id < id);
            }
        }
        assert forall|i: int, k: int|
            0 <= i < self.orders@.len() && 0 <= k < self.orders@[i].items@.len() implies 1
                <= #[trigger] self.orders@[i].items@[k].id < self.next_line_id by {
            if i < before.len() {
                assert(self.orders@[i] == old(self).orders@[i]);
            } else {
                assert(self.orders@[i].items@ == lines_from(first as int, items@));
                assert(self.orders@[i].items@[k].id == first + k);
            }
        }
        assert(!contains_order(before, id)) by {
            if contains_order(before, id) {
                let i = choose|i: int| 0 <= i < before.len() && before[i].id == id;
                assert(old(self).orders@[i].id < id);
            }
        }
        let ghost n = before.len() as int;
        assert forall|i: int, k: int, j: int, l: int|
            0 <= i < self@.len() && 0 <= k < self@[i].items.len() && 0 <= j < self@.len() && 0
                <= l < self@[j].items.len() && (i != j || k != l) implies #[trigger] self@[i].items[k].id
            != #[trigger] self@[j].items[l].id by {
            if i < n {
                assert(self@[i] == before[i]);
                assert(old(self).orders@[i].items@[k].id < first);
            }
            if j < n {
                assert(self@[j] == before[j]);
                assert(old(self).orders@[j].items@[l].id < first);
            }
            if i == n {
                assert(self@[i].items[k].id == first + k);
            }
            if j == n {
                assert(self@[j].items[l].id == first + l);
            }
        }
        Ok(id)
    }

    /// The order with the given id.
    pub fn get_order(&self, id: i64) -> (r: Result<OrderResponse, Error>)
        requires
            self.wf(),
        ensures
            r.is_ok() <==> contains_order(self@, id),
            match r {
                Ok(o) => lookup(self@, id) == Some(o@) && o.id == id,
                Err(e) => e == Error::NotFound && lookup(self@, id) == None::<OrderModel>,
            },
    {
        let mut i: usize = 0;
        while i < self.orders.len()
            invariant
                self.wf(),
                i <= self.orders.len(),
                forall|j: int| 0 <= j < i ==> #[trigger] self@[j].id != id,
            decreases self.orders.len() - i,
        {
            if self.orders[i].id == id {
                proof {
                    lemma_lookup_at(self@, i as int);
                }
                return Ok(copy_order(&self.orders[i]));
            }
            i += 1;
        }
        Err(Error::NotFound)
    }

    fn index_of(&self, id: i64) -> (r: Option<usize>)
        requires
            self.wf(),
        ensures
            r.is_some() <==> contains_order(self@, id),
            match r {
                Some(i) => i < self@.len() && self@[i as int].id == id,
                None => true,
            },
    {
        let mut i: usize = 0;
        while i < self.orders.len()
            invariant
                i <= self.orders.len(),
                forall|j: int| 0 <= j < i ==> #[trigger] self@[j].id != id,
            decreases self.orders.len() - i,
        {
            if self.orders[i].id == id {
                assert(self@[i as int].id == id);
                return Some(i);
            }
            i += 1;
        }
        None
    }

    /// Gives the order `id` a new customer and replaces all of its lines
    /// with the requested ones, as one step.
    pub fn replace_lines(&mut self, id: i64, customer_id: i64, items: &Vec<OrderItemRequest>) -> (r:
        Result<(), Error>)
        requires
            old(self).wf(),
        ensures
            final(self).wf(),
            r == Err::<(), Error>(Error::NotFound) <==> !contains_order(old(self)@, id),
            r == Err::<(), Error>(Error::StorageError) <==> contains_order(old(self)@, id)
                && !old(self).has_line_room(items@.len() as int),
            r is Ok <==> contains_order(old(self)@, id) && old(self).has_line_room(
                items@.len() as int,
            ),
            match r {
                Ok(()) => {
                    &&& replaced(
                        old(self)@,
                        final(self)@,
                        id,
                        customer_id,
                        items@,
                        old(self).fresh_line_id() as int,
                    )
                    &&& final(self).fresh_order_id() == old(self).fresh_order_id()
                    &&& final(self).fresh_line_id() == old(self).fresh_line_id() + items@.len()
                },
                Err(_) => *final(self) == *old(self),
            },
    {
        let found = self.index_of(id);
        let i = match found {
            Some(i) => i,
            None => {
                return Err(Error::NotFound);
            },
        };
        if items.len() as u64 > (i64::MAX - self.next_line_id) as u64 {
            return Err(Error::StorageError);
        }
        let first = self.next_line_id;
        let lines = make_lines(first, items);
        let ghost before = self@;
        self.orders.set(i, OrderResponse { id, customer_id, items: lines });
        self.next_line_id = first + items.len() as i64;
        let ghost fresh = OrderModel { id, customer_id, items: lines_from(first as int, items@) };
        assert forall|j: int| 0 <= j < before.len() implies #[trigger] self@[j] == if before[j].id
            == id {
            fresh
        } else {
            before[j]
        } by {
            if j != i {
                assert(before[j].id != before[i as int].id);
            }
        }
        assert forall|a: int, b: int|
            0 <= a < self@.len() && 0 <= b < self@.len() && a != b implies self@[a].id
            != self@[b].id by {
            assert(before[a].id != before[b].id);
        }
        assert forall|a: int|
            0 <= a < self.orders@.len() implies 1 <= #[trigger] self.orders@[a].id
            < self.next_order_id by {
            assert(self.orders@[a].id == before[a].id);
        }
        assert forall|a: int, k: int|
            0 <= a < self.orders@.len() && 0 <= k < self.orders@[a].items@.len() implies 1
                <= #[trigger] self.orders@[a].items@[k].id < self.next_line_id by {
            if a != i {
                assert(self.orders@[a] == old(self).orders@[a]);
            } else {
                assert(self.orders@[a].items@[k].id == first + k);
            }
        }
        assert forall|a: int, k: int, b: int, l: int|
            0 <= a < self@.len() && 0 <= k < self@[a].items.len() && 0 <= b < self@.len() && 0
                <= l < self@[b].items.len() && (a != b || k != l) implies #[trigger] self@[a].items[k].id
            != #[trigger] self@[b].items[l].id by {
            if a != i {
                assert(self@[a] == before[a]);
                assert(old(self).orders@[a].items@[k].id < first);
            } else {
                assert(self@[a].items[k].id == first + k);
            }
            if b != i {
                assert(self@[b] == before[b]);
                assert(old(self).orders@[b].items@[l].id < first);
            } else {
                assert(self@[b].items[l].id == first + l);
            }
        }
        Ok(())
    }

    /// Removes the order `id` and its lines; tells whether it existed.
    pub fn delete_order(&mut self, id: i64) -> (r: bool)
        requires
            old(self).wf(),
        ensures
            final(self).wf(),
            r == contains_order(old(self)@, id),
            deleted(old(self)@, final(self)@, id),
            final(self).fresh_order_id() == old(self).fresh_order_id(),
            final(self).fresh_line_id() == old(self).fresh_line_id(),
    {
        match self.index_of(id) {
            Some(i) => {
                let ghost before = self@;
                let ghost old_orders = self.orders@;
                let _removed = self.orders.remove(i);
                assert(self@ =~= before.remove(i as int));
                assert forall|a: int|
                    0 <= a < self.orders@.len() implies 1 <= #[trigger] self.orders@[a].id
                    < self.next_order_id by {
                    if a < i {
                        assert(self.orders@[a] == old_orders[a]);
                    } else {
                        assert(self.orders@[a] == old_orders[a + 1]);
                    }
                }
                assert forall|a: int, k: int|
                    0 <= a < self.orders@.len() && 0 <= k < self.orders@[a].items@.len() implies 1
                        <= #[trigger] self.orders@[a].items@[k].id < self.next_line_id by {
                    if a < i {
                        assert(self.orders@[a] == old_orders[a]);
                    } else {
                        assert(self.orders@[a] == old_orders[a + 1]);
                    }
                }
                assert forall|a: int, b: int|
                    0 <= a < self@.len() && 0 <= b < self@.len() && a != b implies self@[a].id
                    != self@[b].id by {
                    let a2 = if a < i { a } else { a + 1 };
                    let b2 = if b < i { b } else { b + 1 };
                    assert(self@[a] == before[a2] && self@[b] == before[b2]);
                }
                assert forall|a: int, k: int, b: int, l: int|
                    0 <= a < self@.len() && 0 <= k < self@[a].items.len() && 0 <= b < self@.len()
                        && 0 <= l < self@[b].items.len() && (a != b || k != l) implies #[trigger] self@[a].items[k].id
                    != #[trigger] self@[b].items[l].id by {
                    let a2 = if a < i { a } else { a + 1 };
                    let b2 = if b < i { b } else { b + 1 };
                    assert(self@[a] == before[a2] && self@[b] == before[b2]);
                    assert(before[a2].items[k].id != before[b2].items[l].id);
                }
                true
            },
            None => false,
        }
    }

    /// All orders, in the order they were created.
    pub fn get_orders(&self) -> (r: Vec<OrderResponse>)
        requires
            self.wf(),
        ensures
            models(r@) == self@,
    {
        let mut out: Vec<OrderResponse> = Vec::new();
        let mut i: usize = 0;
        while i < self.orders.len()
            invariant
                i <= self.orders.len(),
                models(out@) == self@.take(i as int),
            decreases self.orders.len() - i,
        {
            let o = copy_order(&self.orders[i]);
            let ghost prev = out@;
            out.push(o);
            assert(models(out@) =~= models(prev).push(self@[i as int]));
            i += 1;
            assert(self@.take(i as int) =~= self@.take(i - 1).push(self@[i - 1]));
        }
        assert(self@.take(self@.len() as int) =~= self@);
        out
    }

    /// The orders of one customer, in the order they were created.
    pub fn get_orders_by_customer(&self, customer_id: i64) -> (r: Vec<OrderResponse>)
        requires
            self.wf(),
        ensures
            models(r@) == orders_of(self@, customer_id),
    {
        let mut out: Vec<OrderResponse> = Vec::new();
        let mut i: usize = 0;
        while i < self.orders.len()
            invariant
                i <= self.orders.len(),
                models(out@) == orders_of(self@.take(i as int), customer_id),
            decreases self.orders.len() - i,
        {
            let ghost prev = out@;
            proof {
                assert(self@.take(i + 1) =~= self@.take(i as int).push(self@[i as int]));
                self@.take(i as int).lemma_filter_push(self@[i as int], of_customer(customer_id));
            }
            if self.orders[i].customer_id == customer_id {
                let o = copy_order(&self.orders[i]);
                out.push(o);
                assert(models(out@) =~= models(prev).push(self@[i as int]));
            }
            i += 1;
        }
        assert(self@.take(self@.len() as int) =~= self@);
        out
    }
}

} // verus!
