//! Properties that relate several operations of the order store.
use vstd::prelude::*;

use crate::store::{
    contains_order, created, deleted, ids_unique, lemma_lookup_at, line_pairs, lines_from, lookup,
    of_customer, orders_of, replaced, request_pairs,
};
use crate::assembler::{line_price, total_of, unit_price};
use crate::product::ProductModel;
use crate::types::{OrderItemRequest, OrderModel};

verus! {

proof fn lemma_pairs_of_lines(first_line_id: int, items: Seq<OrderItemRequest>)
    ensures
        line_pairs(lines_from(first_line_id, items)) == request_pairs(items),
{
    assert(line_pairs(lines_from(first_line_id, items)) =~= request_pairs(items));
}

/// Creating an order and then fetching it by the returned id gives back the
/// customer and exactly the requested `(product id, amount)` pairs.
pub proof fn law_create_then_fetch(
    before: Seq<OrderModel>,
    after: Seq<OrderModel>,
    id: i64,
    customer_id: i64,
    items: Seq<OrderItemRequest>,
    first_line_id: int,
)
    requires
        ids_unique(before),
        created(before, after, id, customer_id, items, first_line_id),
    ensures
        ids_unique(after),
        lookup(after, id) is Some,
        lookup(after, id).unwrap().id == id,
        lookup(after, id).unwrap().customer_id == customer_id,
        line_pairs(lookup(after, id).unwrap().items) == request_pairs(items),
{
    let n = before.len() as int;
    assert forall|i: int, j: int|
        0 <= i < after.len() && 0 <= j < after.len() && i != j implies after[i].id
        != after[j].id by {
        if i < n && j < n {
            assert(after[i] == before[i] && after[j] == before[j]);
        } else if i < n {
            assert(after[i] == before[i]);
        } else {
            assert(after[j] == before[j]);
        }
    }
    lemma_lookup_at(after, n);
    lemma_pairs_of_lines(first_line_id, items);
}

/// After the lines of an existing order are replaced by `items`, fetching it
/// gives exactly the new lines and the new customer, none of the old lines.
pub proof fn law_replace_then_fetch(
    before: Seq<OrderModel>,
    after: Seq<OrderModel>,
    id: i64,
    customer_id: i64,
    items: Seq<OrderItemRequest>,
    first_line_id: int,
)
    requires
        ids_unique(before),
        contains_order(before, id),
        replaced(before, after, id, customer_id, items, first_line_id),
    ensures
        ids_unique(after),
        lookup(after, id) == Some(
            OrderModel { id, customer_id, items: lines_from(first_line_id, items) },
        ),
        line_pairs(lookup(after, id).unwrap().items) == request_pairs(items),
{
    let i = choose|i: int| 0 <= i < before.len() && before[i].id == id;
    assert forall|a: int, b: int|
        0 <= a < after.len() && 0 <= b < after.len() && a != b implies after[a].id
        != after[b].id by {
        assert(after[a].id == before[a].id);
        assert(after[b].id == before[b].id);
    }
    assert(after[i] == OrderModel { id, customer_id, items: lines_from(first_line_id, items) });
    lemma_lookup_at(after, i);
    lemma_pairs_of_lines(first_line_id, items);
}

/// An order that is not in the store, or was just deleted, is not found.
pub proof fn law_fetch_missing(before: Seq<OrderModel>, after: Seq<OrderModel>, id: i64)
    requires
        ids_unique(before),
        deleted(before, after, id),
    ensures
        !contains_order(before, id) ==> lookup(before, id) == None::<OrderModel>,
        lookup(after, id) == None::<OrderModel>,
        !contains_order(after, id),
{
    if contains_order(before, id) {
        let i = choose|i: int|
            0 <= i < before.len() && before[i].id == id && after == before.remove(i);
        if contains_order(after, id) {
            let a = choose|a: int| 0 <= a < after.len() && after[a].id == id;
            let a2 = if a < i { a } else { a + 1 };
            assert(after[a] == before[a2]);
        }
    }
}

/// Creating an order for a customer appends exactly that order to the
/// customer's list and leaves every other customer's list unchanged.
pub proof fn law_list_by_customer_after_create(
    before: Seq<OrderModel>,
    after: Seq<OrderModel>,
    id: i64,
    customer_id: i64,
    items: Seq<OrderItemRequest>,
    first_line_id: int,
    other: i64,
)
    requires
        created(before, after, id, customer_id, items, first_line_id),
    ensures
        orders_of(after, customer_id) == orders_of(before, customer_id).push(
            OrderModel { id, customer_id, items: lines_from(first_line_id, items) },
        ),
        other != customer_id ==> orders_of(after, other) == orders_of(before, other),
{
    let m = OrderModel { id, customer_id, items: lines_from(first_line_id, items) };
    before.lemma_filter_push(m, of_customer(customer_id));
    before.lemma_filter_push(m, of_customer(other));
}

/// The order total is the exact sum of `unit price * amount` over the lines:
/// one line contributes exactly its price times its amount, and the total of
/// two lists of lines together is the sum of their totals.
pub proof fn law_total_is_exact_sum(
    catalog: Seq<ProductModel>,
    a: Seq<OrderItemRequest>,
    b: Seq<OrderItemRequest>,
    item: OrderItemRequest,
)
    ensures
        total_of(catalog, Seq::<OrderItemRequest>::empty()) == 0,
        total_of(catalog, seq![item]) == unit_price(catalog, item.product_id) * item.amount,
        total_of(catalog, a + b) == total_of(catalog, a) + total_of(catalog, b),
    decreases b.len(),
{
    let one = seq![item];
    assert(one.drop_last() =~= Seq::<OrderItemRequest>::empty());
    assert(line_price(catalog, item) == unit_price(catalog, item.product_id) * item.amount);
    if b.len() == 0 {
        assert(a + b =~= a);
    } else {
        law_total_is_exact_sum(catalog, a, b.drop_last(), item);
        assert((a + b).drop_last() =~= a + b.drop_last());
        assert((a + b).last() == b.last());
    }
}

} // verus!
