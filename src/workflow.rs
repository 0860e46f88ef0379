use vstd::prelude::*;

use crate::assembler::{
    all_known, assemble, confirmation_text, fits, portuguese_template, render_confirmation,
    summary_models, summary_of, total_of, Assembly, ConfirmationTemplate,
};
use crate::customer::{find_customer, has_customer, CustomerStore};
use crate::error::Error;
use crate::product::ProductStore;
use crate::store::{
    created, deleted, lookup, models, orders_of, replaced, contains_order, OrderStore,
};
use crate::types::{OrderRequest, OrderResponse};

verus! {

/// The outcome of a created order: its id, its assembled summary and the
/// confirmation message to send to the customer.
pub struct Confirmation {
    pub order_id: i64,
    pub assembly: Assembly,
    pub to: String,
    pub subject: String,
    pub body: String,
}

/// The products, customers and orders of the store, with the texts of the
/// confirmation message.
pub struct Storefront {
    pub products: ProductStore,
    pub customers: CustomerStore,
    pub orders: OrderStore,
    pub template: ConfirmationTemplate,
}

impl Storefront {
    pub open spec fn wf(&self) -> bool {
        self.products.wf() && self.customers.wf() && self.orders.wf()
    }

    /// An empty store with the Portuguese confirmation texts.
    pub fn new() -> (r: Storefront)
        ensures
            r.wf(),
            r.products@.len() == 0,
            r.customers@.len() == 0,
            r.orders@.len() == 0,
            r.products.fresh_id() == 1,
            r.customers.fresh_id() == 1,
            r.orders.fresh_order_id() == 1,
            r.orders.fresh_line_id() == 1,
            r.template@ == portuguese_template(),
    {
        Storefront {
            products: ProductStore::new(),
            customers: CustomerStore::new(),
            orders: OrderStore::new(),
            template: ConfirmationTemplate::portuguese(),
        }
    }

    /// Creates an order: resolves the live price of every line, checks the
    /// customer, stores the header and its lines as one step and renders the
    /// confirmation. On any failure nothing is stored.
    pub fn create_order(&mut self, req: &OrderRequest) -> (r: Result<Confirmation, Error>)
        requires
            old(self).wf(),
        ensures
            final(self).wf(),
            final(self).products == old(self).products,
            final(self).customers == old(self).customers,
            final(self).template@ == old(self).template@,
            r.is_ok() <==> {
                &&& all_known(old(self).products@, req.items@)
                &&& fits(old(self).products@, req.items@)
                &&& has_customer(old(self).customers@, req.customer_id)
                &&& old(self).orders.has_room(req.items@.len() as int)
            },
            match r {
                Ok(c) => {
                    let catalog = old(self).products@;
                    let customer = find_customer(old(self).customers@, req.customer_id).unwrap();
                    &&& c.order_id == old(self).orders.fresh_order_id()
                    &&& final(self).orders.fresh_order_id() == c.order_id + 1
                    &&& final(self).orders.fresh_line_id() == old(self).orders.fresh_line_id()
                        + req.items@.len()
                    &&& created(
                        old(self).orders@,
                        final(self).orders@,
                        c.order_id,
                        req.customer_id,
                        req.items@,
                        old(self).orders.fresh_line_id() as int,
                    )
                    &&& c.assembly.total == total_of(catalog, req.items@)
                    &&& summary_models(c.assembly.lines@) == summary_of(catalog, req.items@)
                    &&& c.to@ == customer.email
                    &&& c.subject@ == old(self).template.subject@
                    &&& c.body@ == confirmation_text(
                        old(self).template@,
                        customer.name,
                        c.order_id,
                        c.assembly.total,
                        summary_of(catalog, req.items@),
                    )
                },
                Err(e) => {
                    &&& final(self).orders == old(self).orders
                    &&& e == Error::NotFound <==> !all_known(old(self).products@, req.items@) || (
                    fits(old(self).products@, req.items@) && !has_customer(
                        old(self).customers@,
                        req.customer_id,
                    ))
                    &&& e == Error::ValidationError <==> all_known(old(self).products@, req.items@)
                        && !fits(old(self).products@, req.items@)
                    &&& e == Error::StorageError <==> all_known(old(self).products@, req.items@)
                        && fits(old(self).products@, req.items@) && has_customer(
                        old(self).customers@,
                        req.customer_id,
                    ) && !old(self).orders.has_room(req.items@.len() as int)
                },
            },
    {
        let assembly = match assemble(&self.products, &req.items) {
            Ok(a) => a,
            Err(e) => {
                return Err(e);
            },
        };
        let customer = match self.customers.get_customer(req.customer_id) {
            Ok(c) => c,
            Err(e) => {
                return Err(e);
            },
        };
        let order_id = match self.orders.insert_order(req.customer_id, &req.items) {
            Ok(id) => id,
            Err(e) => {
                return Err(e);
            },
        };
        let body = render_confirmation(&self.template, customer.name.as_str(), order_id, &assembly);
        let subject = self.template.subject.clone();
        Ok(Confirmation { order_id, assembly, to: customer.email, subject, body })
    }

    /// Gives the order `id` a new customer and replaces all of its lines.
    pub fn update_order(&mut self, id: i64, req: &OrderRequest) -> (r: Result<(), Error>)
        requires
            old(self).wf(),
        ensures
            final(self).wf(),
            final(self).products == old(self).products,
            final(self).customers == old(self).customers,
            final(self).template@ == old(self).template@,
            r == Err::<(), Error>(Error::NotFound) <==> !contains_order(old(self).orders@, id),
            r == Err::<(), Error>(Error::StorageError) <==> contains_order(old(self).orders@, id)
                && !old(self).orders.has_line_room(req.items@.len() as int),
            r is Ok <==> contains_order(old(self).orders@, id) && old(self).orders.has_line_room(
                req.items@.len() as int,
            ),
            final(self).orders.fresh_order_id() == old(self).orders.fresh_order_id(),
            r is Ok ==> final(self).orders.fresh_line_id() == old(self).orders.fresh_line_id()
                + req.items@.len(),
            r is Err ==> final(self).orders.fresh_line_id() == old(self).orders.fresh_line_id(),
            match r {
                Ok(()) => replaced(
                    old(self).orders@,
                    final(self).orders@,
                    id,
                    req.customer_id,
                    req.items@,
                    old(self).orders.fresh_line_id() as int,
                ),
                Err(_) => final(self).orders@ == old(self).orders@,
            },
    {
        self.orders.replace_lines(id, req.customer_id, &req.items)
    }

    /// Removes the order `id` together with its lines; tells whether it existed.
    pub fn delete_order(&mut self, id: i64) -> (r: bool)
        requires
            old(self).wf(),
        ensures
            final(self).wf(),
            final(self).products == old(self).products,
            final(self).customers == old(self).customers,
            final(self).template@ == old(self).template@,
            r == contains_order(old(self).orders@, id),
            deleted(old(self).orders@, final(self).orders@, id),
            final(self).orders.fresh_order_id() == old(self).orders.fresh_order_id(),
            final(self).orders.fresh_line_id() == old(self).orders.fresh_line_id(),
    {
        self.orders.delete_order(id)
    }

    /// The order with the given id.
    pub fn get_order(&self, id: i64) -> (r: Result<OrderResponse, Error>)
        requires
            self.wf(),
        ensures
            r.is_ok() <==> contains_order(self.orders@, id),
            match r {
                Ok(o) => lookup(self.orders@, id) == Some(o@),
                Err(e) => e == Error::NotFound && lookup(self.orders@, id) == None::<
                    crate::types::OrderModel,
                >,
            },
    {
        self.orders.get_order(id)
    }

    /// All orders, in the order they were created.
    pub fn get_orders(&self) -> (r: Vec<OrderResponse>)
        requires
            self.wf(),
        ensures
            models(r@) == self.orders@,
    {
        self.orders.get_orders()
    }

    /// The orders of one customer, in the order they were created.
    pub fn get_orders_by_customer(&self, customer_id: i64) -> (r: Vec<OrderResponse>)
        requires
            self.wf(),
        ensures
            models(r@) == orders_of(self.orders@, customer_id),
    {
        self.orders.get_orders_by_customer(customer_id)
    }
}

} // verus!
