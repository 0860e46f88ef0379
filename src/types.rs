use vstd::prelude::*;

verus! {

/// A request to create or replace an order.
pub struct OrderRequest {
    pub customer_id: i64,
    pub items: Vec<OrderItemRequest>,
}

/// One requested line: a product and a quantity.
#[derive(Clone, Copy, Debug, PartialEq, Eq, Structural)]
pub struct OrderItemRequest {
    pub product_id: i64,
    pub amount: i64,
}

/// An order as it is returned: its id, its customer and its stored lines.
pub struct OrderResponse {
    pub id: i64,
    pub customer_id: i64,
    pub items: Vec<OrderItemResponse>,
}

/// A stored order line with its store-assigned id.
#[derive(Clone, Copy, Debug, PartialEq, Eq, Structural)]
pub struct OrderItemResponse {
    pub id: i64,
    pub product_id: i64,
    pub amount: i64,
}

/// The abstract value of an order: its id, customer and lines.
pub ghost struct OrderModel {
    pub id: i64,
    pub customer_id: i64,
    pub items: Seq<OrderItemResponse>,
}

impl View for OrderResponse {
    type V = OrderModel;

    open spec fn view(&self) -> OrderModel {
        OrderModel { id: self.id, customer_id: self.customer_id, items: self.items@ }
    }
}

/// A request to create or update a customer.
pub struct CustomerRequest {
    pub name: String,
    pub email: String,
    pub password: String,
    pub phone_number: Option<String>,
    pub address: Option<String>,
    pub is_active: Option<bool>,
}

/// A stored customer; `password` holds the hash of the password.
pub struct CustomerResponse {
    pub id: i64,
    pub name: String,
    pub email: String,
    pub password: String,
    pub phone_number: Option<String>,
    pub address: Option<String>,
    pub is_active: bool,
}

/// Credentials offered at login.
pub struct CustomerLoginRequest {
    pub email: String,
    pub password: String,
}

/// A request to create or update a product.
pub struct ProductRequest {
    pub name: String,
    pub description: Option<String>,
    pub price: i64,
    pub is_featured: bool,
}

/// A stored product; `price` is in minor currency units.
pub struct ProductResponse {
    pub id: i64,
    pub name: String,
    pub description: Option<String>,
    pub price: i64,
    pub is_featured: bool,
}

/// Server, database and mail settings.
pub struct Config {
    pub server_host: String,
    pub server_port: u16,
    pub db_client: String,
    pub db_user: String,
    pub db_password: String,
    pub db_host: String,
    pub db_port: u16,
    pub db_name: String,
    pub smtp_user: String,
    pub smtp_password: String,
    pub smtp_host: String,
    pub smtp_port: u16,
    pub smtp_from: String,
}

} // verus!
