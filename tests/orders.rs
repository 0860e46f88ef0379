use storefront::assembler::{assemble, ConfirmationTemplate};
use storefront::error::Error;
use storefront::types::{Config, CustomerRequest, OrderItemRequest, OrderRequest, ProductRequest};
use storefront::workflow::Storefront;

fn product(name: &str, price: i64) -> ProductRequest {
    ProductRequest { name: name.to_string(), description: None, price, is_featured: false }
}

fn customer(name: &str, email: &str) -> CustomerRequest {
    CustomerRequest {
        name: name.to_string(),
        email: email.to_string(),
        password: "secret".to_string(),
        phone_number: None,
        address: None,
        is_active: None,
    }
}

fn config() -> Config {
    Config {
        server_host: "localhost".to_string(),
        server_port: 8080,
        db_client: "mysql".to_string(),
        db_user: "root".to_string(),
        db_password: "pw".to_string(),
        db_host: "localhost".to_string(),
        db_port: 3306,
        db_name: "shop".to_string(),
        smtp_user: "mailer".to_string(),
        smtp_password: "pw".to_string(),
        smtp_host: "smtp.example.com".to_string(),
        smtp_port: 587,
        smtp_from: "loja@example.com".to_string(),
    }
}

fn item(product_id: i64, amount: i64) -> OrderItemRequest {
    OrderItemRequest { product_id, amount }
}

/// Five products (ids 1 to 5; 3 costs 1000 and 5 costs 2500) and seven customers.
fn shop() -> Storefront {
    let mut s = Storefront::new();
    let prices = [100, 200, 1000, 400, 2500];
    for (k, p) in prices.iter().enumerate() {
        let id = s.products.create_product(&product(&format!("Produto {}", k + 1), *p)).unwrap();
        assert_eq!(id, k as i64 + 1);
    }
    for k in 1..=7 {
        let id = s.customers.create_customer(&config(), &customer(&format!("Cliente {}", k), &format!("c{}@example.com", k))).unwrap().customer_id;
        assert_eq!(id, k);
    }
    s
}

#[test]
fn scenario_customer_seven_total_and_fetch() {
    let mut s = shop();
    let req = OrderRequest { customer_id: 7, items: vec![item(3, 2), item(5, 1)] };
    let c = s.create_order(&req).unwrap();
    assert_eq!(c.assembly.total, 4500);
    assert_eq!(c.to, "c7@example.com");
    assert_eq!(c.subject, "Confirmação de pedido");
    let o = s.get_order(c.order_id).unwrap();
    assert_eq!(o.id, c.order_id);
    assert_eq!(o.customer_id, 7);
    let pairs: Vec<(i64, i64)> = o.items.iter().map(|l| (l.product_id, l.amount)).collect();
    assert_eq!(pairs, vec![(3, 2), (5, 1)]);
}

#[test]
fn scenario_list_by_customer_seven() {
    let mut s = shop();
    let req = OrderRequest { customer_id: 7, items: vec![item(3, 2), item(5, 1)] };
    let c = s.create_order(&req).unwrap();
    let other = OrderRequest { customer_id: 2, items: vec![item(1, 1)] };
    s.create_order(&other).unwrap();
    let list = s.get_orders_by_customer(7);
    assert_eq!(list.len(), 1);
    assert_eq!(list[0].id, c.order_id);
    assert_eq!(list[0].customer_id, 7);
    assert_eq!(s.get_orders().len(), 2);
}

#[test]
fn confirmation_body_is_rendered_in_request_order() {
    let mut s = shop();
    let req = OrderRequest { customer_id: 7, items: vec![item(5, 1), item(3, 2)] };
    let c = s.create_order(&req).unwrap();
    assert_eq!(
        c.body,
        "<h3>Confirmação de pedido</h3><p>Olá, Cliente 7! Seu pedido (ID: 1) foi recebido.<br>\
         Total: 4500<br></p><ul>\
         <li>Nome do produto: Produto 5 - quantidade: 1 - preço total: R$2500\
         <li>Nome do produto: Produto 3 - quantidade: 2 - preço total: R$2000\
         </ul><p>Obrigado por comprar conosco!</p>"
    );
}

#[test]
fn create_then_fetch_keeps_customer_and_pairs() {
    let mut s = shop();
    let req = OrderRequest { customer_id: 3, items: vec![item(1, 4), item(1, 4), item(2, -1)] };
    let c = s.create_order(&req).unwrap();
    let o = s.get_order(c.order_id).unwrap();
    assert_eq!(o.customer_id, 3);
    let pairs: Vec<(i64, i64)> = o.items.iter().map(|l| (l.product_id, l.amount)).collect();
    assert_eq!(pairs, vec![(1, 4), (1, 4), (2, -1)]);
    let ids: Vec<i64> = o.items.iter().map(|l| l.id).collect();
    assert_eq!(ids, vec![1, 2, 3]);
}

#[test]
fn total_is_exact_sum_of_price_times_amount() {
    let s = shop();
    let items = vec![item(1, 3), item(2, 5), item(4, 7), item(5, 0)];
    let a = assemble(&s.products, &items).unwrap();
    assert_eq!(a.total, 100 * 3 + 200 * 5 + 400 * 7);
    let totals: Vec<i64> = a.lines.iter().map(|l| l.line_total).collect();
    assert_eq!(totals, vec![300, 1000, 2800, 0]);
    assert_eq!(a.lines[2].name, "Produto 4");
    assert_eq!(a.lines[2].amount, 7);
}

#[test]
fn empty_order_has_zero_total() {
    let mut s = shop();
    let c = s.create_order(&OrderRequest { customer_id: 1, items: vec![] }).unwrap();
    assert_eq!(c.assembly.total, 0);
    assert!(s.get_order(c.order_id).unwrap().items.is_empty());
}

#[test]
fn total_out_of_range_is_a_validation_error() {
    let mut s = shop();
    let big = s.products.create_product(&product("Caro", i64::MAX / 2 + 1)).unwrap();
    let line = assemble(&s.products, &vec![item(big, 2)]);
    assert!(matches!(line, Err(Error::ValidationError)));
    let sum = assemble(&s.products, &vec![item(big, 1), item(big, 1)]);
    assert!(matches!(sum, Err(Error::ValidationError)));
    let r = s.create_order(&OrderRequest { customer_id: 1, items: vec![item(big, 1), item(big, 1)] });
    assert!(matches!(r, Err(Error::ValidationError)));
    assert!(s.get_orders().is_empty());
}

#[test]
fn replace_then_fetch_returns_only_new_lines() {
    let mut s = shop();
    let c = s.create_order(&OrderRequest { customer_id: 1, items: vec![item(1, 1), item(2, 2)] }).unwrap();
    s.update_order(c.order_id, &OrderRequest { customer_id: 4, items: vec![item(5, 9)] }).unwrap();
    let o = s.get_order(c.order_id).unwrap();
    assert_eq!(o.customer_id, 4);
    let pairs: Vec<(i64, i64)> = o.items.iter().map(|l| (l.product_id, l.amount)).collect();
    assert_eq!(pairs, vec![(5, 9)]);
    assert_eq!(o.items[0].id, 3);
}

#[test]
fn replace_of_missing_order_is_not_found() {
    let mut s = shop();
    let r = s.update_order(42, &OrderRequest { customer_id: 1, items: vec![item(1, 1)] });
    assert_eq!(r, Err(Error::NotFound));
    assert!(s.get_orders().is_empty());
}

#[test]
fn fetch_of_unknown_or_deleted_order_is_not_found() {
    let mut s = shop();
    assert!(matches!(s.get_order(1), Err(Error::NotFound)));
    let c = s.create_order(&OrderRequest { customer_id: 1, items: vec![item(1, 1)] }).unwrap();
    assert!(s.get_order(c.order_id).is_ok());
    assert!(s.delete_order(c.order_id));
    assert!(matches!(s.get_order(c.order_id), Err(Error::NotFound)));
    assert!(!s.delete_order(c.order_id));
}

#[test]
fn unknown_product_is_not_found_and_stores_nothing() {
    let mut s = shop();
    let r = s.create_order(&OrderRequest { customer_id: 7, items: vec![item(3, 2), item(99, 1)] });
    assert!(matches!(r, Err(Error::NotFound)));
    assert!(s.get_orders().is_empty());
    assert!(s.get_orders_by_customer(7).is_empty());
    let c = s.create_order(&OrderRequest { customer_id: 7, items: vec![item(3, 2)] }).unwrap();
    assert_eq!(c.order_id, 1);
}

#[test]
fn unknown_customer_is_not_found_and_stores_nothing() {
    let mut s = shop();
    let r = s.create_order(&OrderRequest { customer_id: 8, items: vec![item(3, 2)] });
    assert!(matches!(r, Err(Error::NotFound)));
    assert!(s.get_orders().is_empty());
}

#[test]
fn price_is_read_live_at_creation() {
    let mut s = shop();
    let first = s.create_order(&OrderRequest { customer_id: 1, items: vec![item(3, 1)] }).unwrap();
    assert_eq!(first.assembly.total, 1000);
    assert!(s.products.update_product(3, &product("Produto 3", 1500)));
    let second = s.create_order(&OrderRequest { customer_id: 1, items: vec![item(3, 1)] }).unwrap();
    assert_eq!(second.assembly.total, 1500);
}

#[test]
fn error_status_codes() {
    assert_eq!(Error::NotFound.status_code(), 404);
    assert_eq!(Error::ValidationError.status_code(), 400);
    assert_eq!(Error::StorageError.status_code(), 500);
    assert_eq!(Error::DeliveryError.status_code(), 502);
}

#[test]
fn line_ids_are_never_reused() {
    let mut s = shop();
    let a = s.create_order(&OrderRequest { customer_id: 1, items: vec![item(1, 1), item(2, 1)] }).unwrap();
    let b = s.create_order(&OrderRequest { customer_id: 2, items: vec![item(3, 1)] }).unwrap();
    s.update_order(a.order_id, &OrderRequest { customer_id: 1, items: vec![item(4, 1), item(5, 1)] }).unwrap();
    s.delete_order(b.order_id);
    let c = s.create_order(&OrderRequest { customer_id: 3, items: vec![item(1, 2)] }).unwrap();
    assert_eq!(c.order_id, 3);
    let mut ids: Vec<i64> = s.get_orders().iter().flat_map(|o| o.items.iter().map(|l| l.id)).collect();
    ids.sort();
    assert_eq!(ids, vec![4, 5, 6]);
}

#[test]
fn confirmation_texts_are_configurable() {
    let mut s = shop();
    s.template = ConfirmationTemplate {
        subject: "Order confirmation".to_string(),
        greeting: "Hello, ".to_string(),
        order_intro: "! Order ".to_string(),
        total_intro: " received. Total: ".to_string(),
        list_open: "<ul>".to_string(),
        item_name: "<li>".to_string(),
        item_amount: " x".to_string(),
        item_total: " = ".to_string(),
        closing: "</ul>".to_string(),
    };
    let c = s.create_order(&OrderRequest { customer_id: 2, items: vec![item(2, 3)] }).unwrap();
    assert_eq!(c.subject, "Order confirmation");
    assert_eq!(c.body, "Hello, Cliente 2! Order 1 received. Total: 600<ul><li>Produto 2 x3 = 600</ul>");
}

#[test]
fn repeated_update_succeeds_with_same_pairs() {
    let mut s = shop();
    let c = s.create_order(&OrderRequest { customer_id: 1, items: vec![item(1, 1)] }).unwrap();
    let req = OrderRequest { customer_id: 2, items: vec![item(2, 3), item(4, 1)] };
    assert_eq!(s.update_order(c.order_id, &req), Ok(()));
    let first: Vec<(i64, i64)> = s.get_order(c.order_id).unwrap().items.iter().map(|l| (l.product_id, l.amount)).collect();
    assert_eq!(s.update_order(c.order_id, &req), Ok(()));
    let o = s.get_order(c.order_id).unwrap();
    let second: Vec<(i64, i64)> = o.items.iter().map(|l| (l.product_id, l.amount)).collect();
    assert_eq!(first, second);
    assert_eq!(o.customer_id, 2);
}
