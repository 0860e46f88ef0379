use storefront::customer::{activation_message, hash, send_password_reset};
use storefront::error::Error;
use storefront::product::ProductStore;
use storefront::customer::CustomerStore;
use storefront::pattern::like;
use storefront::text::decimal_text;
use storefront::types::{Config, CustomerLoginRequest, CustomerRequest, ProductRequest};

fn config() -> Config {
    Config {
        server_host: "localhost".to_string(),
        server_port: 8080,
        db_client: "mysql".to_string(),
        db_user: "root".to_string(),
        db_password: "pw".to_string(),
        db_host: "localhost".to_string(),
        db_port: 3306,
        db_name: "shop".to_string(),
        smtp_user: "mailer".to_string(),
        smtp_password: "pw".to_string(),
        smtp_host: "smtp.example.com".to_string(),
        smtp_port: 587,
        smtp_from: "loja@example.com".to_string(),
    }
}

fn customer(email: &str, password: &str, active: Option<bool>) -> CustomerRequest {
    CustomerRequest {
        name: "Ana".to_string(),
        email: email.to_string(),
        password: password.to_string(),
        phone_number: Some("5555".to_string()),
        address: None,
        is_active: active,
    }
}

#[test]
fn hash_is_lower_hex_md5() {
    assert_eq!(hash("abc"), "900150983cd24fb0d6963f7d28e17f72");
    assert_eq!(hash(""), "d41d8cd98f00b204e9800998ecf8427e");
}

#[test]
fn decimal_text_of_edge_values() {
    assert_eq!(decimal_text(0), "0");
    assert_eq!(decimal_text(4500), "4500");
    assert_eq!(decimal_text(-45), "-45");
    assert_eq!(decimal_text(i64::MIN), "-9223372036854775808");
    assert_eq!(decimal_text(i64::MAX), "9223372036854775807");
}

#[test]
fn products_crud_and_featured() {
    let mut p = ProductStore::new();
    let a = p.create_product(&ProductRequest { name: "A".to_string(), description: None, price: 10, is_featured: true }).unwrap();
    let b = p.create_product(&ProductRequest { name: "B".to_string(), description: Some("d".to_string()), price: 20, is_featured: false }).unwrap();
    assert_eq!((a, b), (1, 2));
    assert_eq!(p.get_product(b).unwrap().description, Some("d".to_string()));
    let featured: Vec<i64> = p.get_featured_products().iter().map(|x| x.id).collect();
    assert_eq!(featured, vec![1]);
    assert!(p.update_product(b, &ProductRequest { name: "B2".to_string(), description: None, price: 25, is_featured: true }));
    assert_eq!(p.price_of(b).unwrap(), (25, "B2".to_string()));
    assert_eq!(p.get_featured_products().len(), 2);
    assert!(p.delete_product(a));
    assert!(matches!(p.get_product(a), Err(Error::NotFound)));
    assert!(matches!(p.price_of(a), Err(Error::NotFound)));
    assert!(!p.update_product(a, &ProductRequest { name: "X".to_string(), description: None, price: 1, is_featured: false }));
    assert_eq!(p.get_products().len(), 1);
}

#[test]
fn customer_password_is_stored_hashed() {
    let mut c = CustomerStore::new();
    let id = c.create_customer(&config(), &customer("ana@example.com", "abc", None)).unwrap().customer_id;
    let got = c.get_customer(id).unwrap();
    assert_eq!(got.password, "900150983cd24fb0d6963f7d28e17f72");
    assert!(!got.is_active);
    assert_eq!(got.phone_number, Some("5555".to_string()));
}

#[test]
fn login_needs_active_account_and_right_password() {
    let mut c = CustomerStore::new();
    c.create_customer(&config(), &customer("ana@example.com", "abc", None)).unwrap().customer_id;
    let good = CustomerLoginRequest { email: "ana@example.com".to_string(), password: "abc".to_string() };
    let bad = CustomerLoginRequest { email: "ana@example.com".to_string(), password: "abd".to_string() };
    assert!(c.login_customer(&good).is_none());
    assert!(c.activate_customer(&hash("ana@example.com")));
    assert_eq!(c.login_customer(&good).unwrap().id, 1);
    assert!(c.login_customer(&bad).is_none());
    assert!(!c.activate_customer("0123"));
}

#[test]
fn password_reset_by_token() {
    let mut c = CustomerStore::new();
    c.create_customer(&config(), &customer("bia@example.com", "old", Some(true))).unwrap();
    assert!(c.password_reset(&hash("bia@example.com"), "new"));
    let login = CustomerLoginRequest { email: "bia@example.com".to_string(), password: "new".to_string() };
    assert!(c.login_customer(&login).is_some());
    assert!(!c.password_reset("wrong", "x"));
}

#[test]
fn customers_update_and_delete() {
    let mut c = CustomerStore::new();
    let id = c.create_customer(&config(), &customer("a@example.com", "p", None)).unwrap().customer_id;
    assert!(c.update_customer(id, &customer("b@example.com", "q", Some(true))));
    let got = c.get_customer(id).unwrap();
    assert_eq!(got.email, "b@example.com");
    assert!(got.is_active);
    assert!(c.delete_customer(id));
    assert!(matches!(c.get_customer(id), Err(Error::NotFound)));
    assert!(c.get_customers().is_empty());
}

#[test]
fn activation_and_reset_messages() {
    let cfg = config();
    let token = hash("ana@example.com");
    assert_eq!(
        activation_message(&cfg, "Ana", "ana@example.com"),
        format!(
            "<b>Email de confirmação de cadastro</b><br><br>Seja bem-vindo(a), Ana! Clique no link abaixo para confirmar seu cadastro.<br><br><a href='http://localhost:8080/api/customer/activate/{}'>Clique aqui</a>",
            token
        )
    );
    assert_eq!(
        send_password_reset(&cfg, "ana@example.com").body,
        format!(
            "<p>Você solicitou redefinição de senha</p><p>Olá! Clique no link abaixo para redefinir a senha:</p><p><a href='https://localhost:8080/reset-password-form?token={}'>Redefinir senha</a></p>",
            token
        )
    );
}

#[test]
fn search_uses_like_patterns() {
    let mut p = ProductStore::new();
    for name in ["Camisa azul", "Camisa verde", "Calça", "camisa"] {
        p.create_product(&ProductRequest { name: name.to_string(), description: None, price: 1, is_featured: false }).unwrap();
    }
    let names = |v: Vec<storefront::types::ProductResponse>| v.into_iter().map(|x| x.name).collect::<Vec<_>>();
    assert_eq!(names(p.get_products_with_search("Camisa%")), vec!["Camisa azul", "Camisa verde"]);
    assert_eq!(names(p.get_products_with_search("%a")), vec!["Calça", "camisa"]);
    assert_eq!(names(p.get_products_with_search("Cal_a")), vec!["Calça"]);
    assert_eq!(names(p.get_products_with_search("Calça")), vec!["Calça"]);
    assert_eq!(p.get_products_with_search("%").len(), 4);
    assert!(p.get_products_with_search("Camisa").is_empty());
    assert_eq!(names(p.get_products_with_search("camisa")), vec!["camisa"]);
    assert!(p.get_products_with_search("xyz%").is_empty());
}

#[test]
fn like_matches_wildcards() {
    assert!(like("", ""));
    assert!(!like("", "a"));
    assert!(like("%", ""));
    assert!(like("a%c", "abbbc"));
    assert!(!like("a%c", "abbb"));
    assert!(like("_b_", "abc"));
    assert!(!like("_b_", "abcd"));
    assert!(like("%%x%", "yyxyy"));
}

#[test]
fn create_customer_returns_activation_message() {
    let mut c = CustomerStore::new();
    let reg = c.create_customer(&config(), &customer("ana@example.com", "abc", None)).unwrap();
    assert_eq!(reg.customer_id, 1);
    assert_eq!(reg.to, "ana@example.com");
    assert_eq!(reg.subject, "Confirmação de novo cadastro");
    assert_eq!(reg.body, activation_message(&config(), "Ana", "ana@example.com"));
    assert!(reg.body.contains("http://localhost:8080/api/customer/activate/"));
}

#[test]
fn like_backslash_escapes() {
    assert!(like("a\\%", "a%"));
    assert!(!like("a\\%", "abc"));
    assert!(!like("a\\%", "a\\x"));
    assert!(like("a\\_b", "a_b"));
    assert!(!like("a\\_b", "axb"));
    assert!(like("a\\\\", "a\\"));
    assert!(like("a\\", "a\\"));
    assert!(like("\\a%", "abc"));
}

#[test]
fn reset_message_goes_to_the_address_with_its_subject() {
    let m = send_password_reset(&config(), "bia@example.com");
    assert_eq!(m.to, "bia@example.com");
    assert_eq!(m.subject, "Redefinição de senha");
    assert!(m.body.contains(&format!("https://localhost:8080/reset-password-form?token={}", hash("bia@example.com"))));
}
