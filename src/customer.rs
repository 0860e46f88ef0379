use vstd::prelude::*;

use crate::error::Error;
use crate::product::{copy_text, opt_text};
use crate::text::{push_decimal, signed_decimal};
use vstd::string::StringExecFns;
use crate::types::{Config, CustomerLoginRequest, CustomerRequest, CustomerResponse};

verus! {

/// The lower-case hexadecimal MD5 digest of the UTF-8 bytes of a text.
pub uninterp spec fn md5_hex(s: Seq<char>) -> Seq<char>;

/// Relies on `md5::compute` and the `LowerHex` form of its `Digest`, which
/// writes two hex digits for each of the sixteen digest bytes.
#[verifier::external_body]
pub fn hash(raw: &str) -> (r: String)
    ensures
        r@ == md5_hex(raw@),
        r@.len() == 32,
{
    format!("{:032x}", md5::compute(raw))
}

/// The abstract value of a customer; `password` is the stored hash.
pub ghost struct CustomerModel {
    pub id: i64,
    pub name: Seq<char>,
    pub email: Seq<char>,
    pub password: Seq<char>,
    pub phone_number: Option<Seq<char>>,
    pub address: Option<Seq<char>>,
    pub is_active: bool,
}

impl View for CustomerResponse {
    type V = CustomerModel;

    open spec fn view(&self) -> CustomerModel {
        CustomerModel {
            id: self.id,
            name: self.name@,
            email: self.email@,
            password: self.password@,
            phone_number: opt_text(self.phone_number),
            address: opt_text(self.address),
            is_active: self.is_active,
        }
    }
}

/// The customer that a request describes: the password is stored hashed and
/// an absent activation flag means inactive.
pub open spec fn customer_from(id: i64, req: CustomerRequest) -> CustomerModel {
    CustomerModel {
        id,
        name: req.name@,
        email: req.email@,
        password: md5_hex(req.password@),
        phone_number: opt_text(req.phone_number),
        address: opt_text(req.address),
        is_active: match req.is_active {
            Some(b) => b,
            None => false,
        },
    }
}

pub open spec fn customer_models(s: Seq<CustomerResponse>) -> Seq<CustomerModel> {
    s.map_values(|c: CustomerResponse| c@)
}

pub open spec fn has_customer(s: Seq<CustomerModel>, id: i64) -> bool {
    exists|i: int| 0 <= i < s.len() && s[i].id == id
}

/// The customer with the given id, if there is one.
pub open spec fn find_customer(s: Seq<CustomerModel>, id: i64) -> Option<CustomerModel> {
    if has_customer(s, id) {
        Some(s[choose|i: int| 0 <= i < s.len() && s[i].id == id])
    } else {
        None
    }
}

/// The customer may log in with these credentials.
pub open spec fn accepts(c: CustomerModel, email: Seq<char>, password: Seq<char>) -> bool {
    c.email == email && c.password == md5_hex(password) && c.is_active
}

/// The customer's activation token is `token`.
pub open spec fn token_matches(c: CustomerModel, token: Seq<char>) -> bool {
    md5_hex(c.email) == token
}

fn copy_customer(c: &CustomerResponse) -> (r: CustomerResponse)
    ensures
        r@ == c@,
{
    CustomerResponse {
        id: c.id,
        name: c.name.clone(),
        email: c.email.clone(),
        password: c.password.clone(),
        phone_number: copy_text(&c.phone_number),
        address: copy_text(&c.address),
        is_active: c.is_active,
    }
}

fn text_eq(a: &String, b: &String) -> (r: bool)
    ensures
        r == (a@ == b@),
{
    *a == *b
}

/// A created account: its id and the activation message to send.
pub struct Registration {
    pub customer_id: i64,
    pub to: String,
    pub subject: String,
    pub body: String,
}

/// The subject of the activation message.
pub open spec fn registration_subject() -> Seq<char> {
    "Confirmação de novo cadastro"@
}

/// The customers; passwords are kept as MD5 hashes.
pub struct CustomerStore {
    customers: Vec<CustomerResponse>,
    next_id: i64,
}

impl View for CustomerStore {
    type V = Seq<CustomerModel>;

    closed spec fn view(&self) -> Seq<CustomerModel> {
        customer_models(self.customers@)
    }
}

impl CustomerStore {
    /// Customer ids are unique and below the counter.
    pub closed spec fn wf(&self) -> bool {
        &&& 1 <= self.next_id
        &&& forall|i: int, j: int|
            0 <= i < self@.len() && 0 <= j < self@.len() && i != j ==> self@[i].id != self@[j].id
        &&& forall|i: int| 0 <= i < self@.len() ==> 1 <= #[trigger] self@[i].id < self.next_id
    }

    /// The id that the next created customer receives.
    pub closed spec fn fresh_id(&self) -> i64 {
        self.next_id
    }

    /// An empty customer store.
    pub fn new() -> (r: CustomerStore)
        ensures
            r.wf(),
            r@ == Seq::<CustomerModel>::empty(),
            r.fresh_id() == 1,
    {
        let r = CustomerStore { customers: Vec::new(), next_id: 1 };
        assert(r@ =~= Seq::<CustomerModel>::empty());
        r
    }

    proof fn lemma_find_at(&self, i: int)
        requires
            self.wf(),
            0 <= i < self@.len(),
        ensures
            find_customer(self@, self@[i].id) == Some(self@[i]),
    {
        let id = self@[i].id;
        assert(has_customer(self@, id));
        let j = choose|j: int| 0 <= j < self@.len() && self@[j].id == id;
        assert(i == j);
    }

    fn index_of(&self, id: i64) -> (r: Option<usize>)
        requires
            self.wf(),
        ensures
            r.is_some() <==> has_customer(self@, id),
            match r {
                Some(i) => i < self@.len() && self@[i as int].id == id && find_customer(self@, id)
                    == Some(self@[i as int]),
                None => find_customer(self@, id) == None::<CustomerModel>,
            },
    {
        let mut i: usize = 0;
        while i < self.customers.len()
            invariant
                self.wf(),
                i <= self.customers.len(),
                forall|j: int| 0 <= j < i ==> #[trigger] self@[j].id != id,
            decreases self.customers.len() - i,
        {
            if self.customers[i].id == id {
                assert(self@[i as int].id == id);
                proof {
                    self.lemma_find_at(i as int);
                }
                return Some(i);
            }
            i += 1;
        }
        None
    }

    fn build(id: i64, req: &CustomerRequest) -> (r: CustomerResponse)
        ensures
            r@ == customer_from(id, *req),
    {
        CustomerResponse {
            id,
            name: req.name.clone(),
            email: req.email.clone(),
            password: hash(req.password.as_str()),
            phone_number: copy_text(&req.phone_number),
            address: copy_text(&req.address),
            is_active: match req.is_active {
                Some(b) => b,
                None => false,
            },
        }
    }

    /// Adds a customer, storing the hash of the password, and renders the
    /// message with the link that activates the account.
    pub fn create_customer(&mut self, config: &Config, req: &CustomerRequest) -> (r: Result<
        Registration,
        Error,
    >)
        requires
            old(self).wf(),
        ensures
            final(self).wf(),
            r.is_ok() <==> old(self).fresh_id() < i64::MAX,
            match r {
                Ok(reg) => {
                    let id = reg.customer_id;
                    &&& id == old(self).fresh_id()
                    &&& final(self).fresh_id() == id + 1
                    &&& !has_customer(old(self)@, id)
                    &&& final(self)@ == old(self)@.push(customer_from(id, *req))
                    &&& reg.to@ == req.email@
                    &&& reg.subject@ == registration_subject()
                    &&& reg.body@ == activation_text(*config, req.name@, req.email@)
                },
                Err(e) => e == Error::StorageError && *final(self) == *old(self),
            },
    {
        if self.next_id == i64::MAX {
            return Err(Error::StorageError);
        }
        let id = self.next_id;
        let ghost before = self@;
        let c = Self::build(id, req);
        self.customers.push(c);
        self.next_id = id + 1;
        assert(self@ =~= before.push(customer_from(id, *req)));
        assert forall|i: int, j: int|
            0 <= i < self@.len() && 0 <= j < self@.len() && i != j implies self@[i].id
            != self@[j].id by {
            if i < before.len() && j < before.len() {
                assert(before[i] == self@[i] && before[j] == self@[j]);
            } else if i < before.len() {
                assert(before[i].id < id);
            } else {
                assert(before[j].id < id);
            }
        }
        assert forall|i: int| 0 <= i < self@.len() implies 1 <= #[trigger] self@[i].id
            < self.next_id by {
            if i < before.len() {
                assert(before[i] == self@[i]);
            }
        }
        assert(!has_customer(before, id)) by {
            if has_customer(before, id) {
                let i = choose|i: int| 0 <= i < before.len() && before[i].id == id;
                assert(before[i].id < id);
            }
        }
        let body = activation_message(config, req.name.as_str(), req.email.as_str());
        let subject = "Confirmação de novo cadastro".to_owned();
        Ok(Registration { customer_id: id, to: req.email.clone(), subject, body })
    }

    /// Overwrites the customer `id` with the request; tells whether it existed.
    pub fn update_customer(&mut self, id: i64, req: &CustomerRequest) -> (r: bool)
        requires
            old(self).wf(),
        ensures
            final(self).wf(),
            r == has_customer(old(self)@, id),
            final(self).fresh_id() == old(self).fresh_id(),
            final(self)@.len() == old(self)@.len(),
            forall|i: int|
                0 <= i < old(self)@.len() ==> #[trigger] final(self)@[i] == if old(self)@[i].id
                    == id {
                    customer_from(id, *req)
                } else {
                    old(self)@[i]
                },
    {
        match self.index_of(id) {
            Some(i) => {
                let ghost before = self@;
                let c = Self::build(id, req);
                self.customers.set(i, c);
                assert forall|j: int| 0 <= j < before.len() implies #[trigger] self@[j] == if before[j].id
                    == id {
                    customer_from(id, *req)
                } else {
                    before[j]
                } by {
                    if j != i {
                        assert(before[j].id != before[i as int].id);
                    }
                }
                assert forall|a: int, b: int|
                    0 <= a < self@.len() && 0 <= b < self@.len() && a != b implies self@[a].id
                    != self@[b].id by {
                    assert(before[a].id != before[b].id);
                }
                assert forall|a: int| 0 <= a < self@.len() implies 1 <= #[trigger] self@[a].id
                    < self.next_id by {
                    assert(self@[a].id == before[a].id);
                }
                true
            },
            None => false,
        }
    }

    /// Removes the customer `id`; tells whether it existed.
    pub fn delete_customer(&mut self, id: i64) -> (r: bool)
        requires
            old(self).wf(),
        ensures
            final(self).wf(),
            r == has_customer(old(self)@, id),
            final(self).fresh_id() == old(self).fresh_id(),
            r ==> exists|i: int|
                0 <= i < old(self)@.len() && old(self)@[i].id == id && final(self)@ == old(
                    self,
                )@.remove(i),
            !r ==> final(self)@ == old(self)@,
    {
        match self.index_of(id) {
            Some(i) => {
                let ghost before = self@;
                let _removed = self.customers.remove(i);
                assert(self@ =~= before.remove(i as int));
                assert forall|a: int, b: int|
                    0 <= a < self@.len() && 0 <= b < self@.len() && a != b implies self@[a].id
                    != self@[b].id by {
                    let a2 = if a < i { a } else { a + 1 };
                    let b2 = if b < i { b } else { b + 1 };
                    assert(self@[a] == before[a2] && self@[b] == before[b2]);
                }
                assert forall|a: int| 0 <= a < self@.len() implies 1 <= #[trigger] self@[a].id
                    < self.next_id by {
                    let a2 = if a < i { a } else { a + 1 };
                    assert(self@[a] == before[a2]);
                }
                true
            },
            None => false,
        }
    }

    /// The customer with the given id.
    pub fn get_customer(&self, id: i64) -> (r: Result<CustomerResponse, Error>)
        requires
            self.wf(),
        ensures
            r.is_ok() <==> has_customer(self@, id),
            match r {
                Ok(c) => find_customer(self@, id) == Some(c@) && c.id == id,
                Err(e) => e == Error::NotFound,
            },
    {
        match self.index_of(id) {
            Some(i) => Ok(copy_customer(&self.customers[i])),
            None => Err(Error::NotFound),
        }
    }

    /// All customers, in the order they were created.
    pub fn get_customers(&self) -> (r: Vec<CustomerResponse>)
        ensures
            customer_models(r@) == self@,
    {
        let mut out: Vec<CustomerResponse> = Vec::new();
        let mut i: usize = 0;
        while i < self.customers.len()
            invariant
                i <= self.customers.len(),
                customer_models(out@) == self@.take(i as int),
            decreases self.customers.len() - i,
        {
            let ghost prev = out@;
            out.push(copy_customer(&self.customers[i]));
            assert(customer_models(out@) =~= customer_models(prev).push(self@[i as int]));
            i += 1;
            assert(self@.take(i as int) =~= self@.take(i - 1).push(self@[i - 1]));
        }
        assert(self@.take(self@.len() as int) =~= self@);
        out
    }

    /// The first active customer with this email whose stored hash is the
    /// hash of this password.
    pub fn login_customer(&self, req: &CustomerLoginRequest) -> (r: Option<CustomerResponse>)
        ensures
            r.is_some() <==> exists|i: int|
                0 <= i < self@.len() && accepts(#[trigger] self@[i], req.email@, req.password@),
            match r {
                Some(c) => exists|i: int|
                    0 <= i < self@.len() && self@[i] == c@ && accepts(c@, req.email@, req.password@)
                        && forall|j: int|
                        0 <= j < i ==> !accepts(#[trigger] self@[j], req.email@, req.password@),
                None => true,
            },
    {
        let hashed = hash(req.password.as_str());
        let mut i: usize = 0;
        while i < self.customers.len()
            invariant
                i <= self.customers.len(),
                hashed@ == md5_hex(req.password@),
                forall|j: int| 0 <= j < i ==> !accepts(#[trigger] self@[j], req.email@, req.password@),
            decreases self.customers.len() - i,
        {
            let c = &self.customers[i];
            if c.is_active && text_eq(&c.email, &req.email) && text_eq(&c.password, &hashed) {
                assert(accepts(self@[i as int], req.email@, req.password@));
                return Some(copy_customer(c));
            }
            i += 1;
        }
        None
    }

    /// Marks active every customer whose activation token is `token`; tells
    /// whether any matched.
    pub fn activate_customer(&mut self, token: &str) -> (r: bool)
        requires
            old(self).wf(),
        ensures
            final(self).wf(),
            final(self).fresh_id() == old(self).fresh_id(),
            r == exists|i: int| 0 <= i < old(self)@.len() && token_matches(#[trigger] old(self)@[i], token@),
            final(self)@.len() == old(self)@.len(),
            forall|i: int|
                0 <= i < old(self)@.len() ==> #[trigger] final(self)@[i] == if token_matches(
                    old(self)@[i],
                    token@,
                ) {
                    CustomerModel { is_active: true, ..old(self)@[i] }
                } else {
                    old(self)@[i]
                },
    {
        let ghost before = self@;
        let wanted = token.to_owned();
        let mut any = false;
        let mut i: usize = 0;
        while i < self.customers.len()
            invariant
                i <= self.customers.len(),
                self.customers.len() == before.len(),
                self.next_id == old(self).next_id,
                old(self).wf(),
                before == old(self)@,
                wanted@ == token@,
                any == exists|j: int| 0 <= j < i && token_matches(#[trigger] before[j], token@),
                forall|j: int|
                    0 <= j < before.len() ==> #[trigger] self@[j] == if j < i && token_matches(
                        before[j],
                        token@,
                    ) {
                        CustomerModel { is_active: true, ..before[j] }
                    } else {
                        before[j]
                    },
            decreases self.customers.len() - i,
        {
            assert(self@[i as int] == before[i as int]);
            let digest = hash(self.customers[i].email.as_str());
            let ghost prev = self@;
            if text_eq(&digest, &wanted) {
                let mut c = copy_customer(&self.customers[i]);
                c.is_active = true;
                self.customers.set(i, c);
                assert(self@ == prev.update(i as int, CustomerModel { is_active: true, ..before[i as int] }));
                any = true;
            } else {
                assert(!token_matches(before[i as int], token@));
            }
            i += 1;
        }
        assert forall|a: int, b: int|
            0 <= a < self@.len() && 0 <= b < self@.len() && a != b implies self@[a].id
            != self@[b].id by {
            assert(before[a].id != before[b].id);
        }
        assert forall|a: int| 0 <= a < self@.len() implies 1 <= #[trigger] self@[a].id
            < self.next_id by {
            assert(self@[a].id == before[a].id);
        }
        any
    }

    /// Sets a new password, stored hashed, on every customer whose token is
    /// `token`; tells whether any matched.
    pub fn password_reset(&mut self, token: &str, password: &str) -> (r: bool)
        requires
            old(self).wf(),
        ensures
            final(self).wf(),
            final(self).fresh_id() == old(self).fresh_id(),
            r == exists|i: int| 0 <= i < old(self)@.len() && token_matches(#[trigger] old(self)@[i], token@),
            final(self)@.len() == old(self)@.len(),
            forall|i: int|
                0 <= i < old(self)@.len() ==> #[trigger] final(self)@[i] == if token_matches(
                    old(self)@[i],
                    token@,
                ) {
                    CustomerModel { password: md5_hex(password@), ..old(self)@[i] }
                } else {
                    old(self)@[i]
                },
    {
        let ghost before = self@;
        let wanted = token.to_owned();
        let hashed = hash(password);
        let mut any = false;
        let mut i: usize = 0;
        while i < self.customers.len()
            invariant
                i <= self.customers.len(),
                self.customers.len() == before.len(),
                self.next_id == old(self).next_id,
                old(self).wf(),
                before == old(self)@,
                hashed@ == md5_hex(password@),
                wanted@ == token@,
                any == exists|j: int| 0 <= j < i && token_matches(#[trigger] before[j], token@),
                forall|j: int|
                    0 <= j < before.len() ==> #[trigger] self@[j] == if j < i && token_matches(
                        before[j],
                        token@,
                    ) {
                        CustomerModel { password: md5_hex(password@), ..before[j] }
                    } else {
                        before[j]
                    },
            decreases self.customers.len() - i,
        {
            assert(self@[i as int] == before[i as int]);
            let digest = hash(self.customers[i].email.as_str());
            let ghost prev = self@;
            if text_eq(&digest, &wanted) {
                let mut c = copy_customer(&self.customers[i]);
                c.password = hashed.clone();
                self.customers.set(i, c);
                assert(self@ == prev.update(i as int, CustomerModel { password: md5_hex(password@), ..before[i as int] }));
                any = true;
            } else {
                assert(!token_matches(before[i as int], token@));
            }
            i += 1;
        }
        assert forall|a: int, b: int|
            0 <= a < self@.len() && 0 <= b < self@.len() && a != b implies self@[a].id
            != self@[b].id by {
            assert(before[a].id != before[b].id);
        }
        assert forall|a: int| 0 <= a < self@.len() implies 1 <= #[trigger] self@[a].id
            < self.next_id by {
            assert(self@[a].id == before[a].id);
        }
        any
    }
}

/// The base address of the server, `host:port`.
pub open spec fn server_text(config: Config) -> Seq<char> {
    config.server_host@ + ":"@ + signed_decimal(config.server_port as int)
}

/// The welcome message with the link that activates the account of `email`.
pub open spec fn activation_text(config: Config, name: Seq<char>, email: Seq<char>) -> Seq<char> {
    "<b>Email de confirmação de cadastro</b><br><br>Seja bem-vindo(a), "@ + name
        + "! Clique no link abaixo para confirmar seu cadastro.<br><br><a href='http://"@
        + server_text(config) + "/api/customer/activate/"@ + md5_hex(email)
        + "'>Clique aqui</a>"@
}

/// The message with the link that resets the password of `email`.
pub open spec fn reset_text(config: Config, email: Seq<char>) -> Seq<char> {
    "<p>Você solicitou redefinição de senha</p><p>Olá! Clique no link abaixo para redefinir a senha:</p><p><a href='https://"@
        + server_text(config) + "/reset-password-form?token="@ + md5_hex(email)
        + "'>Redefinir senha</a></p>"@
}

/// Renders the welcome message sent when an account is created.
pub fn activation_message(config: &Config, name: &str, email: &str) -> (r: String)
    ensures
        r@ == activation_text(*config, name@, email@),
{
    let mut s = String::new();
    s.append("<b>Email de confirmação de cadastro</b><br><br>Seja bem-vindo(a), ");
    s.append(name);
    s.append("! Clique no link abaixo para confirmar seu cadastro.<br><br><a href='http://");
    s.append(config.server_host.as_str());
    s.append(":");
    push_decimal(&mut s, config.server_port as i64);
    s.append("/api/customer/activate/");
    let token = hash(email);
    s.append(token.as_str());
    s.append("'>Clique aqui</a>");
    assert(s@ =~= activation_text(*config, name@, email@));
    s
}

/// A password-reset message: its recipient, subject and body.
pub struct ResetMessage {
    pub to: String,
    pub subject: String,
    pub body: String,
}

/// The subject of the password-reset message.
pub open spec fn reset_subject() -> Seq<char> {
    "Redefinição de senha"@
}

/// Prepares the password-reset message for `email`, sent to that address.
pub fn send_password_reset(config: &Config, email: &str) -> (r: ResetMessage)
    ensures
        r.to@ == email@,
        r.subject@ == reset_subject(),
        r.body@ == reset_text(*config, email@),
{
    let mut s = String::new();
    s.append(
        "<p>Você solicitou redefinição de senha</p><p>Olá! Clique no link abaixo para redefinir a senha:</p><p><a href='https://",
    );
    s.append(config.server_host.as_str());
    s.append(":");
    push_decimal(&mut s, config.server_port as i64);
    s.append("/reset-password-form?token=");
    let token = hash(email);
    s.append(token.as_str());
    s.append("'>Redefinir senha</a></p>");
    assert(s@ =~= reset_text(*config, email@));
    ResetMessage { to: email.to_owned(), subject: "Redefinição de senha".to_owned(), body: s }
}

} // verus!
