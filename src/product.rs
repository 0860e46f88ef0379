use vstd::prelude::*;

use crate::error::Error;
use crate::pattern::{like, like_match};
use crate::types::{ProductRequest, ProductResponse};

verus! {

/// The abstract value of a product.
pub ghost struct ProductModel {
    pub id: i64,
    pub name: Seq<char>,
    pub description: Option<Seq<char>>,
    pub price: i64,
    pub is_featured: bool,
}

/// The text of an optional string.
pub open spec fn opt_text(o: Option<String>) -> Option<Seq<char>> {
    match o {
        Some(s) => Some(s@),
        None => None,
    }
}

impl View for ProductResponse {
    type V = ProductModel;

    open spec fn view(&self) -> ProductModel {
        ProductModel {
            id: self.id,
            name: self.name@,
            description: opt_text(self.description),
            price: self.price,
            is_featured: self.is_featured,
        }
    }
}

/// The product that a request describes, under the given id.
pub open spec fn product_from(id: i64, req: ProductRequest) -> ProductModel {
    ProductModel {
        id,
        name: req.name@,
        description: opt_text(req.description),
        price: req.price,
        is_featured: req.is_featured,
    }
}

pub open spec fn product_models(s: Seq<ProductResponse>) -> Seq<ProductModel> {
    s.map_values(|p: ProductResponse| p@)
}

pub open spec fn has_product(s: Seq<ProductModel>, id: i64) -> bool {
    exists|i: int| 0 <= i < s.len() && s[i].id == id
}

/// The product with the given id, if there is one.
pub open spec fn find_product(s: Seq<ProductModel>, id: i64) -> Option<ProductModel> {
    if has_product(s, id) {
        Some(s[choose|i: int| 0 <= i < s.len() && s[i].id == id])
    } else {
        None
    }
}

pub open spec fn featured() -> spec_fn(ProductModel) -> bool {
    |p: ProductModel| p.is_featured
}

/// The product's name matches the `LIKE` pattern `term`.
pub open spec fn name_like(term: Seq<char>) -> spec_fn(ProductModel) -> bool {
    |p: ProductModel| like_match(term, p.name)
}

pub(crate) fn copy_text(o: &Option<String>) -> (r: Option<String>)
    ensures
        opt_text(r) == opt_text(*o),
{
    match o {
        Some(s) => Some(s.clone()),
        None => None,
    }
}

fn copy_product(p: &ProductResponse) -> (r: ProductResponse)
    ensures
        r@ == p@,
{
    ProductResponse {
        id: p.id,
        name: p.name.clone(),
        description: copy_text(&p.description),
        price: p.price,
        is_featured: p.is_featured,
    }
}

/// The product catalog; it resolves the live unit price of a product.
pub struct ProductStore {
    products: Vec<ProductResponse>,
    next_id: i64,
}

impl View for ProductStore {
    type V = Seq<ProductModel>;

    closed spec fn view(&self) -> Seq<ProductModel> {
        product_models(self.products@)
    }
}

impl ProductStore {
    /// Product ids are unique and below the counter.
    pub closed spec fn wf(&self) -> bool {
        &&& 1 <= self.next_id
        &&& forall|i: int, j: int|
            0 <= i < self@.len() && 0 <= j < self@.len() && i != j ==> self@[i].id != self@[j].id
        &&& forall|i: int| 0 <= i < self@.len() ==> 1 <= #[trigger] self@[i].id < self.next_id
    }

    /// The id that the next created product receives.
    pub closed spec fn fresh_id(&self) -> i64 {
        self.next_id
    }

    /// An empty catalog.
    pub fn new() -> (r: ProductStore)
        ensures
            r.wf(),
            r@ == Seq::<ProductModel>::empty(),
            r.fresh_id() == 1,
    {
        let r = ProductStore { products: Vec::new(), next_id: 1 };
        assert(r@ =~= Seq::<ProductModel>::empty());
        r
    }

    proof fn lemma_find_at(&self, i: int)
        requires
            self.wf(),
            0 <= i < self@.len(),
        ensures
            find_product(self@, self@[i].id) == Some(self@[i]),
    {
        let id = self@[i].id;
        assert(has_product(self@, id));
        let j = choose|j: int| 0 <= j < self@.len() && self@[j].id == id;
        assert(i == j);
    }

    fn index_of(&self, id: i64) -> (r: Option<usize>)
        requires
            self.wf(),
        ensures
            r.is_some() <==> has_product(self@, id),
            match r {
                Some(i) => i < self@.len() && self@[i as int].id == id && find_product(self@, id)
                    == Some(self@[i as int]),
                None => find_product(self@, id) == None::<ProductModel>,
            },
    {
        let mut i: usize = 0;
        while i < self.products.len()
            invariant
                self.wf(),
                i <= self.products.len(),
                forall|j: int| 0 <= j < i ==> #[trigger] self@[j].id != id,
            decreases self.products.len() - i,
        {
            if self.products[i].id == id {
                assert(self@[i as int].id == id);
                proof {
                    self.lemma_find_at(i as int);
                }
                return Some(i);
            }
            i += 1;
        }
        None
    }

    /// Adds a product and returns its new id.
    pub fn create_product(&mut self, req: &ProductRequest) -> (r: Result<i64, Error>)
        requires
            old(self).wf(),
        ensures
            final(self).wf(),
            r.is_ok() <==> old(self).fresh_id() < i64::MAX,
            match r {
                Ok(id) => {
                    &&& id == old(self).fresh_id()
                    &&& final(self).fresh_id() == id + 1
                    &&& !has_product(old(self)@, id)
                    &&& final(self)@ == old(self)@.push(product_from(id, *req))
                },
                Err(e) => e == Error::StorageError && *final(self) == *old(self),
            },
    {
        if self.next_id == i64::MAX {
            return Err(Error::StorageError);
        }
        let id = self.next_id;
        let ghost before = self@;
        self.products.push(
            ProductResponse {
                id,
                name: req.name.clone(),
                description: copy_text(&req.description),
                price: req.price,
                is_featured: req.is_featured,
            },
        );
        self.next_id = id + 1;
        assert(self@ =~= before.push(product_from(id, *req)));
        assert forall|i: int, j: int|
            0 <= i < self@.len() && 0 <= j < self@.len() && i != j implies self@[i].id
            != self@[j].id by {
            if i < before.len() && j < before.len() {
                assert(before[i] == self@[i] && before[j] == self@[j]);
            } else if i < before.len() {
                assert(before[i].id < id);
            } else {
                assert(before[j].id < id);
            }
        }
        assert forall|i: int| 0 <= i < self@.len() implies 1 <= #[trigger] self@[i].id
            < self.next_id by {
            if i < before.len() {
                assert(before[i] == self@[i]);
            }
        }
        assert(!has_product(before, id)) by {
            if has_product(before, id) {
                let i = choose|i: int| 0 <= i < before.len() && before[i].id == id;
                assert(before[i].id < id);
            }
        }
        Ok(id)
    }

    /// Overwrites the product `id` with the request; tells whether it existed.
    pub fn update_product(&mut self, id: i64, req: &ProductRequest) -> (r: bool)
        requires
            old(self).wf(),
        ensures
            final(self).wf(),
            r == has_product(old(self)@, id),
            final(self).fresh_id() == old(self).fresh_id(),
            final(self)@.len() == old(self)@.len(),
            forall|i: int|
                0 <= i < old(self)@.len() ==> #[trigger] final(self)@[i] == if old(self)@[i].id
                    == id {
                    product_from(id, *req)
                } else {
                    old(self)@[i]
                },
    {
        match self.index_of(id) {
            Some(i) => {
                let ghost before = self@;
                let p = ProductResponse {
                    id,
                    name: req.name.clone(),
                    description: copy_text(&req.description),
                    price: req.price,
                    is_featured: req.is_featured,
                };
                self.products.set(i, p);
                assert forall|j: int| 0 <= j < before.len() implies #[trigger] self@[j] == if before[j].id
                    == id {
                    product_from(id, *req)
                } else {
                    before[j]
                } by {
                    if j != i {
                        assert(before[j].id != before[i as int].id);
                    }
                }
                assert forall|a: int, b: int|
                    0 <= a < self@.len() && 0 <= b < self@.len() && a != b implies self@[a].id
                    != self@[b].id by {
                    assert(before[a].id != before[b].id);
                }
                assert forall|a: int| 0 <= a < self@.len() implies 1 <= #[trigger] self@[a].id
                    < self.next_id by {
                    assert(self@[a].id == before[a].id);
                }
                true
            },
            None => false,
        }
    }

    /// Removes the product `id`; tells whether it existed.
    pub fn delete_product(&mut self, id: i64) -> (r: bool)
        requires
            old(self).wf(),
        ensures
            final(self).wf(),
            r == has_product(old(self)@, id),
            final(self).fresh_id() == old(self).fresh_id(),
            !has_product(final(self)@, id),
            r ==> exists|i: int|
                0 <= i < old(self)@.len() && old(self)@[i].id == id && final(self)@ == old(
                    self,
                )@.remove(i),
            !r ==> final(self)@ == old(self)@,
    {
        match self.index_of(id) {
            Some(i) => {
                let ghost before = self@;
                let _removed = self.products.remove(i);
                assert(self@ =~= before.remove(i as int));
                assert forall|a: int, b: int|
                    0 <= a < self@.len() && 0 <= b < self@.len() && a != b implies self@[a].id
                    != self@[b].id by {
                    let a2 = if a < i { a } else { a + 1 };
                    let b2 = if b < i { b } else { b + 1 };
                    assert(self@[a] == before[a2] && self@[b] == before[b2]);
                }
                assert forall|a: int| 0 <= a < self@.len() implies 1 <= #[trigger] self@[a].id
                    < self.next_id by {
                    let a2 = if a < i { a } else { a + 1 };
                    assert(self@[a] == before[a2]);
                }
                assert(!has_product(self@, id)) by {
                    if has_product(self@, id) {
                        let a = choose|a: int| 0 <= a < self@.len() && self@[a].id == id;
                        let a2 = if a < i { a } else { a + 1 };
                        assert(self@[a] == before[a2]);
                    }
                }
                true
            },
            None => false,
        }
    }

    /// The product with the given id.
    pub fn get_product(&self, id: i64) -> (r: Result<ProductResponse, Error>)
        requires
            self.wf(),
        ensures
            r.is_ok() <==> has_product(self@, id),
            match r {
                Ok(p) => find_product(self@, id) == Some(p@) && p.id == id,
                Err(e) => e == Error::NotFound,
            },
    {
        match self.index_of(id) {
            Some(i) => Ok(copy_product(&self.products[i])),
            None => Err(Error::NotFound),
        }
    }

    /// The live unit price and display name of a product.
    pub fn price_of(&self, product_id: i64) -> (r: Result<(i64, String), Error>)
        requires
            self.wf(),
        ensures
            r.is_ok() <==> has_product(self@, product_id),
            match r {
                Ok((price, name)) => {
                    &&& price == find_product(self@, product_id).unwrap().price
                    &&& name@ == find_product(self@, product_id).unwrap().name
                },
                Err(e) => e == Error::NotFound,
            },
    {
        match self.index_of(product_id) {
            Some(i) => Ok((self.products[i].price, self.products[i].name.clone())),
            None => Err(Error::NotFound),
        }
    }

    /// All products, in the order they were created.
    pub fn get_products(&self) -> (r: Vec<ProductResponse>)
        ensures
            product_models(r@) == self@,
    {
        let mut out: Vec<ProductResponse> = Vec::new();
        let mut i: usize = 0;
        while i < self.products.len()
            invariant
                i <= self.products.len(),
                product_models(out@) == self@.take(i as int),
            decreases self.products.len() - i,
        {
            let ghost prev = out@;
            out.push(copy_product(&self.products[i]));
            assert(product_models(out@) =~= product_models(prev).push(self@[i as int]));
            i += 1;
            assert(self@.take(i as int) =~= self@.take(i - 1).push(self@[i - 1]));
        }
        assert(self@.take(self@.len() as int) =~= self@);
        out
    }

    /// The featured products, in the order they were created.
    pub fn get_featured_products(&self) -> (r: Vec<ProductResponse>)
        ensures
            product_models(r@) == self@.filter(featured()),
    {
        let mut out: Vec<ProductResponse> = Vec::new();
        let mut i: usize = 0;
        while i < self.products.len()
            invariant
                i <= self.products.len(),
                product_models(out@) == self@.take(i as int).filter(featured()),
            decreases self.products.len() - i,
        {
            let ghost prev = out@;
            proof {
                assert(self@.take(i + 1) =~= self@.take(i as int).push(self@[i as int]));
                self@.take(i as int).lemma_filter_push(self@[i as int], featured());
            }
            if self.products[i].is_featured {
                out.push(copy_product(&self.products[i]));
                assert(product_models(out@) =~= product_models(prev).push(self@[i as int]));
            }
            i += 1;
        }
        assert(self@.take(self@.len() as int) =~= self@);
        out
    }

    /// The products whose name matches the `LIKE` pattern `term`, in the
    /// order they were created.
    pub fn get_products_with_search(&self, term: &str) -> (r: Vec<ProductResponse>)
        ensures
            product_models(r@) == self@.filter(name_like(term@)),
    {
        let mut out: Vec<ProductResponse> = Vec::new();
        let mut i: usize = 0;
        while i < self.products.len()
            invariant
                i <= self.products.len(),
                product_models(out@) == self@.take(i as int).filter(name_like(term@)),
            decreases self.products.len() - i,
        {
            let ghost prev = out@;
            proof {
                assert(self@.take(i + 1) =~= self@.take(i as int).push(self@[i as int]));
                self@.take(i as int).lemma_filter_push(self@[i as int], name_like(term@));
            }
            if like(term, self.products[i].name.as_str()) {
                out.push(copy_product(&self.products[i]));
                assert(product_models(out@) =~= product_models(prev).push(self@[i as int]));
            }
            i += 1;
        }
        assert(self@.take(self@.len() as int) =~= self@);
        out
    }
}

} // verus!
