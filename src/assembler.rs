use vstd::prelude::*;

use crate::error::Error;
use crate::product::{find_product, has_product, ProductModel, ProductStore};
use crate::text::{push_decimal, signed_decimal};
use vstd::string::StringExecFns;
use crate::types::OrderItemRequest;

verus! {

/// One line of an order summary: product name, quantity and line total.
pub struct SummaryLine {
    pub name: String,
    pub amount: i64,
    pub line_total: i64,
}

/// The abstract value of a summary line.
pub ghost struct SummaryModel {
    pub name: Seq<char>,
    pub amount: i64,
    pub line_total: int,
}

impl View for SummaryLine {
    type V = SummaryModel;

    open spec fn view(&self) -> SummaryModel {
        SummaryModel { name: self.name@, amount: self.amount, line_total: self.line_total as int }
    }
}

/// An assembled order: its exact total and its summary in request order.
pub struct Assembly {
    pub total: i64,
    pub lines: Vec<SummaryLine>,
}

/// Every requested product exists in the catalog.
pub open spec fn all_known(catalog: Seq<ProductModel>, items: Seq<OrderItemRequest>) -> bool {
    forall|k: int| 0 <= k < items.len() ==> has_product(catalog, #[trigger] items[k].product_id)
}

/// The live unit price of a product.
pub open spec fn unit_price(catalog: Seq<ProductModel>, product_id: i64) -> int {
    find_product(catalog, product_id).unwrap().price as int
}

/// The exact price of one requested line.
pub open spec fn line_price(catalog: Seq<ProductModel>, item: OrderItemRequest) -> int {
    unit_price(catalog, item.product_id) * item.amount
}

/// The exact sum of `unit price * amount` over the requested lines.
pub open spec fn total_of(catalog: Seq<ProductModel>, items: Seq<OrderItemRequest>) -> int
    decreases items.len(),
{
    if items.len() == 0 {
        0
    } else {
        total_of(catalog, items.drop_last()) + line_price(catalog, items.last())
    }
}

pub open spec fn in_i64(x: int) -> bool {
    i64::MIN <= x <= i64::MAX
}

/// Every line price and every running total fits in an `i64`.
pub open spec fn fits(catalog: Seq<ProductModel>, items: Seq<OrderItemRequest>) -> bool {
    &&& forall|k: int| 0 <= k < items.len() ==> in_i64(#[trigger] line_price(catalog, items[k]))
    &&& forall|k: int| 0 <= k <= items.len() ==> in_i64(#[trigger] total_of(catalog, items.take(k)))
}

/// The summary of the requested lines, in request order.
pub open spec fn summary_of(catalog: Seq<ProductModel>, items: Seq<OrderItemRequest>) -> Seq<
    SummaryModel,
> {
    items.map_values(
        |it: OrderItemRequest|
            SummaryModel {
                name: find_product(catalog, it.product_id).unwrap().name,
                amount: it.amount,
                line_total: line_price(catalog, it),
            },
    )
}

pub open spec fn summary_models(lines: Seq<SummaryLine>) -> Seq<SummaryModel> {
    lines.map_values(|l: SummaryLine| l@)
}

proof fn lemma_product_bound(a: int, b: int)
    requires
        in_i64(a),
        in_i64(b),
    ensures
        -0x4000_0000_0000_0000_0000_0000_0000_0000 <= a * b <= 0x4000_0000_0000_0000_0000_0000_0000_0000,
{
    assert(-0x4000_0000_0000_0000_0000_0000_0000_0000 <= a * b <= 0x4000_0000_0000_0000_0000_0000_0000_0000)
        by (nonlinear_arith)
        requires
            -0x8000_0000_0000_0000 <= a <= 0x7fff_ffff_ffff_ffff,
            -0x8000_0000_0000_0000 <= b <= 0x7fff_ffff_ffff_ffff,
    ;
}

/// Resolves the price of every requested line, computes the order total with
/// exact integer arithmetic and lists the lines in request order.
pub fn assemble(catalog: &ProductStore, items: &Vec<OrderItemRequest>) -> (r: Result<
    Assembly,
    Error,
>)
    requires
        catalog.wf(),
    ensures
        r.is_ok() <==> all_known(catalog@, items@) && fits(catalog@, items@),
        match r {
            Ok(a) => {
                &&& a.total == total_of(catalog@, items@)
                &&& summary_models(a.lines@) == summary_of(catalog@, items@)
            },
            Err(e) => {
                &&& e == Error::NotFound <==> !all_known(catalog@, items@)
                &&& e == Error::ValidationError <==> all_known(catalog@, items@)
                    && !fits(catalog@, items@)
            },
        },
{
    let ghost cat = catalog@;
    let mut resolved: Vec<(i64, String)> = Vec::new();
    let mut k: usize = 0;
    while k < items.len()
        invariant
            catalog.wf(),
            cat == catalog@,
            k <= items.len(),
            resolved.len() == k,
            forall|j: int| 0 <= j < k ==> has_product(cat, #[trigger] items@[j].product_id),
            forall|j: int|
                0 <= j < k ==> (#[trigger] resolved@[j]).0 == find_product(
                    cat,
                    items@[j].product_id,
                ).unwrap().price && resolved@[j].1@ == find_product(
                    cat,
                    items@[j].product_id,
                ).unwrap().name,
        decreases items.len() - k,
    {
        match catalog.price_of(items[k].product_id) {
            Ok(found) => {
                resolved.push(found);
            },
            Err(e) => {
                assert(!has_product(cat, items@[k as int].product_id));
                return Err(e);
            },
        }
        k += 1;
    }
    let mut total: i64 = 0;
    let mut lines: Vec<SummaryLine> = Vec::new();
    let mut k: usize = 0;
    while k < items.len()
        invariant
            cat == catalog@,
            all_known(cat, items@),
            k <= items.len(),
            resolved.len() == items.len(),
            forall|j: int|
                0 <= j < items.len() ==> (#[trigger] resolved@[j]).0 == find_product(
                    cat,
                    items@[j].product_id,
                ).unwrap().price && resolved@[j].1@ == find_product(
                    cat,
                    items@[j].product_id,
                ).unwrap().name,
            total == total_of(cat, items@.take(k as int)),
            forall|j: int| 0 <= j < k ==> in_i64(#[trigger] line_price(cat, items@[j])),
            forall|j: int| 0 <= j <= k ==> in_i64(#[trigger] total_of(cat, items@.take(j))),
            lines.len() == k,
            forall|j: int| 0 <= j < k ==> (#[trigger] lines@[j])@ == summary_of(cat, items@)[j],
        decreases items.len() - k,
    {
        let item = items[k];
        let price = resolved[k].0;
        assert(items@.take(k + 1).drop_last() =~= items@.take(k as int));
        proof {
            lemma_product_bound(price as int, item.amount as int);
        }
        let exact: i128 = price as i128 * item.amount as i128;
        assert(exact == line_price(cat, items@[k as int]));
        if exact < i64::MIN as i128 || exact > i64::MAX as i128 {
            assert(!in_i64(line_price(cat, items@[k as int])));
            return Err(Error::ValidationError);
        }
        let next: i128 = total as i128 + exact;
        assert(next == total_of(cat, items@.take(k + 1)));
        if next < i64::MIN as i128 || next > i64::MAX as i128 {
            assert(!in_i64(total_of(cat, items@.take(k + 1))));
            return Err(Error::ValidationError);
        }
        lines.push(SummaryLine { name: resolved[k].1.clone(), amount: item.amount, line_total: exact as i64 });
        total = next as i64;
        k += 1;
    }
    assert(items@.take(items.len() as int) =~= items@);
    assert(summary_models(lines@) =~= summary_of(cat, items@));
    Ok(Assembly { total, lines })
}

/// The texts of the order confirmation message, kept apart from the logic
/// so that the language can be configured.
pub struct ConfirmationTemplate {
    pub subject: String,
    pub greeting: String,
    pub order_intro: String,
    pub total_intro: String,
    pub list_open: String,
    pub item_name: String,
    pub item_amount: String,
    pub item_total: String,
    pub closing: String,
}

/// The abstract value of a confirmation template.
pub ghost struct TemplateModel {
    pub subject: Seq<char>,
    pub greeting: Seq<char>,
    pub order_intro: Seq<char>,
    pub total_intro: Seq<char>,
    pub list_open: Seq<char>,
    pub item_name: Seq<char>,
    pub item_amount: Seq<char>,
    pub item_total: Seq<char>,
    pub closing: Seq<char>,
}

impl View for ConfirmationTemplate {
    type V = TemplateModel;

    open spec fn view(&self) -> TemplateModel {
        TemplateModel {
            subject: self.subject@,
            greeting: self.greeting@,
            order_intro: self.order_intro@,
            total_intro: self.total_intro@,
            list_open: self.list_open@,
            item_name: self.item_name@,
            item_amount: self.item_amount@,
            item_total: self.item_total@,
            closing: self.closing@,
        }
    }
}

/// The Portuguese texts of the confirmation message.
pub open spec fn portuguese_template() -> TemplateModel {
    TemplateModel {
        subject: "Confirmação de pedido"@,
        greeting: "<h3>Confirmação de pedido</h3><p>Olá, "@,
        order_intro: "! Seu pedido (ID: "@,
        total_intro: ") foi recebido.<br>Total: "@,
        list_open: "<br></p><ul>"@,
        item_name: "<li>Nome do produto: "@,
        item_amount: " - quantidade: "@,
        item_total: " - preço total: R$"@,
        closing: "</ul><p>Obrigado por comprar conosco!</p>"@,
    }
}

impl ConfirmationTemplate {
    /// The confirmation texts in Portuguese.
    pub fn portuguese() -> (r: ConfirmationTemplate)
        ensures
            r@ == portuguese_template(),
    {
        ConfirmationTemplate {
            subject: "Confirmação de pedido".to_owned(),
            greeting: "<h3>Confirmação de pedido</h3><p>Olá, ".to_owned(),
            order_intro: "! Seu pedido (ID: ".to_owned(),
            total_intro: ") foi recebido.<br>Total: ".to_owned(),
            list_open: "<br></p><ul>".to_owned(),
            item_name: "<li>Nome do produto: ".to_owned(),
            item_amount: " - quantidade: ".to_owned(),
            item_total: " - preço total: R$".to_owned(),
            closing: "</ul><p>Obrigado por comprar conosco!</p>".to_owned(),
        }
    }
}

/// The list item of one summary line.
pub open spec fn line_text(t: TemplateModel, l: SummaryModel) -> Seq<char> {
    t.item_name + l.name + t.item_amount + signed_decimal(l.amount as int) + t.item_total
        + signed_decimal(l.line_total)
}

/// The list items of a summary, in order.
pub open spec fn lines_text(t: TemplateModel, lines: Seq<SummaryModel>) -> Seq<char>
    decreases lines.len(),
{
    if lines.len() == 0 {
        Seq::empty()
    } else {
        lines_text(t, lines.drop_last()) + line_text(t, lines.last())
    }
}

/// The confirmation message of an order: greeting, order id, total and one
/// list item per line.
pub open spec fn confirmation_text(
    t: TemplateModel,
    customer_name: Seq<char>,
    order_id: i64,
    total: i64,
    lines: Seq<SummaryModel>,
) -> Seq<char> {
    t.greeting + customer_name + t.order_intro + signed_decimal(order_id as int) + t.total_intro
        + signed_decimal(total as int) + t.list_open + lines_text(t, lines) + t.closing
}

/// Renders the confirmation message of an order for its customer.
pub fn render_confirmation(
    template: &ConfirmationTemplate,
    customer_name: &str,
    order_id: i64,
    assembly: &Assembly,
) -> (r: String)
    ensures
        r@ == confirmation_text(
            template@,
            customer_name@,
            order_id,
            assembly.total,
            summary_models(assembly.lines@),
        ),
{
    let ghost t = template@;
    let mut s = String::new();
    s.append(template.greeting.as_str());
    s.append(customer_name);
    s.append(template.order_intro.as_str());
    push_decimal(&mut s, order_id);
    s.append(template.total_intro.as_str());
    push_decimal(&mut s, assembly.total);
    s.append(template.list_open.as_str());
    let ghost head = s@;
    let ghost all = summary_models(assembly.lines@);
    let mut k: usize = 0;
    while k < assembly.lines.len()
        invariant
            k <= assembly.lines.len(),
            t == template@,
            all == summary_models(assembly.lines@),
            s@ == head + lines_text(t, all.take(k as int)),
        decreases assembly.lines.len() - k,
    {
        let l = &assembly.lines[k];
        s.append(template.item_name.as_str());
        s.append(l.name.as_str());
        s.append(template.item_amount.as_str());
        push_decimal(&mut s, l.amount);
        s.append(template.item_total.as_str());
        push_decimal(&mut s, l.line_total);
        assert(all.take(k + 1).drop_last() =~= all.take(k as int));
        k += 1;
        assert(s@ =~= head + lines_text(t, all.take(k as int)));
    }
    assert(all.take(all.len() as int) =~= all);
    s.append(template.closing.as_str());
    assert(s@ =~= confirmation_text(t, customer_name@, order_id, assembly.total, all));
    s
}

} // verus!
