//! An in-memory product catalog: an insertion-ordered collection of
//! `Product` records with create/read/update/delete operations, a
//! category filter, and an aggregate sum over in-stock prices.
//!
//! Prices are held as a whole number of cents, so every amount is exact.

use vstd::arithmetic::div_mod::lemma_div_is_ordered;
use vstd::arithmetic::div_mod::lemma_div_multiples_vanish;
use vstd::prelude::*;

use crate::text::push_price;
use crate::text::push_str;
use crate::text::spec_price;

verus! {

/// The closed set of categories a product can belong to.
#[derive(Clone, Copy, Debug, PartialEq, Eq, Structural)]
pub enum ProductCategory {
    Books,
    Clothing,
    Electronics,
}

/// The failures a catalog operation can report: both are local,
/// recoverable conditions for the caller to handle.
#[derive(Clone, Copy, Debug, PartialEq, Eq, Structural)]
pub enum CatalogError {
    /// `create` was given a name some entry already carries.
    DuplicateName,
    /// `update_price` or `delete` named an entry that is not present.
    NotFound,
}

/// One catalog entry. The name is the primary key: the store keeps
/// at most one entry per name. The price is a whole number of cents.
pub struct Product {
    pub name: String,
    pub category: ProductCategory,
    pub price: u64,
    pub in_stock: bool,
}

/// Whether some entry of `s` carries the name `name`.
pub open spec fn has_name(s: Seq<Product>, name: Seq<char>) -> bool {
    exists|i: int| 0 <= i < s.len() && #[trigger] s[i].name@ == name
}

/// Whether `i` is the index of the first entry of `s` named `name`.
pub open spec fn first_match(s: Seq<Product>, name: Seq<char>, i: int) -> bool {
    &&& 0 <= i < s.len()
    &&& s[i].name@ == name
    &&& forall|j: int| 0 <= j < i ==> #[trigger] s[j].name@ != name
}

/// The total value of the in-stock inventory: the sum, in cents, of the
/// prices of the entries whose `in_stock` flag is set.
pub open spec fn spec_inventory_value(s: Seq<Product>) -> int
    decreases s.len(),
{
    if s.len() == 0 {
        0
    } else {
        spec_inventory_value(s.drop_last()) + if s.last().in_stock {
            s.last().price as int
        } else {
            0
        }
    }
}

/// The entries of `s` that belong to `category`, in their order in `s`.
pub open spec fn spec_by_category(s: Seq<Product>, category: ProductCategory) -> Seq<Product> {
    s.filter(|p: Product| p.category == category)
}

/// The products a sequence of references points at, in the same order.
pub open spec fn spec_deref(s: Seq<&Product>) -> Seq<Product> {
    s.map_values(|p: &Product| *p)
}

proof fn lemma_by_category_push(s: Seq<Product>, category: ProductCategory, p: Product)
    ensures
        spec_by_category(s.push(p), category) == if p.category == category {
            spec_by_category(s, category).push(p)
        } else {
            spec_by_category(s, category)
        },
{
    reveal(Seq::filter);
    assert(s.push(p).drop_last() =~= s);
    assert(s.push(p).last() == p);
}

proof fn lemma_deref_push(s: Seq<&Product>, p: &Product)
    ensures
        spec_deref(s.push(p)) == spec_deref(s).push(*p),
{
    assert(spec_deref(s.push(p)) =~= spec_deref(s).push(*p));
}

/// The store after a `create`: unchanged when the name is already
/// taken, otherwise the entry appended at the end.
pub open spec fn spec_create(s: Seq<Product>, p: Product) -> Seq<Product> {
    if has_name(s, p.name@) {
        s
    } else {
        s.push(p)
    }
}

/// The store after a whole series of `create` calls, made in order.
pub open spec fn spec_create_all(s: Seq<Product>, ps: Seq<Product>) -> Seq<Product>
    decreases ps.len(),
{
    if ps.len() == 0 {
        s
    } else {
        spec_create_all(spec_create(s, ps[0]), ps.drop_first())
    }
}

/// How many of a series of `create` calls, made in order, succeed.
pub open spec fn spec_successful_creates(s: Seq<Product>, ps: Seq<Product>) -> nat
    decreases ps.len(),
{
    if ps.len() == 0 {
        0
    } else {
        (if has_name(s, ps[0].name@) {
            0nat
        } else {
            1nat
        }) + spec_successful_creates(spec_create(s, ps[0]), ps.drop_first())
    }
}

/// Whether no two entries of `s` share a name.
pub open spec fn names_unique(s: Seq<Product>) -> bool {
    forall|i: int, j: int|
        0 <= i < j < s.len() ==> #[trigger] s[i].name@ != #[trigger] s[j].name@
}

proof fn lemma_has_name_push(s: Seq<Product>, p: Product, name: Seq<char>)
    ensures
        has_name(s.push(p), name) <==> has_name(s, name) || p.name@ == name,
{
    if has_name(s, name) {
        let i = choose|i: int| 0 <= i < s.len() && #[trigger] s[i].name@ == name;
        assert(s.push(p)[i].name@ == name);
    }
    if p.name@ == name {
        assert(s.push(p)[s.len() as int].name@ == name);
    }
    if has_name(s.push(p), name) {
        let i = choose|i: int| 0 <= i < s.push(p).len() && #[trigger] s.push(p)[i].name@ == name;
        if i < s.len() {
            assert(s[i].name@ == name);
        }
    }
}

/// Law: however a series of `create` calls goes, the store's size grows
/// by exactly the number of calls that succeeded.
pub proof fn lemma_create_all_len(s: Seq<Product>, ps: Seq<Product>)
    ensures
        spec_create_all(s, ps).len() == s.len() + spec_successful_creates(s, ps),
    decreases ps.len(),
{
    if ps.len() > 0 {
        lemma_create_all_len(spec_create(s, ps[0]), ps.drop_first());
    }
}

/// Law: a series of `create` calls whose names are pairwise distinct
/// and all new to the store succeeds in full, so the store's size grows
/// by the number of calls.
pub proof fn lemma_create_all_distinct(s: Seq<Product>, ps: Seq<Product>)
    requires
        forall|i: int, j: int|
            0 <= i < j < ps.len() ==> #[trigger] ps[i].name@ != #[trigger] ps[j].name@,
        forall|i: int| 0 <= i < ps.len() ==> !has_name(s, #[trigger] ps[i].name@),
    ensures
        spec_create_all(s, ps).len() == s.len() + ps.len(),
    decreases ps.len(),
{
    if ps.len() > 0 {
        let s1 = spec_create(s, ps[0]);
        assert(s1 == s.push(ps[0]));
        assert forall|i: int| 0 <= i < ps.drop_first().len() implies !has_name(
            s1,
            #[trigger] ps.drop_first()[i].name@,
        ) by {
            lemma_has_name_push(s, ps[0], ps.drop_first()[i].name@);
            assert(ps.drop_first()[i] == ps[i + 1]);
        }
        lemma_create_all_distinct(s1, ps.drop_first());
    }
}

/// Law: `create` keeps names unique: a store with no duplicate names
/// still has none after any `create` call.
pub proof fn lemma_create_preserves_unique_names(s: Seq<Product>, p: Product)
    requires
        names_unique(s),
    ensures
        names_unique(spec_create(s, p)),
{
    if !has_name(s, p.name@) {
        let s1 = s.push(p);
        assert forall|i: int, j: int| 0 <= i < j < s1.len() implies #[trigger] s1[i].name@
            != #[trigger] s1[j].name@ by {
            if j < s.len() {
                assert(s1[i] == s[i] && s1[j] == s[j]);
            } else {
                assert(s1[j] == p);
                assert(s1[i] == s[i]);
            }
        }
    }
}

/// Law: a price update keeps names unique, since it leaves every name
/// in place.
pub proof fn lemma_update_price_preserves_unique_names(s: Seq<Product>, i: int, new_price: u64)
    requires
        names_unique(s),
        0 <= i < s.len(),
    ensures
        names_unique(
            s.update(
                i,
                (Product {
                    name: s[i].name,
                    category: s[i].category,
                    price: new_price,
                    in_stock: s[i].in_stock,
                }),
            ),
        ),
{
    let s1 = s.update(
        i,
        (Product {
            name: s[i].name,
            category: s[i].category,
            price: new_price,
            in_stock: s[i].in_stock,
        }),
    );
    assert forall|a: int, b: int| 0 <= a < b < s1.len() implies #[trigger] s1[a].name@
        != #[trigger] s1[b].name@ by {
        assert(s1[a].name@ == s[a].name@);
        assert(s1[b].name@ == s[b].name@);
    }
}

/// Law: a deletion keeps names unique, since what remains is a
/// subsequence of the store.
pub proof fn lemma_remove_preserves_unique_names(s: Seq<Product>, i: int)
    requires
        names_unique(s),
        0 <= i < s.len(),
    ensures
        names_unique(s.remove(i)),
{
    let s1 = s.remove(i);
    assert forall|a: int, b: int| 0 <= a < b < s1.len() implies #[trigger] s1[a].name@
        != #[trigger] s1[b].name@ by {
        let a0: int = if a < i {
            a
        } else {
            a + 1
        };
        let b0: int = if b < i {
            b
        } else {
            b + 1
        };
        assert(s1[a].name@ == s[a0].name@);
        assert(s1[b].name@ == s[b0].name@);
    }
}

/// Law: the total inventory value of a store in which nothing is in
/// stock, the empty store included, is zero.
pub proof fn lemma_inventory_value_no_stock(s: Seq<Product>)
    requires
        forall|i: int| 0 <= i < s.len() ==> !(#[trigger] s[i].in_stock),
    ensures
        spec_inventory_value(s) == 0,
    decreases s.len(),
{
    if s.len() > 0 {
        lemma_inventory_value_no_stock(s.drop_last());
    }
}

impl Product {
    /// Adds `product` to the store unless an entry already carries its
    /// name; insertion order is preserved and a rejected create leaves
    /// the store untouched.
    pub fn create(db: &mut Vec<Product>, product: Product) -> (r: Result<(), CatalogError>)
        ensures
            final(db)@ == spec_create(old(db)@, product),
            r is Ok <==> !has_name(old(db)@, product.name@),
            r is Err ==> r == Err::<(), CatalogError>(CatalogError::DuplicateName),
    {
        let n = db.len();
        let mut i: usize = 0;
        while i < n
            invariant
                db@ == old(db)@,
                n == db@.len(),
                i <= n,
                forall|j: int| 0 <= j < i ==> #[trigger] db@[j].name@ != product.name@,
            decreases n - i,
        {
            if db[i].name == product.name {
                return Err(CatalogError::DuplicateName);
            }
            i += 1;
        }
        db.push(product);
        Ok(())
    }

    /// Returns the first (and, when names are unique, only) entry named
    /// `name`, or nothing when no entry carries that name.
    pub fn find_by_name<'a>(db: &'a Vec<Product>, name: &String) -> (r: Option<&'a Product>)
        ensures
            r is Some <==> has_name(db@, name@),
            r matches Some(p) ==> exists|i: int|
                #[trigger] first_match(db@, name@, i) && *p == db@[i],
    {
        let n = db.len();
        let mut i: usize = 0;
        while i < n
            invariant
                n == db@.len(),
                i <= n,
                forall|j: int| 0 <= j < i ==> #[trigger] db@[j].name@ != name@,
            decreases n - i,
        {
            if db[i].name == *name {
                proof {
                    assert(first_match(db@, name@, i as int));
                }
                return Some(&db[i]);
            }
            i += 1;
        }
        None
    }

    /// Overwrites the price of the entry named `name`, changing nothing
    /// else; when no entry carries that name the store is untouched and
    /// the call reports `NotFound`.
    pub fn update_price(db: &mut Vec<Product>, name: &String, new_price: u64) -> (r: Result<
        (),
        CatalogError,
    >)
        ensures
            r is Ok <==> has_name(old(db)@, name@),
            !has_name(old(db)@, name@) ==> final(db)@ == old(db)@ && r == Err::<
                (),
                CatalogError,
            >(CatalogError::NotFound),
            has_name(old(db)@, name@) ==> exists|i: int|
                #[trigger] first_match(old(db)@, name@, i) && final(db)@ == old(db)@.update(
                    i,
                    (Product {
                        name: old(db)@[i].name,
                        category: old(db)@[i].category,
                        price: new_price,
                        in_stock: old(db)@[i].in_stock,
                    }),
                ),
    {
        let n = db.len();
        let mut i: usize = 0;
        while i < n
            invariant
                db@ == old(db)@,
                n == db@.len(),
                i <= n,
                forall|j: int| 0 <= j < i ==> #[trigger] db@[j].name@ != name@,
            decreases n - i,
        {
            if db[i].name == *name {
                proof {
                    assert(first_match(db@, name@, i as int));
                }
                db[i].price = new_price;
                return Ok(());
            }
            i += 1;
        }
        Err(CatalogError::NotFound)
    }

    /// Removes the first entry named `name`, shifting the entries after
    /// it down one place so their relative order is kept; when no entry
    /// carries that name the store is untouched and the call reports
    /// `NotFound`.
    pub fn delete(db: &mut Vec<Product>, name: &String) -> (r: Result<(), CatalogError>)
        ensures
            r is Ok <==> has_name(old(db)@, name@),
            !has_name(old(db)@, name@) ==> final(db)@ == old(db)@ && r == Err::<
                (),
                CatalogError,
            >(CatalogError::NotFound),
            has_name(old(db)@, name@) ==> exists|i: int|
                #[trigger] first_match(old(db)@, name@, i) && final(db)@ == old(db)@.remove(i),
    {
        let n = db.len();
        let mut i: usize = 0;
        while i < n
            invariant
                db@ == old(db)@,
                n == db@.len(),
                i <= n,
                forall|j: int| 0 <= j < i ==> #[trigger] db@[j].name@ != name@,
            decreases n - i,
        {
            if db[i].name == *name {
                proof {
                    assert(first_match(db@, name@, i as int));
                }
                db.remove(i);
                return Ok(());
            }
            i += 1;
        }
        Err(CatalogError::NotFound)
    }

    /// Returns references to exactly the entries of the given category,
    /// in store order; an empty result (not an error) when none match.
    pub fn list_by_category<'a>(db: &'a Vec<Product>, category: ProductCategory) -> (r: Vec<
        &'a Product,
    >)
        ensures
            spec_deref(r@) == spec_by_category(db@, category),
    {
        let n = db.len();
        let mut r: Vec<&Product> = Vec::new();
        let mut i: usize = 0;
        while i < n
            invariant
                n == db@.len(),
                i <= n,
                spec_deref(r@) == spec_by_category(db@.take(i as int), category),
            decreases n - i,
        {
            let ghost prev = r@;
            if db[i].category == category {
                r.push(&db[i]);
                proof {
                    lemma_deref_push(prev, &db@[i as int]);
                }
            }
            proof {
                assert(db@.take(i + 1) =~= db@.take(i as int).push(db@[i as int]));
                lemma_by_category_push(db@.take(i as int), category, db@[i as int]);
            }
            i += 1;
        }
        proof {
            assert(db@.take(n as int) =~= db@);
        }
        r
    }

    /// Sums the prices of the in-stock entries; zero for an empty store
    /// or one with nothing in stock. The sum is returned widened, so it
    /// cannot overflow whatever the store holds.
    pub fn get_inventory_value(db: &Vec<Product>) -> (r: u128)
        ensures
            r == spec_inventory_value(db@),
    {
        let n = db.len();
        let mut sum: u128 = 0;
        let mut i: usize = 0;
        while i < n
            invariant
                n == db@.len(),
                i <= n,
                sum == spec_inventory_value(db@.take(i as int)),
                sum <= (i as int) * (u64::MAX as int),
            decreases n - i,
        {
            proof {
                assert(db@.take(i + 1).drop_last() =~= db@.take(i as int));
                assert((i + 1) * (u64::MAX as int) == (i as int) * (u64::MAX as int) + (
                u64::MAX as int)) by (nonlinear_arith);
                assert((i + 1) * (u64::MAX as int) <= (u64::MAX as int) * (u64::MAX as int))
                    by (nonlinear_arith)
                    requires
                        0 <= i,
                        i + 1 <= u64::MAX as int,
                ;
            }
            if db[i].in_stock {
                sum = sum + db[i].price as u128;
            }
            i += 1;
        }
        proof {
            assert(db@.take(n as int) =~= db@);
        }
        sum
    }

    /// Builds an entry with the given fields; a new product starts in stock.
    pub fn new(name: String, category: ProductCategory, price: u64) -> (r: Self)
        ensures
            r.name == name,
            r.category == category,
            r.price == price,
            r.in_stock,
    {
        Self { name, category, price, in_stock: true }
    }

    /// Whether the product's price is within the given budget.
    pub fn is_affordable(&self, budget: u64) -> (r: bool)
        ensures
            r == (self.price <= budget),
    {
        self.price <= budget
    }

    /// Lowers the price by the given whole percentage, rounding the new
    /// price down to a whole cent; nothing else changes.
    pub fn apply_discount(&mut self, percentage: u64)
        requires
            percentage <= 100,
        ensures
            final(self).price == old(self).price * (100 - percentage) / 100,
            final(self).name == old(self).name,
            final(self).category == old(self).category,
            final(self).in_stock == old(self).in_stock,
    {
        proof {
            let p = old(self).price as int;
            let q = (100 - percentage) as int;
            assert(p * q <= p * 100) by (nonlinear_arith)
                requires
                    0 <= p,
                    q <= 100,
            ;
            assert(p * 100 <= (u64::MAX as int) * 100) by (nonlinear_arith)
                requires
                    p <= u64::MAX as int,
            ;
            lemma_div_is_ordered(p * q, p * 100, 100);
            lemma_div_multiples_vanish(p, 100);
        }
        let discounted: u128 = (self.price as u128) * ((100 - percentage) as u128) / 100;
        self.price = discounted as u64;
    }

    /// Renders the entry as `name (category): $price`, the price in
    /// dollars with two digits after the point.
    pub fn get_details(&self) -> (r: String)
        ensures
            r@ == spec_details(*self),
    {
        let mut out = String::new();
        push_str(&mut out, self.name.as_str());
        push_str(&mut out, " (");
        push_str(&mut out, self.category.to_string());
        push_str(&mut out, "): $");
        push_price(&mut out, self.price);
        proof {
            assert(out@ =~= spec_details(*self));
        }
        out
    }
}

/// The text `get_details` renders for a product.
pub open spec fn spec_details(p: Product) -> Seq<char> {
    p.name@ + " ("@ + spec_category_name(p.category) + "): $"@ + spec_price(p.price)
}

/// The display name of a category.
pub open spec fn spec_category_name(c: ProductCategory) -> Seq<char> {
    match c {
        ProductCategory::Books => "Books"@,
        ProductCategory::Clothing => "Clothing"@,
        ProductCategory::Electronics => "Electronics"@,
    }
}

impl ProductCategory {
    /// A one-line description of what the category covers.
    pub fn description(&self) -> (r: &'static str)
        ensures
            *self is Books ==> r@ == "Books and reading materials"@,
            *self is Clothing ==> r@ == "Apparel and accessories"@,
            *self is Electronics ==> r@ == "Electronic devices and gadgets"@,
    {
        match self {
            ProductCategory::Books => "Books and reading materials",
            ProductCategory::Clothing => "Apparel and accessories",
            ProductCategory::Electronics => "Electronic devices and gadgets",
        }
    }

    /// The category's display name.
    pub fn to_string(&self) -> (r: &'static str)
        ensures
            r@ == spec_category_name(*self),
    {
        match self {
            ProductCategory::Books => "Books",
            ProductCategory::Clothing => "Clothing",
            ProductCategory::Electronics => "Electronics",
        }
    }
}

} // verus!
