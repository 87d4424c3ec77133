//! A stock table: products keyed by their code.
//!
//! Both the hub's catalog and each node's inventory are such tables. The
//! table is a vector of products whose codes are pairwise distinct, so a
//! code names at most one entry.

use vstd::prelude::*;

use crate::errors::ServiceError;
use crate::models::Product;
use crate::models::ProductView;

verus! {

/// Codes are pairwise distinct.
pub open spec fn codes_distinct(s: Seq<ProductView>) -> bool {
    forall|i: int, j: int| 0 <= i < j < s.len() ==> s[i].code != s[j].code
}

/// Some entry carries this code.
pub open spec fn has_code(s: Seq<ProductView>, code: Seq<char>) -> bool {
    exists|i: int| 0 <= i < s.len() && (#[trigger] s[i].code) == code
}

/// The index of the entry carrying this code.
pub open spec fn code_index(s: Seq<ProductView>, code: Seq<char>) -> int {
    choose|i: int| 0 <= i < s.len() && (#[trigger] s[i].code) == code
}

/// The entry carrying this code.
pub open spec fn product_of(s: Seq<ProductView>, code: Seq<char>) -> ProductView {
    s[code_index(s, code)]
}

/// The quantity held under this code: zero when the code is absent or the
/// entry carries no quantity.
pub open spec fn quantity_of(s: Seq<ProductView>, code: Seq<char>) -> nat {
    if has_code(s, code) {
        match product_of(s, code).quantity {
            Some(q) => q as nat,
            None => 0,
        }
    } else {
        0
    }
}

/// In a table with distinct codes, an entry found at some index is the
/// entry that `code_index` and `product_of` name.
pub proof fn lemma_found_index(s: Seq<ProductView>, code: Seq<char>, i: int)
    requires
        codes_distinct(s),
        0 <= i < s.len(),
        s[i].code == code,
    ensures
        has_code(s, code),
        code_index(s, code) == i,
        product_of(s, code) == s[i],
{
    assert(has_code(s, code));
    let j = code_index(s, code);
    assert(0 <= j < s.len() && s[j].code == code);
    if i < j {
        assert(s[i].code != s[j].code);
    }
    if j < i {
        assert(s[j].code != s[i].code);
    }
}

/// Products keyed by code: the entries form a sequence whose codes are
/// pairwise distinct.
pub struct ProductTable {
    entries: Vec<Product>,
}

impl View for ProductTable {
    type V = Seq<ProductView>;

    closed spec fn view(&self) -> Seq<ProductView> {
        self.entries@.map_values(|p: Product| p@)
    }
}

impl ProductTable {
    /// The table's invariant: no two entries share a code.
    pub open spec fn wf(self) -> bool {
        codes_distinct(self@)
    }

    /// An empty table.
    pub fn new() -> (r: ProductTable)
        ensures
            r@ =~= Seq::<ProductView>::empty(),
            r.wf(),
    {
        ProductTable { entries: Vec::new() }
    }

    /// How many entries the table holds.
    pub fn len(&self) -> (r: usize)
        ensures
            r == self@.len(),
    {
        self.entries.len()
    }

    /// The entry at a position, for walking the table.
    pub fn entry_at(&self, i: usize) -> (r: &Product)
        requires
            i < self@.len(),
        ensures
            r@ == self@[i as int],
    {
        &self.entries[i]
    }

    /// The position of the entry carrying this code, if any.
    fn find_index(&self, code: &String) -> (r: Option<usize>)
        ensures
            match r {
                Some(i) => i < self@.len() && self@[i as int].code == code@,
                None => !has_code(self@, code@),
            },
    {
        let n = self.entries.len();
        let mut i: usize = 0;
        while i < n
            invariant
                n == self@.len(),
                i <= n,
                forall|k: int| 0 <= k < i ==> (#[trigger] self@[k].code) != code@,
            decreases n - i,
        {
            if self.entries[i].code == *code {
                return Some(i);
            }
            i = i + 1;
        }
        None
    }

    /// The entry carrying this code, if any.
    pub fn get(&self, code: &String) -> (r: Option<&Product>)
        requires
            self.wf(),
        ensures
            match r {
                Some(p) => has_code(self@, code@) && p@ == product_of(self@, code@),
                None => !has_code(self@, code@),
            },
    {
        match self.find_index(code) {
            Some(i) => {
                proof {
                    lemma_found_index(self@, code@, i as int);
                }
                Some(&self.entries[i])
            },
            None => None,
        }
    }

    /// Stores the product under its code, replacing any entry the code
    /// already names.
    pub fn upsert(&mut self, p: Product)
        requires
            old(self).wf(),
        ensures
            final(self).wf(),
            has_code(old(self)@, p@.code) ==> final(self)@ =~= old(self)@.update(
                code_index(old(self)@, p@.code),
                p@,
            ),
            !has_code(old(self)@, p@.code) ==> final(self)@ =~= old(self)@.push(p@),
    {
        match self.find_index(&p.code) {
            Some(i) => {
                proof {
                    lemma_found_index(self@, p@.code, i as int);
                }
                self.entries.set(i, p);
                proof {
                    assert forall|a: int, b: int| 0 <= a < b < self@.len() implies self@[a].code
                        != self@[b].code by {
                        if a != i as int && b != i as int {
                            assert(old(self)@[a].code != old(self)@[b].code);
                        } else if a == i as int {
                            assert(old(self)@[b].code != old(self)@[i as int].code);
                        } else {
                            assert(old(self)@[a].code != old(self)@[i as int].code);
                        }
                    }
                }
            },
            None => {
                self.entries.push(p);
                proof {
                    assert forall|a: int, b: int| 0 <= a < b < self@.len() implies self@[a].code
                        != self@[b].code by {
                        if b == self@.len() - 1 {
                            assert(!has_code(old(self)@, p@.code));
                            assert(old(self)@[a].code != p@.code);
                        } else {
                            assert(old(self)@[a].code != old(self)@[b].code);
                        }
                    }
                }
            },
        }
    }

    /// Adds `amount` units under `code`: an existing entry keeps its name
    /// and price and has its quantity raised by `amount` (a missing
    /// quantity counts as zero); otherwise a new entry is created from
    /// `name` and `price_cents` holding `amount`.
    pub fn credit(&mut self, code: &String, name: &String, price_cents: u64, amount: u32)
        requires
            old(self).wf(),
            quantity_of(old(self)@, code@) + amount <= u32::MAX,
        ensures
            final(self).wf(),
            has_code(old(self)@, code@) ==> final(self)@ =~= old(self)@.update(
                code_index(old(self)@, code@),
                ProductView {
                    quantity: Some((quantity_of(old(self)@, code@) + amount) as u32),
                    ..product_of(old(self)@, code@)
                },
            ),
            !has_code(old(self)@, code@) ==> final(self)@ =~= old(self)@.push(
                ProductView {
                    code: code@,
                    name: name@,
                    price_cents: price_cents,
                    quantity: Some(amount),
                },
            ),
    {
        match self.find_index(code) {
            Some(i) => {
                proof {
                    lemma_found_index(self@, code@, i as int);
                }
                let current: u32 = match self.entries[i].quantity {
                    Some(q) => q,
                    None => 0,
                };
                let updated = Product {
                    code: self.entries[i].code.clone(),
                    name: self.entries[i].name.clone(),
                    price_cents: self.entries[i].price_cents,
                    quantity: Some(current + amount),
                };
                self.upsert(updated);
            },
            None => {
                let created = Product {
                    code: code.clone(),
                    name: name.clone(),
                    price_cents: price_cents,
                    quantity: Some(amount),
                };
                self.upsert(created);
            },
        }
    }

    /// Takes `amount` units out of the entry named by `code`. The check
    /// and the decrement are one step: on any failure the table is left
    /// unchanged, and no entry is ever driven below zero.
    pub fn debit(&mut self, code: &String, amount: u32) -> (r: Result<(), ServiceError>)
        requires
            old(self).wf(),
        ensures
            final(self).wf(),
            !has_code(old(self)@, code@) ==> r == Err::<(), ServiceError>(ServiceError::NotFound)
                && final(self)@ =~= old(self)@,
            has_code(old(self)@, code@) && quantity_of(old(self)@, code@) < amount ==> r == Err::<
                (),
                ServiceError,
            >(ServiceError::InsufficientStock) && final(self)@ =~= old(self)@,
            has_code(old(self)@, code@) && quantity_of(old(self)@, code@) >= amount ==> r == Ok::<
                (),
                ServiceError,
            >(()) && final(self)@ =~= old(self)@.update(
                code_index(old(self)@, code@),
                ProductView {
                    quantity: Some((quantity_of(old(self)@, code@) - amount) as u32),
                    ..product_of(old(self)@, code@)
                },
            ),
    {
        match self.find_index(code) {
            Some(i) => {
                proof {
                    lemma_found_index(self@, code@, i as int);
                }
                let current: u32 = match self.entries[i].quantity {
                    Some(q) => q,
                    None => 0,
                };
                if current >= amount {
                    let updated = Product {
                        code: self.entries[i].code.clone(),
                        name: self.entries[i].name.clone(),
                        price_cents: self.entries[i].price_cents,
                        quantity: Some(current - amount),
                    };
                    self.upsert(updated);
                    Ok(())
                } else {
                    Err(ServiceError::InsufficientStock)
                }
            },
            None => Err(ServiceError::NotFound),
        }
    }
}

} // verus!
