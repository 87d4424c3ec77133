//! The hub: the product catalog, and the fan-in of a "who has this
//! product" query.
//!
//! The hub fans an inventory query out to every node the registry
//! knows. Gathering the per-node replies is the caller's network work;
//! judging them — which nodes qualify, which catalog details to attach,
//! when the query as a whole fails — happens here.

use vstd::prelude::*;

use crate::errors::ServiceError;
use crate::models::Product;
use crate::models::ProductAvailability;
use crate::models::ProductAvailabilityView;
use crate::models::ProductView;
use crate::table::ProductTable;
use crate::table::code_index;
use crate::table::has_code;
use crate::table::product_of;

verus! {

/// What one fan-out branch brought back: the node that was asked, and
/// its inventory entry for the queried code — `None` when the node
/// could not be resolved, could not be reached, answered without
/// success, or answered undecodably. A skipped node never fails the
/// query as a whole.
#[derive(Debug, Clone)]
pub struct InventoryReport {
    /// The node that was asked.
    pub cd_id: String,
    /// Its inventory entry for the queried code, if the branch got one.
    pub report: Option<Product>,
}

/// The mathematical value of an [`InventoryReport`].
pub struct InventoryReportView {
    pub cd_id: Seq<char>,
    pub report: Option<ProductView>,
}

impl View for InventoryReport {
    type V = InventoryReportView;

    open spec fn view(&self) -> InventoryReportView {
        InventoryReportView {
            cd_id: self.cd_id@,
            report: match self.report {
                Some(p) => Some(p@),
                None => None,
            },
        }
    }
}

/// A report qualifies when the node answered and reported a quantity at
/// least the requested minimum.
pub open spec fn qualifies(r: InventoryReportView, quantity_needed: u32) -> bool {
    match r.report {
        Some(p) => match p.quantity {
            Some(q) => q >= quantity_needed,
            None => false,
        },
        None => false,
    }
}

/// The availability entry built from a qualifying report: the node, the
/// quantity it reported, and the product's details — the catalog's when
/// the code is registered there, the node's own otherwise.
pub open spec fn availability_of(
    catalog: Seq<ProductView>,
    code: Seq<char>,
    r: InventoryReportView,
) -> ProductAvailabilityView
    recommends
        qualifies(r, 0),
{
    let p = r.report.unwrap();
    ProductAvailabilityView {
        cd_id: r.cd_id,
        quantity_available: p.quantity.unwrap(),
        product_info: if has_code(catalog, code) {
            product_of(catalog, code)
        } else {
            p
        },
    }
}

/// The surviving availability list: one entry per qualifying report, in
/// report order.
pub open spec fn who_has_spec(
    catalog: Seq<ProductView>,
    code: Seq<char>,
    quantity_needed: u32,
    reports: Seq<InventoryReportView>,
) -> Seq<ProductAvailabilityView>
    decreases reports.len(),
{
    if reports.len() == 0 {
        Seq::empty()
    } else {
        let rest = who_has_spec(catalog, code, quantity_needed, reports.drop_last());
        if qualifies(reports.last(), quantity_needed) {
            rest.push(availability_of(catalog, code, reports.last()))
        } else {
            rest
        }
    }
}

/// Every surviving entry reports at least the requested minimum: the
/// query never returns a node whose quantity is below threshold.
pub proof fn lemma_who_has_meets_minimum(
    catalog: Seq<ProductView>,
    code: Seq<char>,
    quantity_needed: u32,
    reports: Seq<InventoryReportView>,
)
    ensures
        forall|k: int|
            0 <= k < who_has_spec(catalog, code, quantity_needed, reports).len() ==> (
            #[trigger] who_has_spec(catalog, code, quantity_needed, reports)[k]).quantity_available
                >= quantity_needed,
    decreases reports.len(),
{
    if reports.len() == 0 {
    } else {
        lemma_who_has_meets_minimum(catalog, code, quantity_needed, reports.drop_last());
    }
}

/// The hub's state: the catalog, and where the registry lives.
pub struct AppState {
    /// The product catalog, keyed by code.
    pub products_catalog: ProductTable,
    /// The address of the registry.
    pub service_discovery_url: String,
}

impl AppState {
    /// The hub's invariant: the catalog's codes are distinct.
    pub open spec fn wf(self) -> bool {
        self.products_catalog.wf()
    }

    /// A hub with an empty catalog.
    pub fn new(service_discovery_url: String) -> (r: AppState)
        ensures
            r.wf(),
            r.products_catalog@ =~= Seq::<ProductView>::empty(),
            r.service_discovery_url == service_discovery_url,
    {
        AppState { products_catalog: ProductTable::new(), service_discovery_url }
    }

    /// Registers a product type: upserts the catalog entry under its
    /// code.
    pub fn register_product(&mut self, product: Product)
        requires
            old(self).wf(),
        ensures
            final(self).wf(),
            final(self).service_discovery_url == old(self).service_discovery_url,
            has_code(old(self).products_catalog@, product@.code) ==> final(self).products_catalog@
                =~= old(self).products_catalog@.update(
                code_index(old(self).products_catalog@, product@.code),
                product@,
            ),
            !has_code(old(self).products_catalog@, product@.code) ==> final(self).products_catalog@
                =~= old(self).products_catalog@.push(product@),
    {
        self.products_catalog.upsert(product);
    }

    /// The catalog entry under a code; `NotFound` when the code is not
    /// registered.
    pub fn get_product_details(&self, code: &String) -> (r: Result<&Product, ServiceError>)
        requires
            self.wf(),
        ensures
            match r {
                Ok(p) => has_code(self.products_catalog@, code@) && p@ == product_of(
                    self.products_catalog@,
                    code@,
                ),
                Err(e) => e == ServiceError::NotFound && !has_code(self.products_catalog@, code@),
            },
    {
        match self.products_catalog.get(code) {
            Some(p) => Ok(p),
            None => Err(ServiceError::NotFound),
        }
    }

    /// Judges the gathered fan-out reports: keeps exactly the nodes
    /// whose reported quantity meets the requested minimum, attaching
    /// the catalog's details for the code when present and the node's
    /// own otherwise. Fails with `NotFound` when no node was asked —
    /// none was registered — or none qualified; partial failures were
    /// already absorbed branch by branch and never surface here.
    pub fn who_has_product(
        &self,
        product_code: &String,
        quantity_needed: u32,
        reports: &Vec<InventoryReport>,
    ) -> (r: Result<Vec<ProductAvailability>, ServiceError>)
        requires
            self.wf(),
        ensures
            ({
                let avail = who_has_spec(
                    self.products_catalog@,
                    product_code@,
                    quantity_needed,
                    reports@.map_values(|x: InventoryReport| x@),
                );
                match r {
                    Ok(list) => {
                        &&& avail.len() > 0
                        &&& list@.map_values(|a: ProductAvailability| a@) == avail
                        &&& forall|k: int|
                            0 <= k < list@.len() ==> (#[trigger] list@[k]).quantity_available
                                >= quantity_needed
                    },
                    Err(e) => e == ServiceError::NotFound && avail.len() == 0,
                }
            }),
    {
        let ghost rv: Seq<InventoryReportView> = reports@.map_values(|x: InventoryReport| x@);
        let n = reports.len();
        let mut out: Vec<ProductAvailability> = Vec::new();
        let mut i: usize = 0;
        while i < n
            invariant
                self.wf(),
                n == reports@.len(),
                rv == reports@.map_values(|x: InventoryReport| x@),
                i <= n,
                out@.map_values(|a: ProductAvailability| a@) =~= who_has_spec(
                    self.products_catalog@,
                    product_code@,
                    quantity_needed,
                    rv.subrange(0, i as int),
                ),
            decreases n - i,
        {
            proof {
                assert(rv.subrange(0, i as int + 1).drop_last() =~= rv.subrange(0, i as int));
                assert(rv.subrange(0, i as int + 1).last() == rv[i as int]);
            }
            let rep = &reports[i];
            match &rep.report {
                Some(p) => {
                    match p.quantity {
                        Some(q) => {
                            if q >= quantity_needed {
                                let info: Product = match self.products_catalog.get(product_code) {
                                    Some(cp) => cp.duplicate(),
                                    None => p.duplicate(),
                                };
                                out.push(
                                    ProductAvailability {
                                        cd_id: rep.cd_id.clone(),
                                        quantity_available: q,
                                        product_info: info,
                                    },
                                );
                            }
                        },
                        None => {},
                    }
                },
                None => {},
            }
            i = i + 1;
        }
        proof {
            assert(rv.subrange(0, n as int) =~= rv);
            let avail = who_has_spec(self.products_catalog@, product_code@, quantity_needed, rv);
            assert(out@.map_values(|a: ProductAvailability| a@) == avail);
            lemma_who_has_meets_minimum(
                self.products_catalog@,
                product_code@,
                quantity_needed,
                rv,
            );
            assert forall|k: int| 0 <= k < out@.len() implies (
            #[trigger] out@[k]).quantity_available >= quantity_needed by {
                assert(avail[k] == out@.map_values(|a: ProductAvailability| a@)[k]);
                assert(avail[k].quantity_available >= quantity_needed);
                assert(out@.map_values(|a: ProductAvailability| a@)[k] == out@[k]@);
            }
        }
        if out.len() == 0 {
            Err(ServiceError::NotFound)
        } else {
            Ok(out)
        }
    }
}

} // verus!
