//! A distribution node: its stock table, the supplier side of the
//! peer-to-peer transfer, and the acquisition protocol a node follows
//! when it is short of a product.
//!
//! The acquisition protocol alternates network calls with decisions.
//! Every decision is made here, by [`CdState::request_product_from_system`],
//! a step function from the current phase and the event that ended it to
//! the next phase and the action to perform; performing the action —
//! querying the hub, resolving a supplier, posting the transfer — is the
//! caller's network work.

use vstd::prelude::*;

use crate::errors::ServiceError;
use crate::models::Product;
use crate::models::ProductAvailability;
use crate::models::ProductAvailabilityView;
use crate::models::ProductView;
use crate::models::TransferRequest;
use crate::table::ProductTable;
use crate::table::code_index;
use crate::table::has_code;
use crate::table::product_of;
use crate::table::quantity_of;

verus! {

/// What one transfer demand does to a holding: debits the demanded
/// amount when it is covered, leaves the holding untouched when it is
/// not — the check and the debit are one step, so no demand ever drives
/// the holding below zero.
pub open spec fn apply_transfer(q: nat, amount: u32) -> nat {
    if amount as nat <= q {
        (q - amount) as nat
    } else {
        q
    }
}

/// What one transfer demand hands out of a holding: the demanded amount
/// when it is covered, nothing when it is not.
pub open spec fn granted_amount(q: nat, amount: u32) -> nat {
    if amount as nat <= q {
        amount as nat
    } else {
        0
    }
}

/// The holding left after serving a sequence of transfer demands in
/// order.
pub open spec fn run_transfers(q: nat, amounts: Seq<u32>) -> nat
    decreases amounts.len(),
{
    if amounts.len() == 0 {
        q
    } else {
        run_transfers(apply_transfer(q, amounts.first()), amounts.drop_first())
    }
}

/// The total handed out while serving a sequence of transfer demands in
/// order.
pub open spec fn granted_total(q: nat, amounts: Seq<u32>) -> nat
    decreases amounts.len(),
{
    if amounts.len() == 0 {
        0
    } else {
        granted_amount(q, amounts.first()) + granted_total(
            apply_transfer(q, amounts.first()),
            amounts.drop_first(),
        )
    }
}

/// Transfers against one node serialize under that node's lock, so any
/// interleaving of concurrent transfer requests for a product acts on
/// its holding as some sequence of demands. Over every such sequence
/// stock is conserved: what remains plus what was handed out equals the
/// initial holding. Hence the total handed out never exceeds the
/// initial holding, and the remaining quantity — a natural number at
/// every step — is never driven negative, whatever the interleaving.
pub proof fn lemma_transfers_conserve_stock(q: nat, amounts: Seq<u32>)
    ensures
        run_transfers(q, amounts) + granted_total(q, amounts) == q,
        granted_total(q, amounts) <= q,
        run_transfers(q, amounts) <= q,
    decreases amounts.len(),
{
    if amounts.len() == 0 {
    } else {
        lemma_transfers_conserve_stock(apply_transfer(q, amounts.first()), amounts.drop_first());
    }
}

/// The quantity a product entry reports, a missing quantity counting as
/// zero.
pub open spec fn reported_quantity(p: ProductView) -> u32 {
    match p.quantity {
        Some(q) => q,
        None => 0,
    }
}

/// The views of an availability list's entries.
pub open spec fn avail_views(s: Seq<ProductAvailability>) -> Seq<ProductAvailabilityView> {
    s.map_values(|a: ProductAvailability| a@)
}

/// The first position at or after `from` whose entry reports at least
/// `deficit` — the first-fit supplier choice.
pub open spec fn first_candidate(
    cands: Seq<ProductAvailabilityView>,
    deficit: u32,
    from: int,
) -> Option<int>
    decreases cands.len() - from,
{
    if from >= cands.len() {
        None
    } else if cands[from].quantity_available >= deficit {
        Some(from)
    } else {
        first_candidate(cands, deficit, from + 1)
    }
}

/// `first_candidate` names a qualifying position, skips every position
/// before it, and answers `None` only when no position at or after
/// `from` qualifies.
pub proof fn lemma_first_candidate(cands: Seq<ProductAvailabilityView>, deficit: u32, from: int)
    requires
        0 <= from,
    ensures
        match first_candidate(cands, deficit, from) {
            Some(i) => from <= i < cands.len() && cands[i].quantity_available >= deficit && forall|
                k: int,
            | from <= k < i ==> (#[trigger] cands[k]).quantity_available < deficit,
            None => forall|k: int|
                from <= k < cands.len() ==> (#[trigger] cands[k]).quantity_available < deficit,
        },
    decreases cands.len() - from,
{
    if from >= cands.len() {
    } else if cands[from].quantity_available >= deficit {
    } else {
        lemma_first_candidate(cands, deficit, from + 1);
    }
}

/// One acquisition's phase, between two decisions.
pub enum AcquireState {
    /// Nothing has happened yet.
    Idle,
    /// The local holding fell short by `deficit`; the hub has been asked
    /// who can supply that much.
    Querying { deficit: u32 },
    /// A transfer of `deficit` units has been requested from the
    /// candidate at `index`; earlier candidates were skipped or their
    /// attempts failed.
    AwaitingTransfer { deficit: u32, candidates: Vec<ProductAvailability>, index: usize },
    /// The need is met.
    Satisfied,
    /// The acquisition failed.
    Failed { error: ServiceError },
}

/// How one attempted transfer ended, as the requesting node sees it.
pub enum TransferOutcome {
    /// The supplier accepted and debited the transfer.
    Delivered,
    /// The attempt failed: the supplier refused, its address could not
    /// be resolved, or the exchange could not be completed. The failure
    /// is that candidate's alone — it is logged by the caller and the
    /// next candidate is tried; it never fails the acquisition by
    /// itself.
    Failed,
}

/// The event that ends a phase.
pub enum AcquireEvent {
    /// The acquisition begins.
    Started,
    /// The hub answered the availability query, or failed to.
    HubReplied { reply: Result<Vec<ProductAvailability>, ServiceError> },
    /// The attempted transfer ended.
    TransferReplied { outcome: TransferOutcome },
}

/// What the caller must do next.
pub enum AcquireAction {
    /// Ask the hub who can supply `deficit` units of the product.
    QueryHub { product_code: String, deficit: u32 },
    /// Resolve the supplier's address and post the transfer request to
    /// it.
    SendTransfer { supplier_id: String, request: TransferRequest },
    /// The acquisition is over; hand this result out.
    Finish { result: Result<(), ServiceError> },
}

/// Which events end which phases.
pub open spec fn step_enabled(phase: AcquireState, event: AcquireEvent) -> bool {
    match (phase, event) {
        (AcquireState::Idle, AcquireEvent::Started) => true,
        (AcquireState::Querying { .. }, AcquireEvent::HubReplied { .. }) => true,
        (AcquireState::AwaitingTransfer { .. }, AcquireEvent::TransferReplied { .. }) => true,
        _ => false,
    }
}

/// What every phase the step function hands out satisfies: a pending
/// transfer always points at a real candidate that covers the deficit.
pub open spec fn acquire_phase_inv(phase: AcquireState) -> bool {
    match phase {
        AcquireState::AwaitingTransfer { deficit, candidates, index } => index < candidates@.len()
            && candidates@[index as int].quantity_available >= deficit,
        _ => true,
    }
}

/// The opening decision: with the holding already covering the need the
/// acquisition finishes at once, successfully, with no network action
/// ever issued; otherwise the one action is to ask the hub for the
/// shortfall.
pub open spec fn spec_start(
    inv: Seq<ProductView>,
    code: Seq<char>,
    needed: u32,
    next: AcquireState,
    action: AcquireAction,
) -> bool {
    let have = quantity_of(inv, code);
    if have >= needed {
        &&& next is Satisfied
        &&& action matches AcquireAction::Finish { result } && result == Ok::<(), ServiceError>(())
    } else {
        &&& next matches AcquireState::Querying { deficit } && deficit == needed - have
        &&& action matches AcquireAction::QueryHub { product_code, deficit } && product_code@
            == code && deficit == needed - have
    }
}

/// Failing for good: the phase and the handed-out result carry the same
/// error.
pub open spec fn spec_fail(error: ServiceError, next: AcquireState, action: AcquireAction) -> bool {
    &&& next matches AcquireState::Failed { error: e } && e == error
    &&& action matches AcquireAction::Finish { result } && result == Err::<(), ServiceError>(error)
}

/// Advancing to the first candidate at or after `from` that covers the
/// deficit: a transfer request for exactly the deficit goes to that
/// candidate; with no such candidate left the acquisition fails
/// `Unfulfilled`.
pub open spec fn spec_select(
    candidates: Vec<ProductAvailability>,
    code: Seq<char>,
    own_id: Seq<char>,
    deficit: u32,
    from: int,
    next: AcquireState,
    action: AcquireAction,
) -> bool {
    match first_candidate(avail_views(candidates@), deficit, from) {
        Some(i) => {
            &&& next matches AcquireState::AwaitingTransfer { deficit: d, candidates: c, index }
                && d == deficit && c@ == candidates@ && index as int == i
            &&& action matches AcquireAction::SendTransfer { supplier_id, request } && supplier_id@
                == candidates@[i].cd_id@ && request@.product_code == code && request@.quantity
                == deficit && request@.requester_cd_id == own_id
        },
        None => spec_fail(ServiceError::Unfulfilled, next, action),
    }
}

/// What crediting a delivery does to the holding: an entry the code
/// already names keeps its details and grows by `amount`; otherwise an
/// entry is created from the supplier-reported details holding
/// `amount`.
pub open spec fn spec_credit(
    old_inv: Seq<ProductView>,
    code: Seq<char>,
    fallback: ProductView,
    amount: u32,
    new_inv: Seq<ProductView>,
) -> bool {
    &&& has_code(old_inv, code) ==> new_inv == old_inv.update(
        code_index(old_inv, code),
        ProductView {
            quantity: Some((quantity_of(old_inv, code) + amount) as u32),
            ..product_of(old_inv, code)
        },
    )
    &&& !has_code(old_inv, code) ==> new_inv == old_inv.push(
        ProductView {
            code: code,
            name: fallback.name,
            price_cents: fallback.price_cents,
            quantity: Some(amount),
        },
    )
}

/// A node's state: its stock, its identity, and where its collaborators
/// live.
pub struct CdState {
    /// The node's stock table, keyed by product code.
    pub inventory: ProductTable,
    /// The node's own id.
    pub own_id: String,
    /// The address of the registry.
    pub service_discovery_url: String,
    /// The address of the hub.
    pub hub_url: String,
}

/// The first position at or after `from` whose candidate reports at
/// least `deficit`.
fn find_candidate(candidates: &Vec<ProductAvailability>, deficit: u32, from: usize) -> (r: Option<
    usize,
>)
    ensures
        match r {
            Some(i) => from <= i < candidates@.len() && first_candidate(
                avail_views(candidates@),
                deficit,
                from as int,
            ) == Some(i as int),
            None => first_candidate(avail_views(candidates@), deficit, from as int) is None,
        },
{
    let ghost cv = avail_views(candidates@);
    let n = candidates.len();
    let mut i: usize = from;
    while i < n
        invariant
            n == candidates@.len(),
            from <= i,
            cv == avail_views(candidates@),
            first_candidate(cv, deficit, from as int) == first_candidate(cv, deficit, i as int),
        decreases n - i,
    {
        proof {
            assert(cv[i as int] == candidates@[i as int]@);
        }
        if candidates[i].quantity_available >= deficit {
            return Some(i);
        }
        i = i + 1;
    }
    None
}

/// Advances to the first candidate at or after `from` that covers the
/// deficit, building the transfer request for it, or gives the
/// acquisition up when none is left.
fn select_candidate(
    own_id: &String,
    product_code: &String,
    deficit: u32,
    candidates: Vec<ProductAvailability>,
    from: usize,
) -> (r: (AcquireState, AcquireAction))
    ensures
        spec_select(candidates, product_code@, own_id@, deficit, from as int, r.0, r.1),
        acquire_phase_inv(r.0),
{
    match find_candidate(&candidates, deficit, from) {
        Some(i) => {
            proof {
                lemma_first_candidate(avail_views(candidates@), deficit, from as int);
                assert(avail_views(candidates@)[i as int] == candidates@[i as int]@);
            }
            let supplier_id = candidates[i].cd_id.clone();
            let request = TransferRequest {
                product_code: product_code.clone(),
                quantity: deficit,
                requester_cd_id: own_id.clone(),
            };
            (
                AcquireState::AwaitingTransfer { deficit, candidates, index: i },
                AcquireAction::SendTransfer { supplier_id, request },
            )
        },
        None => (
            AcquireState::Failed { error: ServiceError::Unfulfilled },
            AcquireAction::Finish { result: Err(ServiceError::Unfulfilled) },
        ),
    }
}

impl CdState {
    /// The node's invariant: its stock table's codes are distinct.
    pub open spec fn wf(self) -> bool {
        self.inventory.wf()
    }

    /// A node with an empty stock table.
    pub fn new(own_id: String, service_discovery_url: String, hub_url: String) -> (r: CdState)
        ensures
            r.wf(),
            r.inventory@ =~= Seq::<ProductView>::empty(),
            r.own_id == own_id,
            r.service_discovery_url == service_discovery_url,
            r.hub_url == hub_url,
    {
        CdState { inventory: ProductTable::new(), own_id, service_discovery_url, hub_url }
    }

    /// The node's stock entry for a code; `NotFound` when it holds none.
    pub fn get_product_inventory(&self, product_code: &String) -> (r: Result<
        &Product,
        ServiceError,
    >)
        requires
            self.wf(),
        ensures
            match r {
                Ok(p) => has_code(self.inventory@, product_code@) && p@ == product_of(
                    self.inventory@,
                    product_code@,
                ),
                Err(e) => e == ServiceError::NotFound && !has_code(self.inventory@, product_code@),
            },
    {
        match self.inventory.get(product_code) {
            Some(p) => Ok(p),
            None => Err(ServiceError::NotFound),
        }
    }

    /// The supplier side of a transfer: under the one lock the caller
    /// holds, checks the demanded quantity against the holding and
    /// debits it in the same step. A code the node does not hold fails
    /// `NotFound`; a demand exceeding the holding fails
    /// `InsufficientStock` and leaves the stock exactly unchanged — no
    /// partial transfer ever happens.
    pub fn transfer_product(&mut self, transfer_req: &TransferRequest) -> (r: Result<
        (),
        ServiceError,
    >)
        requires
            old(self).wf(),
        ensures
            final(self).wf(),
            final(self).own_id == old(self).own_id,
            final(self).service_discovery_url == old(self).service_discovery_url,
            final(self).hub_url == old(self).hub_url,
            ({
                let c = transfer_req@.product_code;
                let amount = transfer_req@.quantity;
                let prior = old(self).inventory@;
                &&& !has_code(prior, c) ==> r == Err::<(), ServiceError>(ServiceError::NotFound)
                    && final(self).inventory@ == prior
                &&& has_code(prior, c) && quantity_of(prior, c) < amount ==> r == Err::<
                    (),
                    ServiceError,
                >(ServiceError::InsufficientStock) && final(self).inventory@ == prior
                &&& has_code(prior, c) && quantity_of(prior, c) >= amount ==> r == Ok::<
                    (),
                    ServiceError,
                >(()) && final(self).inventory@ == prior.update(
                    code_index(prior, c),
                    ProductView {
                        quantity: Some((quantity_of(prior, c) - amount) as u32),
                        ..product_of(prior, c)
                    },
                )
                &&& quantity_of(final(self).inventory@, c) == apply_transfer(
                    quantity_of(prior, c),
                    amount,
                )
                &&& r == Ok::<(), ServiceError>(()) <==> has_code(prior, c) && amount as nat
                    <= quantity_of(prior, c)
            }),
    {
        let r = self.inventory.debit(&transfer_req.product_code, transfer_req.quantity);
        proof {
            let c = transfer_req@.product_code;
            let amount = transfer_req@.quantity;
            let prior = old(self).inventory@;
            if has_code(prior, c) && quantity_of(prior, c) >= amount as nat {
                let i = code_index(prior, c);
                assert(0 <= i < prior.len() && prior[i].code == c);
                assert(self.inventory@[i].code == c);
                crate::table::lemma_found_index(self.inventory@, c, i);
            }
        }
        r
    }

    /// Takes delivery of stock from outside the transfer protocol:
    /// unconditionally adds the reported quantity under the reported
    /// code, creating the entry if the node held none.
    pub fn receive_product(&mut self, product_data: &Product)
        requires
            old(self).wf(),
            quantity_of(old(self).inventory@, product_data@.code) + reported_quantity(product_data@)
                <= u32::MAX,
        ensures
            final(self).wf(),
            final(self).own_id == old(self).own_id,
            final(self).service_discovery_url == old(self).service_discovery_url,
            final(self).hub_url == old(self).hub_url,
            spec_credit(
                old(self).inventory@,
                product_data@.code,
                product_data@,
                reported_quantity(product_data@),
                final(self).inventory@,
            ),
            quantity_of(final(self).inventory@, product_data@.code) == quantity_of(
                old(self).inventory@,
                product_data@.code,
            ) + reported_quantity(product_data@),
    {
        let amount: u32 = match product_data.quantity {
            Some(q) => q,
            None => 0,
        };
        self.inventory.credit(
            &product_data.code,
            &product_data.name,
            product_data.price_cents,
            amount,
        );
        proof {
            let c = product_data@.code;
            let prior = old(self).inventory@;
            if has_code(prior, c) {
                let i = code_index(prior, c);
                assert(0 <= i < prior.len() && prior[i].code == c);
                assert(self.inventory@[i].code == c);
                crate::table::lemma_found_index(self.inventory@, c, i);
            } else {
                let i: int = self.inventory@.len() - 1;
                assert(self.inventory@[i].code == c);
                crate::table::lemma_found_index(self.inventory@, c, i);
            }
        }
    }

    /// One decision of the acquisition protocol: from the phase the
    /// acquisition is in and the event that ended it, to the next phase
    /// and the action to perform. The caller runs the loop: it performs
    /// each action over the network and hands the outcome back as the
    /// next event.
    ///
    /// On `Started`, a holding that already covers the need finishes the
    /// acquisition at once — no query and no transfer is ever issued.
    /// Otherwise the hub is asked for the shortfall; its candidates are
    /// tried first-fit, a failed attempt — a refusal, an unresolvable
    /// address, an unreachable supplier — moving on to the next
    /// candidate that covers the deficit, and only a delivery credits
    /// the stock — by exactly the deficit, under the reported details
    /// if the code was new. `NotFound` from the hub, an empty candidate
    /// list, and an exhausted list all surface as `Unfulfilled`: no one
    /// candidate's failure ever aborts the acquisition.
    pub fn request_product_from_system(
        &mut self,
        product_code: &String,
        quantity_needed: u32,
        phase: AcquireState,
        event: AcquireEvent,
    ) -> (r: (AcquireState, AcquireAction))
        requires
            old(self).wf(),
            step_enabled(phase, event),
            acquire_phase_inv(phase),
            match (phase, event) {
                (
                    AcquireState::AwaitingTransfer { deficit, .. },
                    AcquireEvent::TransferReplied { outcome: TransferOutcome::Delivered },
                ) => quantity_of(old(self).inventory@, product_code@) + deficit <= u32::MAX,
                _ => true,
            },
        ensures
            final(self).wf(),
            acquire_phase_inv(r.0),
            final(self).own_id == old(self).own_id,
            final(self).service_discovery_url == old(self).service_discovery_url,
            final(self).hub_url == old(self).hub_url,
            match (phase, event) {
                (AcquireState::Idle, AcquireEvent::Started) => final(self).inventory@ == old(
                    self,
                ).inventory@ && spec_start(
                    old(self).inventory@,
                    product_code@,
                    quantity_needed,
                    r.0,
                    r.1,
                ),
                (
                    AcquireState::Querying { deficit },
                    AcquireEvent::HubReplied { reply },
                ) => final(self).inventory@ == old(self).inventory@ && match reply {
                    Ok(candidates) => spec_select(
                        candidates,
                        product_code@,
                        old(self).own_id@,
                        deficit,
                        0,
                        r.0,
                        r.1,
                    ),
                    Err(e) => spec_fail(
                        if e == ServiceError::NotFound {
                            ServiceError::Unfulfilled
                        } else {
                            e
                        },
                        r.0,
                        r.1,
                    ),
                },
                (
                    AcquireState::AwaitingTransfer { deficit, candidates, index },
                    AcquireEvent::TransferReplied { outcome },
                ) => match outcome {
                    TransferOutcome::Delivered => {
                        &&& spec_credit(
                            old(self).inventory@,
                            product_code@,
                            candidates@[index as int].product_info@,
                            deficit,
                            final(self).inventory@,
                        )
                        &&& quantity_of(final(self).inventory@, product_code@) == quantity_of(
                            old(self).inventory@,
                            product_code@,
                        ) + deficit
                        &&& r.0 is Satisfied
                        &&& r.1 matches AcquireAction::Finish { result } && result == Ok::<
                            (),
                            ServiceError,
                        >(())
                    },
                    TransferOutcome::Failed => final(self).inventory@ == old(self).inventory@
                        && spec_select(
                        candidates,
                        product_code@,
                        old(self).own_id@,
                        deficit,
                        index + 1,
                        r.0,
                        r.1,
                    ),
                },
                _ => false,
            },
    {
        match (phase, event) {
            (AcquireState::Idle, AcquireEvent::Started) => {
                let current: u32 = match self.inventory.get(product_code) {
                    Some(p) => match p.quantity {
                        Some(q) => q,
                        None => 0,
                    },
                    None => 0,
                };
                if current >= quantity_needed {
                    (AcquireState::Satisfied, AcquireAction::Finish { result: Ok(()) })
                } else {
                    let deficit = quantity_needed - current;
                    (
                        AcquireState::Querying { deficit },
                        AcquireAction::QueryHub { product_code: product_code.clone(), deficit },
                    )
                }
            },
            (AcquireState::Querying { deficit }, AcquireEvent::HubReplied { reply }) => {
                match reply {
                    Ok(candidates) => select_candidate(
                        &self.own_id,
                        product_code,
                        deficit,
                        candidates,
                        0,
                    ),
                    Err(e) => {
                        let error = if e == ServiceError::NotFound {
                            ServiceError::Unfulfilled
                        } else {
                            e
                        };
                        (
                            AcquireState::Failed { error },
                            AcquireAction::Finish { result: Err(error) },
                        )
                    },
                }
            },
            (
                AcquireState::AwaitingTransfer { deficit, candidates, index },
                AcquireEvent::TransferReplied { outcome },
            ) => {
                match outcome {
                    TransferOutcome::Delivered => {
                        let supplied = &candidates[index];
                        let fallback_name = supplied.product_info.name.clone();
                        let fallback_price = supplied.product_info.price_cents;
                        self.inventory.credit(
                            product_code,
                            &fallback_name,
                            fallback_price,
                            deficit,
                        );
                        proof {
                            let c = product_code@;
                            let prior = old(self).inventory@;
                            if has_code(prior, c) {
                                let i = code_index(prior, c);
                                assert(0 <= i < prior.len() && prior[i].code == c);
                                assert(self.inventory@[i].code == c);
                                crate::table::lemma_found_index(self.inventory@, c, i);
                            } else {
                                let i: int = self.inventory@.len() - 1;
                                assert(self.inventory@[i].code == c);
                                crate::table::lemma_found_index(self.inventory@, c, i);
                            }
                        }
                        (AcquireState::Satisfied, AcquireAction::Finish { result: Ok(()) })
                    },
                    TransferOutcome::Failed => {
                        if index < candidates.len() {
                            select_candidate(
                                &self.own_id,
                                product_code,
                                deficit,
                                candidates,
                                index + 1,
                            )
                        } else {
                            proof {
                                assert(false);
                            }
                            (
                                AcquireState::Failed { error: ServiceError::Unfulfilled },
                                AcquireAction::Finish {
                                    result: Err(ServiceError::Unfulfilled),
                                },
                            )
                        }
                    },
                }
            },
            _ => {
                proof {
                    assert(false);
                }
                (
                    AcquireState::Idle,
                    AcquireAction::Finish { result: Err(ServiceError::Unfulfilled) },
                )
            },
        }
    }
}

} // verus!
