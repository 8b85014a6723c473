//! The client module interface, and a simple note-based primary module.
//!
//! Module implementations supply inputs and outputs for transactions. A
//! *primary* module is additionally the sole source of balance adjustment:
//! it produces an input covering a requested amount together with its own
//! fee, and absorbs an exact change amount.

use vstd::prelude::*;
use crate::errors::ClientError;
use crate::ids::{ModuleInstanceId, OperationId};
use crate::transaction::{ClientInput, ClientOutput, StateGenerator, TxItem};

verus! {

/// What the client core requires of a module implementation.
///
/// The two creation methods carry the primary-module contract: an input
/// covers the requested amount *plus its own fee*, and a change output
/// absorbs the requested amount exactly, fee included. The balancer's
/// closure proof rests on exactly these two clauses.
pub trait ClientModule: Sized {
    /// The funds this module could contribute, in base amount units.
    spec fn balance_of(&self) -> int;

    /// Whether this module can balance transactions.
    spec fn supports_primary(&self) -> bool;

    /// Whether this module can balance transactions.
    fn supports_being_primary(&self) -> (r: bool)
        ensures
            r == self.supports_primary(),
    ;

    /// Balance available to the client for spending through this module.
    fn get_balance(&self) -> (r: u64)
        ensures
            r as int == self.balance_of(),
    ;

    /// Produces an input worth at least `min_amount` after its own fee, or
    /// reports that the module cannot fund it.
    fn create_sufficient_input(
        &mut self,
        instance_id: ModuleInstanceId,
        operation_id: OperationId,
        min_amount: u64,
    ) -> (r: Result<ClientInput, ClientError>)
        ensures
            r matches Ok(input) ==> input.item.module_instance_id == instance_id
                && input.item.amount >= min_amount as int + input.item.fee,
            r is Err ==> r == Err::<ClientInput, ClientError>(ClientError::InsufficientFunds),
    ;

    /// Produces an output absorbing exactly `amount`, fee included.
    fn create_exact_output(
        &mut self,
        instance_id: ModuleInstanceId,
        operation_id: OperationId,
        amount: u64,
    ) -> (r: ClientOutput)
        ensures
            r.item.module_instance_id == instance_id,
            r.item.amount as int + r.item.fee as int == amount as int,
    ;
}

/// A primary module holding a plain balance of notes in one fixed
/// denomination: every input it produces is a multiple of the denomination,
/// change is absorbed exactly, and no fees are charged.
pub struct FixedDenominationModule {
    /// Smallest unit the module can spend. At least one.
    pub denomination: u64,
    /// Funds held, in base amount units.
    pub balance: u64,
}

impl FixedDenominationModule {
    /// A module holding `balance` spendable in multiples of `denomination`.
    pub fn new(denomination: u64, balance: u64) -> (r: FixedDenominationModule)
        requires
            denomination >= 1,
        ensures
            r.denomination == denomination,
            r.balance == balance,
    {
        FixedDenominationModule { denomination, balance }
    }
}

impl ClientModule for FixedDenominationModule {
    open spec fn balance_of(&self) -> int {
        self.balance as int
    }

    open spec fn supports_primary(&self) -> bool {
        true
    }

    fn supports_being_primary(&self) -> (r: bool) {
        true
    }

    fn get_balance(&self) -> (r: u64) {
        self.balance
    }

    fn create_sufficient_input(
        &mut self,
        instance_id: ModuleInstanceId,
        operation_id: OperationId,
        min_amount: u64,
    ) -> (r: Result<ClientInput, ClientError>) {
        let d = if self.denomination == 0 {
            1
        } else {
            self.denomination
        };
        let rem = min_amount % d;
        proof {
            assert(min_amount % d <= min_amount) by (nonlinear_arith)
                requires
                    d >= 1,
            ;
        }
        let needed = if rem == 0 {
            min_amount
        } else {
            let rounded_down = min_amount - rem;
            if rounded_down <= u64::MAX - d {
                rounded_down + d
            } else {
                return Err(ClientError::InsufficientFunds);
            }
        };
        if needed > self.balance {
            return Err(ClientError::InsufficientFunds);
        }
        self.balance = self.balance - needed;
        Ok(
            ClientInput {
                item: TxItem { module_instance_id: instance_id, amount: needed, fee: 0 },
                keys: Vec::new(),
                state_machines: StateGenerator::none(),
            },
        )
    }

    fn create_exact_output(
        &mut self,
        instance_id: ModuleInstanceId,
        operation_id: OperationId,
        amount: u64,
    ) -> (r: ClientOutput) {
        self.balance = if self.balance <= u64::MAX - amount {
            self.balance + amount
        } else {
            u64::MAX
        };
        ClientOutput {
            item: TxItem { module_instance_id: instance_id, amount, fee: 0 },
            state_machines: StateGenerator::none(),
        }
    }
}

/// A module that only observes external events and cannot hold funds for
/// long, as a payment-channel module typically is. It never supports being
/// primary, so the builder refuses to designate it.
pub struct WatchOnlyModule {
}

impl WatchOnlyModule {
    /// A watch-only module instance.
    pub fn new() -> (r: WatchOnlyModule) {
        WatchOnlyModule {  }
    }
}

impl ClientModule for WatchOnlyModule {
    open spec fn balance_of(&self) -> int {
        0
    }

    open spec fn supports_primary(&self) -> bool {
        false
    }

    fn supports_being_primary(&self) -> (r: bool) {
        false
    }

    fn get_balance(&self) -> (r: u64) {
        0
    }

    fn create_sufficient_input(
        &mut self,
        instance_id: ModuleInstanceId,
        operation_id: OperationId,
        min_amount: u64,
    ) -> (r: Result<ClientInput, ClientError>) {
        Err(ClientError::InsufficientFunds)
    }

    fn create_exact_output(
        &mut self,
        instance_id: ModuleInstanceId,
        operation_id: OperationId,
        amount: u64,
    ) -> (r: ClientOutput) {
        ClientOutput {
            item: TxItem { module_instance_id: instance_id, amount, fee: 0 },
            state_machines: StateGenerator::none(),
        }
    }
}

} // verus!
