//! Metered contract execution: a gas meter, an engine that charges for code
//! size, and a contract holding a balance.
use vstd::prelude::*;

verus! {

/// Gas allowed and gas spent.
pub struct GasMeter {
    pub limit: u64,
    pub used: u64,
}

impl GasMeter {
    /// No more gas spent than allowed.
    pub open spec fn wf(&self) -> bool {
        self.used <= self.limit
    }

    pub fn new(limit: u64) -> (r: Self)
        ensures
            r.wf(),
            r.limit == limit,
            r.used == 0,
    {
        GasMeter { limit, used: 0 }
    }

    /// Spends `amount`; refused (and nothing spent) when it would pass the limit.
    pub fn consume(&mut self, amount: u64) -> (r: Result<(), String>)
        requires
            old(self).used + amount <= u64::MAX,
        ensures
            final(self).limit == old(self).limit,
            old(self).used + amount > old(self).limit ==> (r matches Err(m) && m@ == "Out of gas"@
                && final(self).used == old(self).used),
            old(self).used + amount <= old(self).limit ==> r is Ok && final(self).used == old(
                self,
            ).used + amount,
            old(self).wf() ==> final(self).wf(),
    {
        if self.used + amount > self.limit {
            return Err("Out of gas".to_string());
        }
        self.used = self.used + amount;
        Ok(())
    }

    /// Gas left.
    pub fn remaining(&self) -> (r: u64)
        requires
            self.wf(),
        ensures
            r == self.limit - self.used,
    {
        self.limit - self.used
    }
}

/// Runs contract code under a gas meter.
pub struct ContractEngine {
    gas_meter: GasMeter,
}

impl ContractEngine {
    /// Gas spent so far.
    pub closed spec fn gas_used(&self) -> u64 {
        self.gas_meter.used
    }

    /// The gas limit.
    pub closed spec fn gas_limit(&self) -> u64 {
        self.gas_meter.limit
    }

    pub fn new(gas_limit: u64) -> (r: Self)
        ensures
            r.gas_limit() == gas_limit,
            r.gas_used() == 0,
    {
        ContractEngine { gas_meter: GasMeter::new(gas_limit) }
    }

    /// Charges 10 gas per byte of `code`; refused when that passes the limit.
    pub fn execute(&mut self, code: &[u8]) -> (r: Result<String, String>)
        requires
            code@.len() * 10 <= u64::MAX,
            old(self).gas_used() + code@.len() * 10 <= u64::MAX,
        ensures
            final(self).gas_limit() == old(self).gas_limit(),
            old(self).gas_used() + code@.len() * 10 > old(self).gas_limit() ==> (r matches Err(m) && m@
                == "Out of gas"@ && final(self).gas_used() == old(self).gas_used()),
            old(self).gas_used() + code@.len() * 10 <= old(self).gas_limit() ==> (r matches Ok(m) && m@
                == "执行成功"@ && final(self).gas_used() == old(self).gas_used() + code@.len() * 10),
    {
        let gas_cost = code.len() as u64 * 10;
        match self.gas_meter.consume(gas_cost) {
            Ok(()) => {},
            Err(e) => {
                return Err(e);
            },
        }
        Ok("执行成功".to_string())
    }
}

/// A contract that holds a balance.
pub struct SimpleContract {
    pub balance: u64,
}

impl SimpleContract {
    pub fn new() -> (r: Self)
        ensures
            r.balance == 0,
    {
        SimpleContract { balance: 0 }
    }

    pub fn deposit(&mut self, amount: u64)
        requires
            old(self).balance + amount <= u64::MAX,
        ensures
            final(self).balance == old(self).balance + amount,
    {
        self.balance = self.balance + amount;
    }

    /// Withdraws `amount`; refused when the balance is short.
    pub fn withdraw(&mut self, amount: u64) -> (r: Result<(), String>)
        ensures
            old(self).balance < amount ==> (r matches Err(m) && m@ == "余额不足"@ && final(self).balance
                == old(self).balance),
            old(self).balance >= amount ==> r is Ok && final(self).balance == old(self).balance
                - amount,
    {
        if self.balance < amount {
            return Err("余额不足".to_string());
        }
        self.balance = self.balance - amount;
        Ok(())
    }
}

} // verus!
