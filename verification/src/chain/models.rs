//! Two ledgers side by side: an unspent-output set (Bitcoin style) and an
//! account state (Ethereum style), behind a common `AccountModel` interface.
use vstd::prelude::*;
use crate::chain::types::{
    now_timestamp, joined, list_text, byte_items, lemma_joined_step,
    push_item, push_bytes, u64_le_bytes, le_bytes, is_zero_id,
};
use crate::crypto::{sha256_hex, sha256_hex_spec};
use crate::keymap::{KeyMap, distinct_keys, entries_map, lemma_entries_map_at, key_at};
use crate::text::{push_str, push_char, push_decimal, push_signed_decimal, decimal, signed_decimal, str_eq, debug_str, str_debug};
use vstd::string::StrSliceExecFns;

verus! {

pub type Amount = u64;

pub type Address = String;

pub type TxId = String;

#[derive(Debug, Clone)]
pub struct UtxoInput {
    pub tx_id: String,
    pub vout: u32,
    pub script_sig: ScriptSig,
}

#[derive(Debug, Clone)]
pub struct UtxoOutput {
    pub value: u64,
    pub script_pubkey: String,
}

#[derive(Debug, Clone)]
pub struct ScriptSig {
    pub signature: Vec<u8>,
    pub pubkey: Vec<u8>,
}

#[derive(Debug, Clone)]
pub struct UtxoTransaction {
    pub id: String,
    pub timestamp: i64,
    pub inputs: Vec<UtxoInput>,
    pub outputs: Vec<UtxoOutput>,
    pub version: u32,
}

/// `Debug` of a `UtxoInput`.
pub open spec fn utxo_input_text(i: UtxoInput) -> Seq<char> {
    "UtxoInput { tx_id: "@ + str_debug(i.tx_id@) + ", vout: "@ + decimal(i.vout as nat)
        + ", script_sig: ScriptSig { signature: "@ + list_text(byte_items(i.script_sig.signature@))
        + ", pubkey: "@ + list_text(byte_items(i.script_sig.pubkey@)) + " } }"@
}

/// `Debug` of a `UtxoOutput`.
pub open spec fn utxo_output_text(o: UtxoOutput) -> Seq<char> {
    "UtxoOutput { value: "@ + decimal(o.value as nat) + ", script_pubkey: "@ + str_debug(
        o.script_pubkey@,
    ) + " }"@
}

pub open spec fn utxo_input_items(v: Seq<UtxoInput>) -> Seq<Seq<char>> {
    v.map_values(|i: UtxoInput| utxo_input_text(i))
}

pub open spec fn utxo_output_items(v: Seq<UtxoOutput>) -> Seq<Seq<char>> {
    v.map_values(|o: UtxoOutput| utxo_output_text(o))
}

/// The hash of a UTXO transaction: hexadecimal SHA-256 of the timestamp,
/// inputs and outputs in `Debug` form and the version.
pub open spec fn utxo_tx_hash(t: UtxoTransaction) -> Seq<char> {
    sha256_hex_spec(
        signed_decimal(t.timestamp as int) + list_text(utxo_input_items(t.inputs@)) + list_text(
            utxo_output_items(t.outputs@),
        ) + decimal(t.version as nat),
    )
}

pub open spec fn utxo_sign_input_items(v: Seq<UtxoInput>) -> Seq<Seq<char>> {
    v.map_values(|i: UtxoInput| str_debug(i.tx_id@ + ":"@ + decimal(i.vout as nat)))
}

pub open spec fn utxo_sign_output_items(v: Seq<UtxoOutput>) -> Seq<Seq<char>> {
    v.map_values(|o: UtxoOutput| str_debug(decimal(o.value as nat) + ":"@ + o.script_pubkey@))
}

pub open spec fn utxo_sign_text(t: UtxoTransaction) -> Seq<char> {
    list_text(utxo_sign_input_items(t.inputs@)) + list_text(utxo_sign_output_items(t.outputs@))
        + decimal(t.version as nat)
}

pub open spec fn utxo_is_coinbase(t: UtxoTransaction) -> bool {
    t.inputs@.len() == 1 && is_zero_id(t.inputs@[0].tx_id@)
}

fn push_utxo_input(out: &mut String, i: &UtxoInput)
    ensures
        final(out)@ == old(out)@ + utxo_input_text(*i),
{
    let ghost base = out@;
    push_str(out, "UtxoInput { tx_id: ");
    let d = debug_str(i.tx_id.as_str());
    push_str(out, d.as_str());
    push_str(out, ", vout: ");
    push_decimal(out, i.vout as u64);
    push_str(out, ", script_sig: ScriptSig { signature: ");
    push_bytes(out, i.script_sig.signature.as_slice());
    push_str(out, ", pubkey: ");
    push_bytes(out, i.script_sig.pubkey.as_slice());
    push_str(out, " } }");
    assert(out@ =~= base + utxo_input_text(*i));
}

fn push_utxo_output(out: &mut String, o: &UtxoOutput)
    ensures
        final(out)@ == old(out)@ + utxo_output_text(*o),
{
    let ghost base = out@;
    push_str(out, "UtxoOutput { value: ");
    push_decimal(out, o.value);
    push_str(out, ", script_pubkey: ");
    let d = debug_str(o.script_pubkey.as_str());
    push_str(out, d.as_str());
    push_str(out, " }");
    assert(out@ =~= base + utxo_output_text(*o));
}

fn push_utxo_inputs(out: &mut String, v: &Vec<UtxoInput>)
    ensures
        final(out)@ == old(out)@ + list_text(utxo_input_items(v@)),
{
    let ghost base = out@;
    let ghost items = utxo_input_items(v@);
    push_str(out, "[");
    let mut i: usize = 0;
    while i < v.len()
        invariant
            i <= v@.len(),
            items == utxo_input_items(v@),
            items.len() == v@.len(),
            out@ == base + "["@ + joined(items.take(i as int)),
        decreases v@.len() - i,
    {
        let mut s = String::new();
        push_utxo_input(&mut s, &v[i]);
        assert(s@ =~= items[i as int]);
        push_item(out, i == 0, s.as_str());
        proof {
            lemma_joined_step(items, i as int);
            if i == 0 {
                assert(items.take(0) =~= Seq::<Seq<char>>::empty());
            }
            assert(out@ =~= base + "["@ + joined(items.take(i + 1)));
        }
        i = i + 1;
    }
    push_str(out, "]");
    assert(items.take(v@.len() as int) =~= items);
    assert(out@ =~= base + list_text(items));
}

fn push_utxo_outputs(out: &mut String, v: &Vec<UtxoOutput>)
    ensures
        final(out)@ == old(out)@ + list_text(utxo_output_items(v@)),
{
    let ghost base = out@;
    let ghost items = utxo_output_items(v@);
    push_str(out, "[");
    let mut i: usize = 0;
    while i < v.len()
        invariant
            i <= v@.len(),
            items == utxo_output_items(v@),
            items.len() == v@.len(),
            out@ == base + "["@ + joined(items.take(i as int)),
        decreases v@.len() - i,
    {
        let mut s = String::new();
        push_utxo_output(&mut s, &v[i]);
        assert(s@ =~= items[i as int]);
        push_item(out, i == 0, s.as_str());
        proof {
            lemma_joined_step(items, i as int);
            if i == 0 {
                assert(items.take(0) =~= Seq::<Seq<char>>::empty());
            }
            assert(out@ =~= base + "["@ + joined(items.take(i + 1)));
        }
        i = i + 1;
    }
    push_str(out, "]");
    assert(items.take(v@.len() as int) =~= items);
    assert(out@ =~= base + list_text(items));
}


impl UtxoTransaction {
    /// The coinbase transaction paying `reward` to `to`, stamped with the current time.
    pub fn new_coinbase(to: String, reward: u64, nonce: u64) -> (r: Self)
        ensures
            Self::is_coinbase_of(r, to@, reward, nonce),
    {
        Self::new_coinbase_at(to, reward, nonce, now_timestamp())
    }

    /// One input `"0":0` signed with the little-endian nonce, one output of
    /// `reward` to `to`, version 1, id equal to the hash.
    pub open spec fn is_coinbase_of(t: Self, to: Seq<char>, reward: u64, nonce: u64) -> bool {
        &&& t.inputs@.len() == 1
        &&& is_zero_id(t.inputs@[0].tx_id@)
        &&& t.inputs@[0].vout == 0
        &&& t.inputs@[0].script_sig.signature@ == le_bytes(nonce as nat, 8)
        &&& t.inputs@[0].script_sig.pubkey@.len() == 0
        &&& t.outputs@.len() == 1
        &&& t.outputs@[0].value == reward
        &&& t.outputs@[0].script_pubkey@ == to
        &&& t.version == 1
        &&& t.id@ == utxo_tx_hash(t)
    }

    /// The coinbase transaction stamped with `timestamp`.
    pub fn new_coinbase_at(to: String, reward: u64, nonce: u64, timestamp: i64) -> (r: Self)
        ensures
            Self::is_coinbase_of(r, to@, reward, nonce),
            r.timestamp == timestamp,
    {
        let mut zero = String::new();
        push_char(&mut zero, '0');
        let input = UtxoInput {
            tx_id: zero,
            vout: 0,
            script_sig: ScriptSig { signature: u64_le_bytes(nonce), pubkey: Vec::new() },
        };
        let output = UtxoOutput { value: reward, script_pubkey: to };
        let mut inputs = Vec::new();
        inputs.push(input);
        let mut outputs = Vec::new();
        outputs.push(output);
        let mut tx = UtxoTransaction { id: String::new(), timestamp, inputs, outputs, version: 1 };
        tx.id = tx.calculate_hash();
        tx
    }

    pub fn calculate_hash(&self) -> (r: String)
        ensures
            r@ == utxo_tx_hash(*self),
    {
        let mut data = String::new();
        push_signed_decimal(&mut data, self.timestamp);
        push_utxo_inputs(&mut data, &self.inputs);
        push_utxo_outputs(&mut data, &self.outputs);
        push_decimal(&mut data, self.version as u64);
        sha256_hex(data.as_str())
    }

    /// One input, whose referenced id is `"0"`.
    pub fn is_coinbase(&self) -> (r: bool)
        ensures
            r == utxo_is_coinbase(*self),
    {
        if self.inputs.len() != 1 {
            return false;
        }
        let id = &self.inputs[0].tx_id;
        let r = id.as_str().unicode_len() == 1 && id.as_str().get_char(0) == '0';
        assert(r == is_zero_id(id@)) by {
            if id@.len() == 1 && id@[0] == '0' {
                assert(id@ =~= seq!['0']);
            }
        }
        r
    }

    /// The bytes a signature covers: the UTF-8 of `utxo_sign_text`.
    pub fn serialize_for_sign(&self) -> (r: Vec<u8>)
        ensures
            r@ == vstd::utf8::encode_utf8(utxo_sign_text(*self)),
    {
        let mut data = String::new();
        let ghost items = utxo_sign_input_items(self.inputs@);
        push_str(&mut data, "[");
        let mut i: usize = 0;
        while i < self.inputs.len()
            invariant
                i <= self.inputs@.len(),
                items == utxo_sign_input_items(self.inputs@),
                items.len() == self.inputs@.len(),
                data@ == "["@ + joined(items.take(i as int)),
            decreases self.inputs@.len() - i,
        {
            let mut s = String::new();
            push_str(&mut s, self.inputs[i].tx_id.as_str());
            push_char(&mut s, ':');
            push_decimal(&mut s, self.inputs[i].vout as u64);
            let d = debug_str(s.as_str());
            assert(s@ =~= self.inputs@[i as int].tx_id@ + ":"@ + decimal(
                self.inputs@[i as int].vout as nat,
            )) by {
                reveal_strlit(":");
            }
            assert(d@ == items[i as int]);
            push_item(&mut data, i == 0, d.as_str());
            proof {
                lemma_joined_step(items, i as int);
                if i == 0 {
                    assert(items.take(0) =~= Seq::<Seq<char>>::empty());
                }
                assert(data@ =~= "["@ + joined(items.take(i + 1)));
            }
            i = i + 1;
        }
        push_str(&mut data, "]");
        assert(items.take(self.inputs@.len() as int) =~= items);
        let ghost first = data@;
        assert(first =~= list_text(items));
        let ghost oitems = utxo_sign_output_items(self.outputs@);
        push_str(&mut data, "[");
        let mut j: usize = 0;
        while j < self.outputs.len()
            invariant
                j <= self.outputs@.len(),
                oitems == utxo_sign_output_items(self.outputs@),
                oitems.len() == self.outputs@.len(),
                data@ == first + "["@ + joined(oitems.take(j as int)),
            decreases self.outputs@.len() - j,
        {
            let mut s = String::new();
            push_decimal(&mut s, self.outputs[j].value);
            push_char(&mut s, ':');
            push_str(&mut s, self.outputs[j].script_pubkey.as_str());
            let d = debug_str(s.as_str());
            assert(s@ =~= decimal(self.outputs@[j as int].value as nat) + ":"@
                + self.outputs@[j as int].script_pubkey@) by {
                reveal_strlit(":");
            }
            assert(d@ == oitems[j as int]);
            push_item(&mut data, j == 0, d.as_str());
            proof {
                lemma_joined_step(oitems, j as int);
                if j == 0 {
                    assert(oitems.take(0) =~= Seq::<Seq<char>>::empty());
                }
                assert(data@ =~= first + "["@ + joined(oitems.take(j + 1)));
            }
            j = j + 1;
        }
        push_str(&mut data, "]");
        assert(oitems.take(self.outputs@.len() as int) =~= oitems);
        push_decimal(&mut data, self.version as u64);
        assert(data@ =~= utxo_sign_text(*self));
        crate::bytes::to_vec(data.as_str().as_bytes())
    }

}

/// A copy of an output.
fn dup_output(o: &UtxoOutput) -> (r: UtxoOutput)
    ensures
        r == *o,
{
    UtxoOutput { value: o.value, script_pubkey: o.script_pubkey.clone() }
}

/// The unspent outputs of `address` among `es`, in order.
pub open spec fn unspent_for(
    es: Seq<((String, u32), UtxoOutput)>,
    spent: Map<(Seq<char>, u32), bool>,
    address: Seq<char>,
) -> Seq<((String, u32), UtxoOutput)>
    decreases es.len(),
{
    if es.len() == 0 {
        es
    } else {
        let e = es.last();
        let rest = unspent_for(es.drop_last(), spent, address);
        if e.1.script_pubkey@ == address && !spent.contains_key(e.0@) {
            rest.push(e)
        } else {
            rest
        }
    }
}

/// Sum of the values of a list of outputs.
pub open spec fn value_sum(es: Seq<((String, u32), UtxoOutput)>) -> int
    decreases es.len(),
{
    if es.len() == 0 {
        0
    } else {
        value_sum(es.drop_last()) + es.last().1.value
    }
}

proof fn lemma_value_sum_prefix(es: Seq<((String, u32), UtxoOutput)>, i: int)
    requires
        0 <= i <= es.len(),
    ensures
        0 <= value_sum(es.take(i)) <= value_sum(es),
    decreases es.len() - i,
{
    lemma_value_sum_nonneg(es.take(i));
    if i < es.len() {
        lemma_value_sum_prefix(es, i + 1);
        assert(es.take(i + 1).drop_last() =~= es.take(i));
    } else {
        assert(es.take(i) =~= es);
    }
}

proof fn lemma_value_sum_nonneg(es: Seq<((String, u32), UtxoOutput)>)
    ensures
        value_sum(es) >= 0,
    decreases es.len(),
{
    if es.len() > 0 {
        lemma_value_sum_nonneg(es.drop_last());
    }
}

/// The unspent-output set: outputs by `(tx id, index)` and the outputs
/// already spent.
pub struct UtxoSet {
    pub utxos: KeyMap<(String, u32), UtxoOutput>,
    pub spent: KeyMap<(String, u32), bool>,
}

impl Default for UtxoSet {
    fn default() -> (r: Self)
        ensures
            r.utxos@ == Map::<(Seq<char>, u32), UtxoOutput>::empty(),
            r.spent@ == Map::<(Seq<char>, u32), bool>::empty(),
    {
        UtxoSet::new()
    }
}

/// Outputs `n..` of transaction `id` added to `m`, one key per index.
pub open spec fn with_outputs(
    m: Map<(Seq<char>, u32), UtxoOutput>,
    id: Seq<char>,
    outs: Seq<UtxoOutput>,
    n: nat,
) -> Map<(Seq<char>, u32), UtxoOutput>
    decreases n,
{
    if n == 0 {
        m
    } else {
        with_outputs(m, id, outs, (n - 1) as nat).insert((id, (n - 1) as u32), outs[n - 1])
    }
}

/// The keys referred to by the first `n` inputs that name a known output.
pub open spec fn spent_after(
    spent: Map<(Seq<char>, u32), bool>,
    utxos: Map<(Seq<char>, u32), UtxoOutput>,
    inputs: Seq<UtxoInput>,
    n: nat,
) -> Map<(Seq<char>, u32), bool>
    decreases n,
{
    if n == 0 {
        spent
    } else {
        let prev = spent_after(spent, utxos, inputs, (n - 1) as nat);
        let k = (inputs[n - 1].tx_id@, inputs[n - 1].vout);
        if utxos.contains_key(k) && !prev.contains_key(k) {
            prev.insert(k, true)
        } else {
            prev
        }
    }
}

impl UtxoSet {
    pub fn new() -> (r: Self)
        ensures
            r.utxos@ == Map::<(Seq<char>, u32), UtxoOutput>::empty(),
            r.spent@ == Map::<(Seq<char>, u32), bool>::empty(),
    {
        UtxoSet { utxos: KeyMap::new(), spent: KeyMap::new() }
    }

    /// The unspent outputs locked to `address`.
    pub fn find_by_address(&self, address: &str) -> (r: Vec<((String, u32), UtxoOutput)>)
        ensures
            r@ == unspent_for(self.utxos.entries(), self.spent@, address@),
    {
        let n = self.utxos.len();
        let ghost es = self.utxos.entries();
        let mut r: Vec<((String, u32), UtxoOutput)> = Vec::new();
        let mut i: usize = 0;
        while i < n
            invariant
                n == es.len(),
                es == self.utxos.entries(),
                i <= n,
                r@ == unspent_for(es.take(i as int), self.spent@, address@),
            decreases n - i,
        {
            assert(es.take(i + 1).drop_last() =~= es.take(i as int));
            let (k, v) = self.utxos.entry_at(i);
            if str_eq(v.script_pubkey.as_str(), address) && !self.spent.contains_key(k) {
                r.push(((k.0.clone(), k.1), dup_output(v)));
            }
            i = i + 1;
        }
        assert(es.take(n as int) =~= es);
        r
    }

    /// Sum of the unspent outputs locked to `address`.
    pub fn get_balance(&self, address: &str) -> (r: u64)
        requires
            value_sum(unspent_for(self.utxos.entries(), self.spent@, address@)) <= u64::MAX,
        ensures
            r == value_sum(unspent_for(self.utxos.entries(), self.spent@, address@)),
    {
        let outs = self.find_by_address(address);
        let mut total: u64 = 0;
        let mut i: usize = 0;
        while i < outs.len()
            invariant
                i <= outs@.len(),
                total == value_sum(outs@.take(i as int)),
                value_sum(outs@) <= u64::MAX,
            decreases outs@.len() - i,
        {
            proof {
                assert(outs@.take(i + 1).drop_last() =~= outs@.take(i as int));
                lemma_value_sum_prefix(outs@, i + 1);
            }
            total = total + outs[i].1.value;
            i = i + 1;
        }
        assert(outs@.take(outs@.len() as int) =~= outs@);
        total
    }

    /// Marks a known, unspent output as spent.
    pub fn spend(&mut self, tx_id: &str, vout: u32) -> (r: Result<(), String>)
        ensures
            final(self).utxos == old(self).utxos,
            !old(self).utxos@.contains_key((tx_id@, vout)) ==> (r matches Err(m) && m@ == "UTXO not found"@)
                && final(self).spent == old(self).spent,
            old(self).utxos@.contains_key((tx_id@, vout)) && old(self).spent@.contains_key(
                (tx_id@, vout),
            ) ==> (r matches Err(m) && m@ == "UTXO already spent"@) && final(self).spent == old(
                self,
            ).spent,
            old(self).utxos@.contains_key((tx_id@, vout)) && !old(self).spent@.contains_key(
                (tx_id@, vout),
            ) ==> r is Ok && final(self).spent@ == old(self).spent@.insert((tx_id@, vout), true),
    {
        let key = (tx_id.to_owned(), vout);
        if !self.utxos.contains_key(&key) {
            return Err("UTXO not found".to_owned());
        }
        if self.spent.contains_key(&key) {
            return Err("UTXO already spent".to_owned());
        }
        self.spent.insert(key, true);
        Ok(())
    }

    /// Records output `vout` of transaction `tx_id`.
    pub fn add(&mut self, tx_id: &str, vout: u32, output: UtxoOutput)
        ensures
            final(self).utxos@ == old(self).utxos@.insert((tx_id@, vout), output),
            final(self).spent == old(self).spent,
    {
        self.utxos.insert((tx_id.to_owned(), vout), output);
    }

    /// Applies a transaction: its inputs (unless it is a coinbase) are marked
    /// spent where they name a known output, and its outputs are added.
    pub fn update_from_tx(&mut self, tx: &UtxoTransaction)
        ensures
            final(self).spent@ == if utxo_is_coinbase(*tx) {
                old(self).spent@
            } else {
                spent_after(old(self).spent@, old(self).utxos@, tx.inputs@, tx.inputs@.len())
            },
            final(self).utxos@ == with_outputs(old(self).utxos@, tx.id@, tx.outputs@, tx.outputs@.len()),
    {
        if !tx.is_coinbase() {
            let mut i: usize = 0;
            while i < tx.inputs.len()
                invariant
                    i <= tx.inputs@.len(),
                    self.utxos == old(self).utxos,
                    self.spent@ == spent_after(old(self).spent@, old(self).utxos@, tx.inputs@, i as nat),
                decreases tx.inputs@.len() - i,
            {
                let _ = self.spend(tx.inputs[i].tx_id.as_str(), tx.inputs[i].vout);
                i = i + 1;
            }
        }
        let ghost u0 = self.utxos@;
        let mut j: usize = 0;
        while j < tx.outputs.len()
            invariant
                j <= tx.outputs@.len(),
                u0 == old(self).utxos@,
                self.utxos@ == with_outputs(u0, tx.id@, tx.outputs@, j as nat),
                self.spent == old(self).spent || !utxo_is_coinbase(*tx),
                self.spent@ == if utxo_is_coinbase(*tx) {
                    old(self).spent@
                } else {
                    spent_after(old(self).spent@, old(self).utxos@, tx.inputs@, tx.inputs@.len())
                },
            decreases tx.outputs@.len() - j,
        {
            let o = dup_output(&tx.outputs[j]);
            self.add(tx.id.as_str(), j as u32, o);
            j = j + 1;
        }
    }
}

/// An account of the account model.
pub struct Account {
    pub address: String,
    pub balance: u64,
    pub nonce: u64,
    pub code: Option<Vec<u8>>,
    pub storage: KeyMap<String, Vec<u8>>,
}

/// `a` is a new account for `address` holding `balance` with nonce `nonce`.
pub open spec fn fresh_account(a: Account, address: Seq<char>, balance: int, nonce: int) -> bool {
    &&& a.address@ == address
    &&& a.balance == balance
    &&& a.nonce == nonce
    &&& a.code is None
    &&& a.storage@ == Map::<Seq<char>, Vec<u8>>::empty()
}

/// Balance of `a` in `m`, zero for an unknown account.
pub open spec fn balance_in(m: Map<Seq<char>, Account>, a: Seq<char>) -> int {
    if m.contains_key(a) {
        m[a].balance as int
    } else {
        0
    }
}

/// Nonce of `a` in `m`, zero for an unknown account.
pub open spec fn nonce_in(m: Map<Seq<char>, Account>, a: Seq<char>) -> int {
    if m.contains_key(a) {
        m[a].nonce as int
    } else {
        0
    }
}

/// Account `a` of `m1` is that of `m0` (or a new one) with its balance
/// moved by `dbal` and its nonce by `dnonce`.
pub open spec fn account_moved(
    m0: Map<Seq<char>, Account>,
    m1: Map<Seq<char>, Account>,
    a: Seq<char>,
    dbal: int,
    dnonce: int,
) -> bool {
    &&& m1.contains_key(a)
    &&& m1[a].balance == balance_in(m0, a) + dbal
    &&& m1[a].nonce == nonce_in(m0, a) + dnonce
    &&& m0.contains_key(a) ==> m1[a].address == m0[a].address && m1[a].code == m0[a].code
        && m1[a].storage == m0[a].storage
    &&& !m0.contains_key(a) ==> fresh_account(m1[a], a, m1[a].balance as int, m1[a].nonce as int)
}

impl Default for Account {
    fn default() -> (r: Self)
        ensures
            fresh_account(r, Seq::empty(), 0, 0),
    {
        Account { address: String::new(), balance: 0, nonce: 0, code: None, storage: KeyMap::new() }
    }
}

impl Account {
    /// A new account with nothing in it.
    pub fn new(address: String) -> (r: Self)
        ensures
            fresh_account(r, address@, 0, 0),
    {
        Account { address, balance: 0, nonce: 0, code: None, storage: KeyMap::new() }
    }

    /// An account with code is a contract account.
    pub fn is_contract(&self) -> (r: bool)
        ensures
            r == self.code is Some,
    {
        self.code.is_some()
    }
}

/// A transaction of the account model.
#[derive(Debug, Clone)]
pub struct AccountTransaction {
    pub id: String,
    pub from: String,
    pub to: String,
    pub value: u64,
    pub nonce: u64,
    pub gas_price: u64,
    pub gas_limit: u64,
    pub data: Vec<u8>,
    pub timestamp: i64,
    pub signature: Vec<u8>,
}

/// All accounts by address.
pub struct WorldState {
    pub accounts: KeyMap<String, Account>,
}

impl Default for WorldState {
    fn default() -> (r: Self)
        ensures
            r.accounts@ == Map::<Seq<char>, Account>::empty(),
    {
        WorldState::new()
    }
}

impl WorldState {
    pub fn new() -> (r: Self)
        ensures
            r.accounts@ == Map::<Seq<char>, Account>::empty(),
    {
        WorldState { accounts: KeyMap::new() }
    }

    /// The account of `address`, created empty if it does not exist yet.
    pub fn get_or_create(&mut self, address: &str) -> (r: &mut Account)
        ensures
            old(self).accounts@.contains_key(address@) ==> *r == old(self).accounts@[address@],
            !old(self).accounts@.contains_key(address@) ==> fresh_account(*r, address@, 0, 0),
            final(self).accounts@ == old(self).accounts@.insert(address@, *final(r)),
    {
        let key = address.to_owned();
        if !self.accounts.contains_key(&key) {
            self.accounts.insert(key.clone(), Account::new(address.to_owned()));
        }
        self.accounts.value_mut(&key)
    }

    /// Balance of `address`, zero for an unknown address.
    pub fn get_balance(&self, address: &str) -> (r: u64)
        ensures
            r == balance_in(self.accounts@, address@),
    {
        let key = address.to_owned();
        match self.accounts.get(&key) {
            Some(a) => a.balance,
            None => 0,
        }
    }

    /// Moves `amount` from `from` to `to`, counting one transaction for the
    /// sender; both accounts are created if needed.
    pub fn transfer(&mut self, from: &str, to: &str, amount: u64) -> (r: Result<(), String>)
        requires
            balance_in(old(self).accounts@, from@) >= amount ==> nonce_in(old(self).accounts@, from@)
                < u64::MAX && (from@ != to@ ==> balance_in(old(self).accounts@, to@) + amount
                <= u64::MAX),
        ensures
            balance_in(old(self).accounts@, from@) < amount ==> (r matches Err(m) && m@
                == "Insufficient balance"@) && final(self).accounts == old(self).accounts,
            balance_in(old(self).accounts@, from@) >= amount ==> {
                &&& r is Ok
                &&& final(self).accounts@.dom() == old(self).accounts@.dom().insert(from@).insert(to@)
                &&& forall|k: Seq<char>|
                    k != from@ && k != to@ && #[trigger] old(self).accounts@.contains_key(k)
                        ==> final(self).accounts@[k] == old(self).accounts@[k]
                &&& from@ != to@ ==> account_moved(
                    old(self).accounts@,
                    final(self).accounts@,
                    from@,
                    -amount,
                    1,
                ) && account_moved(old(self).accounts@, final(self).accounts@, to@, amount as int, 0)
                &&& from@ == to@ ==> account_moved(
                    old(self).accounts@,
                    final(self).accounts@,
                    from@,
                    0,
                    1,
                )
            },
    {
        let from_balance = self.get_balance(from);
        if from_balance < amount {
            return Err("Insufficient balance".to_owned());
        }
        let ghost m0 = self.accounts@;
        let from_acc = self.get_or_create(from);
        from_acc.balance = from_acc.balance - amount;
        from_acc.nonce = from_acc.nonce + 1;
        let ghost m1 = self.accounts@;
        let to_acc = self.get_or_create(to);
        to_acc.balance = to_acc.balance + amount;
        proof {
            assert(self.accounts@.dom() =~= m0.dom().insert(from@).insert(to@));
        }
        Ok(())
    }

    /// Runs an account-model transaction: the sender's nonce must match,
    /// then the value is transferred. The sender's account is created first
    /// in any case.
    pub fn execute_tx(&mut self, tx: &AccountTransaction) -> (r: Result<(), String>)
        requires
            balance_in(old(self).accounts@, tx.from@) >= tx.value && nonce_in(
                old(self).accounts@,
                tx.from@,
            ) == tx.nonce ==> tx.nonce < u64::MAX && (tx.from@ != tx.to@ ==> balance_in(
                old(self).accounts@,
                tx.to@,
            ) + tx.value <= u64::MAX),
        ensures
            nonce_in(old(self).accounts@, tx.from@) != tx.nonce ==> (r matches Err(m) && m@
                == "Invalid nonce: expected "@ + decimal(nonce_in(old(self).accounts@, tx.from@) as nat)
                + ", got "@ + decimal(tx.nonce as nat)) && final(self).accounts@.dom() == old(
                self,
            ).accounts@.dom().insert(tx.from@) && account_moved(
                old(self).accounts@,
                final(self).accounts@,
                tx.from@,
                0,
                0,
            ),
            nonce_in(old(self).accounts@, tx.from@) == tx.nonce && balance_in(
                old(self).accounts@,
                tx.from@,
            ) < tx.value ==> (r matches Err(m) && m@ == "Insufficient balance"@),
            nonce_in(old(self).accounts@, tx.from@) == tx.nonce && balance_in(
                old(self).accounts@,
                tx.from@,
            ) >= tx.value ==> {
                &&& r is Ok
                &&& final(self).accounts@.dom() == old(self).accounts@.dom().insert(tx.from@).insert(
                    tx.to@,
                )
                &&& tx.from@ != tx.to@ ==> account_moved(
                    old(self).accounts@,
                    final(self).accounts@,
                    tx.from@,
                    -tx.value,
                    1,
                ) && account_moved(
                    old(self).accounts@,
                    final(self).accounts@,
                    tx.to@,
                    tx.value as int,
                    0,
                )
                &&& tx.from@ == tx.to@ ==> account_moved(
                    old(self).accounts@,
                    final(self).accounts@,
                    tx.from@,
                    0,
                    1,
                )
            },
            forall|k: Seq<char>|
                k != tx.from@ && k != tx.to@ && #[trigger] old(self).accounts@.contains_key(k)
                    ==> final(self).accounts@[k] == old(self).accounts@[k],
    {
        let ghost m0 = self.accounts@;
        let from_acc = self.get_or_create(tx.from.as_str());
        let current = from_acc.nonce;
        if current != tx.nonce {
            let mut m = String::new();
            push_str(&mut m, "Invalid nonce: expected ");
            push_decimal(&mut m, current);
            push_str(&mut m, ", got ");
            push_decimal(&mut m, tx.nonce);
            proof {
                assert(self.accounts@.dom() =~= m0.dom().insert(tx.from@));
            }
            return Err(m);
        }
        let ghost m1 = self.accounts@;
        proof {
            assert(balance_in(m1, tx.from@) == balance_in(m0, tx.from@));
            assert(nonce_in(m1, tx.from@) == nonce_in(m0, tx.from@));
            if tx.to@ != tx.from@ {
                assert(balance_in(m1, tx.to@) == balance_in(m0, tx.to@));
                assert(nonce_in(m1, tx.to@) == nonce_in(m0, tx.to@));
            }
        }
        let r = self.transfer(tx.from.as_str(), tx.to.as_str(), tx.value);
        proof {
            if r is Ok {
                assert(self.accounts@.dom() =~= m0.dom().insert(tx.from@).insert(tx.to@));
            }
            assert forall|k: Seq<char>|
                k != tx.from@ && k != tx.to@ && #[trigger] m0.contains_key(k) implies self.accounts@[k]
                == m0[k] by {
                assert(m1.contains_key(k));
            }
        }
        match r {
            Ok(()) => Ok(()),
            Err(e) => Err(e),
        }
    }
}

/// A transaction of either ledger.
pub enum Transaction {
    Utxo(UtxoTransaction),
    Account(AccountTransaction),
}

/// Balance queries and transfers common to both ledgers.
pub trait AccountModel {
    fn get_balance(&self, address: &str) -> u64;

    fn transfer(&mut self, from: &str, to: &str, amount: u64) -> Result<(), String>;
}

impl AccountModel for UtxoSet {
    /// The sum of the unspent outputs of `address`, saturating at `u64::MAX`.
    fn get_balance(&self, address: &str) -> (r: u64)
        ensures
            value_sum(unspent_for(self.utxos.entries(), self.spent@, address@)) <= u64::MAX ==> r
                == value_sum(unspent_for(self.utxos.entries(), self.spent@, address@)),
    {
        let outs = self.find_by_address(address);
        let mut total: u64 = 0;
        let mut i: usize = 0;
        while i < outs.len()
            invariant
                i <= outs@.len(),
                value_sum(outs@.take(i as int)) <= u64::MAX ==> total == value_sum(
                    outs@.take(i as int),
                ),
                value_sum(outs@.take(i as int)) > u64::MAX ==> total == u64::MAX,
            decreases outs@.len() - i,
        {
            proof {
                assert(outs@.take(i + 1).drop_last() =~= outs@.take(i as int));
                lemma_value_sum_nonneg(outs@.take(i as int));
            }
            total = total.saturating_add(outs[i].1.value);
            i = i + 1;
        }
        assert(outs@.take(outs@.len() as int) =~= outs@);
        total
    }

    /// The unspent-output ledger moves value only through transactions.
    fn transfer(&mut self, from: &str, to: &str, amount: u64) -> (r: Result<(), String>)
        ensures
            r matches Err(m) && m@ == "Use create_transaction for UTXO model"@,
            final(self).utxos == old(self).utxos,
            final(self).spent == old(self).spent,
    {
        Err("Use create_transaction for UTXO model".to_owned())
    }
}

impl AccountModel for WorldState {
    fn get_balance(&self, address: &str) -> (r: u64)
        ensures
            r == balance_in(self.accounts@, address@),
    {
        WorldState::get_balance(self, address)
    }

    /// As `WorldState::transfer`; a transfer that would overflow the
    /// sender's nonce or the receiver's balance is refused as well.
    fn transfer(&mut self, from: &str, to: &str, amount: u64) -> (r: Result<(), String>)
        ensures
            balance_in(old(self).accounts@, from@) < amount ==> (r matches Err(m) && m@
                == "Insufficient balance"@) && final(self).accounts == old(self).accounts,
            r is Ok ==> final(self).accounts@.dom() == old(self).accounts@.dom().insert(from@).insert(
                to@,
            ) && (from@ != to@ ==> account_moved(
                old(self).accounts@,
                final(self).accounts@,
                from@,
                -amount,
                1,
            ) && account_moved(old(self).accounts@, final(self).accounts@, to@, amount as int, 0)) && (
            from@ == to@ ==> account_moved(old(self).accounts@, final(self).accounts@, from@, 0, 1)),
    {
        if WorldState::get_balance(self, from) >= amount {
            let key = from.to_owned();
            let nonce_ok = match self.accounts.get(&key) {
                Some(a) => a.nonce < u64::MAX,
                None => true,
            };
            let to_ok = str_eq(from, to) || WorldState::get_balance(self, to) <= u64::MAX - amount;
            if !nonce_ok || !to_ok {
                return Err("Insufficient balance".to_owned());
            }
        }
        WorldState::transfer(self, from, to, amount)
    }
}

} // verus!
