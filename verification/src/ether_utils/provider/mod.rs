//! A client of one chain that sends each call on its own, and prepares
//! transactions from fees and a nonce fetched just before.
pub mod base;

use vstd::prelude::*;
use crate::ether_utils::provider::base::{BaseProvider, HttpRequest, is_plain_json_post};
use crate::gas::{CurrentGasConfig, GasManager, predicted_max_fee, prediction_fits};
use crate::provider::base::request_json;
use crate::provider::{LogFilter, append_filter_json, append_hex_string_json, filter_json, hex_string_json};
use crate::signer::{Signer, sec1_public_key_address};
use crate::text::{ascii_bytes, append_ascii, append_json_string, json_array, json_string};
use crate::transaction::Transaction;
use crate::u256::U256;

verus! {

/// The params of a call about an account at the latest block.
pub open spec fn account_params(account: Seq<char>) -> Seq<u8> {
    json_array(seq![json_string(account), json_string("latest"@)])
}

/// A client of one chain with its signer.
pub struct Provider {
    pub base: BaseProvider,
    pub signer: Signer,
    pub chain: u64,
}

impl Provider {
    /// A client of the URL for a chain, signing with `dfx_test_key`.
    pub fn new(url: String, chain: u64) -> (r: Provider)
        ensures
            r.base.url == url,
            r.chain == chain,
            r.signer.key_name@ == "dfx_test_key"@,
            r.signer.public_key is None,
            r.signer.derivation_path@.len() == 0,
    {
        Provider { base: BaseProvider::new(url), signer: Signer::new(String::from_str("dfx_test_key")), chain }
    }

    /// Records the signer's public key, fetched from the management canister.
    pub fn init(&mut self, public_key: Vec<u8>)
        ensures
            final(self).signer.public_key == Some(public_key),
            final(self).signer.key_name == old(self).signer.key_name,
            final(self).base == old(self).base,
            final(self).chain == old(self).chain,
    {
        self.signer.init(public_key);
    }

    /// The signer's address.
    pub fn address(&self) -> (r: [u8; 20])
        requires
            self.signer.has_address(),
        ensures
            Some(r@) == sec1_public_key_address(self.signer.public_key.unwrap()@),
    {
        self.signer.address()
    }

    fn account_call(&self, method: &str, account: &str) -> (r: HttpRequest)
        ensures
            r.url@ == self.base.url@,
            is_plain_json_post(r),
            r.body@ == request_json(1, method@, Some(account_params(account@))),
    {
        let mut params: Vec<u8> = Vec::new();
        proof {
            reveal_strlit("[");
            reveal_strlit(",");
            reveal_strlit("]");
            reveal_strlit("latest");
        }
        append_ascii(&mut params, "[");
        append_json_string(&mut params, account);
        append_ascii(&mut params, ",");
        append_json_string(&mut params, "latest");
        append_ascii(&mut params, "]");
        proof {
            let items = seq![json_string(account@), json_string("latest"@)];
            assert(crate::text::comma_join(items.drop_last()) =~= json_string(account@));
            assert(crate::text::comma_join(items) =~= json_string(account@) + seq![44u8] + json_string("latest"@));
            assert(params@ =~= account_params(account@));
        }
        self.base.request(method, params.as_slice())
    }

    /// The call of `eth_getBalance` of an account at the latest block.
    pub fn get_balance(&self, account: &str) -> (r: HttpRequest)
        ensures
            r.url@ == self.base.url@,
            is_plain_json_post(r),
            r.body@ == request_json(1, "eth_getBalance"@, Some(account_params(account@))),
    {
        self.account_call("eth_getBalance", account)
    }

    /// The call of `eth_getTransactionCount` of an account at the latest
    /// block.
    pub fn get_nonce(&self, account: &str) -> (r: HttpRequest)
        ensures
            r.url@ == self.base.url@,
            is_plain_json_post(r),
            r.body@ == request_json(1, "eth_getTransactionCount"@, Some(account_params(account@))),
    {
        self.account_call("eth_getTransactionCount", account)
    }

    /// The call of `eth_maxPriorityFeePerGas`, with empty params.
    pub fn get_current_priority_fees(&self) -> (r: HttpRequest)
        ensures
            r.url@ == self.base.url@,
            is_plain_json_post(r),
            r.body@ == request_json(1, "eth_maxPriorityFeePerGas"@, Some(ascii_bytes("[]"@))),
    {
        proof {
            reveal_strlit("[]");
        }
        let mut params: Vec<u8> = Vec::new();
        append_ascii(&mut params, "[]");
        self.base.request("eth_maxPriorityFeePerGas", params.as_slice())
    }

    /// The call of `eth_gasPrice` (the base fee), with empty params.
    pub fn get_current_base_fees(&self) -> (r: HttpRequest)
        ensures
            r.url@ == self.base.url@,
            is_plain_json_post(r),
            r.body@ == request_json(1, "eth_gasPrice"@, Some(ascii_bytes("[]"@))),
    {
        proof {
            reveal_strlit("[]");
        }
        let mut params: Vec<u8> = Vec::new();
        append_ascii(&mut params, "[]");
        self.base.request("eth_gasPrice", params.as_slice())
    }

    /// The transaction to sign and send, from the fees and the nonce fetched
    /// just before: the priority fee as is, as fee cap the base fee plus 10%
    /// plus the priority fee, a gas limit of 300000, this client's chain,
    /// the signer as sender and the nonce. Recipient, value and data stay
    /// as given.
    pub fn send_transaction(&self, txn: Transaction, base_fee: U256, priority_fee: U256, nonce: U256) -> (r:
        Transaction)
        requires
            prediction_fits(base_fee@, priority_fee@),
            self.signer.has_address(),
        ensures
            r.max_fee_per_gas matches Some(f) && f@ == predicted_max_fee(base_fee@, priority_fee@),
            r.max_priority_fee_per_gas == Some(priority_fee),
            r.gas matches Some(g) && g@ == 300000,
            r.chain_id == Some(self.chain),
            r.from matches Some(a) && Some(a@) == sec1_public_key_address(self.signer.public_key.unwrap()@),
            r.nonce == Some(nonce),
            r.to == txn.to,
            r.value == txn.value,
            r.data == txn.data,
    {
        let mut gas = GasManager::new();
        gas.current_fees(CurrentGasConfig { base_fees: base_fee, priority_fees: priority_fee });
        let fees = gas.predicted_fees();
        let mut txn = txn;
        txn.max_fee_per_gas = Some(fees.max_fees);
        txn.max_priority_fee_per_gas = Some(priority_fee);
        txn.gas = Some(U256::from_u64(300000));
        txn.chain_id = Some(self.chain);
        txn.from = Some(self.signer.address());
        txn.nonce = Some(nonce);
        txn
    }

    /// The call of `eth_sendRawTransaction` with a signed transaction,
    /// written `0x`-prefixed in hex.
    pub fn send_raw_transaction(&self, raw_signed: &[u8]) -> (r: HttpRequest)
        ensures
            r.url@ == self.base.url@,
            is_plain_json_post(r),
            r.body@ == request_json(
                1,
                "eth_sendRawTransaction"@,
                Some(ascii_bytes("["@) + hex_string_json(raw_signed@) + ascii_bytes("]"@)),
            ),
    {
        proof {
            reveal_strlit("[");
            reveal_strlit("]");
        }
        let mut params: Vec<u8> = Vec::new();
        append_ascii(&mut params, "[");
        append_hex_string_json(&mut params, raw_signed);
        append_ascii(&mut params, "]");
        self.base.request("eth_sendRawTransaction", params.as_slice())
    }

    /// The call of `eth_getLogs` with a filter.
    pub fn get_logs(&self, filter: &LogFilter) -> (r: HttpRequest)
        ensures
            r.url@ == self.base.url@,
            is_plain_json_post(r),
            r.body@ == request_json(1, "eth_getLogs"@, Some(ascii_bytes("["@) + filter_json(*filter) + ascii_bytes("]"@))),
    {
        proof {
            reveal_strlit("[");
            reveal_strlit("]");
        }
        let mut params: Vec<u8> = Vec::new();
        append_ascii(&mut params, "[");
        append_filter_json(&mut params, filter);
        append_ascii(&mut params, "]");
        self.base.request("eth_getLogs", params.as_slice())
    }
}

} // verus!
