//! Reading a transaction out of the JSON a StarkNet node returns for it.

use vstd::prelude::*;

use crate::errors::{AppError, AppErrorView};
use crate::json::{elements_of, field, field_elements, field_text, text_of, JsonValue};
use crate::models::{Transaction, TransactionView};
use crate::text::{
    hex_digit_value, hex_digits_value, hex_quantity, hex_u64, parse_hex_quantity, strip_hex_prefixes, IntParseError,
};

verus! {

/// The fee assumed when a transaction names no `max_fee`: 21000 wei
/// (2.1e-14 ETH).
pub const DEFAULT_GAS_WEI: u64 = 21000;

/// The sender of a transaction of the given type: INVOKE and DECLARE name it
/// in `sender_address`, DEPLOY in `contract_address`; other types are refused.
pub open spec fn sender_of(tx: JsonValue, tx_type: Option<Seq<char>>) -> Result<Seq<char>, AppErrorView> {
    match tx_type {
        Some(t) => if t == "INVOKE"@ || t == "DECLARE"@ {
            match text_of(field(tx, "sender_address"@)) {
                Some(s) => Ok(s),
                None => Err(AppErrorView::RpcError("Missing sender address"@)),
            }
        } else if t == "DEPLOY"@ {
            match text_of(field(tx, "contract_address"@)) {
                Some(s) => Ok(s),
                None => Err(AppErrorView::RpcError("Missing contract address"@)),
            }
        } else {
            Err(AppErrorView::RpcError("Unsupported transaction type: "@ + t))
        },
        None => Err(AppErrorView::RpcError("Missing transaction type"@)),
    }
}

/// The call data of an INVOKE transaction, if it has an array of it.
pub open spec fn invoke_calldata(tx: JsonValue, tx_type: Option<Seq<char>>) -> Option<Seq<JsonValue>> {
    if tx_type == Some("INVOKE"@) {
        elements_of(field(tx, "calldata"@))
    } else {
        None
    }
}

/// The recipient: the second call-data word of an INVOKE transaction when it
/// is a string, "0x0" otherwise.
pub open spec fn recipient_of(tx: JsonValue, tx_type: Option<Seq<char>>) -> Seq<char> {
    match invoke_calldata(tx, tx_type) {
        Some(items) => if items.len() > 1 {
            match text_of(Some(items[1])) {
                Some(s) => s,
                None => "0x0"@,
            }
        } else {
            "0x0"@
        },
        None => "0x0"@,
    }
}

/// A hexadecimal quantity, or 0 when it does not read as one.
pub open spec fn quantity_or_zero(s: Seq<char>) -> u64 {
    match hex_quantity(s) {
        Ok(v) => v,
        Err(_) => 0,
    }
}

/// The value, in wei: the third call-data word of an INVOKE transaction read
/// as a hexadecimal quantity (a word that is no string counts as "0x0"), 0
/// in every other case.
pub open spec fn value_of(tx: JsonValue, tx_type: Option<Seq<char>>) -> u64 {
    match invoke_calldata(tx, tx_type) {
        Some(items) => if items.len() > 2 {
            match text_of(Some(items[2])) {
                Some(s) => quantity_or_zero(s),
                None => quantity_or_zero("0x0"@),
            }
        } else {
            0
        },
        None => 0,
    }
}

/// The fee, in wei: `max_fee` read as a hexadecimal quantity (0 when it does
/// not read as one), or 21000 when the transaction has no `max_fee` string.
pub open spec fn gas_of(tx: JsonValue) -> u64 {
    match text_of(field(tx, "max_fee"@)) {
        Some(fee) => quantity_or_zero(fee),
        None => DEFAULT_GAS_WEI,
    }
}

/// The transaction a node's JSON describes, or why it describes none.
pub open spec fn transaction_from_json(tx: JsonValue) -> Result<TransactionView, AppErrorView> {
    match text_of(field(tx, "transaction_hash"@)) {
        None => Err(AppErrorView::RpcError("Missing transaction hash"@)),
        Some(hash) => {
            let tx_type = text_of(field(tx, "type"@));
            match sender_of(tx, tx_type) {
                Err(e) => Err(e),
                Ok(from) => Ok(
                    TransactionView {
                        hash: hash,
                        from_address: from,
                        to_address: recipient_of(tx, tx_type),
                        value_wei: value_of(tx, tx_type),
                        gas_used_wei: gas_of(tx),
                    },
                ),
            }
        },
    }
}

/// A transaction result as a value.
pub open spec fn transaction_result_view(r: Result<Transaction, AppError>) -> Result<TransactionView, AppErrorView> {
    match r {
        Ok(t) => Ok(t@),
        Err(e) => Err(e@),
    }
}

/// Whether a text is the given literal.
pub fn text_is(s: &String, literal: &str) -> (b: bool)
    ensures
        b == (s@ == literal@),
{
    *s == literal.to_owned()
}

fn quantity_or_zero_exec(s: &str) -> (v: u64)
    ensures
        v == quantity_or_zero(s@),
{
    match parse_hex_quantity(s) {
        Ok(v) => v,
        Err(_) => 0,
    }
}

fn rpc_error(message: &str) -> (e: AppError)
    ensures
        e@ == AppErrorView::RpcError(message@),
{
    AppError::RpcError(String::from_str(message))
}

/// Reads the transaction out of a node's JSON for it: its hash, its sender
/// (by transaction type), its recipient, its value and its fee.
pub fn parse_transaction_from_response(tx_data: &JsonValue) -> (r: Result<Transaction, AppError>)
    ensures
        transaction_result_view(r) == transaction_from_json(*tx_data),
{
    let hash = match field_text(tx_data, "transaction_hash") {
        Some(h) => h.clone(),
        None => return Err(rpc_error("Missing transaction hash")),
    };
    let tx_type = field_text(tx_data, "type");
    let ghost ty = text_of(field(*tx_data, "type"@));
    assert(match tx_type { Some(t) => ty == Some(t@), None => ty is None });
    let is_invoke = match tx_type {
        Some(t) => text_is(t, "INVOKE"),
        None => false,
    };
    assert(is_invoke == (ty == Some("INVOKE"@)));
    let from_address = match tx_type {
        Some(t) => {
            if is_invoke || text_is(t, "DECLARE") {
                match field_text(tx_data, "sender_address") {
                    Some(s) => s.clone(),
                    None => return Err(rpc_error("Missing sender address")),
                }
            } else if text_is(t, "DEPLOY") {
                match field_text(tx_data, "contract_address") {
                    Some(s) => s.clone(),
                    None => return Err(rpc_error("Missing contract address")),
                }
            } else {
                let mut message = String::from_str("Unsupported transaction type: ");
                message.append(t.as_str());
                return Err(AppError::RpcError(message));
            }
        },
        None => return Err(rpc_error("Missing transaction type")),
    };
    assert(sender_of(*tx_data, ty) == Ok::<Seq<char>, AppErrorView>(from_address@));
    let calldata = if is_invoke {
        field_elements(tx_data, "calldata")
    } else {
        None
    };
    assert(match calldata {
        Some(items) => invoke_calldata(*tx_data, ty) == Some(items@),
        None => invoke_calldata(*tx_data, ty) is None,
    });
    let to_address = match calldata {
        Some(items) => {
            if items.len() > 1 {
                match items[1].as_str() {
                    Some(s) => s.clone(),
                    None => String::from_str("0x0"),
                }
            } else {
                String::from_str("0x0")
            }
        },
        None => String::from_str("0x0"),
    };
    let value_wei = match calldata {
        Some(items) => {
            if items.len() > 2 {
                match items[2].as_str() {
                    Some(s) => quantity_or_zero_exec(s.as_str()),
                    None => quantity_or_zero_exec("0x0"),
                }
            } else {
                0
            }
        },
        None => 0,
    };
    let gas_used_wei = match field_text(tx_data, "max_fee") {
        Some(fee) => quantity_or_zero_exec(fee.as_str()),
        None => DEFAULT_GAS_WEI,
    };
    Ok(Transaction { hash, from_address, to_address, value_wei, gas_used_wei })
}

/// An INVOKE transaction with a hash, a sender and an array of call data
/// reads as a transaction with that hash and sender; its recipient is the
/// second call-data word whenever there are at least two words and that
/// word is a string ("0x0" otherwise); its value is the third word read as
/// a hexadecimal quantity when there are at least three words (0 when there
/// are fewer, or the word does not read); its fee is `max_fee` read as a
/// hexadecimal quantity, or 21000 wei when there is no `max_fee` string.
pub proof fn lemma_invoke_transaction(tx: JsonValue, hash: Seq<char>, sender: Seq<char>, items: Seq<JsonValue>)
    requires
        text_of(field(tx, "transaction_hash"@)) == Some(hash),
        text_of(field(tx, "type"@)) == Some("INVOKE"@),
        text_of(field(tx, "sender_address"@)) == Some(sender),
        elements_of(field(tx, "calldata"@)) == Some(items),
    ensures
        transaction_from_json(tx) is Ok,
        transaction_from_json(tx) matches Ok(t) && {
            &&& t.hash == hash
            &&& t.from_address == sender
            &&& items.len() >= 2 ==> (text_of(Some(items[1])) matches Some(s) ==> t.to_address == s)
            &&& (items.len() < 2 || text_of(Some(items[1])) is None) ==> t.to_address == "0x0"@
            &&& items.len() < 3 ==> t.value_wei == 0
            &&& items.len() >= 3 ==> (text_of(Some(items[2])) matches Some(w) ==> (hex_quantity(w) matches Ok(v) ==> t.value_wei == v))
            &&& items.len() >= 3 ==> (text_of(Some(items[2])) matches Some(w) ==> (hex_quantity(w) is Err ==> t.value_wei == 0))
            &&& items.len() >= 3 ==> (text_of(Some(items[2])) is None ==> t.value_wei == 0)
            &&& text_of(field(tx, "max_fee"@)) matches Some(f) ==> (hex_quantity(f) matches Ok(g) ==> t.gas_used_wei == g)
            &&& text_of(field(tx, "max_fee"@)) matches Some(f) ==> (hex_quantity(f) is Err ==> t.gas_used_wei == 0)
            &&& text_of(field(tx, "max_fee"@)) is None ==> t.gas_used_wei == 21000
        },
{
    lemma_zero_quantity();
}

proof fn lemma_zero_quantity()
    ensures
        quantity_or_zero("0x0"@) == 0,
{
    reveal_strlit("0x0");
    let z = "0x0"@;
    let d = seq!['0'];
    assert(z.len() == 3 && z[0] == '0' && z[1] == 'x' && z[2] == '0');
    assert(z.subrange(2, 3) =~= d);
    assert(strip_hex_prefixes(d) == d);
    assert(strip_hex_prefixes(z) == d);
    assert(d.drop_last() =~= Seq::<char>::empty());
    assert(hex_digits_value(Seq::<char>::empty()) == Ok::<nat, IntParseError>(0));
    assert(d.last() == '0');
    assert(hex_digit_value('0') == Some(0nat));
    assert(hex_digits_value(d) == Ok::<nat, IntParseError>(0));
    assert(hex_u64(d) == Ok::<u64, IntParseError>(0));
    assert(hex_quantity(z) == Ok::<u64, IntParseError>(0));
}

proof fn lemma_type_names_differ()
    ensures
        "DEPLOY"@ != "INVOKE"@,
        "DEPLOY"@ != "DECLARE"@,
        "DECLARE"@ != "INVOKE"@,
{
    reveal_strlit("DECLARE");
    reveal_strlit("DEPLOY");
    reveal_strlit("INVOKE");
    assert("DEPLOY"@[1] != "INVOKE"@[1]);
    assert("DEPLOY"@.len() != "DECLARE"@.len());
    assert("DECLARE"@.len() != "INVOKE"@.len());
}

/// A DECLARE transaction reads as one from its `sender_address`, and a
/// DEPLOY transaction as one from its `contract_address`; neither has a
/// recipient ("0x0") or a value.
pub proof fn lemma_declare_and_deploy(tx: JsonValue, hash: Seq<char>, ty: Seq<char>, from: Seq<char>)
    requires
        text_of(field(tx, "transaction_hash"@)) == Some(hash),
        text_of(field(tx, "type"@)) == Some(ty),
        (ty == "DECLARE"@ && text_of(field(tx, "sender_address"@)) == Some(from)) || (ty == "DEPLOY"@
            && text_of(field(tx, "contract_address"@)) == Some(from)),
    ensures
        transaction_from_json(tx) matches Ok(t) && t.hash == hash && t.from_address == from
            && t.to_address == "0x0"@ && t.value_wei == 0,
{
    lemma_type_names_differ();
}

/// A transaction without a hash string, without a type string, of another
/// type than INVOKE, DECLARE or DEPLOY, or without the address its type
/// names as sender does not read; the error says why.
pub proof fn lemma_unreadable_transactions(tx: JsonValue)
    ensures
        text_of(field(tx, "transaction_hash"@)) is None ==> transaction_from_json(tx) == Err::<TransactionView, AppErrorView>(
            AppErrorView::RpcError("Missing transaction hash"@),
        ),
        (text_of(field(tx, "transaction_hash"@)) is Some && text_of(field(tx, "type"@)) is None)
            ==> transaction_from_json(tx) == Err::<TransactionView, AppErrorView>(
            AppErrorView::RpcError("Missing transaction type"@),
        ),
        text_of(field(tx, "transaction_hash"@)) is Some ==> (text_of(field(tx, "type"@)) matches Some(t) ==> (
        (t != "INVOKE"@ && t != "DECLARE"@ && t != "DEPLOY"@) ==> transaction_from_json(tx)
            == Err::<TransactionView, AppErrorView>(AppErrorView::RpcError("Unsupported transaction type: "@ + t)))),
        (text_of(field(tx, "transaction_hash"@)) is Some && (text_of(field(tx, "type"@)) == Some("INVOKE"@)
            || text_of(field(tx, "type"@)) == Some("DECLARE"@)) && text_of(field(tx, "sender_address"@)) is None)
            ==> transaction_from_json(tx) == Err::<TransactionView, AppErrorView>(
            AppErrorView::RpcError("Missing sender address"@),
        ),
        (text_of(field(tx, "transaction_hash"@)) is Some && text_of(field(tx, "type"@)) == Some("DEPLOY"@)
            && text_of(field(tx, "contract_address"@)) is None) ==> transaction_from_json(tx) == Err::<
            TransactionView,
            AppErrorView,
        >(AppErrorView::RpcError("Missing contract address"@)),
{
    lemma_type_names_differ();
}

} // verus!
