//! The canonical byte encoding of a block's contents, over which its hash
//! is taken.
//!
//! Every integer is written as eight big-endian bytes. A text is written as
//! the length of its UTF-8 encoding followed by that encoding; a list as
//! the number of its items followed by the items. The fields come in the
//! order index, nonce, previous hash, transactions.

use crate::bytes::{be64, lemma_be64_round_trip, push_be64};
use crate::transaction::{transaction_views, Transaction, TransactionView};
use vstd::prelude::*;
use vstd::utf8::{encode_utf8, encode_utf8_decode_utf8};

verus! {

/// A text: the byte length of its UTF-8 encoding, then the encoding.
pub open spec fn encode_text(s: Seq<char>) -> Seq<u8> {
    be64(encode_utf8(s).len() as u64) + encode_utf8(s)
}

/// A transaction: sender, recipient, amount.
pub open spec fn encode_transaction(t: TransactionView) -> Seq<u8> {
    encode_text(t.sender) + encode_text(t.recipient) + be64(t.amount)
}

/// Transactions one after the other, in order.
pub open spec fn encode_transactions(ts: Seq<TransactionView>) -> Seq<u8>
    decreases ts.len(),
{
    if ts.len() == 0 {
        Seq::empty()
    } else {
        encode_transactions(ts.drop_last()) + encode_transaction(ts.last())
    }
}

/// The contents of a block: index, nonce, previous hash, the number of
/// transactions, the transactions.
pub open spec fn encode_contents(
    index: u64,
    nonce: u64,
    previous_hash: Seq<u8>,
    transactions: Seq<TransactionView>,
) -> Seq<u8> {
    be64(index) + be64(nonce) + previous_hash + be64(transactions.len() as u64)
        + encode_transactions(transactions)
}

/// Appends `bytes` to `out`.
pub fn push_bytes(out: &mut Vec<u8>, bytes: &[u8])
    ensures
        final(out)@ == old(out)@ + bytes@,
{
    let mut i: usize = 0;
    while i < bytes.len()
        invariant
            i <= bytes@.len(),
            out@ == old(out)@ + bytes@.take(i as int),
        decreases bytes@.len() - i,
    {
        out.push(bytes[i]);
        i += 1;
    }
    assert(bytes@.take(i as int) =~= bytes@);
}

/// Appends the encoding of a text to `out`.
pub fn push_text(out: &mut Vec<u8>, s: &str)
    ensures
        final(out)@ == old(out)@ + encode_text(s@),
{
    let bytes = s.as_bytes();
    push_be64(out, bytes.len() as u64);
    push_bytes(out, bytes);
    assert(out@ =~= old(out)@ + encode_text(s@));
}

/// Appends the encoding of a transaction to `out`.
pub fn push_transaction(out: &mut Vec<u8>, t: &Transaction)
    ensures
        final(out)@ == old(out)@ + encode_transaction(t@),
{
    push_text(out, t.sender.as_str());
    push_text(out, t.recipient.as_str());
    push_be64(out, t.amount);
}

/// Encodes the contents of a block.
pub fn contents_bytes(
    index: u64,
    nonce: u64,
    previous_hash: &[u8],
    transactions: &Vec<Transaction>,
) -> (out: Vec<u8>)
    ensures
        out@ == encode_contents(index, nonce, previous_hash@, transaction_views(transactions@)),
{
    let ghost views = transaction_views(transactions@);
    let mut out: Vec<u8> = Vec::new();
    push_be64(&mut out, index);
    push_be64(&mut out, nonce);
    push_bytes(&mut out, previous_hash);
    push_be64(&mut out, transactions.len() as u64);
    let ghost head = out@;
    let mut i: usize = 0;
    while i < transactions.len()
        invariant
            i <= transactions@.len(),
            views == transaction_views(transactions@),
            out@ == head + encode_transactions(views.take(i as int)),
        decreases transactions@.len() - i,
    {
        push_transaction(&mut out, &transactions[i]);
        proof {
            let next = views.take(i + 1);
            assert(next.drop_last() =~= views.take(i as int));
            assert(next.last() == transactions@[i as int]@);
        }
        i += 1;
    }
    assert(views.take(i as int) =~= views);
    out
}

/// The texts of a transaction are short enough for their length fields.
pub open spec fn transaction_fits(t: TransactionView) -> bool {
    &&& encode_utf8(t.sender).len() <= u64::MAX
    &&& encode_utf8(t.recipient).len() <= u64::MAX
}

/// The contents are within the sizes that the length fields can hold: the
/// previous hash has 32 bytes, and every count and text length is below
/// 2^64.
pub open spec fn contents_fit(previous_hash: Seq<u8>, transactions: Seq<TransactionView>) -> bool {
    &&& previous_hash.len() == 32
    &&& transactions.len() <= u64::MAX
    &&& forall|i: int| 0 <= i < transactions.len() ==> transaction_fits(#[trigger] transactions[i])
}

/// Byte strings may be joined in any grouping.
proof fn lemma_join_regroups(a: Seq<u8>, b: Seq<u8>, c: Seq<u8>)
    ensures
        (a + b) + c == a + (b + c),
{
    assert((a + b) + c =~= a + (b + c));
}

/// Where two byte strings that each start with one of two equally long
/// parts are equal, the parts are equal, and so is what follows them.
proof fn lemma_equally_long_first(p: Seq<u8>, after_p: Seq<u8>, q: Seq<u8>, after_q: Seq<u8>)
    requires
        p.len() == q.len(),
        p + after_p == q + after_q,
    ensures
        p == q,
        after_p == after_q,
{
    let whole = p + after_p;
    let n = p.len() as int;
    assert(whole.take(n) =~= p && whole.take(n) =~= q);
    assert(whole.skip(n) =~= after_p && whole.skip(n) =~= after_q);
}

/// Where two byte strings that each start with an encoded number are equal,
/// the numbers are equal, and so is what follows them.
proof fn lemma_number_first(x: u64, after_x: Seq<u8>, y: u64, after_y: Seq<u8>)
    requires
        be64(x) + after_x == be64(y) + after_y,
    ensures
        x == y,
        after_x == after_y,
{
    let whole = be64(x) + after_x;
    lemma_be64_round_trip(x);
    lemma_be64_round_trip(y);
    assert(whole.take(8) =~= be64(x) && whole.take(8) =~= be64(y));
    assert(whole.skip(8) =~= after_x && whole.skip(8) =~= after_y);
}

/// Where two byte strings that each start with an encoded text are equal,
/// the texts are equal, and so is what follows them.
proof fn lemma_text_first(s: Seq<char>, after_s: Seq<u8>, t: Seq<char>, after_t: Seq<u8>)
    requires
        encode_utf8(s).len() <= u64::MAX,
        encode_utf8(t).len() <= u64::MAX,
        encode_text(s) + after_s == encode_text(t) + after_t,
    ensures
        s == t,
        after_s == after_t,
{
    let bytes_s = encode_utf8(s);
    let bytes_t = encode_utf8(t);
    lemma_join_regroups(be64(bytes_s.len() as u64), bytes_s, after_s);
    lemma_join_regroups(be64(bytes_t.len() as u64), bytes_t, after_t);
    lemma_number_first(
        bytes_s.len() as u64,
        bytes_s + after_s,
        bytes_t.len() as u64,
        bytes_t + after_t,
    );
    lemma_equally_long_first(bytes_s, after_s, bytes_t, after_t);
    encode_utf8_decode_utf8(s);
    encode_utf8_decode_utf8(t);
}

/// Where two byte strings that each start with an encoded transaction are
/// equal, the transactions are equal, and so is what follows them.
proof fn lemma_transaction_first(
    a: TransactionView,
    after_a: Seq<u8>,
    b: TransactionView,
    after_b: Seq<u8>,
)
    requires
        transaction_fits(a),
        transaction_fits(b),
        encode_transaction(a) + after_a == encode_transaction(b) + after_b,
    ensures
        a == b,
        after_a == after_b,
{
    let amount_a = be64(a.amount) + after_a;
    let amount_b = be64(b.amount) + after_b;
    let recipient_a = encode_text(a.recipient) + amount_a;
    let recipient_b = encode_text(b.recipient) + amount_b;
    lemma_join_regroups(encode_text(a.sender) + encode_text(a.recipient), be64(a.amount), after_a);
    lemma_join_regroups(encode_text(b.sender) + encode_text(b.recipient), be64(b.amount), after_b);
    lemma_join_regroups(encode_text(a.sender), encode_text(a.recipient), amount_a);
    lemma_join_regroups(encode_text(b.sender), encode_text(b.recipient), amount_b);
    lemma_text_first(a.sender, recipient_a, b.sender, recipient_b);
    lemma_text_first(a.recipient, amount_a, b.recipient, amount_b);
    lemma_number_first(a.amount, after_a, b.amount, after_b);
}

/// The encoding of a list starts with the encoding of its first item.
proof fn lemma_first_transaction_leads(ts: Seq<TransactionView>)
    requires
        ts.len() > 0,
    ensures
        encode_transactions(ts) == encode_transaction(ts.first()) + encode_transactions(
            ts.drop_first(),
        ),
    decreases ts.len(),
{
    let tail = ts.drop_first();
    let first = encode_transaction(ts.first());
    let last = encode_transaction(ts.last());
    if ts.len() == 1 {
        assert(ts.drop_last() =~= tail);
    } else {
        let init = ts.drop_last();
        let middle = encode_transactions(init.drop_first());
        lemma_first_transaction_leads(init);
        assert(tail.drop_last() =~= init.drop_first());
        lemma_join_regroups(first, middle, last);
    }
}

/// Lists of equally many transactions with the same encoding are the same
/// list.
proof fn lemma_transactions_unambiguous(a: Seq<TransactionView>, b: Seq<TransactionView>)
    requires
        a.len() == b.len(),
        forall|i: int| 0 <= i < a.len() ==> transaction_fits(#[trigger] a[i]),
        forall|i: int| 0 <= i < b.len() ==> transaction_fits(#[trigger] b[i]),
        encode_transactions(a) == encode_transactions(b),
    ensures
        a == b,
    decreases a.len(),
{
    if a.len() > 0 {
        lemma_first_transaction_leads(a);
        lemma_first_transaction_leads(b);
        let tail_a = a.drop_first();
        let tail_b = b.drop_first();
        lemma_transaction_first(
            a.first(),
            encode_transactions(tail_a),
            b.first(),
            encode_transactions(tail_b),
        );
        assert forall|i: int| 0 <= i < tail_a.len() implies transaction_fits(
            #[trigger] tail_a[i],
        ) by {
            assert(tail_a[i] == a[i + 1]);
        }
        assert forall|i: int| 0 <= i < tail_b.len() implies transaction_fits(
            #[trigger] tail_b[i],
        ) by {
            assert(tail_b[i] == b[i + 1]);
        }
        lemma_transactions_unambiguous(tail_a, tail_b);
        assert(a =~= seq![a.first()] + tail_a);
        assert(b =~= seq![b.first()] + tail_b);
    }
}

/// The encoded contents, read field by field from the front.
proof fn lemma_contents_regroup(
    index: u64,
    nonce: u64,
    previous_hash: Seq<u8>,
    transactions: Seq<TransactionView>,
)
    ensures
        encode_contents(index, nonce, previous_hash, transactions) == be64(index) + (be64(nonce) + (
        previous_hash + (be64(transactions.len() as u64) + encode_transactions(transactions)))),
{
    let count = be64(transactions.len() as u64);
    let list = encode_transactions(transactions);
    lemma_join_regroups(be64(index) + be64(nonce) + previous_hash, count, list);
    lemma_join_regroups(be64(index) + be64(nonce), previous_hash, count + list);
    lemma_join_regroups(be64(index), be64(nonce), previous_hash + (count + list));
}

/// The encoding is unambiguous: contents with the same encoding are the
/// same contents, field by field. Two blocks with different contents can
/// therefore share a hash only where SHA-256 itself collides.
pub proof fn lemma_encoding_unambiguous(
    index_a: u64,
    nonce_a: u64,
    previous_hash_a: Seq<u8>,
    transactions_a: Seq<TransactionView>,
    index_b: u64,
    nonce_b: u64,
    previous_hash_b: Seq<u8>,
    transactions_b: Seq<TransactionView>,
)
    requires
        contents_fit(previous_hash_a, transactions_a),
        contents_fit(previous_hash_b, transactions_b),
        encode_contents(index_a, nonce_a, previous_hash_a, transactions_a) == encode_contents(
            index_b,
            nonce_b,
            previous_hash_b,
            transactions_b,
        ),
    ensures
        index_a == index_b,
        nonce_a == nonce_b,
        previous_hash_a == previous_hash_b,
        transactions_a == transactions_b,
{
    let count_a = be64(transactions_a.len() as u64);
    let count_b = be64(transactions_b.len() as u64);
    let list_a = encode_transactions(transactions_a);
    let list_b = encode_transactions(transactions_b);
    lemma_contents_regroup(index_a, nonce_a, previous_hash_a, transactions_a);
    lemma_contents_regroup(index_b, nonce_b, previous_hash_b, transactions_b);
    lemma_number_first(
        index_a,
        be64(nonce_a) + (previous_hash_a + (count_a + list_a)),
        index_b,
        be64(nonce_b) + (previous_hash_b + (count_b + list_b)),
    );
    lemma_number_first(
        nonce_a,
        previous_hash_a + (count_a + list_a),
        nonce_b,
        previous_hash_b + (count_b + list_b),
    );
    lemma_equally_long_first(previous_hash_a, count_a + list_a, previous_hash_b, count_b + list_b);
    lemma_number_first(
        transactions_a.len() as u64,
        list_a,
        transactions_b.len() as u64,
        list_b,
    );
    lemma_transactions_unambiguous(transactions_a, transactions_b);
}

} // verus!
