//! Byte layouts: the payload of a proposal and the message that the
//! committee signs.
//!
//! Every integer is little-endian and of fixed width, every field stands at
//! a fixed place or behind its length, so that no two values share a layout.

use crate::types::{AccountId, Proposal, ProposalView};
use vstd::bytes::{
    lemma_auto_spec_u128_to_from_le_bytes, lemma_auto_spec_u64_to_from_le_bytes,
    spec_u128_from_le_bytes, spec_u128_to_le_bytes, spec_u64_from_le_bytes, spec_u64_to_le_bytes,
    u128_from_le_bytes,
    u128_to_le_bytes, u64_to_le_bytes,
};
use vstd::prelude::*;
use vstd::slice::slice_subrange;

verus! {

/// Length of the payload of a proposal.
pub const TRANSFER_DATA_LEN: usize = 48;

/// The payload that asks to credit `amount` to `recipient`: the amount in 16
/// bytes, then the 32 bytes of the account.
pub open spec fn transfer_data(recipient: AccountId, amount: u128) -> Seq<u8> {
    spec_u128_to_le_bytes(amount) + recipient@
}

/// Whether `data` is the payload of some transfer.
pub open spec fn is_transfer_data(data: Seq<u8>) -> bool {
    exists|t: (AccountId, u128)| data == #[trigger] transfer_data(t.0, t.1)
}

/// The recipient and the amount that `data` asks to credit, if it is the
/// payload of a transfer.
pub open spec fn decoded_transfer(data: Seq<u8>) -> Option<(AccountId, u128)> {
    if is_transfer_data(data) {
        Some(choose|t: (AccountId, u128)| data == #[trigger] transfer_data(t.0, t.1))
    } else {
        None
    }
}

/// Two transfers with one payload are the same transfer.
pub proof fn lemma_transfer_data_injective(r1: AccountId, a1: u128, r2: AccountId, a2: u128)
    requires
        transfer_data(r1, a1) == transfer_data(r2, a2),
    ensures
        r1 == r2,
        a1 == a2,
{
    lemma_auto_spec_u128_to_from_le_bytes();
    let d1 = transfer_data(r1, a1);
    let d2 = transfer_data(r2, a2);
    assert(d1.subrange(0, 16) =~= spec_u128_to_le_bytes(a1));
    assert(d2.subrange(0, 16) =~= spec_u128_to_le_bytes(a2));
    assert(spec_u128_from_le_bytes(spec_u128_to_le_bytes(a1)) == a1);
    assert(spec_u128_from_le_bytes(spec_u128_to_le_bytes(a2)) == a2);
    assert(d1.subrange(16, 48) =~= r1@);
    assert(d2.subrange(16, 48) =~= r2@);
    assert(r1 =~= r2);
}

/// Decoding undoes encoding.
pub proof fn lemma_decode_of_encode(recipient: AccountId, amount: u128)
    ensures
        decoded_transfer(transfer_data(recipient, amount)) == Some((recipient, amount)),
{
    let data = transfer_data(recipient, amount);
    let t = (recipient, amount);
    assert(data == transfer_data(t.0, t.1));
    let c = choose|t: (AccountId, u128)| data == #[trigger] transfer_data(t.0, t.1);
    lemma_transfer_data_injective(c.0, c.1, recipient, amount);
}

/// Writes the payload that asks to credit `amount` to `recipient`.
pub fn encode_transfer(recipient: &AccountId, amount: u128) -> (data: Vec<u8>)
    ensures
        data@ == transfer_data(*recipient, amount),
{
    let mut data = u128_to_le_bytes(amount);
    data.extend_from_slice(recipient.as_slice());
    data
}

/// Reads the recipient and the amount out of a payload. A payload of another
/// length than 48 bytes is no transfer.
pub fn decode_transfer(data: &[u8]) -> (transfer: Option<(AccountId, u128)>)
    ensures
        transfer == decoded_transfer(data@),
        transfer is Some == (data@.len() == TRANSFER_DATA_LEN),
{
    proof {
        lemma_auto_spec_u128_to_from_le_bytes();
    }
    if data.len() != TRANSFER_DATA_LEN {
        assert(!is_transfer_data(data@)) by {
            assert forall|t: (AccountId, u128)| data@ != #[trigger] transfer_data(t.0, t.1) by {
                assert(transfer_data(t.0, t.1).len() == 48);
            }
        }
        return None;
    }
    let amount = u128_from_le_bytes(slice_subrange(data, 0, 16));
    let mut recipient: AccountId = [0u8; 32];
    let mut i: usize = 0;
    while i < 32
        invariant
            i <= 32,
            data@.len() == 48,
            forall|j: int| 0 <= j < i ==> recipient@[j] == data@[16 + j],
        decreases 32 - i,
    {
        recipient[i] = data[16 + i];
        i += 1;
    }
    proof {
        assert(spec_u128_to_le_bytes(amount) == data@.subrange(0, 16));
        assert(recipient@ =~= data@.subrange(16, 48));
        assert(data@ =~= transfer_data(recipient, amount));
        let t = (recipient, amount);
        assert(data@ == transfer_data(t.0, t.1));
        let c = choose|t: (AccountId, u128)| data@ == #[trigger] transfer_data(t.0, t.1);
        lemma_transfer_data_injective(c.0, c.1, recipient, amount);
    }
    Some((recipient, amount))
}

/// The values of the proposals of a batch.
pub open spec fn proposal_views(proposals: Seq<Proposal>) -> Seq<ProposalView> {
    proposals.map_values(|p: Proposal| p@)
}

/// The layout of one proposal: the origin domain in one byte, the nonce in
/// 8, the resource in 32, the length of the payload in 8, then the payload.
pub open spec fn proposal_bytes(p: ProposalView) -> Seq<u8> {
    seq![p.origin_domain_id] + spec_u64_to_le_bytes(p.deposit_nonce) + p.resource_id@
        + spec_u64_to_le_bytes(p.data.len() as u64) + p.data
}

/// The layouts of the proposals of a batch, one after another.
pub open spec fn batch_bytes(proposals: Seq<ProposalView>) -> Seq<u8>
    decreases proposals.len(),
{
    if proposals.len() == 0 {
        Seq::empty()
    } else {
        batch_bytes(proposals.drop_last()) + proposal_bytes(proposals.last())
    }
}

/// The message that the committee signs for a batch: the number of its
/// proposals in 8 bytes, then their layouts in the order of the batch.
pub open spec fn batch_message(proposals: Seq<ProposalView>) -> Seq<u8> {
    spec_u64_to_le_bytes(proposals.len() as u64) + batch_bytes(proposals)
}

/// Whether the lengths of a batch fit the 8 bytes that the layout gives
/// them, as those of every batch held in memory do.
pub open spec fn encodable(proposals: Seq<ProposalView>) -> bool {
    &&& proposals.len() <= u64::MAX
    &&& forall|i: int| 0 <= i < proposals.len() ==> proposals[i].data.len() <= u64::MAX
}

/// The layout of a proposal tells where it ends: what follows it is told
/// apart from it.
pub proof fn lemma_proposal_bytes_delimited(
    p: ProposalView,
    rest_p: Seq<u8>,
    q: ProposalView,
    rest_q: Seq<u8>,
)
    requires
        p.data.len() <= u64::MAX,
        q.data.len() <= u64::MAX,
        proposal_bytes(p) + rest_p == proposal_bytes(q) + rest_q,
    ensures
        p == q,
        rest_p == rest_q,
{
    lemma_auto_spec_u64_to_from_le_bytes();
    let a = proposal_bytes(p) + rest_p;
    let b = proposal_bytes(q) + rest_q;
    assert(a[0] == p.origin_domain_id);
    assert(b[0] == q.origin_domain_id);
    assert(a.subrange(1, 9) =~= spec_u64_to_le_bytes(p.deposit_nonce));
    assert(b.subrange(1, 9) =~= spec_u64_to_le_bytes(q.deposit_nonce));
    assert(spec_u64_from_le_bytes(spec_u64_to_le_bytes(p.deposit_nonce)) == p.deposit_nonce);
    assert(spec_u64_from_le_bytes(spec_u64_to_le_bytes(q.deposit_nonce)) == q.deposit_nonce);
    assert(a.subrange(9, 41) =~= p.resource_id@);
    assert(b.subrange(9, 41) =~= q.resource_id@);
    assert(p.resource_id =~= q.resource_id);
    let len_p = p.data.len() as u64;
    let len_q = q.data.len() as u64;
    assert(a.subrange(41, 49) =~= spec_u64_to_le_bytes(len_p));
    assert(b.subrange(41, 49) =~= spec_u64_to_le_bytes(len_q));
    assert(spec_u64_from_le_bytes(spec_u64_to_le_bytes(len_p)) == len_p);
    assert(spec_u64_from_le_bytes(spec_u64_to_le_bytes(len_q)) == len_q);
    assert(p.data.len() == q.data.len());
    let end = 49 + p.data.len() as int;
    assert(a.subrange(49, end) =~= p.data);
    assert(b.subrange(49, end) =~= q.data);
    assert(a.subrange(end, a.len() as int) =~= rest_p);
    assert(b.subrange(end, b.len() as int) =~= rest_q);
}

/// The layouts of a batch are the layout of its first proposal, then those
/// of the others.
pub proof fn lemma_batch_bytes_front(proposals: Seq<ProposalView>)
    requires
        proposals.len() > 0,
    ensures
        batch_bytes(proposals) == proposal_bytes(proposals[0]) + batch_bytes(
            proposals.drop_first(),
        ),
    decreases proposals.len(),
{
    let earlier = proposals.drop_last();
    let later = proposals.drop_first();
    if proposals.len() == 1 {
        assert(batch_bytes(earlier) =~= Seq::<u8>::empty());
        assert(batch_bytes(later) =~= Seq::<u8>::empty());
        assert(batch_bytes(proposals) =~= proposal_bytes(proposals[0]) + batch_bytes(later));
    } else {
        lemma_batch_bytes_front(earlier);
        assert(earlier.drop_first() =~= later.drop_last());
        assert(earlier[0] == proposals[0]);
        assert(later.last() == proposals.last());
        assert(batch_bytes(proposals) =~= proposal_bytes(proposals[0]) + batch_bytes(later));
    }
}

/// Two batches of one length with the same layouts are the same batch.
pub proof fn lemma_batch_bytes_injective(a: Seq<ProposalView>, b: Seq<ProposalView>)
    requires
        encodable(a),
        encodable(b),
        a.len() == b.len(),
        batch_bytes(a) == batch_bytes(b),
    ensures
        a == b,
    decreases a.len(),
{
    if a.len() > 0 {
        lemma_batch_bytes_front(a);
        lemma_batch_bytes_front(b);
        lemma_proposal_bytes_delimited(
            a[0],
            batch_bytes(a.drop_first()),
            b[0],
            batch_bytes(b.drop_first()),
        );
        assert(encodable(a.drop_first())) by {
            assert forall|i: int| 0 <= i < a.drop_first().len() implies a.drop_first()[i].data.len()
                <= u64::MAX by {
                assert(a.drop_first()[i] == a[i + 1]);
            }
        }
        assert(encodable(b.drop_first())) by {
            assert forall|i: int| 0 <= i < b.drop_first().len() implies b.drop_first()[i].data.len()
                <= u64::MAX by {
                assert(b.drop_first()[i] == b[i + 1]);
            }
        }
        lemma_batch_bytes_injective(a.drop_first(), b.drop_first());
        assert(a =~= seq![a[0]] + a.drop_first());
        assert(b =~= seq![b[0]] + b.drop_first());
    } else {
        assert(a =~= b);
    }
}

/// No two batches share a message: what the committee signs for one batch
/// it signs for no other.
pub proof fn lemma_batch_message_injective(a: Seq<ProposalView>, b: Seq<ProposalView>)
    requires
        encodable(a),
        encodable(b),
        batch_message(a) == batch_message(b),
    ensures
        a == b,
{
    lemma_auto_spec_u64_to_from_le_bytes();
    let len_a = a.len() as u64;
    let len_b = b.len() as u64;
    assert(batch_message(a).subrange(0, 8) =~= spec_u64_to_le_bytes(len_a));
    assert(batch_message(b).subrange(0, 8) =~= spec_u64_to_le_bytes(len_b));
    assert(spec_u64_from_le_bytes(spec_u64_to_le_bytes(len_a)) == len_a);
    assert(spec_u64_from_le_bytes(spec_u64_to_le_bytes(len_b)) == len_b);
    assert(batch_message(a).subrange(8, batch_message(a).len() as int) =~= batch_bytes(a));
    assert(batch_message(b).subrange(8, batch_message(b).len() as int) =~= batch_bytes(b));
    lemma_batch_bytes_injective(a, b);
}

/// Writes the message that the committee signs for `proposals`.
pub fn signing_message(proposals: &Vec<Proposal>) -> (message: Vec<u8>)
    ensures
        message@ == batch_message(proposal_views(proposals@)),
{
    let ghost views = proposal_views(proposals@);
    let n = proposals.len();
    let mut message = u64_to_le_bytes(n as u64);
    let mut i: usize = 0;
    assert(views.take(0) =~= Seq::<ProposalView>::empty());
    while i < n
        invariant
            n == proposals@.len(),
            i <= n,
            views == proposal_views(proposals@),
            message@ == spec_u64_to_le_bytes(n as u64) + batch_bytes(views.take(i as int)),
        decreases n - i,
    {
        let p = &proposals[i];
        let ghost before = message@;
        message.push(p.origin_domain_id);
        let mut nonce = u64_to_le_bytes(p.deposit_nonce);
        message.append(&mut nonce);
        message.extend_from_slice(p.resource_id.as_slice());
        let mut len = u64_to_le_bytes(p.data.len() as u64);
        message.append(&mut len);
        message.extend_from_slice(p.data.as_slice());
        proof {
            let next = views.take(i as int + 1);
            assert(next.drop_last() =~= views.take(i as int));
            assert(next.last() == p@);
            assert(message@ =~= before + proposal_bytes(p@));
            assert(message@ =~= spec_u64_to_le_bytes(n as u64) + batch_bytes(next));
        }
        i += 1;
    }
    assert(views.take(n as int) =~= views);
    message
}

} // verus!
