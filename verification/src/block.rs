//! Blocks, the batches they carry and the transactions of a batch.

use vstd::prelude::*;

verus! {

/// A signed transaction. What block validation does not look at is in the header alone.
#[derive(Debug)]
pub struct Transaction {
    /// The signature over the header, which identifies the transaction.
    pub header_signature: String,
    /// The signatures of the transactions that have to be committed before.
    pub dependencies: Vec<String>,
    /// What the transaction asks its processor to do.
    pub payload: Vec<u8>,
    /// The serialized header.
    pub header_bytes: Vec<u8>,
}

/// A signed, ordered group of transactions that is applied as a whole.
#[derive(Debug)]
pub struct Batch {
    /// The signature over the header, which identifies the batch.
    pub header_signature: String,
    /// The public key of the batch's signer.
    pub signer_public_key: String,
    /// The transactions, in the order in which they are applied.
    pub transactions: Vec<Transaction>,
    /// The serialized header.
    pub header_bytes: Vec<u8>,
}

/// A block of batches, linked to the block before it.
#[derive(Debug)]
pub struct Block {
    /// The signature over the header, which identifies the block.
    pub header_signature: String,
    /// The batches, in the order in which they are applied.
    pub batches: Vec<Batch>,
    /// The hash of the state after all the batches.
    pub state_root_hash: String,
    /// The consensus engine's own data.
    pub consensus: Vec<u8>,
    /// The identifiers of the batches.
    pub batch_ids: Vec<String>,
    /// The public key of the block's signer.
    pub signer_public_key: String,
    /// The identifier of the block before this one.
    pub previous_block_id: String,
    /// The height of the block: the first one has number zero.
    pub block_num: u64,
    /// The serialized header.
    pub header_bytes: Vec<u8>,
}

/// What a [`Transaction`] holds.
#[verifier::ext_equal]
pub struct TransactionView {
    pub header_signature: Seq<char>,
    pub dependencies: Seq<Seq<char>>,
    pub payload: Seq<u8>,
    pub header_bytes: Seq<u8>,
}

/// What a [`Batch`] holds.
#[verifier::ext_equal]
pub struct BatchView {
    pub header_signature: Seq<char>,
    pub signer_public_key: Seq<char>,
    pub transactions: Seq<TransactionView>,
    pub header_bytes: Seq<u8>,
}

/// What a [`Block`] holds.
#[verifier::ext_equal]
pub struct BlockView {
    pub header_signature: Seq<char>,
    pub batches: Seq<BatchView>,
    pub state_root_hash: Seq<char>,
    pub consensus: Seq<u8>,
    pub batch_ids: Seq<Seq<char>>,
    pub signer_public_key: Seq<char>,
    pub previous_block_id: Seq<char>,
    pub block_num: u64,
    pub header_bytes: Seq<u8>,
}

/// The texts that a sequence of strings holds.
pub open spec fn texts(strings: Seq<String>) -> Seq<Seq<char>> {
    strings.map_values(|s: String| s@)
}

/// The views of a sequence of transactions.
pub open spec fn transaction_views(transactions: Seq<Transaction>) -> Seq<TransactionView> {
    transactions.map_values(|t: Transaction| t@)
}

/// The views of a sequence of batches.
pub open spec fn batch_views(batches: Seq<Batch>) -> Seq<BatchView> {
    batches.map_values(|b: Batch| b@)
}

/// The views of a sequence of blocks.
pub open spec fn block_views(blocks: Seq<Block>) -> Seq<BlockView> {
    blocks.map_values(|b: Block| b@)
}

impl View for Transaction {
    type V = TransactionView;

    open spec fn view(&self) -> TransactionView {
        TransactionView {
            header_signature: self.header_signature@,
            dependencies: texts(self.dependencies@),
            payload: self.payload@,
            header_bytes: self.header_bytes@,
        }
    }
}

impl View for Batch {
    type V = BatchView;

    open spec fn view(&self) -> BatchView {
        BatchView {
            header_signature: self.header_signature@,
            signer_public_key: self.signer_public_key@,
            transactions: transaction_views(self.transactions@),
            header_bytes: self.header_bytes@,
        }
    }
}

impl View for Block {
    type V = BlockView;

    open spec fn view(&self) -> BlockView {
        BlockView {
            header_signature: self.header_signature@,
            batches: batch_views(self.batches@),
            state_root_hash: self.state_root_hash@,
            consensus: self.consensus@,
            batch_ids: texts(self.batch_ids@),
            signer_public_key: self.signer_public_key@,
            previous_block_id: self.previous_block_id@,
            block_num: self.block_num,
            header_bytes: self.header_bytes@,
        }
    }
}

/// Copies a list of strings.
fn copy_strings(strings: &Vec<String>) -> (copy: Vec<String>)
    ensures
        texts(copy@) == texts(strings@),
{
    let mut copy: Vec<String> = Vec::new();
    let mut i: usize = 0;
    while i < strings.len()
        invariant
            i <= strings.len(),
            copy@ == strings@.take(i as int),
        decreases strings.len() - i,
    {
        copy.push(strings[i].clone());
        i += 1;
        assert(copy@ =~= strings@.take(i as int));
    }
    assert(strings@.take(i as int) =~= strings@);
    copy
}

/// Copies bytes.
pub(crate) fn copy_bytes(bytes: &Vec<u8>) -> (copy: Vec<u8>)
    ensures
        copy@ == bytes@,
{
    let mut copy: Vec<u8> = Vec::new();
    let mut i: usize = 0;
    while i < bytes.len()
        invariant
            i <= bytes.len(),
            copy@ == bytes@.take(i as int),
        decreases bytes.len() - i,
    {
        copy.push(bytes[i]);
        i += 1;
        assert(copy@ =~= bytes@.take(i as int));
    }
    assert(bytes@.take(i as int) =~= bytes@);
    copy
}

impl Clone for Transaction {
    fn clone(&self) -> (copy: Transaction)
        ensures
            copy@ == self@,
    {
        Transaction {
            header_signature: self.header_signature.clone(),
            dependencies: copy_strings(&self.dependencies),
            payload: copy_bytes(&self.payload),
            header_bytes: copy_bytes(&self.header_bytes),
        }
    }
}

impl Clone for Batch {
    fn clone(&self) -> (copy: Batch)
        ensures
            copy@ == self@,
    {
        let mut transactions: Vec<Transaction> = Vec::new();
        let mut i: usize = 0;
        while i < self.transactions.len()
            invariant
                i <= self.transactions.len(),
                transactions.len() == i,
                forall|j: int| 0 <= j < i ==> (#[trigger] transactions@[j])@ == self.transactions@[j]@,
            decreases self.transactions.len() - i,
        {
            transactions.push(self.transactions[i].clone());
            i += 1;
        }
        assert(transaction_views(transactions@) =~= transaction_views(self.transactions@));
        Batch {
            header_signature: self.header_signature.clone(),
            signer_public_key: self.signer_public_key.clone(),
            transactions,
            header_bytes: copy_bytes(&self.header_bytes),
        }
    }
}

impl Clone for Block {
    fn clone(&self) -> (copy: Block)
        ensures
            copy@ == self@,
    {
        let mut batches: Vec<Batch> = Vec::new();
        let mut i: usize = 0;
        while i < self.batches.len()
            invariant
                i <= self.batches.len(),
                batches.len() == i,
                forall|j: int| 0 <= j < i ==> (#[trigger] batches@[j])@ == self.batches@[j]@,
            decreases self.batches.len() - i,
        {
            batches.push(self.batches[i].clone());
            i += 1;
        }
        assert(batch_views(batches@) =~= batch_views(self.batches@));
        Block {
            header_signature: self.header_signature.clone(),
            batches,
            state_root_hash: self.state_root_hash.clone(),
            consensus: copy_bytes(&self.consensus),
            batch_ids: copy_strings(&self.batch_ids),
            signer_public_key: self.signer_public_key.clone(),
            previous_block_id: self.previous_block_id.clone(),
            block_num: self.block_num,
            header_bytes: copy_bytes(&self.header_bytes),
        }
    }
}

/// The view of a transaction shows each of its parts as it is.
pub proof fn law_a_transaction_is_shown_as_it_is(transaction: &Transaction)
    ensures
        transaction@.header_signature == transaction.header_signature@,
        transaction@.payload == transaction.payload@,
        transaction@.header_bytes == transaction.header_bytes@,
        transaction@.dependencies.len() == transaction.dependencies@.len(),
        forall|i: int|
            0 <= i < transaction.dependencies@.len() ==> #[trigger] transaction@.dependencies[i]
                == transaction.dependencies@[i]@,
{
}

/// The view of a batch shows each of its parts as it is, and all of its transactions.
pub proof fn law_a_batch_is_shown_as_it_is(batch: &Batch)
    ensures
        batch@.header_signature == batch.header_signature@,
        batch@.signer_public_key == batch.signer_public_key@,
        batch@.header_bytes == batch.header_bytes@,
        batch@.transactions.len() == batch.transactions@.len(),
        forall|i: int|
            0 <= i < batch.transactions@.len() ==> #[trigger] batch@.transactions[i]
                == batch.transactions@[i]@,
{
}

/// The view of a block shows each of its parts as it is, and all of its batches.
pub proof fn law_a_block_is_shown_as_it_is(block: &Block)
    ensures
        block@.header_signature == block.header_signature@,
        block@.state_root_hash == block.state_root_hash@,
        block@.consensus == block.consensus@,
        block@.signer_public_key == block.signer_public_key@,
        block@.previous_block_id == block.previous_block_id@,
        block@.block_num == block.block_num,
        block@.header_bytes == block.header_bytes@,
        block@.batches.len() == block.batches@.len(),
        forall|i: int|
            0 <= i < block.batches@.len() ==> #[trigger] block@.batches[i] == block.batches@[i]@,
        block@.batch_ids.len() == block.batch_ids@.len(),
        forall|i: int|
            0 <= i < block.batch_ids@.len() ==> #[trigger] block@.batch_ids[i]
                == block.batch_ids@[i]@,
{
}

/// A copy of a block holds what the block holds: the same batches of the same transactions, in
/// their order, and the same parts besides.
pub proof fn law_a_copied_block_is_the_same(block: &Block, copy: Block)
    requires
        call_ensures(Block::clone, (block,), copy),
    ensures
        copy.header_signature@ == block.header_signature@,
        copy.state_root_hash@ == block.state_root_hash@,
        copy.consensus@ == block.consensus@,
        copy.signer_public_key@ == block.signer_public_key@,
        copy.previous_block_id@ == block.previous_block_id@,
        copy.block_num == block.block_num,
        copy.header_bytes@ == block.header_bytes@,
        copy.batch_ids@.len() == block.batch_ids@.len(),
        forall|i: int|
            0 <= i < block.batch_ids@.len() ==> #[trigger] copy.batch_ids@[i]@
                == block.batch_ids@[i]@,
        copy.batches@.len() == block.batches@.len(),
        forall|i: int|
            0 <= i < block.batches@.len() ==> #[trigger] copy.batches@[i]@ == block.batches@[i]@,
{
    law_a_block_is_shown_as_it_is(block);
    law_a_block_is_shown_as_it_is(&copy);
    assert forall|i: int| 0 <= i < block.batch_ids@.len() implies #[trigger] copy.batch_ids@[i]@
        == block.batch_ids@[i]@ by {
        assert(copy@.batch_ids[i] == block@.batch_ids[i]);
    }
    assert forall|i: int| 0 <= i < block.batches@.len() implies #[trigger] copy.batches@[i]@
        == block.batches@[i]@ by {
        assert(copy@.batches[i] == block@.batches[i]);
    }
}

/// A copy of a batch holds what the batch holds: the same transactions, in their order, with the
/// same dependencies and payloads.
pub proof fn law_a_copied_batch_is_the_same(batch: &Batch, copy: Batch)
    requires
        call_ensures(Batch::clone, (batch,), copy),
    ensures
        copy.header_signature@ == batch.header_signature@,
        copy.signer_public_key@ == batch.signer_public_key@,
        copy.header_bytes@ == batch.header_bytes@,
        copy.transactions@.len() == batch.transactions@.len(),
        forall|i: int|
            0 <= i < batch.transactions@.len() ==> {
                &&& (#[trigger] copy.transactions@[i]).header_signature@
                    == batch.transactions@[i].header_signature@
                &&& copy.transactions@[i].payload@ == batch.transactions@[i].payload@
                &&& copy.transactions@[i].header_bytes@ == batch.transactions@[i].header_bytes@
                &&& copy.transactions@[i]@.dependencies == batch.transactions@[i]@.dependencies
            },
{
    law_a_batch_is_shown_as_it_is(batch);
    law_a_batch_is_shown_as_it_is(&copy);
    assert forall|i: int| 0 <= i < batch.transactions@.len() implies {
        &&& (#[trigger] copy.transactions@[i]).header_signature@
            == batch.transactions@[i].header_signature@
        &&& copy.transactions@[i].payload@ == batch.transactions@[i].payload@
        &&& copy.transactions@[i].header_bytes@ == batch.transactions@[i].header_bytes@
        &&& copy.transactions@[i]@.dependencies == batch.transactions@[i]@.dependencies
    } by {
        assert(copy@.transactions[i] == batch@.transactions[i]);
    }
}

/// Blocks are shown one by one, in their order.
pub proof fn law_blocks_are_shown_in_order(blocks: Seq<Block>)
    ensures
        block_views(blocks).len() == blocks.len(),
        forall|i: int|
            0 <= i < blocks.len() ==> #[trigger] block_views(blocks)[i] == blocks[i]@,
{
}

} // verus!
