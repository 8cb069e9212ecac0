use consensus_core::context::{
    BlockContext, BlockInfo, BouncerConfig, ChainInfo, FeeTokenAddresses, FeeType,
    TransactionContext, TransactionInfo, TransactionInfoCreationError, TransactionInfoCreator,
    VersionedConstants,
};

fn sample_chain_info() -> ChainInfo {
    ChainInfo {
        chain_id: 23,
        fee_token_addresses: FeeTokenAddresses {
            strk_fee_token_address: 100,
            eth_fee_token_address: 200,
        },
    }
}

fn sample_block_context() -> BlockContext {
    BlockContext::new(
        BlockInfo { block_number: 10, block_timestamp: 1000, sequencer_address: 42 },
        sample_chain_info(),
        VersionedConstants { invoke_tx_max_n_steps: 5_000_000, validate_max_n_steps: 1_000_000 },
        BouncerConfig { block_max_capacity_n_steps: 40_000_000 },
    )
}

#[test]
fn fee_token_by_fee_type() {
    let addresses = FeeTokenAddresses { strk_fee_token_address: 100, eth_fee_token_address: 200 };
    assert_eq!(addresses.get_by_fee_type(&FeeType::Strk), 100);
    assert_eq!(addresses.get_by_fee_type(&FeeType::Eth), 200);

    let info = sample_chain_info();
    assert_eq!(info.fee_token_address(&FeeType::Strk), 100);
    assert_eq!(info.fee_token_address(&FeeType::Eth), 200);
}

#[test]
fn defaults_are_zeroed() {
    let info = ChainInfo::default();
    assert_eq!(info.chain_id, 0);
    assert_eq!(info.fee_token_addresses, FeeTokenAddresses::default());
    assert_eq!(info.fee_token_addresses.strk_fee_token_address, 0);
    assert_eq!(info.fee_token_addresses.eth_fee_token_address, 0);
}

#[test]
fn block_context_getters() {
    let ctx = sample_block_context();
    assert_eq!(ctx.block_info().block_number, 10);
    assert_eq!(ctx.chain_info().chain_id, 23);
    assert_eq!(ctx.versioned_constants().invoke_tx_max_n_steps, 5_000_000);
}

#[test]
fn transaction_fee_type_follows_version() {
    let current = TransactionInfo::Current { sender_address: 7 };
    let deprecated = TransactionInfo::Deprecated { sender_address: 8 };
    assert_eq!(current.fee_type(), FeeType::Strk);
    assert_eq!(deprecated.fee_type(), FeeType::Eth);
    assert_eq!(current.sender_address(), 7);
    assert_eq!(deprecated.sender_address(), 8);
}

#[test]
fn transaction_context_reads_fee_token_and_sender() {
    let tx = TransactionContext {
        block_context: sample_block_context(),
        tx_info: TransactionInfo::Current { sender_address: 42 },
    };
    // a current transaction pays in STRK, and here the sequencer sent it
    assert_eq!(tx.fee_token_address(), 100);
    assert!(tx.is_sequencer_the_sender());

    let tx = TransactionContext {
        block_context: sample_block_context(),
        tx_info: TransactionInfo::Deprecated { sender_address: 7 },
    };
    assert_eq!(tx.fee_token_address(), 200);
    assert!(!tx.is_sequencer_the_sender());
}

struct FixedCreator {
    result: Result<TransactionInfo, TransactionInfoCreationError>,
}

impl TransactionInfoCreator for FixedCreator {
    fn create_tx_info(&self) -> Result<TransactionInfo, TransactionInfoCreationError> {
        self.result
    }
}

#[test]
fn to_tx_context_carries_block_context_and_error() {
    let ctx = sample_block_context();
    let creator = FixedCreator { result: Ok(TransactionInfo::Current { sender_address: 5 }) };
    let tx = ctx.to_tx_context(&creator).unwrap();
    assert_eq!(tx.block_context, ctx);
    assert_eq!(tx.tx_info, TransactionInfo::Current { sender_address: 5 });

    let failing = FixedCreator { result: Err(TransactionInfoCreationError::UnsupportedVersion) };
    assert_eq!(ctx.to_tx_context(&failing), Err(TransactionInfoCreationError::UnsupportedVersion));
}
