//! The execution context a block carries: chain identity, fee token
//! addresses, block-level constants, and the per-transaction context
//! derived from them.
//!
//! Addresses and the chain identifier are held as plain numeric values;
//! everything the logic reads of them is equality and selection.  The
//! transaction information itself is produced by the surrounding
//! executor through the `TransactionInfoCreator` capability.

use vstd::prelude::*;

verus! {

/// A contract address, as its numeric value.
pub type ContractAddress = u64;

/// A chain identifier, as its numeric code.
pub type ChainId = u64;

/// Which token a transaction pays its fee in.
#[derive(Clone, Copy, PartialEq, Eq, Structural, Debug)]
pub enum FeeType {
    Strk,
    Eth,
}

/// The chain's fee token addresses, one per fee type.
#[derive(Clone, Copy, PartialEq, Eq, Structural, Debug)]
pub struct FeeTokenAddresses {
    pub strk_fee_token_address: ContractAddress,
    pub eth_fee_token_address: ContractAddress,
}

/// The address that collects fees of the given type.
pub open spec fn fee_token_of(addresses: FeeTokenAddresses, fee_type: FeeType) -> ContractAddress {
    match fee_type {
        FeeType::Strk => addresses.strk_fee_token_address,
        FeeType::Eth => addresses.eth_fee_token_address,
    }
}

impl FeeTokenAddresses {
    /// Selects the fee token address for `fee_type`.
    pub fn get_by_fee_type(&self, fee_type: &FeeType) -> (addr: ContractAddress)
        ensures
            addr == fee_token_of(*self, *fee_type),
    {
        match fee_type {
            FeeType::Strk => self.strk_fee_token_address,
            FeeType::Eth => self.eth_fee_token_address,
        }
    }
}

impl Default for FeeTokenAddresses {
    /// Both fee tokens at the zero address.
    fn default() -> (d: Self)
        ensures
            d.strk_fee_token_address == 0,
            d.eth_fee_token_address == 0,
    {
        FeeTokenAddresses { strk_fee_token_address: 0, eth_fee_token_address: 0 }
    }
}

/// The chain a block belongs to and where its fees go.
#[derive(Clone, Copy, PartialEq, Eq, Structural, Debug)]
pub struct ChainInfo {
    pub chain_id: ChainId,
    pub fee_token_addresses: FeeTokenAddresses,
}

impl ChainInfo {
    /// Selects the chain's fee token address for `fee_type`.
    pub fn fee_token_address(&self, fee_type: &FeeType) -> (addr: ContractAddress)
        ensures
            addr == fee_token_of(self.fee_token_addresses, *fee_type),
    {
        self.fee_token_addresses.get_by_fee_type(fee_type)
    }
}

impl Default for ChainInfo {
    /// The zero chain with both fee tokens at the zero address.
    fn default() -> (d: Self)
        ensures
            d.chain_id == 0,
            d.fee_token_addresses.strk_fee_token_address == 0,
            d.fee_token_addresses.eth_fee_token_address == 0,
    {
        ChainInfo {
            chain_id: 0,
            fee_token_addresses: FeeTokenAddresses {
                strk_fee_token_address: 0,
                eth_fee_token_address: 0,
            },
        }
    }
}

/// What a block fixes for its whole execution.
#[derive(Clone, Copy, PartialEq, Eq, Structural, Debug)]
pub struct BlockInfo {
    pub block_number: u64,
    pub block_timestamp: u64,
    pub sequencer_address: ContractAddress,
}

/// Protocol constants under which a block executes.
#[derive(Clone, Copy, PartialEq, Eq, Structural, Debug)]
pub struct VersionedConstants {
    pub invoke_tx_max_n_steps: u32,
    pub validate_max_n_steps: u32,
}

/// Capacity bounds that close a block when reached.
#[derive(Clone, Copy, PartialEq, Eq, Structural, Debug)]
pub struct BouncerConfig {
    pub block_max_capacity_n_steps: u64,
}

/// What the context reads of one transaction: who sent it and which
/// token pays its fee.  A current-version transaction pays in STRK, a
/// deprecated-version one in ETH.
#[derive(Clone, Copy, PartialEq, Eq, Structural, Debug)]
pub enum TransactionInfo {
    Current { sender_address: ContractAddress },
    Deprecated { sender_address: ContractAddress },
}

impl TransactionInfo {
    /// The sender of the transaction.
    pub open spec fn sender(self) -> ContractAddress {
        match self {
            TransactionInfo::Current { sender_address } => sender_address,
            TransactionInfo::Deprecated { sender_address } => sender_address,
        }
    }

    /// The fee type of the transaction's version.
    pub open spec fn related_fee_type(self) -> FeeType {
        match self {
            TransactionInfo::Current { .. } => FeeType::Strk,
            TransactionInfo::Deprecated { .. } => FeeType::Eth,
        }
    }

    /// Returns the sender of the transaction.
    pub fn sender_address(&self) -> (addr: ContractAddress)
        ensures
            addr == self.sender(),
    {
        match self {
            TransactionInfo::Current { sender_address } => *sender_address,
            TransactionInfo::Deprecated { sender_address } => *sender_address,
        }
    }

    /// Returns the fee type of the transaction's version.
    pub fn fee_type(&self) -> (fee_type: FeeType)
        ensures
            fee_type == self.related_fee_type(),
    {
        match self {
            TransactionInfo::Current { .. } => FeeType::Strk,
            TransactionInfo::Deprecated { .. } => FeeType::Eth,
        }
    }
}

/// Why no transaction information could be produced.
#[derive(Clone, Copy, PartialEq, Eq, Structural, Debug)]
pub enum TransactionInfoCreationError {
    /// The transaction's version is not one the executor supports.
    UnsupportedVersion,
}

/// The capability through which the surrounding executor hands over a
/// transaction's information; implemented outside this library.
pub trait TransactionInfoCreator {
    /// Produces the information of the transaction at hand, or says why
    /// it cannot.
    fn create_tx_info(&self) -> Result<TransactionInfo, TransactionInfoCreationError>;
}

/// Everything fixed for the life of one block's execution.
#[derive(Clone, Copy, PartialEq, Eq, Structural, Debug)]
pub struct BlockContext {
    pub block_info: BlockInfo,
    pub chain_info: ChainInfo,
    pub versioned_constants: VersionedConstants,
    pub bouncer_config: BouncerConfig,
}

/// One transaction's execution context: its block's context and its own
/// information.
#[derive(Clone, Copy, PartialEq, Eq, Structural, Debug)]
pub struct TransactionContext {
    pub block_context: BlockContext,
    pub tx_info: TransactionInfo,
}

impl TransactionContext {
    /// The address collecting this transaction's fee: the block chain's
    /// token of the transaction's fee type.
    pub fn fee_token_address(&self) -> (addr: ContractAddress)
        ensures
            addr == fee_token_of(
                self.block_context.chain_info.fee_token_addresses,
                self.tx_info.related_fee_type(),
            ),
    {
        self.block_context.chain_info.fee_token_address(&self.tx_info.fee_type())
    }

    /// Whether the block's sequencer itself sent the transaction.
    pub fn is_sequencer_the_sender(&self) -> (r: bool)
        ensures
            r == (self.tx_info.sender() == self.block_context.block_info.sequencer_address),
    {
        self.tx_info.sender_address() == self.block_context.block_info.sequencer_address
    }
}

impl BlockContext {
    /// Assembles a block's context from its parts.
    pub fn new(
        block_info: BlockInfo,
        chain_info: ChainInfo,
        versioned_constants: VersionedConstants,
        bouncer_config: BouncerConfig,
    ) -> (ctx: BlockContext)
        ensures
            ctx == (BlockContext { block_info, chain_info, versioned_constants, bouncer_config }),
    {
        BlockContext { block_info, chain_info, versioned_constants, bouncer_config }
    }

    /// The block-level information.
    pub fn block_info(&self) -> (info: &BlockInfo)
        ensures
            info == self.block_info,
    {
        &self.block_info
    }

    /// The chain-level information.
    pub fn chain_info(&self) -> (info: &ChainInfo)
        ensures
            info == self.chain_info,
    {
        &self.chain_info
    }

    /// The protocol constants of the block.
    pub fn versioned_constants(&self) -> (constants: &VersionedConstants)
        ensures
            constants == self.versioned_constants,
    {
        &self.versioned_constants
    }

    /// Pairs this block context with the information of one transaction,
    /// as the executor produces it; hands the executor's refusal through
    /// unchanged.
    ///
    /// The result is exactly the creator's answer: some result the
    /// creator can return (a witness of its call's postcondition) is
    /// paired with this context on success and propagated on failure, so
    /// the function neither invents transaction information nor fails on
    /// its own account.
    pub fn to_tx_context<T: TransactionInfoCreator>(&self, tx_info_creator: &T) -> (r: Result<
        TransactionContext,
        TransactionInfoCreationError,
    >)
        ensures
            exists|produced: Result<TransactionInfo, TransactionInfoCreationError>|
                {
                    &&& #[trigger] call_ensures(T::create_tx_info, (tx_info_creator,), produced)
                    &&& (produced matches Ok(info) ==> r == Ok::<
                        TransactionContext,
                        TransactionInfoCreationError,
                    >(TransactionContext { block_context: *self, tx_info: info }))
                    &&& (produced matches Err(e) ==> r == Err::<
                        TransactionContext,
                        TransactionInfoCreationError,
                    >(e))
                },
            r matches Ok(tc) ==> tc.block_context == *self,
    {
        let produced = tx_info_creator.create_tx_info();
        let ghost witness = produced;
        let r = match produced {
            Ok(tx_info) => Ok(TransactionContext { block_context: *self, tx_info }),
            Err(e) => Err(e),
        };
        proof {
            assert(call_ensures(T::create_tx_info, (tx_info_creator,), witness));
        }
        r
    }
}

} // verus!
