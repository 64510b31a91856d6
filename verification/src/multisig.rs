//! Preparation of the messages of a multisig wallet: its address, the deploy
//! message, and a transfer planned against the state of the account.
//!
//! A prepared call names the function to encode, its arguments and its
//! headers. Once it is encoded, the payload and its signing hash make an
//! unsigned message, which a raw signature turns into a signed one.

use vstd::prelude::*;
use crate::address::{Address, UInt256};

verus! {

/// The workchain in which wallets are deployed.
pub const DEFAULT_WORKCHAIN: i8 = 0;

/// The number of confirmations that a freshly deployed wallet requires.
pub const REQUIRED_CONFIRMATIONS: u8 = 1;

/// The send flags of a transfer: the fees are paid from the message balance.
pub const TRANSFER_FLAGS: u8 = 3;

/// The 32-byte verifying key of the wallet's owner.
pub type PublicKey = UInt256;

/// The contract flavours of a multisig wallet.
#[derive(Clone, Copy, Debug, PartialEq, Eq, Structural, Hash)]
pub enum MultisigType {
    SafeMultisigWallet,
    SafeMultisigWallet24h,
    SetcodeMultisigWallet,
    SurfWallet,
}

impl MultisigType {
    /// The name of the flavour.
    pub fn name(&self) -> (r: &'static str)
        ensures
            r@ == (match *self {
                MultisigType::SafeMultisigWallet => "SafeMultisigWallet"@,
                MultisigType::SafeMultisigWallet24h => "SafeMultisigWallet24h"@,
                MultisigType::SetcodeMultisigWallet => "SetcodeMultisigWallet"@,
                MultisigType::SurfWallet => "SurfWallet"@,
            }),
    {
        match self {
            MultisigType::SafeMultisigWallet => "SafeMultisigWallet",
            MultisigType::SafeMultisigWallet24h => "SafeMultisigWallet24h",
            MultisigType::SetcodeMultisigWallet => "SetcodeMultisigWallet",
            MultisigType::SurfWallet => "SurfWallet",
        }
    }
}

/// The code and data that define a contract before it is deployed, with the
/// 256-bit hash of the pair.
#[derive(Debug, PartialEq, Eq)]
pub struct StateInit {
    pub code: Vec<u8>,
    pub data: Vec<u8>,
    pub hash: UInt256,
}

/// A state-init as plain sequences.
pub struct StateInitView {
    pub code: Seq<u8>,
    pub data: Seq<u8>,
    pub hash: UInt256,
}

impl View for StateInit {
    type V = StateInitView;

    open spec fn view(&self) -> StateInitView {
        StateInitView { code: self.code@, data: self.data@, hash: self.hash }
    }
}

/// The skeleton of an inbound external message: where it goes, and the
/// state-init that it carries when it deploys the destination.
#[derive(Debug, PartialEq, Eq)]
pub struct Message {
    pub dst: Address,
    pub state_init: Option<StateInit>,
}

/// A message skeleton as plain values.
pub struct MessageView {
    pub dst: Address,
    pub state_init: Option<StateInitView>,
}

impl View for Message {
    type V = MessageView;

    open spec fn view(&self) -> MessageView {
        MessageView {
            dst: self.dst,
            state_init: match self.state_init {
                Some(s) => Some(s@),
                None => None,
            },
        }
    }
}

/// The function of the wallet contract that a message calls, with its
/// arguments in order.
#[derive(Debug, PartialEq, Eq)]
pub enum FunctionCall {
    Constructor { owners: Vec<UInt256>, req_confirms: u8 },
    SendTransaction { dest: Address, value: u128, bounce: bool, flags: u8, payload: Vec<u8> },
}

/// The headers stamped on a call: the time in milliseconds, the deadline in
/// seconds, and the signer's key.
#[derive(Clone, Copy, Debug, PartialEq, Eq, Structural)]
pub struct CallHeader {
    pub time: u64,
    pub expire: u32,
    pub pubkey: UInt256,
}

/// A call that is ready to be encoded.
#[derive(Debug, PartialEq, Eq)]
pub struct PreparedCall {
    pub message: Message,
    pub function: FunctionCall,
    pub header: CallHeader,
    pub expire_at: u32,
}

/// What has to be done to transfer from an account.
#[derive(Debug, PartialEq, Eq)]
pub enum TransferAction {
    /// The wallet is not deployed yet: deploy it, then plan again.
    DeployFirst,
    /// The call to encode and sign.
    Sign(PreparedCall),
}

/// Why a message could not be prepared.
#[derive(Clone, Copy, Debug, PartialEq, Eq, Structural)]
pub enum MultisigError {
    AccountIsFrozen,
}

impl MultisigError {
    /// The message that describes the error.
    pub fn message(&self) -> (r: &'static str)
        ensures
            r@ == "Account is frozen"@,
    {
        "Account is frozen"
    }
}

/// The status of an account as it was observed.
#[derive(Clone, Copy, Debug, PartialEq, Eq, Structural)]
pub enum AccountStatus {
    Uninit,
    Active,
    Frozen,
}

/// An account as it was observed: its address and its status.
#[derive(Clone, Copy, Debug, PartialEq, Eq, Structural)]
pub struct AccountStuff {
    pub addr: Address,
    pub status: AccountStatus,
}

/// The address of the contract with the given state-init hash in a workchain.
pub open spec fn contract_address(state_init_hash: UInt256, workchain_id: i8) -> Address {
    Address { workchain_id, account_id: state_init_hash }
}

/// The address at which a wallet with this state-init lives in a workchain.
pub fn compute_contract_address(state_init: &StateInit, workchain_id: i8) -> (r: Address)
    ensures
        r == contract_address(state_init.hash, workchain_id),
{
    Address::new(workchain_id, state_init.hash)
}

/// The workchain decides the workchain of the address and nothing else: the
/// account id is the same in every workchain.
pub proof fn lemma_address_workchain(state_init_hash: UInt256, first: i8, second: i8)
    ensures
        contract_address(state_init_hash, first).workchain_id == first,
        contract_address(state_init_hash, second).workchain_id == second,
        contract_address(state_init_hash, first).account_id == contract_address(
            state_init_hash,
            second,
        ).account_id,
{
}

/// `call` is the deploy of a wallet for `public_key`, stamped at `time`.
pub open spec fn is_deploy_call(
    call: PreparedCall,
    public_key: UInt256,
    state_init: StateInit,
    expire_at: u32,
    time: u64,
) -> bool {
    &&& call.message.dst == contract_address(state_init.hash, DEFAULT_WORKCHAIN)
    &&& call.message.state_init == Some(state_init)
    &&& call.function matches FunctionCall::Constructor { owners, req_confirms } && owners@
        == seq![public_key] && req_confirms == REQUIRED_CONFIRMATIONS
    &&& call.header == (CallHeader { time, expire: expire_at, pubkey: public_key })
    &&& call.expire_at == expire_at
}

/// `call` is the transfer of `amount` from the wallet at `wallet` to
/// `destination`, stamped at `time`.
pub open spec fn is_transfer_call(
    call: PreparedCall,
    public_key: UInt256,
    wallet: Address,
    destination: Address,
    amount: u64,
    bounce: bool,
    body: Option<Vec<u8>>,
    expire_at: u32,
    time: u64,
) -> bool {
    &&& call.message.dst == wallet
    &&& call.message.state_init.is_none()
    &&& call.function matches FunctionCall::SendTransaction { dest, value, bounce: b, flags, payload }
        && dest == destination && value == amount && b == bounce && flags == TRANSFER_FLAGS
        && payload@ == (match body {
        Some(bytes) => bytes@,
        None => Seq::<u8>::empty(),
    })
    &&& call.header == (CallHeader { time, expire: expire_at, pubkey: public_key })
    &&& call.expire_at == expire_at
}

/// The wall clock, in milliseconds since the Unix epoch, as chrono's
/// `Utc::now` and `DateTime::timestamp_millis` give it. Nothing is claimed of
/// the value. `Utc::now` stops the program where the system clock stands
/// before 1970.
#[verifier::external_body]
fn now_millis() -> (r: u64) {
    chrono::Utc::now().timestamp_millis() as u64
}

/// The deploy call of a wallet for `public_key`, with the time given.
pub fn prepare_deploy_at(public_key: &PublicKey, state_init: StateInit, expire_at: u32, time: u64) -> (r:
    PreparedCall)
    ensures
        is_deploy_call(r, *public_key, state_init, expire_at, time),
{
    let dst = compute_contract_address(&state_init, DEFAULT_WORKCHAIN);
    let mut owners: Vec<UInt256> = Vec::new();
    owners.push(*public_key);
    proof {
        assert(owners@ =~= seq![*public_key]);
    }
    PreparedCall {
        message: Message { dst, state_init: Some(state_init) },
        function: FunctionCall::Constructor { owners, req_confirms: REQUIRED_CONFIRMATIONS },
        header: CallHeader { time, expire: expire_at, pubkey: *public_key },
        expire_at,
    }
}

/// The deploy call of a wallet for `public_key`, stamped with the time of
/// the call.
pub fn prepare_deploy(public_key: &PublicKey, state_init: StateInit, expire_at: u32) -> (r: PreparedCall)
    ensures
        exists|time: u64| is_deploy_call(r, *public_key, state_init, expire_at, time),
{
    let time = now_millis();
    prepare_deploy_at(public_key, state_init, expire_at, time)
}

/// Plans a transfer against the observed state of the wallet, with the time
/// given. A frozen account is refused; one that is not deployed has to be
/// deployed first, and no call is made up for it.
pub fn prepare_transfer_at(
    public_key: &PublicKey,
    current_state: &AccountStuff,
    destination: Address,
    amount: u64,
    bounce: bool,
    body: Option<Vec<u8>>,
    expire_at: u32,
    time: u64,
) -> (r: Result<TransferAction, MultisigError>)
    ensures
        match current_state.status {
            AccountStatus::Frozen => r == Err::<TransferAction, MultisigError>(
                MultisigError::AccountIsFrozen,
            ),
            AccountStatus::Uninit => r == Ok::<TransferAction, MultisigError>(
                TransferAction::DeployFirst,
            ),
            AccountStatus::Active => r matches Ok(TransferAction::Sign(call)) && is_transfer_call(
                call,
                *public_key,
                current_state.addr,
                destination,
                amount,
                bounce,
                body,
                expire_at,
                time,
            ),
        },
{
    match current_state.status {
        AccountStatus::Frozen => {
            return Err(MultisigError::AccountIsFrozen);
        },
        AccountStatus::Uninit => {
            return Ok(TransferAction::DeployFirst);
        },
        AccountStatus::Active => {},
    }
    let payload = match body {
        Some(bytes) => bytes,
        None => Vec::new(),
    };
    Ok(
        TransferAction::Sign(
            PreparedCall {
                message: Message { dst: current_state.addr, state_init: None },
                function: FunctionCall::SendTransaction {
                    dest: destination,
                    value: amount as u128,
                    bounce,
                    flags: TRANSFER_FLAGS,
                    payload,
                },
                header: CallHeader { time, expire: expire_at, pubkey: *public_key },
                expire_at,
            },
        ),
    )
}

/// Plans a transfer against the observed state of the wallet, stamped with
/// the time of the call.
pub fn prepare_transfer(
    public_key: &PublicKey,
    current_state: &AccountStuff,
    destination: Address,
    amount: u64,
    bounce: bool,
    body: Option<Vec<u8>>,
    expire_at: u32,
) -> (r: Result<TransferAction, MultisigError>)
    ensures
        match current_state.status {
            AccountStatus::Frozen => r == Err::<TransferAction, MultisigError>(
                MultisigError::AccountIsFrozen,
            ),
            AccountStatus::Uninit => r == Ok::<TransferAction, MultisigError>(
                TransferAction::DeployFirst,
            ),
            AccountStatus::Active => r matches Ok(TransferAction::Sign(call)) && exists|time: u64|
                is_transfer_call(
                    call,
                    *public_key,
                    current_state.addr,
                    destination,
                    amount,
                    bounce,
                    body,
                    expire_at,
                    time,
                ),
        },
{
    match current_state.status {
        AccountStatus::Frozen => Err(MultisigError::AccountIsFrozen),
        AccountStatus::Uninit => Ok(TransferAction::DeployFirst),
        AccountStatus::Active => {
            let time = now_millis();
            prepare_transfer_at(
                public_key,
                current_state,
                destination,
                amount,
                bounce,
                body,
                expire_at,
                time,
            )
        },
    }
}

fn copy_bytes(bytes: &Vec<u8>) -> (r: Vec<u8>)
    ensures
        r@ == bytes@,
{
    let mut r: Vec<u8> = Vec::new();
    let mut i: usize = 0;
    while i < bytes.len()
        invariant
            i <= bytes@.len(),
            r@ == bytes@.take(i as int),
        decreases bytes@.len() - i,
    {
        r.push(bytes[i]);
        proof {
            assert(r@ =~= bytes@.take(i + 1));
        }
        i += 1;
    }
    proof {
        assert(bytes@.take(bytes@.len() as int) =~= bytes@);
    }
    r
}

impl Message {
    /// A copy of the skeleton.
    pub fn duplicate(&self) -> (r: Message)
        ensures
            r@ == self@,
    {
        let state_init = match &self.state_init {
            Some(s) => Some(
                StateInit { code: copy_bytes(&s.code), data: copy_bytes(&s.data), hash: s.hash },
            ),
            None => None,
        };
        Message { dst: self.dst, state_init }
    }
}

/// An encoded call that waits for its signature.
#[derive(Debug, PartialEq, Eq)]
pub struct UnsignedMessage {
    hash: Vec<u8>,
    payload: Vec<u8>,
    expire_at: u32,
    message: Message,
}

/// An unsigned message as plain values.
pub struct UnsignedMessageView {
    pub hash: Seq<u8>,
    pub payload: Seq<u8>,
    pub expire_at: u32,
    pub message: MessageView,
}

/// A message with its signature, ready to be sent, and the time at which it
/// expires. The body of the message is the signature followed by the payload.
#[derive(Debug, PartialEq, Eq)]
pub struct SignedMessage {
    pub message: Message,
    pub signature: [u8; 64],
    pub payload: Vec<u8>,
    pub expire_at: u32,
}

/// A signed message as plain values.
pub struct SignedMessageView {
    pub message: MessageView,
    pub signature: Seq<u8>,
    pub payload: Seq<u8>,
    pub expire_at: u32,
}

impl View for SignedMessage {
    type V = SignedMessageView;

    open spec fn view(&self) -> SignedMessageView {
        SignedMessageView {
            message: self.message@,
            signature: self.signature@,
            payload: self.payload@,
            expire_at: self.expire_at,
        }
    }
}

/// The signed message that an unsigned one and a signature make.
pub open spec fn signed_with(unsigned: UnsignedMessageView, signature: Seq<u8>) -> SignedMessageView {
    SignedMessageView {
        message: unsigned.message,
        signature,
        payload: unsigned.payload,
        expire_at: unsigned.expire_at,
    }
}

impl View for UnsignedMessage {
    type V = UnsignedMessageView;

    closed spec fn view(&self) -> UnsignedMessageView {
        UnsignedMessageView {
            hash: self.hash@,
            payload: self.payload@,
            expire_at: self.expire_at,
            message: self.message@,
        }
    }
}

impl UnsignedMessage {
    /// The unsigned message of a prepared call, from the payload that the
    /// call was encoded to and the hash to sign.
    pub fn new(call: PreparedCall, payload: Vec<u8>, hash: Vec<u8>) -> (r: UnsignedMessage)
        ensures
            r@ == (UnsignedMessageView {
                hash: hash@,
                payload: payload@,
                expire_at: call.expire_at,
                message: call.message@,
            }),
    {
        UnsignedMessage { hash, payload, expire_at: call.expire_at, message: call.message }
    }

    /// The hash to sign.
    pub fn hash(&self) -> (r: &[u8])
        ensures
            r@ == self@.hash,
    {
        self.hash.as_slice()
    }

    /// The time at which the message expires, in seconds.
    pub fn expire_at(&self) -> (r: u32)
        ensures
            r == self@.expire_at,
    {
        self.expire_at
    }

    /// The address that the message goes to.
    pub fn destination(&self) -> (r: Address)
        ensures
            r == self@.message.dst,
    {
        self.message.dst
    }

    /// The signed message for `signature`. The unsigned message is left as it
    /// is and may be signed again.
    pub fn sign(&self, signature: &[u8; 64]) -> (r: SignedMessage)
        ensures
            r@ == signed_with(self@, signature@),
    {
        SignedMessage {
            message: self.message.duplicate(),
            signature: *signature,
            payload: copy_bytes(&self.payload),
            expire_at: self.expire_at,
        }
    }
}

/// Signing is a function of the unsigned message and the signature: two
/// signed messages made from the same two are the same, byte for byte, and
/// expire when the unsigned message does.
pub proof fn lemma_sign_is_pure(
    unsigned: UnsignedMessageView,
    signature: Seq<u8>,
    first: SignedMessageView,
    second: SignedMessageView,
)
    requires
        first == signed_with(unsigned, signature),
        second == signed_with(unsigned, signature),
    ensures
        first == second,
        first.payload == unsigned.payload,
        first.signature == signature,
        first.expire_at == unsigned.expire_at,
{
}

} // verus!
