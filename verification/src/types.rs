use vstd::prelude::*;

verus! {

/// Price of one byte of storage on NEAR, in yoctoNEAR (the value of
/// `near_sdk::env::STORAGE_PRICE_PER_BYTE`).
pub const STORAGE_PRICE_PER_BYTE: u128 = 10_000_000_000_000_000_000;

/// Storage a seller must have paid for each listed sale, in yoctoNEAR.
pub const STORAGE_PER_SALE: u128 = 1000 * STORAGE_PRICE_PER_BYTE;

/// One NEAR, in yoctoNEAR.
pub const ONE_NEAR: u128 = 1_000_000_000_000_000_000_000_000;

/// Gas for a read-only call into another contract.
pub const GAS_FOR_CROSS_CONTRACT_CALL: u64 = 5_000_000_000_000;

/// Gas for the token transfer of a purchase.
pub const GAS_FOR_NFT_TRANSFER: u64 = 15_000_000_000_000;

/// Gas for settling the royalties of a purchase.
pub const GAS_FOR_ROYALTIES: u64 = 115_000_000_000_000;

/// Largest number of accounts a payout may pay.
pub const MAX_ROYALTIES_ACCOUNTS: u8 = 10;

/// Memo attached to every token transfer of a purchase.
pub open spec fn purchase_memo() -> Seq<char> {
    seq!['p', 'a', 'y', 'o', 'u', 't', ' ', 'f', 'r', 'o', 'm', ' ', 'E', 'v', 'i', 'e', ' ', 'M', 'a', 'r', 'k', 'e', 't']
}

/// One listing: a token offered for sale at a fixed price.
#[derive(Debug, PartialEq, Eq)]
pub struct Sale {
    /// Account that listed the token.
    pub owner_id: String,
    /// Approval the token contract gave this market for the token.
    pub approval_id: u64,
    /// Contract where the token was minted.
    pub nft_contract_id: String,
    /// The token.
    pub token_id: String,
    /// Price in yoctoNEAR.
    pub sale_conditions: u128,
}

impl Sale {
    /// A copy of the sale.
    pub fn duplicate(&self) -> (r: Sale)
        ensures
            r == *self,
    {
        Sale {
            owner_id: self.owner_id.clone(),
            approval_id: self.approval_id,
            nft_contract_id: self.nft_contract_id.clone(),
            token_id: self.token_id.clone(),
            sale_conditions: self.sale_conditions,
        }
    }
}

/// The terms a token owner sends along with an approval.
#[derive(Debug, PartialEq, Eq, Clone, Copy)]
pub struct SaleArgs {
    /// Price in yoctoNEAR.
    pub sale_conditions: u128,
}

/// What a token contract reports it will pay, per account, for a purchase.
#[derive(Debug, PartialEq, Eq)]
pub struct Payout {
    pub payout: Vec<(String, u128)>,
}

/// A token that a user keeps in the shopping cart.
#[derive(Debug, PartialEq, Eq)]
pub struct CartItem {
    pub token_id: String,
    pub contract_id: String,
}

impl View for CartItem {
    type V = (Seq<char>, Seq<char>);

    open spec fn view(&self) -> (Seq<char>, Seq<char>) {
        (self.token_id@, self.contract_id@)
    }
}

impl CartItem {
    /// A copy of the item.
    pub fn duplicate(&self) -> (r: CartItem)
        ensures
            r == *self,
    {
        CartItem { token_id: self.token_id.clone(), contract_id: self.contract_id.clone() }
    }

    /// Whether two items name the same token of the same contract.
    pub fn same_as(&self, other: &CartItem) -> (r: bool)
        ensures
            r == (self@ == other@),
    {
        self.token_id == other.token_id && self.contract_id == other.contract_id
    }
}

/// An education form, stored as the text it was submitted with.
#[derive(Debug, PartialEq, Eq)]
pub struct EduForm {
    pub content: String,
}

impl EduForm {
    /// A copy of the form.
    pub fn duplicate(&self) -> (r: EduForm)
        ensures
            r == *self,
    {
        EduForm { content: self.content.clone() }
    }
}

/// A form together with the number it is stored under.
#[derive(Debug, PartialEq, Eq)]
pub struct EduFormWithId {
    pub id: u32,
    pub form: EduForm,
}

/// A payment of `amount` yoctoNEAR to `receiver_id`.
#[derive(Debug, PartialEq, Eq)]
pub struct Transfer {
    pub receiver_id: String,
    pub amount: u128,
}

/// The calls a purchase makes: the token contract transfers the token and
/// reports a payout, then this contract settles the purchase.
#[derive(Debug, PartialEq, Eq)]
pub struct PurchaseCall {
    /// Token contract that is called.
    pub nft_contract_id: String,
    /// Buyer, who receives the token.
    pub receiver_id: String,
    pub token_id: String,
    pub approval_id: u64,
    pub memo: String,
    /// Amount the buyer paid, which the payout divides.
    pub balance: u128,
    pub max_len_payout: u32,
    /// Deposit attached to the transfer call.
    pub attached_deposit: u128,
    /// Gas attached to the transfer call.
    pub transfer_gas: u64,
    /// Gas attached to the settling call.
    pub resolve_gas: u64,
}

/// A purchase of a token series on another marketplace.
#[derive(Debug, PartialEq, Eq)]
pub struct NftBuyCall {
    pub contract_id: String,
    pub token_series_id: String,
    pub attached_deposit: u128,
    pub gas: u64,
}

/// Why a purchase was refunded rather than paid out, where a log line says so.
#[derive(Debug, PartialEq, Eq, Clone, Copy, Structural)]
pub enum RefundNote {
    /// The payout was empty or named more accounts than allowed.
    PayoutSize,
    /// The payout left more than one yoctoNEAR of the price unpaid.
    PayoutRemainder,
}

/// How a purchase is settled: the transfers to make, the log line to write,
/// and the value the settling call returns.
#[derive(Debug, PartialEq, Eq)]
pub struct Settlement {
    pub transfers: Vec<Transfer>,
    pub note: Option<RefundNote>,
    pub returned: u128,
}

/// Why a call is refused. A refused call changes nothing.
#[derive(Debug, PartialEq, Eq, Clone, Copy, Structural)]
pub enum ContractError {
    /// A storage deposit below the storage of one sale.
    DepositBelowStorageMinimum,
    /// A call that needs exactly one yoctoNEAR attached.
    RequiresOneYocto,
    /// An amount or a count outside its integer type.
    ArithmeticOverflow,
    /// No sale under the given contract and token.
    NoSaleFound,
    /// No sales recorded for the sale's owner.
    NoSalesByOwner,
    /// No sales recorded for the token contract.
    NoSalesByNftContract,
    /// Only the owner of a sale can remove it.
    OnlyOwnerCanRemoveSale,
    /// Only the owner of a sale can change its price.
    OnlyOwnerCanUpdatePrice,
    /// An offer with no deposit.
    ZeroDeposit,
    /// An offer on one's own sale.
    OfferOnOwnSale,
    /// An offer below the price.
    DepositBelowPrice { price: u128 },
    /// An approval that did not come through another contract.
    NotCrossContractCall,
    /// An approval whose signer does not own the token.
    SignerNotTokenOwner,
    /// An owner whose storage deposit does not cover one more sale: what it
    /// paid, and what its sales with the new one need.
    InsufficientStorage { paid: u128, required: u128 },
    /// Sale terms that could not be read.
    InvalidSaleArgs,
    /// A method that only this contract may call.
    PrivateMethod,
    /// A callback that found no result of the call it follows.
    MissingPromiseResult,
    /// A callback whose result could not be read.
    InvalidPromiseResult,
    /// A listing that names a sale no longer present.
    MissingSale,
    /// An account that already is an administrator.
    AlreadyAdmin,
    /// An account that is not an administrator.
    NotAdmin,
    /// Only the owner can add administrators.
    OnlyOwnerCanAddAdmins,
    /// Only the owner can remove administrators.
    OnlyOwnerCanRemoveAdmins,
    /// Only the owner can hand over the contract.
    OnlyOwnerCanChangeOwner,
    /// Only administrators or the owner can add forms.
    OnlyAdminsOrOwnerCanAddForms,
    /// Only administrators or the owner can remove forms.
    OnlyAdminsOrOwnerCanRemoveForms,
    /// Only administrators or the owner can update forms.
    OnlyAdminsOrOwnerCanUpdateForms,
    /// Only the owner can clear the forms.
    OnlyOwnerCanClearForms,
    /// No form under the given number.
    FormNotFound,
    /// A purchase elsewhere whose deposit does not cover the price and one NEAR.
    DepositBelowPricePlusOneNear,
}

} // verus!
