use evie_market::contract::Contract;
use evie_market::internal::sale_id;
use evie_market::marketplace_calls::{MarketplaceCallback, MarketplaceMethod};
use evie_market::types::{
    ContractError, Payout, RefundNote, SaleArgs, Transfer, GAS_FOR_CROSS_CONTRACT_CALL,
    GAS_FOR_NFT_TRANSFER, GAS_FOR_ROYALTIES,
    ONE_NEAR, STORAGE_PER_SALE,
};

fn s(x: &str) -> String {
    x.to_string()
}

fn market() -> Contract {
    Contract::new(s("owner.near"))
}

/// A market where `seller` has paid storage for `sales` sales.
fn market_with_storage(seller: &str, sales: u128) -> Contract {
    let mut c = market();
    c.storage_deposit(Some(s(seller)), s("anyone.near"), STORAGE_PER_SALE * sales).unwrap();
    c
}

fn args(price: u128) -> Option<SaleArgs> {
    Some(SaleArgs { sale_conditions: price })
}

#[test]
fn storage_per_sale_is_ten_millinear() {
    assert_eq!(STORAGE_PER_SALE, 10_000_000_000_000_000_000_000);
    assert_eq!(market().storage_minimum_balance(), STORAGE_PER_SALE);
}

#[test]
fn new_market_is_empty() {
    let c = market();
    assert_eq!(c.view_owner(), s("owner.near"));
    assert_eq!(c.get_supply_sales(), 0);
    assert_eq!(c.get_supply_by_owner_id(&s("alice.near")), 0);
    assert_eq!(c.get_supply_by_nft_contract_id(&s("nft.near")), 0);
    assert_eq!(c.storage_balance_of(&s("alice.near")), 0);
    assert!(c.view_admins().is_empty());
    assert_eq!(c.get_forms_count(), 0);
}

#[test]
fn storage_deposit_below_minimum_is_refused() {
    let mut c = market();
    let r = c.storage_deposit(None, s("alice.near"), STORAGE_PER_SALE - 1);
    assert_eq!(r, Err(ContractError::DepositBelowStorageMinimum));
    assert_eq!(c.storage_balance_of(&s("alice.near")), 0);
}

#[test]
fn storage_deposit_adds_to_caller_or_named_account() {
    let mut c = market();
    c.storage_deposit(None, s("alice.near"), STORAGE_PER_SALE).unwrap();
    c.storage_deposit(None, s("alice.near"), 2 * STORAGE_PER_SALE).unwrap();
    c.storage_deposit(Some(s("bob.near")), s("alice.near"), STORAGE_PER_SALE).unwrap();
    assert_eq!(c.storage_balance_of(&s("alice.near")), 3 * STORAGE_PER_SALE);
    assert_eq!(c.storage_balance_of(&s("bob.near")), STORAGE_PER_SALE);
}

#[test]
fn storage_deposit_overflow_is_refused() {
    let mut c = market();
    c.storage_deposit(None, s("alice.near"), u128::MAX).unwrap();
    let r = c.storage_deposit(None, s("alice.near"), STORAGE_PER_SALE);
    assert_eq!(r, Err(ContractError::ArithmeticOverflow));
    assert_eq!(c.storage_balance_of(&s("alice.near")), u128::MAX);
}

#[test]
fn storage_withdraw_needs_one_yocto() {
    let mut c = market_with_storage("alice.near", 1);
    assert_eq!(c.storage_withdraw(s("alice.near"), 0), Err(ContractError::RequiresOneYocto));
    assert_eq!(c.storage_withdraw(s("alice.near"), 2), Err(ContractError::RequiresOneYocto));
    assert_eq!(c.storage_balance_of(&s("alice.near")), STORAGE_PER_SALE);
}

#[test]
fn storage_withdraw_without_sales_returns_everything() {
    let mut c = market_with_storage("alice.near", 3);
    let r = c.storage_withdraw(s("alice.near"), 1).unwrap();
    assert_eq!(r, Some(Transfer { receiver_id: s("alice.near"), amount: 3 * STORAGE_PER_SALE }));
    assert_eq!(c.storage_balance_of(&s("alice.near")), 0);
    // Nothing left: no transfer at all.
    assert_eq!(c.storage_withdraw(s("alice.near"), 1).unwrap(), None);
}

/// Lists token `x` of contract `contract` for `seller`, who pays for it first.
fn list_via(c: &mut Contract, seller: &str, contract: &str, token: &str, price: u128) {
    c.storage_deposit(Some(s(seller)), s(seller), 10 * STORAGE_PER_SALE).unwrap();
    c.nft_on_approve(s(token), s(seller), 1, args(price), s(contract), s(seller)).unwrap();
}

#[test]
fn storage_withdraw_keeps_what_listed_sales_use() {
    let mut c = market();
    c.storage_deposit(None, s("alice.near"), 3 * STORAGE_PER_SALE).unwrap();
    c.nft_on_approve(s("t1"), s("alice.near"), 1, args(5), s("nft.near"), s("alice.near")).unwrap();
    assert_eq!(c.get_supply_by_owner_id(&s("alice.near")), 1);
    let r = c.storage_withdraw(s("alice.near"), 1).unwrap();
    assert_eq!(r, Some(Transfer { receiver_id: s("alice.near"), amount: 2 * STORAGE_PER_SALE }));
    assert_eq!(c.storage_balance_of(&s("alice.near")), STORAGE_PER_SALE);
    // Exactly what is used: nothing to send, and the balance stays.
    assert_eq!(c.storage_withdraw(s("alice.near"), 1).unwrap(), None);
    assert_eq!(c.storage_balance_of(&s("alice.near")), STORAGE_PER_SALE);
    // The token contract listed nothing and paid nothing: nothing to return.
    assert_eq!(c.storage_withdraw(s("nft.near"), 1).unwrap(), None);
}

#[test]
fn approval_refusals() {
    let mut c = market_with_storage("alice.near", 1);
    assert_eq!(
        c.nft_on_approve(s("t"), s("alice.near"), 1, args(10), s("alice.near"), s("alice.near")),
        Err(ContractError::NotCrossContractCall)
    );
    assert_eq!(
        c.nft_on_approve(s("t"), s("bob.near"), 1, args(10), s("nft.near"), s("alice.near")),
        Err(ContractError::SignerNotTokenOwner)
    );
    assert_eq!(
        c.nft_on_approve(s("t"), s("carol.near"), 1, args(10), s("nft.near"), s("carol.near")),
        Err(ContractError::InsufficientStorage { paid: 0, required: STORAGE_PER_SALE })
    );
    assert_eq!(
        c.nft_on_approve(s("t"), s("alice.near"), 1, None, s("nft.near"), s("alice.near")),
        Err(ContractError::InvalidSaleArgs)
    );
    assert_eq!(c.get_supply_sales(), 0);
}

#[test]
fn approval_lists_the_sale() {
    let mut c = market_with_storage("alice.near", 2);
    c.nft_on_approve(s("t1"), s("alice.near"), 7, args(100), s("nft.near"), s("alice.near"))
        .unwrap();
    let sale = c.get_sale(&s("nft.near.t1")).unwrap();
    assert_eq!(sale.owner_id, s("alice.near"));
    assert_eq!(sale.approval_id, 7);
    assert_eq!(sale.nft_contract_id, s("nft.near"));
    assert_eq!(sale.token_id, s("t1"));
    assert_eq!(sale.sale_conditions, 100);
    assert_eq!(c.get_supply_sales(), 1);
    assert_eq!(c.get_supply_by_nft_contract_id(&s("nft.near")), 1);
    // The sale key is filed under its owner.
    assert_eq!(c.get_supply_by_owner_id(&s("alice.near")), 1);
    assert_eq!(c.get_supply_by_owner_id(&s("nft.near")), 0);
    let listed = c.get_sales_by_owner_id(&s("alice.near"), None, Some(5)).unwrap();
    assert_eq!(listed.len(), 1);
    assert_eq!(listed[0].token_id, s("t1"));
}

#[test]
fn approval_checks_storage_against_listed_sales() {
    let mut c = market();
    c.storage_deposit(None, s("alice.near"), STORAGE_PER_SALE).unwrap();
    c.nft_on_approve(s("t1"), s("alice.near"), 3, args(500), s("nft.near"), s("alice.near")).unwrap();
    // One sale paid for, one listed: a second listing needs twice the storage.
    assert_eq!(
        c.nft_on_approve(s("t2"), s("alice.near"), 4, args(500), s("nft.near"), s("alice.near")),
        Err(ContractError::InsufficientStorage { paid: STORAGE_PER_SALE, required: 2 * STORAGE_PER_SALE })
    );
    assert!(c.get_sale(&s("nft.near.t2")).is_none());
    assert_eq!(c.get_supply_sales(), 1);
    assert_eq!(c.storage_balance_of(&s("alice.near")), STORAGE_PER_SALE);
    // Relisting the same token needs the same storage and changes its terms.
    assert_eq!(
        c.nft_on_approve(s("t1"), s("alice.near"), 5, args(700), s("nft.near"), s("alice.near")),
        Err(ContractError::InsufficientStorage { paid: STORAGE_PER_SALE, required: 2 * STORAGE_PER_SALE })
    );
    c.storage_deposit(None, s("alice.near"), STORAGE_PER_SALE).unwrap();
    c.nft_on_approve(s("t2"), s("alice.near"), 4, args(500), s("nft.near"), s("alice.near")).unwrap();
    assert_eq!(c.get_supply_by_owner_id(&s("alice.near")), 2);
    assert_eq!(c.get_supply_by_nft_contract_id(&s("nft.near")), 2);
}

#[test]
fn sale_keys_join_contract_and_token_with_a_dot() {
    assert_eq!(sale_id(&s("nft.near"), &s("42")), s("nft.near.42"));
    assert_eq!(sale_id(&s(""), &s("")), s("."));
}

#[test]
fn listing_then_removing_is_a_round_trip() {
    let mut c = market_with_storage("alice.near", 1);
    c.nft_on_approve(s("t1"), s("alice.near"), 3, args(5), s("nft.near"), s("alice.near"))
        .unwrap();
    let sale = c.remove_sale(s("nft.near"), s("t1"), s("alice.near"), 1).unwrap();
    assert_eq!(sale.owner_id, s("alice.near"));
    assert_eq!(sale.approval_id, 3);
    assert_eq!(sale.sale_conditions, 5);
    assert!(c.get_sale(&s("nft.near.t1")).is_none());
    assert_eq!(c.get_supply_sales(), 0);
    assert_eq!(c.get_supply_by_owner_id(&s("alice.near")), 0);
    assert_eq!(c.get_supply_by_nft_contract_id(&s("nft.near")), 0);
    assert_eq!(c.storage_balance_of(&s("alice.near")), STORAGE_PER_SALE);
}

/// A market where alice lists `t1` of nft.near at 100, next to carol's
/// listing of `x` of nft.near.
fn removable_listing() -> Contract {
    let mut c = market();
    list_via(&mut c, "carol.near", "nft.near", "x", 5);
    list_via(&mut c, "alice.near", "nft.near", "t1", 100);
    c
}

#[test]
fn remove_sale_refusals_and_success() {
    let mut c = removable_listing();
    assert_eq!(
        c.remove_sale(s("nft.near"), s("t1"), s("alice.near"), 0),
        Err(ContractError::RequiresOneYocto)
    );
    assert_eq!(
        c.remove_sale(s("nft.near"), s("nope"), s("alice.near"), 1),
        Err(ContractError::NoSaleFound)
    );
    assert_eq!(
        c.remove_sale(s("nft.near"), s("t1"), s("bob.near"), 1),
        Err(ContractError::OnlyOwnerCanRemoveSale)
    );
    assert_eq!(c.get_supply_sales(), 2);
    let sale = c.remove_sale(s("nft.near"), s("t1"), s("alice.near"), 1).unwrap();
    assert_eq!(sale.sale_conditions, 100);
    assert_eq!(c.get_supply_sales(), 1);
    assert!(c.get_sale(&s("nft.near.t1")).is_none());
    assert_eq!(c.get_supply_by_nft_contract_id(&s("nft.near")), 1);
    assert_eq!(c.get_supply_by_owner_id(&s("alice.near")), 0);
    assert_eq!(c.get_supply_by_owner_id(&s("carol.near")), 1);
    let rest = c.get_sales_by_nft_contract_id(&s("nft.near"), None, Some(5)).unwrap();
    assert_eq!(rest.len(), 1);
    assert_eq!(rest[0].token_id, s("x"));
}

#[test]
fn update_price_cases() {
    let mut c = market_with_storage("alice.near", 1);
    c.nft_on_approve(s("t1"), s("alice.near"), 0, args(5), s("nft.near"), s("alice.near"))
        .unwrap();
    assert_eq!(
        c.update_price(s("nft.near"), s("t1"), 9, s("alice.near"), 0),
        Err(ContractError::RequiresOneYocto)
    );
    assert_eq!(
        c.update_price(s("nft.near"), s("t2"), 9, s("alice.near"), 1),
        Err(ContractError::NoSaleFound)
    );
    assert_eq!(
        c.update_price(s("nft.near"), s("t1"), 9, s("bob.near"), 1),
        Err(ContractError::OnlyOwnerCanUpdatePrice)
    );
    assert_eq!(c.get_sale(&s("nft.near.t1")).unwrap().sale_conditions, 5);
    c.update_price(s("nft.near"), s("t1"), 9, s("alice.near"), 1).unwrap();
    assert_eq!(c.get_sale(&s("nft.near.t1")).unwrap().sale_conditions, 9);
}

#[test]
fn offer_refusals() {
    let mut c = market_with_storage("alice.near", 1);
    c.nft_on_approve(s("t1"), s("alice.near"), 0, args(100), s("nft.near"), s("alice.near"))
        .unwrap();
    assert_eq!(c.offer(s("nft.near"), s("t1"), s("bob.near"), 0), Err(ContractError::ZeroDeposit));
    assert_eq!(c.offer(s("nft.near"), s("t9"), s("bob.near"), 100), Err(ContractError::NoSaleFound));
    assert_eq!(
        c.offer(s("nft.near"), s("t1"), s("alice.near"), 100),
        Err(ContractError::OfferOnOwnSale)
    );
    assert_eq!(
        c.offer(s("nft.near"), s("t1"), s("bob.near"), 99),
        Err(ContractError::DepositBelowPrice { price: 100 })
    );
    assert!(c.get_sale(&s("nft.near.t1")).is_some());
}

#[test]
fn offer_buys_a_fresh_listing() {
    let mut c = market();
    c.storage_deposit(None, s("alice.near"), STORAGE_PER_SALE).unwrap();
    c.nft_on_approve(s("t1"), s("alice.near"), 3, args(500), s("nft.near"), s("alice.near")).unwrap();
    let call = c.offer(s("nft.near"), s("t1"), s("bob.near"), 600).unwrap();
    assert_eq!(call.nft_contract_id, s("nft.near"));
    assert_eq!(call.receiver_id, s("bob.near"));
    assert_eq!(call.token_id, s("t1"));
    assert_eq!(call.approval_id, 3);
    assert_eq!(call.memo, s("payout from Evie Market"));
    assert_eq!(call.balance, 600);
    assert_eq!(call.max_len_payout, 10);
    assert!(c.get_sale(&s("nft.near.t1")).is_none());
    assert_eq!(c.get_supply_sales(), 0);
    assert_eq!(c.get_supply_by_nft_contract_id(&s("nft.near")), 0);
    assert_eq!(c.get_supply_by_owner_id(&s("alice.near")), 0);
}

#[test]
fn offer_buys_the_sale() {
    let mut c = removable_listing();
    let call = c.offer(s("nft.near"), s("t1"), s("bob.near"), 150).unwrap();
    assert_eq!(call.nft_contract_id, s("nft.near"));
    assert_eq!(call.receiver_id, s("bob.near"));
    assert_eq!(call.token_id, s("t1"));
    assert_eq!(call.approval_id, 1);
    assert_eq!(call.memo, s("payout from Evie Market"));
    assert_eq!(call.balance, 150);
    assert_eq!(call.max_len_payout, 10);
    assert_eq!(call.attached_deposit, 1);
    assert_eq!(call.transfer_gas, GAS_FOR_NFT_TRANSFER);
    assert_eq!(call.resolve_gas, GAS_FOR_ROYALTIES);
    assert!(c.get_sale(&s("nft.near.t1")).is_none());
    assert_eq!(c.offer(s("nft.near"), s("t1"), s("bob.near"), 150), Err(ContractError::NoSaleFound));
}

#[test]
fn process_purchase_removes_the_sale() {
    let mut c = removable_listing();
    let call = c
        .process_purchase(s("nft.near"), s("t1"), 7, s("bob.near"), s("m.near"), s("m.near"))
        .unwrap();
    assert_eq!(call.balance, 7);
    assert_eq!(call.receiver_id, s("bob.near"));
    assert!(c.get_sale(&s("nft.near.t1")).is_none());
}

#[test]
fn process_purchase_is_private() {
    let mut c = market();
    assert_eq!(
        c.process_purchase(s("nft.near"), s("t"), 1, s("bob.near"), s("bob.near"), s("market.near")),
        Err(ContractError::PrivateMethod)
    );
    assert_eq!(
        c.process_purchase(s("nft.near"), s("t"), 1, s("bob.near"), s("market.near"), s("market.near")),
        Err(ContractError::NoSaleFound)
    );
}

fn payout(entries: &[(&str, u128)]) -> Option<Payout> {
    Some(Payout { payout: entries.iter().map(|(a, v)| (s(a), *v)).collect() })
}

fn refund(amount: u128) -> Vec<Transfer> {
    vec![Transfer { receiver_id: s("bob.near"), amount }]
}

fn resolve(p: Option<Payout>, price: u128) -> evie_market::types::Settlement {
    market()
        .resolve_purchase(s("bob.near"), price, p, s("market.near"), s("market.near"))
        .unwrap()
}

#[test]
fn resolve_purchase_is_private() {
    let r = market().resolve_purchase(s("bob.near"), 10, None, s("x.near"), s("market.near"));
    assert_eq!(r, Err(ContractError::PrivateMethod));
}

#[test]
fn resolve_purchase_refunds_without_payout() {
    let st = resolve(None, 100);
    assert_eq!(st.transfers, refund(100));
    assert_eq!(st.note, None);
    assert_eq!(st.returned, 100);
}

#[test]
fn resolve_purchase_refunds_empty_or_long_payouts() {
    let st = resolve(payout(&[]), 100);
    assert_eq!(st.transfers, refund(100));
    assert_eq!(st.note, Some(RefundNote::PayoutSize));
    let many: Vec<(String, u128)> = (0..11).map(|i| (format!("a{}.near", i), 1)).collect();
    let st = resolve(Some(Payout { payout: many }), 11);
    assert_eq!(st.transfers, refund(11));
    assert_eq!(st.note, Some(RefundNote::PayoutSize));
}

#[test]
fn resolve_purchase_refunds_overpaying_payouts() {
    let st = resolve(payout(&[("a.near", 60), ("b.near", 50)]), 100);
    assert_eq!(st.transfers, refund(100));
    assert_eq!(st.note, None);
}

#[test]
fn resolve_purchase_refunds_underpaying_payouts() {
    let st = resolve(payout(&[("a.near", 60), ("b.near", 38)]), 100);
    assert_eq!(st.transfers, refund(100));
    assert_eq!(st.note, Some(RefundNote::PayoutRemainder));
    assert_eq!(st.returned, 100);
}

#[test]
fn resolve_purchase_pays_out_exact_and_off_by_one() {
    let st = resolve(payout(&[("a.near", 60), ("b.near", 40)]), 100);
    assert_eq!(
        st.transfers,
        vec![
            Transfer { receiver_id: s("a.near"), amount: 60 },
            Transfer { receiver_id: s("b.near"), amount: 40 },
        ]
    );
    assert_eq!(st.note, None);
    let st = resolve(payout(&[("a.near", 60), ("b.near", 39)]), 100);
    assert_eq!(st.transfers.len(), 2);
    assert_eq!(st.transfers.iter().map(|t| t.amount).sum::<u128>(), 99);
    let ten: Vec<(String, u128)> = (0..10).map(|i| (format!("a{}.near", i), 10)).collect();
    let st = resolve(Some(Payout { payout: ten }), 100);
    assert_eq!(st.transfers.len(), 10);
    assert_eq!(st.returned, 100);
}

#[test]
fn sales_by_nft_contract_are_paged() {
    let mut c = market_with_storage("alice.near", 10);
    for t in ["a", "b", "c", "d"] {
        c.nft_on_approve(s(t), s("alice.near"), 0, args(1), s("nft.near"), s("alice.near"))
            .unwrap();
    }
    let ids = |v: Vec<evie_market::types::Sale>| v.into_iter().map(|x| x.token_id).collect::<Vec<_>>();
    assert!(c.get_sales_by_nft_contract_id(&s("nft.near"), None, None).unwrap().is_empty());
    assert_eq!(ids(c.get_sales_by_nft_contract_id(&s("nft.near"), None, Some(10)).unwrap()), vec!["a", "b", "c", "d"]);
    assert_eq!(ids(c.get_sales_by_nft_contract_id(&s("nft.near"), Some(1), Some(2)).unwrap()), vec!["b", "c"]);
    assert!(c.get_sales_by_nft_contract_id(&s("nft.near"), Some(9), Some(2)).unwrap().is_empty());
    assert!(c.get_sales_by_nft_contract_id(&s("other.near"), None, Some(2)).unwrap().is_empty());
    assert_eq!(ids(c.get_sales_by_owner_id(&s("alice.near"), Some(3), Some(5)).unwrap()), vec!["d"]);
    assert_eq!(ids(c.get_sales_by_owner_id(&s("alice.near"), None, Some(2)).unwrap()), vec!["a", "b"]);
    assert!(c.get_sales_by_owner_id(&s("nft.near"), None, Some(5)).unwrap().is_empty());
}

#[test]
fn colliding_sale_keys_leave_a_missing_sale() {
    // "a" + "." + "b.c" and "a.b" + "." + "c" are the same key.
    let mut c = market_with_storage("alice.near", 10);
    c.nft_on_approve(s("b.c"), s("alice.near"), 0, args(1), s("a"), s("alice.near")).unwrap();
    c.nft_on_approve(s("c"), s("alice.near"), 0, args(2), s("a.b"), s("alice.near")).unwrap();
    assert_eq!(c.get_supply_sales(), 1);
    assert_eq!(c.get_sale(&s("a.b.c")).unwrap().nft_contract_id, s("a.b"));
    // Listing under "a" now shows the sale stored by "a.b".
    let v = c.get_sales_by_nft_contract_id(&s("a"), None, Some(5)).unwrap();
    assert_eq!(v.len(), 1);
    assert_eq!(v[0].sale_conditions, 2);
    // Removing through "a" takes away the "a.b" sale, whose token stays
    // listed under "a.b" and now names a missing sale.
    c.remove_sale(s("a"), s("b.c"), s("alice.near"), 1).unwrap();
    assert_eq!(
        c.get_sales_by_nft_contract_id(&s("a.b"), None, Some(5)),
        Err(ContractError::MissingSale)
    );
}

#[test]
fn admins_are_managed_by_the_owner() {
    let mut c = market();
    assert_eq!(c.add_admin(s("a.near"), s("x.near")), Err(ContractError::OnlyOwnerCanAddAdmins));
    c.add_admin(s("a.near"), s("owner.near")).unwrap();
    assert_eq!(c.add_admin(s("a.near"), s("owner.near")), Err(ContractError::AlreadyAdmin));
    assert_eq!(c.add_admin(s("a.near"), s("x.near")), Err(ContractError::AlreadyAdmin));
    assert!(c.is_admin(&s("a.near")));
    assert!(!c.is_admin(&s("b.near")));
    assert!(c.is_owner(&s("owner.near")));
    assert!(!c.is_owner(&s("a.near")));
    assert_eq!(c.remove_admin(s("b.near"), s("owner.near")), Err(ContractError::NotAdmin));
    assert_eq!(c.remove_admin(s("a.near"), s("x.near")), Err(ContractError::OnlyOwnerCanRemoveAdmins));
    c.remove_admin(s("a.near"), s("owner.near")).unwrap();
    assert!(!c.is_admin(&s("a.near")));
}

#[test]
fn admin_removal_moves_the_last_into_place() {
    let mut c = market();
    c.add_admins(vec![s("a"), s("b"), s("c"), s("d")], s("owner.near")).unwrap();
    assert_eq!(c.view_admins(), vec![s("a"), s("b"), s("c"), s("d")]);
    c.remove_admin(s("b"), s("owner.near")).unwrap();
    assert_eq!(c.view_admins(), vec![s("a"), s("d"), s("c")]);
}

#[test]
fn add_admins_is_all_or_nothing() {
    let mut c = market();
    assert_eq!(
        c.add_admins(vec![s("a")], s("x.near")),
        Err(ContractError::OnlyOwnerCanAddAdmins)
    );
    assert_eq!(
        c.add_admins(vec![s("a"), s("b"), s("a")], s("owner.near")),
        Err(ContractError::AlreadyAdmin)
    );
    assert!(c.view_admins().is_empty());
    c.add_admins(vec![s("a"), s("b")], s("owner.near")).unwrap();
    assert_eq!(c.view_admins(), vec![s("a"), s("b")]);
    c.add_admins(vec![], s("owner.near")).unwrap();
    assert_eq!(c.view_admins().len(), 2);
}

#[test]
fn remove_admins_is_all_or_nothing() {
    let mut c = market();
    c.add_admins(vec![s("a"), s("b"), s("c")], s("owner.near")).unwrap();
    assert_eq!(
        c.remove_admins(vec![s("a")], s("x.near")),
        Err(ContractError::OnlyOwnerCanRemoveAdmins)
    );
    assert_eq!(
        c.remove_admins(vec![s("a"), s("a")], s("owner.near")),
        Err(ContractError::NotAdmin)
    );
    assert_eq!(c.view_admins(), vec![s("a"), s("b"), s("c")]);
    c.remove_admins(vec![s("a"), s("c")], s("owner.near")).unwrap();
    assert_eq!(c.view_admins(), vec![s("b")]);
}

#[test]
fn change_owner_by_owner_only() {
    let mut c = market();
    assert_eq!(
        c.change_owner(s("new.near"), s("x.near")),
        Err(ContractError::OnlyOwnerCanChangeOwner)
    );
    c.change_owner(s("new.near"), s("owner.near")).unwrap();
    assert_eq!(c.view_owner(), s("new.near"));
    assert!(c.is_owner(&s("new.near")));
}

fn item(t: &str, c: &str) -> evie_market::types::CartItem {
    evie_market::types::CartItem { token_id: s(t), contract_id: s(c) }
}

#[test]
fn cart_add_remove_clear() {
    let mut c = market();
    assert!(c.get_cart_items(&s("u")).is_empty());
    c.add_item(s("u"), item("t1", "m.near"));
    c.add_item(s("u"), item("t2", "m.near"));
    c.add_item(s("u"), item("t1", "m.near"));
    c.add_item(s("u"), item("t1", "other.near"));
    assert_eq!(c.get_cart_items(&s("u")).len(), 4);
    c.remove_item(s("u"), item("t1", "m.near"));
    assert_eq!(c.get_cart_items(&s("u")), vec![item("t2", "m.near"), item("t1", "other.near")]);
    c.remove_item(s("v"), item("t1", "m.near"));
    assert!(c.get_cart_items(&s("v")).is_empty());
    assert_eq!(c.get_cart_total(&s("u")), 0);
    c.clear_cart(&s("u"));
    assert!(c.get_cart_items(&s("u")).is_empty());
}

#[test]
fn forms_need_admin_or_owner() {
    let mut c = market();
    let f = |x: &str| evie_market::types::EduForm { content: s(x) };
    assert_eq!(c.add_form(f("x"), s("x.near")), Err(ContractError::OnlyAdminsOrOwnerCanAddForms));
    c.add_form(f("first"), s("owner.near")).unwrap();
    c.add_admin(s("adm.near"), s("owner.near")).unwrap();
    c.add_form(f("second"), s("adm.near")).unwrap();
    assert_eq!(c.get_forms_count(), 2);
    assert_eq!(c.get_form_by_id(1).unwrap().form, f("second"));
    assert_eq!(c.update_form(1, f("z"), s("x.near")), Err(ContractError::OnlyAdminsOrOwnerCanUpdateForms));
    c.update_form(1, f("changed"), s("adm.near")).unwrap();
    assert_eq!(c.get_form_by_id(1).unwrap().form, f("changed"));
    assert_eq!(c.remove_form(0, s("x.near")), Err(ContractError::OnlyAdminsOrOwnerCanRemoveForms));
    c.remove_form(0, s("adm.near")).unwrap();
    assert_eq!(c.get_form_by_id(0), Err(ContractError::FormNotFound));
    // Numbers are not reused.
    c.add_form(f("third"), s("owner.near")).unwrap();
    assert_eq!(c.get_form_by_id(2).unwrap().id, 2);
    assert_eq!(c.remove_all_forms(s("adm.near")), Err(ContractError::OnlyOwnerCanClearForms));
    c.remove_all_forms(s("owner.near")).unwrap();
    assert_eq!(c.get_forms_count(), 0);
    c.add_form(f("fourth"), s("owner.near")).unwrap();
    assert_eq!(c.get_form_by_id(3).unwrap().form, f("fourth"));
}

#[test]
fn forms_are_paged_in_stored_order() {
    let mut c = market();
    for i in 0..60 {
        c.add_form(evie_market::types::EduForm { content: format!("f{}", i) }, s("owner.near")).unwrap();
    }
    assert_eq!(c.get_forms(None, None).len(), 50);
    let page = c.get_forms(Some(58), Some(10));
    assert_eq!(page.iter().map(|x| x.id).collect::<Vec<_>>(), vec![58, 59]);
    c.remove_form(0, s("owner.near")).unwrap();
    let page = c.get_forms(Some(0), Some(2));
    assert_eq!(page.iter().map(|x| x.id).collect::<Vec<_>>(), vec![59, 1]);
    assert!(c.get_forms(Some(100), None).is_empty());
}

#[test]
fn form_number_overflow_is_refused() {
    let mut c = market();
    c.edu_form_number = u32::MAX;
    let r = c.add_form(evie_market::types::EduForm { content: s("x") }, s("owner.near"));
    assert_eq!(r, Err(ContractError::ArithmeticOverflow));
    assert_eq!(c.get_forms_count(), 0);
}

#[test]
fn buy_from_other_marketplaces_cases() {
    let mut c = market();
    c.add_item(s("u"), item("t1", ""));
    c.add_item(s("u"), item("t2", "paras.near"));
    c.add_item(s("u"), item("t2", "other.near"));
    assert_eq!(
        c.buy_from_other_marketplaces(&s("u"), s("t2"), 5, 5 + ONE_NEAR - 1),
        Err(ContractError::DepositBelowPricePlusOneNear)
    );
    assert_eq!(
        c.buy_from_other_marketplaces(&s("u"), s("t2"), u128::MAX, u128::MAX),
        Err(ContractError::ArithmeticOverflow)
    );
    assert_eq!(c.buy_from_other_marketplaces(&s("u"), s("t9"), 5, 5 + ONE_NEAR), Ok(None));
    assert_eq!(c.buy_from_other_marketplaces(&s("u"), s("t1"), 5, 5 + ONE_NEAR), Ok(None));
    assert_eq!(c.buy_from_other_marketplaces(&s("v"), s("t2"), 5, 5 + ONE_NEAR), Ok(None));
    let call = c.buy_from_other_marketplaces(&s("u"), s("t2"), 5, 7 + ONE_NEAR).unwrap().unwrap();
    assert_eq!(call.contract_id, s("paras.near"));
    assert_eq!(call.token_series_id, s("t2"));
    assert_eq!(call.attached_deposit, 5 + ONE_NEAR);
    assert_eq!(call.gas, GAS_FOR_NFT_TRANSFER);
}

#[test]
fn purchase_constants() {
    assert_eq!(GAS_FOR_NFT_TRANSFER, 15_000_000_000_000);
    assert_eq!(GAS_FOR_ROYALTIES, 115_000_000_000_000);
}

#[test]
fn total_supply_callback() {
    let c = market();
    let m = || s("market.near");
    assert_eq!(c.on_nft_total_supply(Some(b"\"1234\"".to_vec()), m(), m()), Ok(1234));
    assert_eq!(
        c.on_nft_total_supply(Some(b"1234".to_vec()), m(), m()),
        Err(ContractError::InvalidPromiseResult)
    );
    assert_eq!(c.on_nft_total_supply(None, m(), m()), Err(ContractError::MissingPromiseResult));
    assert_eq!(
        c.on_nft_total_supply(Some(b"\"1\"".to_vec()), s("x.near"), m()),
        Err(ContractError::PrivateMethod)
    );
    assert_eq!(evie_market::marketplace_calls::total_supply_outcome(Some(7)), Ok(7));
    assert_eq!(
        evie_market::marketplace_calls::total_supply_outcome(None),
        Err(ContractError::InvalidPromiseResult)
    );
}

#[test]
fn tokens_callback() {
    let c = market();
    let m = || s("market.near");
    let tokens = c
        .on_nft_tokens_for_owner(Some(br#"[{"token_id":"1"},{"token_id":"2"}]"#.to_vec()), m(), m())
        .unwrap();
    assert_eq!(tokens.len(), 2);
    assert_eq!(tokens[1]["token_id"], near_sdk::serde_json::Value::String(s("2")));
    assert_eq!(c.on_nft_tokens_for_owner(Some(b"[]".to_vec()), m(), m()).unwrap().len(), 0);
    assert_eq!(
        c.on_nft_tokens_for_owner(Some(b"{}".to_vec()), m(), m()),
        Err(ContractError::InvalidPromiseResult)
    );
    assert_eq!(c.on_nft_tokens_for_owner(None, m(), m()), Err(ContractError::MissingPromiseResult));
    assert_eq!(
        c.on_nft_tokens_for_owner(Some(b"[]".to_vec()), s("x.near"), m()),
        Err(ContractError::PrivateMethod)
    );
    assert_eq!(
        evie_market::marketplace_calls::tokens_outcome(None),
        Err(ContractError::InvalidPromiseResult)
    );
}

#[test]
fn restore_rebuilds_or_refuses() {
    let mut c = market();
    c.storage_deposit(None, s("alice.near"), 2 * STORAGE_PER_SALE).unwrap();
    c.nft_on_approve(s("t1"), s("alice.near"), 3, args(500), s("nft.near"), s("alice.near")).unwrap();
    let sale = c.get_sale(&s("nft.near.t1")).unwrap();
    let r = Contract::restore(
        s("owner.near"),
        vec![(s("nft.near.t1"), sale)],
        vec![(s("alice.near"), vec![s("nft.near.t1")])],
        vec![(s("nft.near"), vec![s("t1")])],
        vec![(s("alice.near"), 2 * STORAGE_PER_SALE)],
        vec![s("adm.near")],
        vec![],
        vec![],
        4,
    )
    .unwrap();
    assert_eq!(r.get_supply_by_owner_id(&s("alice.near")), 1);
    assert_eq!(r.get_sale(&s("nft.near.t1")).unwrap().approval_id, 3);
    assert!(r.is_admin(&s("adm.near")));
    assert_eq!(r.edu_form_number, 4);
    let empty_set = Contract::restore(
        s("o"), vec![], vec![(s("alice.near"), vec![])], vec![], vec![], vec![], vec![], vec![], 0,
    );
    assert!(empty_set.is_none());
    let twice = Contract::restore(
        s("o"), vec![], vec![], vec![], vec![(s("a"), 1), (s("a"), 2)], vec![], vec![], vec![], 0,
    );
    assert!(twice.is_none());
    let twice_admin = Contract::restore(
        s("o"), vec![], vec![], vec![], vec![], vec![s("a"), s("a")], vec![], vec![], 0,
    );
    assert!(twice_admin.is_none());
}

#[test]
fn marketplace_queries() {
    let c = market();
    let call = c.nft_total_supply_marketplace(s("paras.near"), s("market.near"));
    assert_eq!(call.marketplace_contract_id, s("paras.near"));
    assert_eq!(call.method, MarketplaceMethod::TotalSupply);
    assert_eq!(call.attached_deposit, 0);
    assert_eq!(call.gas, 5_000_000_000_000);
    assert_eq!(
        call.callback,
        Some((MarketplaceCallback::OnTotalSupply, s("market.near"), 0, GAS_FOR_CROSS_CONTRACT_CALL))
    );
    let call = c.nft_tokens_for_owner(s("bob.near"), Some(3), Some(4), s("paras.near"), s("market.near"));
    assert_eq!(
        call.method,
        MarketplaceMethod::TokensForOwner { account_id: s("bob.near"), from_index: Some(3), limit: Some(4) }
    );
    assert_eq!(call.callback.unwrap().0, MarketplaceCallback::OnTokensForOwner);
    let call = c.nft_approve(s("t1"), Some(s("{}")), s("paras.near"), s("market.near"));
    assert_eq!(
        call.method,
        MarketplaceMethod::Approve { token_id: s("t1"), account_id: s("market.near"), msg: Some(s("{}")) }
    );
    assert_eq!(call.attached_deposit, 1);
    assert_eq!(call.callback, None);
}
