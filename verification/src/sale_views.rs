use vstd::prelude::*;
use crate::contract::{Contract, index_set};
use crate::internal::{sale_id, sale_key};
use crate::string_set::StringSet;
use crate::types::{Sale, ContractError};

verus! {

/// Start of a page of `len` items that skips `start` items.
pub open spec fn page_lo(len: int, start: int) -> int {
    if start < len {
        start
    } else {
        len
    }
}

/// End of a page of `len` items that skips `start` items and takes at most
/// `limit`.
pub open spec fn page_hi(len: int, start: int, limit: int) -> int {
    let lo = page_lo(len, start);
    if limit < len - lo {
        lo + limit
    } else {
        len
    }
}

/// The items a walk over `s` gives when it skips `start` items and takes at
/// most `limit`.
pub open spec fn page<A>(s: Seq<A>, start: int, limit: int) -> Seq<A> {
    s.subrange(page_lo(s.len() as int, start), page_hi(s.len() as int, start, limit))
}

/// A page that skips `start` items of `s` and takes at most `limit` holds
/// exactly the next `limit` items after the skipped ones, or all that are
/// left when fewer remain: with `skipped` the smaller of `start` and the
/// length, it has the smaller of `limit` and `len - skipped` items, and its
/// item `j` is item `skipped + j` of `s`.
pub proof fn law_page_shape<A>(s: Seq<A>, start: int, limit: int)
    requires
        start >= 0,
        limit >= 0,
    ensures
        ({
            let skipped = if start <= s.len() {
                start
            } else {
                s.len() as int
            };
            let left = s.len() - skipped;
            &&& page(s, start, limit).len() == if limit <= left {
                limit
            } else {
                left
            }
            &&& forall|j: int|
                0 <= j < page(s, start, limit).len() ==> #[trigger] page(s, start, limit)[j]
                    == s[skipped + j]
        }),
{
}

/// Index at which a listing starts: `from_index`, or 0, as a machine index.
pub open spec fn start_index(from_index: Option<u128>) -> int {
    (from_index.unwrap_or(0) as usize) as int
}

/// Number of items a listing takes at most: `limit`, or `default`, as a
/// machine index.
pub open spec fn limit_count(limit: Option<u64>, default: u64) -> int {
    (limit.unwrap_or(default) as usize) as int
}

/// Bounds of a page of `len` items.
pub fn page_bounds(len: usize, start: usize, limit: usize) -> (r: (usize, usize))
    ensures
        r.0 == page_lo(len as int, start as int),
        r.1 == page_hi(len as int, start as int, limit as int),
{
    let lo = if start < len {
        start
    } else {
        len
    };
    let hi = if limit < len - lo {
        lo + limit
    } else {
        len
    };
    (lo, hi)
}

/// The sales under the keys `keys`, or `None` when one is missing.
pub open spec fn sales_under(sales: Map<Seq<char>, Sale>, keys: Seq<Seq<char>>) -> Option<Seq<Sale>> {
    if forall|i: int| 0 <= i < keys.len() ==> sales.contains_key(#[trigger] keys[i]) {
        Some(keys.map_values(|k: Seq<char>| sales[k]))
    } else {
        None
    }
}

/// The keys of the sales of tokens `tokens` of contract `contract`.
pub open spec fn sale_keys_of(contract: Seq<char>, tokens: Seq<Seq<char>>) -> Seq<Seq<char>> {
    tokens.map_values(|t: Seq<char>| sale_key(contract, t))
}

impl Contract {
    /// Number of sales.
    pub fn get_supply_sales(&self) -> (r: u64)
        requires
            self.wf(),
        ensures
            r == self.sales.key_seq().len(),
    {
        self.sales.len() as u64
    }

    /// Number of tokens for sale of the token contract `nft_contract_id`.
    pub fn get_supply_by_nft_contract_id(&self, nft_contract_id: &String) -> (r: u64)
        requires
            self.wf(),
        ensures
            r == index_set(self.contract_index(), nft_contract_id@).len(),
    {
        match self.by_nft_contract_id.get(nft_contract_id) {
            Some(s) => {
                assert(self.contract_index()[nft_contract_id@] == s@);
                s.len() as u64
            },
            None => 0,
        }
    }

    /// The sale under `nft_contract_token` (`contract + "." + token`), if any.
    pub fn get_sale(&self, nft_contract_token: &String) -> (r: Option<Sale>)
        requires
            self.wf(),
        ensures
            r == self.sales@.get(nft_contract_token@),
    {
        match self.sales.get(nft_contract_token) {
            Some(s) => Some(s.duplicate()),
            None => None,
        }
    }

    /// The sales under the keys `ids[lo..hi]`.
    fn collect_sales(&self, ids: &StringSet, lo: usize, hi: usize) -> (r: Result<Vec<Sale>, ContractError>)
        requires
            self.wf(),
            lo <= hi <= ids@.len(),
        ensures
            match sales_under(self.sales@, ids@.subrange(lo as int, hi as int)) {
                Some(v) => r == Ok::<Vec<Sale>, ContractError>(r->Ok_0) && r->Ok_0@ == v,
                None => r == Err::<Vec<Sale>, ContractError>(ContractError::MissingSale),
            },
    {
        let ghost keys = ids@.subrange(lo as int, hi as int);
        let mut out: Vec<Sale> = Vec::new();
        let mut i = lo;
        while i < hi
            invariant
                self.wf(),
                lo <= i <= hi <= ids@.len(),
                keys == ids@.subrange(lo as int, hi as int),
                out@.len() == i - lo,
                forall|j: int| 0 <= j < i - lo ==> self.sales@.contains_key(#[trigger] keys[j]),
                forall|j: int| 0 <= j < i - lo ==> #[trigger] out@[j] == self.sales@[keys[j]],
            decreases hi - i,
        {
            let id = ids.get(i);
            match self.sales.get(id) {
                Some(s) => out.push(s.duplicate()),
                None => {
                    assert(keys[i - lo] == id@);
                    return Err(ContractError::MissingSale);
                },
            }
            i = i + 1;
        }
        assert(out@ =~= keys.map_values(|k: Seq<char>| self.sales@[k]));
        Ok(out)
    }

    /// A page of the sales recorded under `account_id`: it skips
    /// `from_index` (or 0) keys and takes at most `limit` (or 0). Refused when
    /// a key names a sale no longer present.
    pub fn get_sales_by_owner_id(&self, account_id: &String, from_index: Option<u128>, limit: Option<u64>) -> (r: Result<Vec<Sale>, ContractError>)
        requires
            self.wf(),
        ensures
            match sales_under(
                self.sales@,
                page(
                    index_set(self.owner_index(), account_id@),
                    start_index(from_index),
                    limit_count(limit, 0),
                ),
            ) {
                Some(v) => r is Ok && r->Ok_0@ == v,
                None => r == Err::<Vec<Sale>, ContractError>(ContractError::MissingSale),
            },
    {
        let set = match self.by_owner_id.get(account_id) {
            Some(s) => s,
            None => {
                let ghost e = index_set(self.owner_index(), account_id@);
                assert(page(e, start_index(from_index), limit_count(limit, 0)) =~= Seq::<
                    Seq<char>,
                >::empty());
                assert(Seq::<Seq<char>>::empty().map_values(|k: Seq<char>| self.sales@[k])
                    =~= Seq::<Sale>::empty());
                return Ok(Vec::new());
            },
        };
        assert(self.owner_index()[account_id@] == set@);
        let start = #[verifier::truncate] (from_index.unwrap_or(0) as usize);
        let take = #[verifier::truncate] (limit.unwrap_or(0) as usize);
        let (lo, hi) = page_bounds(set.len(), start, take);
        self.collect_sales(set, lo, hi)
    }

    /// A page of the sales of the token contract `nft_contract_id`: it skips
    /// `from_index` (or 0) tokens and takes at most `limit` (or 0). Refused
    /// when a token's sale is no longer present.
    pub fn get_sales_by_nft_contract_id(&self, nft_contract_id: &String, from_index: Option<u128>, limit: Option<u64>) -> (r: Result<Vec<Sale>, ContractError>)
        requires
            self.wf(),
        ensures
            match sales_under(
                self.sales@,
                sale_keys_of(
                    nft_contract_id@,
                    page(
                        index_set(self.contract_index(), nft_contract_id@),
                        start_index(from_index),
                        limit_count(limit, 0),
                    ),
                ),
            ) {
                Some(v) => r is Ok && r->Ok_0@ == v,
                None => r == Err::<Vec<Sale>, ContractError>(ContractError::MissingSale),
            },
    {
        let set = match self.by_nft_contract_id.get(nft_contract_id) {
            Some(s) => s,
            None => {
                let ghost e = index_set(self.contract_index(), nft_contract_id@);
                assert(sale_keys_of(
                    nft_contract_id@,
                    page(e, start_index(from_index), limit_count(limit, 0)),
                ) =~= Seq::<Seq<char>>::empty());
                assert(Seq::<Seq<char>>::empty().map_values(|k: Seq<char>| self.sales@[k])
                    =~= Seq::<Sale>::empty());
                return Ok(Vec::new());
            },
        };
        assert(self.contract_index()[nft_contract_id@] == set@);
        let start = #[verifier::truncate] (from_index.unwrap_or(0) as usize);
        let take = #[verifier::truncate] (limit.unwrap_or(0) as usize);
        let (lo, hi) = page_bounds(set.len(), start, take);
        let ghost tokens = set@.subrange(lo as int, hi as int);
        let ghost keys = sale_keys_of(nft_contract_id@, tokens);
        let ghost wanted = page(
            index_set(self.contract_index(), nft_contract_id@),
            start_index(from_index),
            limit_count(limit, 0),
        );
        assert(tokens == wanted);
        let mut out: Vec<Sale> = Vec::new();
        let mut i = lo;
        while i < hi
            invariant
                self.wf(),
                lo <= i <= hi <= set@.len(),
                tokens == set@.subrange(lo as int, hi as int),
                keys == sale_keys_of(nft_contract_id@, tokens),
                tokens == wanted,
                wanted == page(
                    index_set(self.contract_index(), nft_contract_id@),
                    start_index(from_index),
                    limit_count(limit, 0),
                ),
                out@.len() == i - lo,
                forall|j: int| 0 <= j < i - lo ==> self.sales@.contains_key(#[trigger] keys[j]),
                forall|j: int| 0 <= j < i - lo ==> #[trigger] out@[j] == self.sales@[keys[j]],
            decreases hi - i,
        {
            let id = sale_id(nft_contract_id, set.get(i));
            assert(keys[i - lo] == id@);
            match self.sales.get(&id) {
                Some(s) => out.push(s.duplicate()),
                None => {
                    assert(!self.sales@.contains_key(keys[i - lo]));
                    return Err(ContractError::MissingSale);
                },
            }
            i = i + 1;
        }
        assert(out@ =~= keys.map_values(|k: Seq<char>| self.sales@[k]));
        Ok(out)
    }
}

} // verus!
