use vstd::prelude::*;

verus! {

/// A reservation that lets one party review `peer` once, until `expires_at`
/// (nanoseconds since the epoch).
#[derive(Debug, PartialEq, Eq)]
pub struct PendingReview {
    pub peer: String,
    pub reviewer: String,
    pub commerce_contract: String,
    pub order_id: u64,
    pub expires_at: u64,
}

impl Clone for PendingReview {
    fn clone(&self) -> (r: Self)
        ensures
            r == *self,
    {
        PendingReview {
            peer: self.peer.clone(),
            reviewer: self.reviewer.clone(),
            commerce_contract: self.commerce_contract.clone(),
            order_id: self.order_id,
            expires_at: self.expires_at,
        }
    }
}

/// A peer's score and the data it was computed from. The score is a decimal
/// with 18 fractional digits, held as its atomic units.
#[derive(Debug, PartialEq, Eq, Clone, Copy, Structural)]
pub struct TrustInfo {
    pub score: u128,
    pub data: TrustData,
}

#[derive(Debug, PartialEq, Eq, Clone, Copy, Structural)]
pub struct TrustData {
    /// Observations in a row in which the staked amount did not shrink.
    pub stake_days: u64,
    /// Amount of tokens staked now.
    pub stake_amount: u128,
    /// Amount of tokens staked at the previous observation.
    pub prev_stake_amount: u128,
    /// Sum of the review results: thumbs up +1, thumbs down -1.
    pub rating: i64,
}

/// Weights of the score formula.
#[derive(Debug, PartialEq, Eq, Clone, Copy, Structural)]
pub struct TrustScoreParams {
    pub base_score: u64,
    pub rating_multiplier: u64,
    pub stake_amount_denominator: u64,
    pub min_stake_days: u64,
    pub rating_floor_denominator: u64,
    pub denom_multiplier: u128,
}

/// Largest rating weight the 128-bit fixed-point formula admits.
pub const MAX_RATING_WEIGHT: u64 = 1_000_000;

impl TrustScoreParams {
    /// The divisors are positive and the rating weights small enough for the
    /// fixed-point formula to be exact for every rating.
    pub open spec fn valid(&self) -> bool {
        &&& self.denom_multiplier >= 1
        &&& self.stake_amount_denominator >= 1
        &&& self.rating_floor_denominator >= 1
        &&& self.rating_multiplier <= MAX_RATING_WEIGHT
        &&& self.min_stake_days <= MAX_RATING_WEIGHT
    }
}

#[derive(Debug, PartialEq, Eq, Clone, Copy, Structural)]
pub enum ReviewResult {
    ThumbsUp,
    ThumbsDown,
}

impl ReviewResult {
    /// The change a review makes to a rating.
    pub open spec fn delta(&self) -> int {
        match self {
            ReviewResult::ThumbsUp => 1,
            ReviewResult::ThumbsDown => -1,
        }
    }
}

/// Settings of the trust registry.
#[derive(Debug, Clone, PartialEq, Eq)]
pub struct Config {
    /// Identity allowed to change the configuration.
    pub admin: String,
    /// Identity allowed to refresh staking data.
    pub maintainer: String,
    /// Address of the staking service.
    pub staking_contract: String,
    /// Code id that identifies a genuine ledger instance.
    pub commerce_code_id: u64,
    /// Lifetime of a pending review, in seconds.
    pub review_interval: u64,
    /// Staked amount above which staking adds nothing more.
    pub max_staked_tokens: u128,
    /// Staking streak above which staking adds nothing more.
    pub max_staked_days: u64,
    pub max_rating: u64,
    pub trust_score_params: TrustScoreParams,
}

/// The trust record of one address.
#[derive(Debug, Clone, PartialEq, Eq)]
pub struct TrustAccount {
    pub address: String,
    pub info: TrustInfo,
}

/// Everything the trust registry owns: its configuration, one trust record
/// per scored address, and at most one pending review per peer.
#[derive(Debug)]
pub struct TrustState {
    pub config: Config,
    pub accounts: Vec<TrustAccount>,
    pub pending_reviews: Vec<PendingReview>,
}

/// No two trust records share an address.
pub open spec fn accounts_unique(a: Seq<TrustAccount>) -> bool {
    forall|i: int, j: int|
        0 <= i < a.len() && 0 <= j < a.len() && i != j ==> a[i].address@ != a[j].address@
}

/// No two pending reviews share a peer.
pub open spec fn peers_unique(p: Seq<PendingReview>) -> bool {
    forall|i: int, j: int| 0 <= i < p.len() && 0 <= j < p.len() && i != j ==> p[i].peer@ != p[j].peer@
}

/// The trust record of `address`, if there is one.
pub open spec fn find_account(a: Seq<TrustAccount>, address: Seq<char>) -> Option<TrustInfo> {
    if exists|i: int| 0 <= i < a.len() && a[i].address@ == address {
        Some(a[choose|i: int| 0 <= i < a.len() && a[i].address@ == address].info)
    } else {
        None
    }
}

/// The stored pending review of `peer`, expired or not.
pub open spec fn find_pending(p: Seq<PendingReview>, peer: Seq<char>) -> Option<PendingReview> {
    if exists|i: int| 0 <= i < p.len() && p[i].peer@ == peer {
        Some(p[choose|i: int| 0 <= i < p.len() && p[i].peer@ == peer])
    } else {
        None
    }
}

impl TrustState {
    pub open spec fn wf(&self) -> bool {
        &&& self.config.trust_score_params.valid()
        &&& accounts_unique(self.accounts@)
        &&& peers_unique(self.pending_reviews@)
    }
}

/// Position of the trust record of `address`.
pub fn find_account_index(a: &Vec<TrustAccount>, address: &String) -> (r: Option<usize>)
    requires
        accounts_unique(a@),
    ensures
        match r {
            Some(i) => i < a@.len() && a@[i as int].address@ == address@ && find_account(a@, address@)
                == Some(a@[i as int].info),
            None => find_account(a@, address@) is None,
        },
{
    let mut i: usize = 0;
    while i < a.len()
        invariant
            i <= a@.len(),
            accounts_unique(a@),
            forall|k: int| 0 <= k < i ==> a@[k].address@ != address@,
        decreases a.len() - i,
    {
        if a[i].address == *address {
            proof {
                assert(exists|k: int| 0 <= k < a@.len() && a@[k].address@ == address@);
                let c = choose|k: int| 0 <= k < a@.len() && a@[k].address@ == address@;
                assert(c == i);
            }
            return Some(i);
        }
        i += 1;
    }
    None
}

/// Position of the stored pending review of `peer`.
pub fn find_pending_index(p: &Vec<PendingReview>, peer: &String) -> (r: Option<usize>)
    requires
        peers_unique(p@),
    ensures
        match r {
            Some(i) => i < p@.len() && p@[i as int].peer@ == peer@ && find_pending(p@, peer@) == Some(
                p@[i as int],
            ),
            None => find_pending(p@, peer@) is None,
        },
{
    let mut i: usize = 0;
    while i < p.len()
        invariant
            i <= p@.len(),
            peers_unique(p@),
            forall|k: int| 0 <= k < i ==> p@[k].peer@ != peer@,
        decreases p.len() - i,
    {
        if p[i].peer == *peer {
            proof {
                assert(exists|k: int| 0 <= k < p@.len() && p@[k].peer@ == peer@);
                let c = choose|k: int| 0 <= k < p@.len() && p@[k].peer@ == peer@;
                assert(c == i);
            }
            return Some(i);
        }
        i += 1;
    }
    None
}

pub proof fn lemma_account_at(a: Seq<TrustAccount>, k: int)
    requires
        accounts_unique(a),
        0 <= k < a.len(),
    ensures
        find_account(a, a[k].address@) == Some(a[k].info),
{
    let addr = a[k].address@;
    assert(exists|i: int| 0 <= i < a.len() && a[i].address@ == addr);
    let c = choose|i: int| 0 <= i < a.len() && a[i].address@ == addr;
    assert(c == k);
}

pub proof fn lemma_pending_at(p: Seq<PendingReview>, k: int)
    requires
        peers_unique(p),
        0 <= k < p.len(),
    ensures
        find_pending(p, p[k].peer@) == Some(p[k]),
{
    let peer = p[k].peer@;
    assert(exists|i: int| 0 <= i < p.len() && p[i].peer@ == peer);
    let c = choose|i: int| 0 <= i < p.len() && p[i].peer@ == peer;
    assert(c == k);
}

/// Storing `x` in the account table, at position `i` if that holds the
/// same address or at the end if none does, keeps every other record.
pub proof fn lemma_store_account(a: Seq<TrustAccount>, a2: Seq<TrustAccount>, x: TrustAccount)
    requires
        accounts_unique(a),
        (find_account(a, x.address@) is None && a2 == a.push(x)) || (exists|i: int|
            0 <= i < a.len() && a[i].address@ == x.address@ && a2 == a.update(i, x)),
    ensures
        accounts_unique(a2),
        find_account(a2, x.address@) == Some(x.info),
        forall|addr: Seq<char>| addr != x.address@ ==> #[trigger] find_account(a2, addr) == find_account(a, addr),
{
    if find_account(a, x.address@) is None && a2 == a.push(x) {
        assert forall|i: int, j: int| 0 <= i < a2.len() && 0 <= j < a2.len() && i != j implies a2[i].address@
            != a2[j].address@ by {
            if i == a.len() {
                assert(a[j].address@ != x.address@);
            } else if j == a.len() {
                assert(a[i].address@ != x.address@);
            }
        }
        lemma_account_at(a2, a.len() as int);
        assert forall|addr: Seq<char>| addr != x.address@ implies #[trigger] find_account(a2, addr) == find_account(a, addr) by {
            if exists|k: int| 0 <= k < a.len() && a[k].address@ == addr {
                let k = choose|k: int| 0 <= k < a.len() && a[k].address@ == addr;
                lemma_account_at(a, k);
                assert(a2[k] == a[k]);
                lemma_account_at(a2, k);
            } else {
                assert forall|k: int| 0 <= k < a2.len() implies a2[k].address@ != addr by {
                    if k < a.len() {
                        assert(a2[k] == a[k]);
                    }
                }
            }
        }
    } else {
        let i = choose|i: int| 0 <= i < a.len() && a[i].address@ == x.address@ && a2 == a.update(i, x);
        assert forall|b: int, c: int| 0 <= b < a2.len() && 0 <= c < a2.len() && b != c implies a2[b].address@
            != a2[c].address@ by {
            if b != i && c != i {
                assert(a2[b] == a[b] && a2[c] == a[c]);
            } else if b == i {
                assert(a2[c] == a[c]);
            } else {
                assert(a2[b] == a[b]);
            }
        }
        lemma_account_at(a2, i);
        assert forall|addr: Seq<char>| addr != x.address@ implies #[trigger] find_account(a2, addr) == find_account(a, addr) by {
            if exists|k: int| 0 <= k < a.len() && a[k].address@ == addr {
                let k = choose|k: int| 0 <= k < a.len() && a[k].address@ == addr;
                lemma_account_at(a, k);
                assert(k != i);
                assert(a2[k] == a[k]);
                lemma_account_at(a2, k);
            } else {
                assert forall|k: int| 0 <= k < a2.len() implies a2[k].address@ != addr by {
                    if k != i {
                        assert(a2[k] == a[k]);
                    }
                }
            }
        }
    }
}

/// Appending a pending review for a peer that has none keeps every other.
pub proof fn lemma_push_pending(p: Seq<PendingReview>, x: PendingReview)
    requires
        peers_unique(p),
        find_pending(p, x.peer@) is None,
    ensures
        peers_unique(p.push(x)),
        find_pending(p.push(x), x.peer@) == Some(x),
        forall|peer: Seq<char>| peer != x.peer@ ==> #[trigger] find_pending(p.push(x), peer) == find_pending(p, peer),
{
    let p2 = p.push(x);
    assert forall|i: int, j: int| 0 <= i < p2.len() && 0 <= j < p2.len() && i != j implies p2[i].peer@ != p2[j].peer@ by {
        if i == p.len() {
            assert(p[j].peer@ != x.peer@);
        } else if j == p.len() {
            assert(p[i].peer@ != x.peer@);
        }
    }
    lemma_pending_at(p2, p.len() as int);
    assert forall|peer: Seq<char>| peer != x.peer@ implies #[trigger] find_pending(p2, peer) == find_pending(p, peer) by {
        if exists|k: int| 0 <= k < p.len() && p[k].peer@ == peer {
            let k = choose|k: int| 0 <= k < p.len() && p[k].peer@ == peer;
            lemma_pending_at(p, k);
            assert(p2[k] == p[k]);
            lemma_pending_at(p2, k);
        } else {
            assert forall|k: int| 0 <= k < p2.len() implies p2[k].peer@ != peer by {
                if k < p.len() {
                    assert(p2[k] == p[k]);
                }
            }
        }
    }
}

/// Removing the pending review at `i` keeps every other.
pub proof fn lemma_remove_pending(p: Seq<PendingReview>, i: int)
    requires
        peers_unique(p),
        0 <= i < p.len(),
    ensures
        peers_unique(p.remove(i)),
        find_pending(p.remove(i), p[i].peer@) is None,
        forall|peer: Seq<char>| peer != p[i].peer@ ==> #[trigger] find_pending(p.remove(i), peer) == find_pending(p, peer),
{
    let p2 = p.remove(i);
    assert forall|a: int| 0 <= a < p2.len() implies p2[a] == (if a < i { p[a] } else { p[a + 1] }) by {}
    assert forall|a: int, b: int| 0 <= a < p2.len() && 0 <= b < p2.len() && a != b implies p2[a].peer@ != p2[b].peer@ by {
        let a1 = if a < i { a } else { a + 1 };
        let b1 = if b < i { b } else { b + 1 };
        assert(p2[a] == p[a1] && p2[b] == p[b1]);
    }
    assert forall|a: int| 0 <= a < p2.len() implies p2[a].peer@ != p[i].peer@ by {
        let a1 = if a < i { a } else { a + 1 };
        assert(p2[a] == p[a1]);
    }
    assert forall|peer: Seq<char>| peer != p[i].peer@ implies #[trigger] find_pending(p2, peer) == find_pending(p, peer) by {
        if exists|k: int| 0 <= k < p.len() && p[k].peer@ == peer {
            let k = choose|k: int| 0 <= k < p.len() && p[k].peer@ == peer;
            lemma_pending_at(p, k);
            assert(k != i);
            let k2 = if k < i { k } else { k - 1 };
            assert(p2[k2] == p[k]);
            lemma_pending_at(p2, k2);
        } else {
            assert forall|k: int| 0 <= k < p2.len() implies p2[k].peer@ != peer by {
                let k1 = if k < i { k } else { k + 1 };
                assert(p2[k] == p[k1]);
            }
        }
    }
}

} // verus!
