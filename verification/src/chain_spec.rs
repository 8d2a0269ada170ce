//! The chain-facing surface around the registry: the environments a node
//! can be specified for, their token and chain constants, account-id
//! derivation from public keys, the sealing modes, and the extensions a
//! parachain specification carries. The process wiring that consumes these
//! lives outside the library.

use core::marker::PhantomData;

use vstd::prelude::*;

verus! {

/// One unit of the chain's token, at eighteen decimals.
pub const BGLT: u128 = 1_000_000_000_000_000_000;

/// Marker for the development chain specification.
pub struct Dev;

/// Marker for the local chain specification.
pub struct Local;

/// Marker for the testnet chain specification.
pub struct Testnet;

/// Marker for the mainnet chain specification.
pub struct Mainnet;

/// The node's chain specification for one environment.
pub struct NodeChainSpec<Env>(PhantomData<Env>);

/// The constants a chain specification is built from. Each environment
/// fixes them through the `spec_*` functions, and the methods are proved
/// to return exactly those values.
pub trait CustomChainSpecProperties {
    /// What `token_symbol` returns.
    spec fn spec_token_symbol() -> Seq<char>;

    /// What `token_decimals` returns.
    spec fn spec_token_decimals() -> u8;

    /// What `evm_chain_id` returns.
    spec fn spec_evm_chain_id() -> u64;

    /// What `initial_balance` returns.
    spec fn spec_initial_balance() -> u128;

    /// What `chain_name` returns.
    spec fn spec_chain_name() -> Seq<char>;

    /// What `chain_identifier` returns.
    spec fn spec_chain_identifier() -> Seq<char>;

    /// The token symbol.
    fn token_symbol() -> (r: &'static str)
        ensures
            r@ == Self::spec_token_symbol(),
    ;

    /// The number of token decimals.
    fn token_decimals() -> (r: u8)
        ensures
            r == Self::spec_token_decimals(),
    ;

    /// The EVM chain ID.
    fn evm_chain_id() -> (r: u64)
        ensures
            r == Self::spec_evm_chain_id(),
    ;

    /// The balance each endowed account starts with.
    fn initial_balance() -> (r: u128)
        ensures
            r == Self::spec_initial_balance(),
    ;

    /// The chain name.
    fn chain_name() -> (r: &'static str)
        ensures
            r@ == Self::spec_chain_name(),
    ;

    /// The chain identifier.
    fn chain_identifier() -> (r: &'static str)
        ensures
            r@ == Self::spec_chain_identifier(),
    ;
}

impl CustomChainSpecProperties for NodeChainSpec<Dev> {
    open spec fn spec_token_symbol() -> Seq<char> {
        "BGLT"@
    }

    open spec fn spec_token_decimals() -> u8 {
        18
    }

    open spec fn spec_evm_chain_id() -> u64 {
        6024
    }

    open spec fn spec_initial_balance() -> u128 {
        (1_000_000 * BGLT) as u128
    }

    open spec fn spec_chain_name() -> Seq<char> {
        "ID chain development"@
    }

    open spec fn spec_chain_identifier() -> Seq<char> {
        "dev"@
    }

    fn token_symbol() -> (r: &'static str) {
        "BGLT"
    }

    fn token_decimals() -> (r: u8) {
        18
    }

    fn evm_chain_id() -> (r: u64) {
        6024
    }

    fn initial_balance() -> (r: u128) {
        1_000_000 * BGLT
    }

    fn chain_name() -> (r: &'static str) {
        "ID chain development"
    }

    fn chain_identifier() -> (r: &'static str) {
        "dev"
    }
}

impl CustomChainSpecProperties for NodeChainSpec<Local> {
    open spec fn spec_token_symbol() -> Seq<char> {
        "BGLT"@
    }

    open spec fn spec_token_decimals() -> u8 {
        18
    }

    open spec fn spec_evm_chain_id() -> u64 {
        6025
    }

    open spec fn spec_initial_balance() -> u128 {
        (1_000_000 * BGLT) as u128
    }

    open spec fn spec_chain_name() -> Seq<char> {
        "ID chain local"@
    }

    open spec fn spec_chain_identifier() -> Seq<char> {
        "local"@
    }

    fn token_symbol() -> (r: &'static str) {
        "BGLT"
    }

    fn token_decimals() -> (r: u8) {
        18
    }

    fn evm_chain_id() -> (r: u64) {
        6025
    }

    fn initial_balance() -> (r: u128) {
        1_000_000 * BGLT
    }

    fn chain_name() -> (r: &'static str) {
        "ID chain local"
    }

    fn chain_identifier() -> (r: &'static str) {
        "local"
    }
}

/// Account-related utilities.
pub struct Account;

impl Account {
    /// Truncates an ECDSA public key, given as its thirty-three bytes, to
    /// the twenty-byte account ID made of its first twenty bytes.
    pub fn to_account_id_from_ecdsa(public: &[u8; 33]) -> (r: [u8; 20])
        ensures
            r@ == public@.subrange(0, 20),
    {
        let mut id = [0u8; 20];
        let mut i: usize = 0;
        while i < 20
            invariant
                i <= 20,
                id@.len() == 20,
                forall|j: int| 0 <= j < i ==> id@[j] == public@[j],
            decreases 20 - i,
        {
            id[i] = public[i];
            i += 1;
        }
        proof {
            assert(id@ =~= public@.subrange(0, 20));
        }
        id
    }
}

/// Whether `p` occurs in `s` as a contiguous run.
pub open spec fn contains_seq(s: Seq<char>, p: Seq<char>) -> bool {
    exists|k: int| 0 <= k && k + p.len() <= s.len() && #[trigger] s.subrange(k, k + p.len()) == p
}

/// A sequence that starts with `p` contains `p`.
proof fn lemma_prefix_contains(s: Seq<char>, p: Seq<char>)
    requires
        p.len() <= s.len(),
        s.subrange(0, p.len() as int) == p,
    ensures
        contains_seq(s, p),
{
    let k: int = 0;
    assert(s.subrange(k, k + p.len()) =~= s.subrange(0, p.len() as int));
    assert(0 <= k && k + p.len() <= s.len() && s.subrange(k, k + p.len()) == p);
}

/// Whether two strings hold the same characters.
fn str_eq(a: &str, b: &str) -> (r: bool)
    ensures
        r == (a@ == b@),
{
    let n = a.unicode_len();
    let m = b.unicode_len();
    if n != m {
        return false;
    }
    let mut i: usize = 0;
    while i < n
        invariant
            n == a@.len(),
            n == b@.len(),
            i <= n,
            forall|j: int| 0 <= j < i ==> a@[j] == b@[j],
        decreases n - i,
    {
        if a.get_char(i) != b.get_char(i) {
            return false;
        }
        i += 1;
    }
    proof {
        assert(a@ =~= b@);
    }
    true
}

/// Whether `pat` matches the characters of `s` starting at `k`.
fn match_at(s: &str, pat: &str, k: usize) -> (r: bool)
    requires
        k + pat@.len() <= s@.len(),
    ensures
        r == (s@.subrange(k as int, k + pat@.len()) == pat@),
{
    let n = s.unicode_len();
    let m = pat.unicode_len();
    let mut i: usize = 0;
    while i < m
        invariant
            n == s@.len(),
            m == pat@.len(),
            k + m <= s@.len(),
            i <= m,
            forall|j: int| 0 <= j < i ==> s@[k + j] == pat@[j],
        decreases m - i,
    {
        if s.get_char(k + i) != pat.get_char(i) {
            proof {
                assert(s@.subrange(k as int, k + m)[i as int] == s@[k + i]);
                assert(s@.subrange(k as int, k + m) != pat@);
            }
            return false;
        }
        i += 1;
    }
    proof {
        assert(s@.subrange(k as int, k + m) =~= pat@);
    }
    true
}

/// Whether `pat` occurs in `s` as a contiguous run.
fn str_contains(s: &str, pat: &str) -> (r: bool)
    ensures
        r == contains_seq(s@, pat@),
{
    let n = s.unicode_len();
    let m = pat.unicode_len();
    if m > n {
        return false;
    }
    if m == 0 {
        proof {
            assert(s@.subrange(0, pat@.len() as int) =~= pat@);
            lemma_prefix_contains(s@, pat@);
        }
        return true;
    }
    let mut k: usize = 0;
    while k <= n - m
        invariant
            n == s@.len(),
            m == pat@.len(),
            0 < m <= n,
            k <= n - m + 1,
            forall|kk: int| 0 <= kk < k ==> #[trigger] s@.subrange(kk, kk + m) != pat@,
        decreases n - k,
    {
        if match_at(s, pat, k) {
            return true;
        }
        k += 1;
    }
    proof {
        assert forall|kk: int| 0 <= kk && kk + pat@.len() <= s@.len() implies #[trigger] s@.subrange(
            kk,
            kk + pat@.len(),
        ) != pat@ by {
            assert(kk < k);
        }
    }
    false
}

/// The chain identifiers of the known runtimes are pairwise distinct.
proof fn lemma_chain_literals_distinct()
    ensures
        "parachain-testnet-dev"@ != "parachain-testnet-new"@,
        "parachain-testnet-dev"@ != "parachain-testnet-stg"@,
        "parachain-testnet-new"@ != "parachain-testnet-stg"@,
        "parachain-testnet-dev"@ != "parachain-mainnet-dev"@,
        "parachain-testnet-dev"@ != "parachain-mainnet-new"@,
        "parachain-testnet-new"@ != "parachain-mainnet-dev"@,
        "parachain-testnet-new"@ != "parachain-mainnet-new"@,
        "parachain-testnet-stg"@ != "parachain-mainnet-dev"@,
        "parachain-testnet-stg"@ != "parachain-mainnet-new"@,
        "parachain-mainnet-dev"@ != "parachain-mainnet-new"@,
        "parachain-testnet"@ != "parachain-mainnet"@,
        "dev"@.len() == 3,
        "parachain-testnet"@.len() == 17,
        "parachain-mainnet"@.len() == 17,
        "parachain-testnet-dev"@.len() == 21,
        "parachain-testnet-new"@.len() == 21,
        "parachain-testnet-stg"@.len() == 21,
        "parachain-mainnet-dev"@.len() == 21,
        "parachain-mainnet-new"@.len() == 21,
        "standalone"@.len() == 10,
        "standalone-new"@.len() == 14,
{
    reveal_strlit("dev");
    reveal_strlit("parachain-testnet-dev");
    reveal_strlit("parachain-testnet-new");
    reveal_strlit("parachain-testnet");
    reveal_strlit("parachain-testnet-stg");
    reveal_strlit("standalone");
    reveal_strlit("standalone-new");
    reveal_strlit("parachain-mainnet-dev");
    reveal_strlit("parachain-mainnet-new");
    reveal_strlit("parachain-mainnet");
    assert("parachain-testnet-dev"@[18] == 'd');
    assert("parachain-testnet-new"@[18] == 'n');
    assert("parachain-testnet-stg"@[18] == 's');
    assert("parachain-mainnet-dev"@[18] == 'd');
    assert("parachain-mainnet-new"@[18] == 'n');
    assert("parachain-testnet-dev"@[10] == 't');
    assert("parachain-testnet-new"@[10] == 't');
    assert("parachain-testnet-stg"@[10] == 't');
    assert("parachain-mainnet-dev"@[10] == 'm');
    assert("parachain-mainnet-new"@[10] == 'm');
    assert("parachain-testnet"@[10] == 't');
    assert("parachain-mainnet"@[10] == 'm');
}

/// The runtimes a testnet-family chain identifier can name.
pub enum ParachainTestnetRuntime {
    /// The development chain.
    Dev,
    /// The published testnet chain specification.
    ParachainTestnet,
    /// The staging testnet chain specification.
    ParachainTestnetStg,
    /// A blank testnet chain specification.
    New,
    /// The standalone chain specification.
    Standalone,
    /// A blank standalone chain specification.
    StandaloneNew,
    /// A chain specification loaded from the named path.
    Other(String),
}

impl ParachainTestnetRuntime {
    /// The identifier this runtime prints as.
    pub open spec fn spec_label(&self) -> Seq<char> {
        match self {
            ParachainTestnetRuntime::Dev => "dev"@,
            ParachainTestnetRuntime::ParachainTestnet => "parachain-testnet"@,
            ParachainTestnetRuntime::ParachainTestnetStg => "parachain-testnet-stg"@,
            ParachainTestnetRuntime::New => "new"@,
            ParachainTestnetRuntime::Standalone => "standalone"@,
            ParachainTestnetRuntime::StandaloneNew => "standalone-new"@,
            ParachainTestnetRuntime::Other(path) => "other -> "@ + path@,
        }
    }

    /// The identifier this runtime prints as.
    pub fn label(&self) -> (r: String)
        ensures
            r@ == self.spec_label(),
    {
        match self {
            ParachainTestnetRuntime::Dev => String::from_str("dev"),
            ParachainTestnetRuntime::ParachainTestnet => String::from_str("parachain-testnet"),
            ParachainTestnetRuntime::ParachainTestnetStg => String::from_str(
                "parachain-testnet-stg",
            ),
            ParachainTestnetRuntime::New => String::from_str("new"),
            ParachainTestnetRuntime::Standalone => String::from_str("standalone"),
            ParachainTestnetRuntime::StandaloneNew => String::from_str("standalone-new"),
            ParachainTestnetRuntime::Other(path) => String::from_str("other -> ").concat(
                path.as_str(),
            ),
        }
    }
}

/// The runtimes a mainnet-family chain identifier can name.
pub enum ParachainMainnetRuntime {
    /// The development chain.
    Dev,
    /// The published mainnet chain specification.
    ParachainMainnet,
    /// A blank mainnet chain specification.
    New,
    /// A chain specification loaded from the named path.
    Other(String),
}

impl ParachainMainnetRuntime {
    /// The identifier this runtime prints as.
    pub open spec fn spec_label(&self) -> Seq<char> {
        match self {
            ParachainMainnetRuntime::Dev => "dev"@,
            ParachainMainnetRuntime::ParachainMainnet => "parachain-mainnet"@,
            ParachainMainnetRuntime::New => "new"@,
            ParachainMainnetRuntime::Other(path) => "other -> "@ + path@,
        }
    }

    /// The identifier this runtime prints as.
    pub fn label(&self) -> (r: String)
        ensures
            r@ == self.spec_label(),
    {
        match self {
            ParachainMainnetRuntime::Dev => String::from_str("dev"),
            ParachainMainnetRuntime::ParachainMainnet => String::from_str("parachain-mainnet"),
            ParachainMainnetRuntime::New => String::from_str("new"),
            ParachainMainnetRuntime::Other(path) => String::from_str("other -> ").concat(
                path.as_str(),
            ),
        }
    }
}

/// Which runtime family a chain identifier names, and which runtime
/// within it.
pub enum ParachainRuntime {
    /// A testnet-family runtime.
    ParachainTestnet(ParachainTestnetRuntime),
    /// A mainnet-family runtime.
    ParachainMainnet(ParachainMainnetRuntime),
}

impl ParachainRuntime {
    /// The family and runtime this value prints as.
    pub open spec fn spec_label(&self) -> Seq<char> {
        match self {
            ParachainRuntime::ParachainTestnet(p) => "parachain-testnet ("@ + p.spec_label()
                + ")"@,
            ParachainRuntime::ParachainMainnet(p) => "parachain-mainnet ("@ + p.spec_label()
                + ")"@,
        }
    }

    /// The family and runtime this value prints as.
    pub fn label(&self) -> (r: String)
        ensures
            r@ == self.spec_label(),
    {
        match self {
            ParachainRuntime::ParachainTestnet(p) => String::from_str("parachain-testnet (")
                .concat(p.label().as_str())
                .concat(")"),
            ParachainRuntime::ParachainMainnet(p) => String::from_str("parachain-mainnet (")
                .concat(p.label().as_str())
                .concat(")"),
        }
    }

    /// Classify a chain identifier. Known identifiers name their runtime;
    /// an identifier containing a family's name loads a specification from
    /// that path under the family; anything else falls back to a
    /// testnet-family path, never an error.
    pub fn from_str(s: &str) -> (r: Result<Self, String>)
        ensures
            r is Ok,
            s@ == "dev"@ || s@ == "parachain-testnet-dev"@ ==> r matches Ok(
                ParachainRuntime::ParachainTestnet(ParachainTestnetRuntime::Dev),
            ),
            s@ == "parachain-testnet-new"@ ==> r matches Ok(
                ParachainRuntime::ParachainTestnet(ParachainTestnetRuntime::New),
            ),
            s@ == "parachain-testnet"@ ==> r matches Ok(
                ParachainRuntime::ParachainTestnet(ParachainTestnetRuntime::ParachainTestnet),
            ),
            s@ == "parachain-testnet-stg"@ ==> r matches Ok(
                ParachainRuntime::ParachainTestnet(ParachainTestnetRuntime::ParachainTestnetStg),
            ),
            s@ == "standalone"@ ==> r matches Ok(
                ParachainRuntime::ParachainTestnet(ParachainTestnetRuntime::Standalone),
            ),
            s@ == "standalone-new"@ ==> r matches Ok(
                ParachainRuntime::ParachainTestnet(ParachainTestnetRuntime::StandaloneNew),
            ),
            s@ != "dev"@ && s@ != "parachain-testnet-dev"@ && s@ != "parachain-testnet-new"@ && s@
                != "parachain-testnet"@ && s@ != "parachain-testnet-stg"@ && s@ != "standalone"@
                && s@ != "standalone-new"@ && contains_seq(s@, "parachain-testnet"@) ==> (r
                matches Ok(ParachainRuntime::ParachainTestnet(ParachainTestnetRuntime::Other(p)))
                && p@ == s@),
            !contains_seq(s@, "parachain-testnet"@) && s@ == "parachain-mainnet-dev"@ ==> r
                matches Ok(ParachainRuntime::ParachainMainnet(ParachainMainnetRuntime::Dev)),
            !contains_seq(s@, "parachain-testnet"@) && s@ == "parachain-mainnet-new"@ ==> r
                matches Ok(ParachainRuntime::ParachainMainnet(ParachainMainnetRuntime::New)),
            !contains_seq(s@, "parachain-testnet"@) && s@ == "parachain-mainnet"@ ==> r matches Ok(
                ParachainRuntime::ParachainMainnet(ParachainMainnetRuntime::ParachainMainnet),
            ),
            !contains_seq(s@, "parachain-testnet"@) && s@ != "parachain-mainnet-dev"@ && s@
                != "parachain-mainnet-new"@ && s@ != "parachain-mainnet"@ && s@ != "dev"@ && s@
                != "standalone"@ && s@ != "standalone-new"@ && contains_seq(
                s@,
                "parachain-mainnet"@,
            ) ==> (r matches Ok(
                ParachainRuntime::ParachainMainnet(ParachainMainnetRuntime::Other(p)),
            ) && p@ == s@),
            !contains_seq(s@, "parachain-testnet"@) && !contains_seq(s@, "parachain-mainnet"@)
                && s@ != "dev"@ && s@ != "standalone"@ && s@ != "standalone-new"@ ==> (r matches Ok(
                ParachainRuntime::ParachainTestnet(ParachainTestnetRuntime::Other(p)),
            ) && p@ == s@),
    {
        proof {
            reveal_strlit("dev");
            reveal_strlit("parachain-testnet-dev");
            reveal_strlit("parachain-testnet-new");
            reveal_strlit("parachain-testnet");
            reveal_strlit("parachain-testnet-stg");
            reveal_strlit("standalone");
            reveal_strlit("standalone-new");
            reveal_strlit("parachain-mainnet-dev");
            reveal_strlit("parachain-mainnet-new");
            reveal_strlit("parachain-mainnet");
            lemma_chain_literals_distinct();
        }
        if str_eq(s, "dev") || str_eq(s, "parachain-testnet-dev") {
            proof {
                if s@ == "parachain-testnet-dev"@ {
                    assert(s@.subrange(0, 17) =~= "parachain-testnet"@);
                    lemma_prefix_contains(s@, "parachain-testnet"@);
                }
            }
            Ok(ParachainRuntime::ParachainTestnet(ParachainTestnetRuntime::Dev))
        } else if str_eq(s, "parachain-testnet-new") {
            proof {
                assert(s@.subrange(0, 17) =~= "parachain-testnet"@);
                lemma_prefix_contains(s@, "parachain-testnet"@);
            }
            Ok(ParachainRuntime::ParachainTestnet(ParachainTestnetRuntime::New))
        } else if str_eq(s, "parachain-testnet") {
            proof {
                assert(s@.subrange(0, 17) =~= "parachain-testnet"@);
                lemma_prefix_contains(s@, "parachain-testnet"@);
            }
            Ok(ParachainRuntime::ParachainTestnet(ParachainTestnetRuntime::ParachainTestnet))
        } else if str_eq(s, "parachain-testnet-stg") {
            proof {
                assert(s@.subrange(0, 17) =~= "parachain-testnet"@);
                lemma_prefix_contains(s@, "parachain-testnet"@);
            }
            Ok(ParachainRuntime::ParachainTestnet(ParachainTestnetRuntime::ParachainTestnetStg))
        } else if str_eq(s, "standalone") {
            Ok(ParachainRuntime::ParachainTestnet(ParachainTestnetRuntime::Standalone))
        } else if str_eq(s, "standalone-new") {
            Ok(ParachainRuntime::ParachainTestnet(ParachainTestnetRuntime::StandaloneNew))
        } else if str_contains(s, "parachain-testnet") {
            Ok(ParachainRuntime::ParachainTestnet(ParachainTestnetRuntime::Other(s.to_owned())))
        } else if str_eq(s, "parachain-mainnet-dev") {
            proof {
                assert(s@.subrange(0, 17) =~= "parachain-mainnet"@);
                lemma_prefix_contains(s@, "parachain-mainnet"@);
            }
            Ok(ParachainRuntime::ParachainMainnet(ParachainMainnetRuntime::Dev))
        } else if str_eq(s, "parachain-mainnet-new") {
            proof {
                assert(s@.subrange(0, 17) =~= "parachain-mainnet"@);
                lemma_prefix_contains(s@, "parachain-mainnet"@);
            }
            Ok(ParachainRuntime::ParachainMainnet(ParachainMainnetRuntime::New))
        } else if str_eq(s, "parachain-mainnet") {
            proof {
                assert(s@.subrange(0, 17) =~= "parachain-mainnet"@);
                lemma_prefix_contains(s@, "parachain-mainnet"@);
            }
            Ok(ParachainRuntime::ParachainMainnet(ParachainMainnetRuntime::ParachainMainnet))
        } else if str_contains(s, "parachain-mainnet") {
            Ok(ParachainRuntime::ParachainMainnet(ParachainMainnetRuntime::Other(s.to_owned())))
        } else {
            // instead of failing, fall back to a testnet-family path
            Ok(ParachainRuntime::ParachainTestnet(ParachainTestnetRuntime::Other(s.to_owned())))
        }
    }
}

/// How the node seals blocks.
#[derive(Clone, Copy, Debug, PartialEq, Eq)]
pub enum Sealing {
    /// Seal when asked to over RPC.
    Manual,
    /// Seal as soon as a transaction is executed.
    Instant,
}

impl Default for Sealing {
    /// Sealing on request is the default.
    fn default() -> (r: Self)
        ensures
            r == Sealing::Manual,
    {
        Sealing::Manual
    }
}

/// The extensions a parachain chain specification carries.
#[derive(Clone, Debug, PartialEq, Eq)]
pub struct Extensions {
    /// The relay chain of the parachain.
    pub relay_chain: String,
    /// The id of the parachain.
    pub para_id: u32,
}

} // verus!
