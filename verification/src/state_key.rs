//! The keys under which the shielded pool keeps its state.
use vstd::prelude::*;
use vstd::string::StringExecFns;

verus! {

/// What the shielded pool keeps state about. Assets, note commitments, anchors and nullifiers
/// stand as the texts that they are displayed as.
pub ghost enum StateKey {
    /// The token supply of an asset.
    TokenSupply(Seq<char>),
    /// The assets that are known.
    KnownAssets,
    /// The denomination of an asset.
    DenomByAsset(Seq<char>),
    /// The source of the note with a commitment.
    NoteSource(Seq<char>),
    /// The compact block at a height.
    CompactBlock(u64),
    /// The anchor at a height.
    AnchorByHeight(u64),
    /// Whether an anchor is valid.
    AnchorLookup(Seq<char>),
    /// Whether a nullifier is spent.
    SpentNullifierLookup(Seq<char>),
    /// The commission amounts at a height.
    CommissionAmounts(u64),
}

/// What the shielded pool keeps state about.
#[derive(Clone, Copy, Debug, PartialEq, Eq)]
pub enum Key<'a> {
    TokenSupply(&'a str),
    KnownAssets,
    DenomByAsset(&'a str),
    NoteSource(&'a str),
    CompactBlock(u64),
    AnchorByHeight(u64),
    AnchorLookup(&'a str),
    SpentNullifierLookup(&'a str),
    CommissionAmounts(u64),
}

impl<'a> View for Key<'a> {
    type V = StateKey;

    open spec fn view(&self) -> StateKey {
        match *self {
            Key::TokenSupply(asset_id) => StateKey::TokenSupply(asset_id@),
            Key::KnownAssets => StateKey::KnownAssets,
            Key::DenomByAsset(asset_id) => StateKey::DenomByAsset(asset_id@),
            Key::NoteSource(note_commitment) => StateKey::NoteSource(note_commitment@),
            Key::CompactBlock(height) => StateKey::CompactBlock(height),
            Key::AnchorByHeight(height) => StateKey::AnchorByHeight(height),
            Key::AnchorLookup(anchor) => StateKey::AnchorLookup(anchor@),
            Key::SpentNullifierLookup(nullifier) => StateKey::SpentNullifierLookup(nullifier@),
            Key::CommissionAmounts(height) => StateKey::CommissionAmounts(height),
        }
    }
}

/// A decimal digit.
pub open spec fn digit(d: nat) -> char {
    (48 + d) as char
}

/// A number in decimal, without leading zeros.
pub open spec fn decimal(n: nat) -> Seq<char>
    decreases n,
{
    if n < 10 {
        seq![digit(n)]
    } else {
        decimal(n / 10).push(digit(n % 10))
    }
}

/// Whether a text is made of decimal digits alone, at least one, with no leading zero but that of
/// zero itself.
pub open spec fn is_decimal(text: Seq<char>) -> bool {
    &&& text.len() > 0
    &&& forall|i: int| 0 <= i < text.len() ==> '0' <= #[trigger] text[i] <= '9'
    &&& text[0] == '0' ==> text.len() == 1
}

/// The number that a text of decimal digits writes, most significant digit first.
pub open spec fn decimal_value(text: Seq<char>) -> int
    decreases text.len(),
{
    if text.len() == 0 {
        0
    } else {
        10 * decimal_value(text.drop_last()) + (text.last() as int - '0' as int)
    }
}

/// The path under which a piece of state is kept.
pub open spec fn path(key: StateKey) -> Seq<char> {
    match key {
        StateKey::TokenSupply(asset_id) => "shielded_pool/assets/"@ + asset_id + "/token_supply"@,
        StateKey::KnownAssets => "shielded_pool/known_assets"@,
        StateKey::DenomByAsset(asset_id) => "shielded_pool/assets/"@ + asset_id + "/denom"@,
        StateKey::NoteSource(note_commitment) => "shielded_pool/note_source/"@ + note_commitment,
        StateKey::CompactBlock(height) => "shielded_pool/compact_block/"@ + decimal(height as nat),
        StateKey::AnchorByHeight(height) => "shielded_pool/anchor/"@ + decimal(height as nat),
        StateKey::AnchorLookup(anchor) => "shielded_pool/valid_anchors/"@ + anchor,
        StateKey::SpentNullifierLookup(nullifier) => "shielded_pool/spent_nullifiers/"@
            + nullifier,
        StateKey::CommissionAmounts(height) => "staking/commission_amounts/"@ + decimal(
            height as nat,
        ),
    }
}

/// The hash of a key of the tree that the state is kept in: what the conversion of a string to a
/// `jmt::KeyHash` gives.
pub uninterp spec fn jmt_key_hash(key: Seq<char>) -> Seq<u8>;

/// The hash of a key, by which the tree that the state is kept in finds it.
#[derive(Clone, Copy, Debug, PartialEq, Eq, Hash)]
pub struct KeyHash(pub [u8; 32]);

/// Calls the conversion of a string to a `jmt::KeyHash`.
///
/// The contract names the hash.
#[verifier::external_body]
fn key_hash(key: &str) -> (hash: [u8; 32])
    ensures
        hash@ == jmt_key_hash(key@),
{
    jmt::KeyHash::from(key).0
}

/// A decimal digit.
fn digit_text(d: u64) -> (text: &'static str)
    requires
        d < 10,
    ensures
        text@ == seq![digit(d as nat)],
{
    proof {
        reveal_strlit("0");
        reveal_strlit("1");
        reveal_strlit("2");
        reveal_strlit("3");
        reveal_strlit("4");
        reveal_strlit("5");
        reveal_strlit("6");
        reveal_strlit("7");
        reveal_strlit("8");
        reveal_strlit("9");
    }
    match d {
        0 => "0",
        1 => "1",
        2 => "2",
        3 => "3",
        4 => "4",
        5 => "5",
        6 => "6",
        7 => "7",
        8 => "8",
        _ => "9",
    }
}

/// A number in decimal.
pub fn decimal_text(n: u64) -> (text: String)
    ensures
        text@ == decimal(n as nat),
    decreases n,
{
    let mut text = if n < 10 {
        String::new()
    } else {
        decimal_text(n / 10)
    };
    text.append(digit_text(n % 10));
    proof {
        assert(text@ =~= decimal(n as nat));
    }
    text
}

/// A text with a prefix and a suffix.
fn enclose(prefix: &str, text: &str, suffix: &str) -> (result: String)
    ensures
        result@ == prefix@ + text@ + suffix@,
{
    let mut result = String::new();
    result.append(prefix);
    result.append(text);
    result.append(suffix);
    proof {
        assert(result@ =~= prefix@ + text@ + suffix@);
    }
    result
}

/// A text with a prefix.
fn prefixed(prefix: &str, text: &str) -> (result: String)
    ensures
        result@ == prefix@ + text@,
{
    let mut result = String::new();
    result.append(prefix);
    result.append(text);
    proof {
        assert(result@ =~= prefix@ + text@);
    }
    result
}

impl<'a> Key<'a> {
    /// The path under which the piece of state is kept.
    pub fn path(&self) -> (text: String)
        ensures
            text@ == path(self@),
    {
        match *self {
            Key::TokenSupply(asset_id) => enclose(
                "shielded_pool/assets/",
                asset_id,
                "/token_supply",
            ),
            Key::KnownAssets => "shielded_pool/known_assets".to_owned(),
            Key::DenomByAsset(asset_id) => enclose("shielded_pool/assets/", asset_id, "/denom"),
            Key::NoteSource(note_commitment) => prefixed(
                "shielded_pool/note_source/",
                note_commitment,
            ),
            Key::CompactBlock(height) => prefixed(
                "shielded_pool/compact_block/",
                decimal_text(height).as_str(),
            ),
            Key::AnchorByHeight(height) => prefixed(
                "shielded_pool/anchor/",
                decimal_text(height).as_str(),
            ),
            Key::AnchorLookup(anchor) => prefixed("shielded_pool/valid_anchors/", anchor),
            Key::SpentNullifierLookup(nullifier) => prefixed(
                "shielded_pool/spent_nullifiers/",
                nullifier,
            ),
            Key::CommissionAmounts(height) => prefixed(
                "staking/commission_amounts/",
                decimal_text(height).as_str(),
            ),
        }
    }

    /// The hash of the path under which the piece of state is kept.
    pub fn hash(&self) -> (hash: KeyHash)
        ensures
            hash.0@ == jmt_key_hash(path(self@)),
    {
        KeyHash(key_hash(self.path().as_str()))
    }
}

/// The key of the token supply of the asset whose id is displayed as `asset_id`.
pub fn token_supply(asset_id: &str) -> (hash: KeyHash)
    ensures
        hash.0@ == jmt_key_hash(path(StateKey::TokenSupply(asset_id@))),
{
    Key::TokenSupply(asset_id).hash()
}

/// The key of the assets that are known.
pub fn known_assets() -> (hash: KeyHash)
    ensures
        hash.0@ == jmt_key_hash(path(StateKey::KnownAssets)),
{
    Key::KnownAssets.hash()
}

/// The key of the denomination of the asset whose id is displayed as `asset_id`.
pub fn denom_by_asset(asset_id: &str) -> (hash: KeyHash)
    ensures
        hash.0@ == jmt_key_hash(path(StateKey::DenomByAsset(asset_id@))),
{
    Key::DenomByAsset(asset_id).hash()
}

/// The key of the source of the note whose commitment is displayed as `note_commitment`.
pub fn note_source(note_commitment: &str) -> (hash: KeyHash)
    ensures
        hash.0@ == jmt_key_hash(path(StateKey::NoteSource(note_commitment@))),
{
    Key::NoteSource(note_commitment).hash()
}

/// The key of the compact block at a height.
pub fn compact_block(height: u64) -> (hash: KeyHash)
    ensures
        hash.0@ == jmt_key_hash(path(StateKey::CompactBlock(height))),
{
    Key::CompactBlock(height).hash()
}

/// The key of the anchor at a height.
pub fn anchor_by_height(height: &u64) -> (hash: KeyHash)
    ensures
        hash.0@ == jmt_key_hash(path(StateKey::AnchorByHeight(*height))),
{
    Key::AnchorByHeight(*height).hash()
}

/// The key under which it is kept that the anchor displayed as `anchor` is valid.
pub fn anchor_lookup(anchor: &str) -> (hash: KeyHash)
    ensures
        hash.0@ == jmt_key_hash(path(StateKey::AnchorLookup(anchor@))),
{
    Key::AnchorLookup(anchor).hash()
}

/// The key under which it is kept that the nullifier displayed as `nullifier` is spent.
pub fn spent_nullifier_lookup(nullifier: &str) -> (hash: KeyHash)
    ensures
        hash.0@ == jmt_key_hash(path(StateKey::SpentNullifierLookup(nullifier@))),
{
    Key::SpentNullifierLookup(nullifier).hash()
}

/// The key of the commission amounts at a height.
pub fn commission_amounts(height: u64) -> (hash: KeyHash)
    ensures
        hash.0@ == jmt_key_hash(path(StateKey::CommissionAmounts(height))),
{
    Key::CommissionAmounts(height).hash()
}

/// Numbers are told apart by their decimal digits.
pub proof fn lemma_decimal_injective(a: nat, b: nat)
    requires
        decimal(a) == decimal(b),
    ensures
        a == b,
    decreases a,
{
    let x = decimal(a);
    let y = decimal(b);
    assert(x.last() == digit(a % 10));
    assert(y.last() == digit(b % 10));
    assert(digit(a % 10) as nat == 48 + a % 10);
    assert(digit(b % 10) as nat == 48 + b % 10);
    if a >= 10 {
        lemma_decimal_nonempty(a / 10);
        assert(x.drop_last() =~= decimal(a / 10));
        if b >= 10 {
            assert(y.drop_last() =~= decimal(b / 10));
            lemma_decimal_injective(a / 10, b / 10);
        }
    } else if b >= 10 {
        lemma_decimal_nonempty(b / 10);
        assert(y.drop_last() =~= decimal(b / 10));
    }
}

/// Every number has a digit.
proof fn lemma_decimal_nonempty(n: nat)
    ensures
        decimal(n).len() > 0,
    decreases n,
{
}

/// What follows a prefix is told apart by the whole.
proof fn lemma_suffix_injective(prefix: Seq<char>, a: Seq<char>, b: Seq<char>)
    requires
        prefix + a == prefix + b,
    ensures
        a == b,
{
    let n = prefix.len() as int;
    assert((prefix + a).skip(n) =~= a);
    assert((prefix + b).skip(n) =~= b);
}

/// What stands between a prefix and a suffix is told apart by the whole.
proof fn lemma_middle_injective(prefix: Seq<char>, a: Seq<char>, b: Seq<char>, suffix: Seq<char>)
    requires
        prefix + a + suffix == prefix + b + suffix,
    ensures
        a == b,
{
    let n = prefix.len() as int;
    assert((prefix + a + suffix).len() == n + a.len() + suffix.len());
    assert((prefix + b + suffix).len() == n + b.len() + suffix.len());
    assert((prefix + a + suffix).subrange(n, n + a.len()) =~= a);
    assert((prefix + b + suffix).subrange(n, n + b.len()) =~= b);
}

/// No two pieces of state are kept under one path.
pub proof fn lemma_path_injective(a: StateKey, b: StateKey)
    requires
        path(a) == path(b),
    ensures
        a == b,
{
    reveal_strlit("shielded_pool/assets/");
    reveal_strlit("/token_supply");
    reveal_strlit("shielded_pool/known_assets");
    reveal_strlit("/denom");
    reveal_strlit("shielded_pool/note_source/");
    reveal_strlit("shielded_pool/compact_block/");
    reveal_strlit("shielded_pool/anchor/");
    reveal_strlit("shielded_pool/valid_anchors/");
    reveal_strlit("shielded_pool/spent_nullifiers/");
    reveal_strlit("staking/commission_amounts/");
    let (p, q) = (path(a), path(b));
    // The second character tells the commission amounts apart, and the next two after
    // `shielded_pool/` tell the others apart, but for the two that speak of an asset: of those the
    // last character does.
    assert(p[1] == q[1]);
    assert(p[14] == q[14]);
    assert(p[15] == q[15]);
    assert(p.last() == q.last());
    match (a, b) {
        (StateKey::TokenSupply(x), StateKey::TokenSupply(y)) => {
            lemma_middle_injective("shielded_pool/assets/"@, x, y, "/token_supply"@);
        },
        (StateKey::DenomByAsset(x), StateKey::DenomByAsset(y)) => {
            lemma_middle_injective("shielded_pool/assets/"@, x, y, "/denom"@);
        },
        (StateKey::NoteSource(x), StateKey::NoteSource(y)) => {
            lemma_suffix_injective("shielded_pool/note_source/"@, x, y);
        },
        (StateKey::CompactBlock(x), StateKey::CompactBlock(y)) => {
            lemma_suffix_injective(
                "shielded_pool/compact_block/"@,
                decimal(x as nat),
                decimal(y as nat),
            );
            lemma_decimal_injective(x as nat, y as nat);
        },
        (StateKey::AnchorByHeight(x), StateKey::AnchorByHeight(y)) => {
            lemma_suffix_injective("shielded_pool/anchor/"@, decimal(x as nat), decimal(y as nat));
            lemma_decimal_injective(x as nat, y as nat);
        },
        (StateKey::AnchorLookup(x), StateKey::AnchorLookup(y)) => {
            lemma_suffix_injective("shielded_pool/valid_anchors/"@, x, y);
        },
        (StateKey::SpentNullifierLookup(x), StateKey::SpentNullifierLookup(y)) => {
            lemma_suffix_injective("shielded_pool/spent_nullifiers/"@, x, y);
        },
        (StateKey::CommissionAmounts(x), StateKey::CommissionAmounts(y)) => {
            lemma_suffix_injective(
                "staking/commission_amounts/"@,
                decimal(x as nat),
                decimal(y as nat),
            );
            lemma_decimal_injective(x as nat, y as nat);
        },
        _ => {},
    }
}

/// A number in decimal is made of digits, without a leading zero, and is read back as the number.
pub proof fn lemma_decimal_reads_back(n: nat)
    ensures
        is_decimal(decimal(n)),
        decimal_value(decimal(n)) == n,
    decreases n,
{
    let text = decimal(n);
    assert(digit(n % 10) as int == 48 + n % 10);
    if n < 10 {
        assert(text.drop_last() =~= Seq::<char>::empty());
        assert(decimal_value(text.drop_last()) == 0);
    } else {
        lemma_decimal_reads_back(n / 10);
        let high = decimal(n / 10);
        assert(text.drop_last() =~= high);
        assert(text[0] == high[0]);
        assert forall|i: int| 0 <= i < text.len() implies '0' <= #[trigger] text[i] <= '9' by {
            if i < high.len() {
                assert(text[i] == high[i]);
            }
        }
        if text[0] == '0' {
            assert(high.len() == 1);
            assert(high.drop_last() =~= Seq::<char>::empty());
            assert(decimal_value(high.drop_last()) == 0);
            assert(high.last() == '0');
            assert(n / 10 == 0);
        }
    }
}

/// The path of each piece of state begins with the words of its kind. What follows them is the
/// text itself, before the words that end the path where there are such; of a height it is the
/// decimal number that is read back as the height.
pub proof fn lemma_path_reads_back(key: StateKey)
    ensures
        match key {
            StateKey::TokenSupply(asset_id) => {
                &&& path(key).len() == 21 + asset_id.len() + 13
                &&& path(key).subrange(0, 21) == "shielded_pool/assets/"@
                &&& path(key).subrange(21, 21 + asset_id.len() as int) == asset_id
                &&& path(key).skip(21 + asset_id.len() as int) == "/token_supply"@
            },
            StateKey::KnownAssets => path(key) == "shielded_pool/known_assets"@,
            StateKey::DenomByAsset(asset_id) => {
                &&& path(key).len() == 21 + asset_id.len() + 6
                &&& path(key).subrange(0, 21) == "shielded_pool/assets/"@
                &&& path(key).subrange(21, 21 + asset_id.len() as int) == asset_id
                &&& path(key).skip(21 + asset_id.len() as int) == "/denom"@
            },
            StateKey::NoteSource(note_commitment) => {
                &&& path(key).len() >= 26
                &&& path(key).take(26) == "shielded_pool/note_source/"@
                &&& path(key).skip(26) == note_commitment
            },
            StateKey::CompactBlock(height) => {
                &&& path(key).len() >= 28
                &&& path(key).take(28) == "shielded_pool/compact_block/"@
                &&& is_decimal(path(key).skip(28))
                &&& decimal_value(path(key).skip(28)) == height
            },
            StateKey::AnchorByHeight(height) => {
                &&& path(key).len() >= 21
                &&& path(key).take(21) == "shielded_pool/anchor/"@
                &&& is_decimal(path(key).skip(21))
                &&& decimal_value(path(key).skip(21)) == height
            },
            StateKey::AnchorLookup(anchor) => {
                &&& path(key).len() >= 28
                &&& path(key).take(28) == "shielded_pool/valid_anchors/"@
                &&& path(key).skip(28) == anchor
            },
            StateKey::SpentNullifierLookup(nullifier) => {
                &&& path(key).len() >= 31
                &&& path(key).take(31) == "shielded_pool/spent_nullifiers/"@
                &&& path(key).skip(31) == nullifier
            },
            StateKey::CommissionAmounts(height) => {
                &&& path(key).len() >= 27
                &&& path(key).take(27) == "staking/commission_amounts/"@
                &&& is_decimal(path(key).skip(27))
                &&& decimal_value(path(key).skip(27)) == height
            },
        },
{
    reveal_strlit("shielded_pool/assets/");
    reveal_strlit("/token_supply");
    reveal_strlit("/denom");
    reveal_strlit("shielded_pool/note_source/");
    reveal_strlit("shielded_pool/compact_block/");
    reveal_strlit("shielded_pool/anchor/");
    reveal_strlit("shielded_pool/valid_anchors/");
    reveal_strlit("shielded_pool/spent_nullifiers/");
    reveal_strlit("staking/commission_amounts/");
    let p = path(key);
    match key {
        StateKey::TokenSupply(asset_id) => {
            assert(p.subrange(0, 21) =~= "shielded_pool/assets/"@);
            assert(p.subrange(21, 21 + asset_id.len() as int) =~= asset_id);
            assert(p.skip(21 + asset_id.len() as int) =~= "/token_supply"@);
        },
        StateKey::KnownAssets => {},
        StateKey::DenomByAsset(asset_id) => {
            assert(p.subrange(0, 21) =~= "shielded_pool/assets/"@);
            assert(p.subrange(21, 21 + asset_id.len() as int) =~= asset_id);
            assert(p.skip(21 + asset_id.len() as int) =~= "/denom"@);
        },
        StateKey::NoteSource(note_commitment) => {
            assert(p.take(26) =~= "shielded_pool/note_source/"@);
            assert(p.skip(26) =~= note_commitment);
        },
        StateKey::CompactBlock(height) => {
            lemma_decimal_reads_back(height as nat);
            assert(p.take(28) =~= "shielded_pool/compact_block/"@);
            assert(p.skip(28) =~= decimal(height as nat));
        },
        StateKey::AnchorByHeight(height) => {
            lemma_decimal_reads_back(height as nat);
            assert(p.take(21) =~= "shielded_pool/anchor/"@);
            assert(p.skip(21) =~= decimal(height as nat));
        },
        StateKey::AnchorLookup(anchor) => {
            assert(p.take(28) =~= "shielded_pool/valid_anchors/"@);
            assert(p.skip(28) =~= anchor);
        },
        StateKey::SpentNullifierLookup(nullifier) => {
            assert(p.take(31) =~= "shielded_pool/spent_nullifiers/"@);
            assert(p.skip(31) =~= nullifier);
        },
        StateKey::CommissionAmounts(height) => {
            lemma_decimal_reads_back(height as nat);
            assert(p.take(27) =~= "staking/commission_amounts/"@);
            assert(p.skip(27) =~= decimal(height as nat));
        },
    }
}

/// A key speaks of the piece of state of its own kind, with its own text or height.
pub proof fn lemma_key_speaks_of_its_state<'a>(text: &'a str, height: u64)
    ensures
        Key::TokenSupply(text)@ == StateKey::TokenSupply(text@),
        Key::KnownAssets@ == StateKey::KnownAssets,
        Key::DenomByAsset(text)@ == StateKey::DenomByAsset(text@),
        Key::NoteSource(text)@ == StateKey::NoteSource(text@),
        Key::CompactBlock(height)@ == StateKey::CompactBlock(height),
        Key::AnchorByHeight(height)@ == StateKey::AnchorByHeight(height),
        Key::AnchorLookup(text)@ == StateKey::AnchorLookup(text@),
        Key::SpentNullifierLookup(text)@ == StateKey::SpentNullifierLookup(text@),
        Key::CommissionAmounts(height)@ == StateKey::CommissionAmounts(height),
{
}

} // verus!
