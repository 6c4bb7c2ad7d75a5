use vstd::prelude::*;
use crate::address::Account;

verus! {

/// The index of the first account in `s` holding asset type `asset`, or `-1`
/// when no account does. A payout lands in the first matching account.
pub open spec fn first_match(s: Seq<Account>, asset: Seq<u8>) -> int
    decreases s.len(),
{
    if s.len() == 0 {
        -1
    } else if s[0].asset_type@ == asset {
        0
    } else {
        let rest = first_match(s.drop_first(), asset);
        if rest < 0 {
            -1
        } else {
            rest + 1
        }
    }
}

/// The account list after crediting `amount` to the first account holding
/// `asset`. Meaningful only when such an account exists and the credit fits.
pub open spec fn credit(s: Seq<Account>, asset: Seq<u8>, amount: u64) -> Seq<Account> {
    let i = first_match(s, asset);
    s.update(i, (Account { balance: (s[i].balance + amount) as u64, ..s[i] }))
}

/// The combined balance of a list of accounts.
pub open spec fn balance_total(s: Seq<Account>) -> int
    decreases s.len(),
{
    if s.len() == 0 {
        0
    } else {
        s[0].balance + balance_total(s.drop_first())
    }
}

/// `first_match` is exactly the least matching index: a result of `-1` means
/// no account holds the asset; otherwise the result is in range, matches,
/// and everything before it does not.
pub proof fn lemma_first_match(s: Seq<Account>, asset: Seq<u8>)
    ensures
        first_match(s, asset) == -1 <==> (forall|j: int|
            0 <= j < s.len() ==> (#[trigger] s[j]).asset_type@ != asset),
        first_match(s, asset) != -1 ==> 0 <= first_match(s, asset) < s.len() && s[first_match(
            s,
            asset,
        )].asset_type@ == asset && (forall|j: int|
            0 <= j < first_match(s, asset) ==> (#[trigger] s[j]).asset_type@ != asset),
    decreases s.len(),
{
    if s.len() > 0 && s[0].asset_type@ != asset {
        let rest = s.drop_first();
        lemma_first_match(rest, asset);
        if first_match(rest, asset) == -1 {
            assert forall|j: int| 0 <= j < s.len() implies (#[trigger] s[j]).asset_type@
                != asset by {
                if j > 0 {
                    assert(s[j] == rest[j - 1]);
                }
            }
        } else {
            assert(s[first_match(s, asset)] == rest[first_match(rest, asset)]);
            assert forall|j: int| 0 <= j < first_match(s, asset) implies (#[trigger] s[j]).asset_type@
                != asset by {
                if j > 0 {
                    assert(s[j] == rest[j - 1]);
                }
            }
        }
    }
}

/// Changing one account's balance changes the combined balance by exactly
/// the difference.
pub proof fn lemma_total_update(s: Seq<Account>, i: int, a: Account)
    requires
        0 <= i < s.len(),
    ensures
        balance_total(s.update(i, a)) == balance_total(s) - s[i].balance + a.balance,
    decreases s.len(),
{
    if i == 0 {
        assert(s.update(0, a).drop_first() =~= s.drop_first());
    } else {
        assert(s.update(i, a).drop_first() =~= s.drop_first().update(i - 1, a));
        lemma_total_update(s.drop_first(), i - 1, a);
    }
}

/// Crediting an amount to some account raises the combined balance by that
/// amount, and touches nothing but that account's balance.
pub proof fn lemma_credit(s: Seq<Account>, asset: Seq<u8>, amount: u64)
    requires
        first_match(s, asset) >= 0,
        s[first_match(s, asset)].balance + amount <= u64::MAX,
    ensures
        balance_total(credit(s, asset, amount)) == balance_total(s) + amount,
        credit(s, asset, amount).len() == s.len(),
        forall|j: int|
            0 <= j < s.len() && j != first_match(s, asset) ==> credit(s, asset, amount)[j]
                == #[trigger] s[j],
        ({
            let i = first_match(s, asset);
            credit(s, asset, amount)[i] == (Account {
                balance: (s[i].balance + amount) as u64,
                ..s[i]
            })
        }),
{
    lemma_first_match(s, asset);
    let i = first_match(s, asset);
    lemma_total_update(s, i, (Account { balance: (s[i].balance + amount) as u64, ..s[i] }));
}

/// The combined balance of a two-account list, spelled out.
pub proof fn lemma_total_two(s: Seq<Account>)
    requires
        s.len() == 2,
    ensures
        balance_total(s) == s[0].balance + s[1].balance,
{
    assert(s.drop_first()[0] == s[1]);
    assert(balance_total(s.drop_first().drop_first()) == 0);
    assert(balance_total(s.drop_first()) == s[1].balance);
}

/// Crediting does not change which asset types occur where, so a second
/// search for any asset finds the same index.
pub proof fn lemma_credit_keeps_assets(s: Seq<Account>, asset: Seq<u8>, amount: u64, other: Seq<
    u8,
>)
    requires
        first_match(s, asset) >= 0,
    ensures
        first_match(credit(s, asset, amount), other) == first_match(s, other),
{
    lemma_first_match(s, asset);
    lemma_first_match_same_assets(s, credit(s, asset, amount), other);
}

/// Two account lists with the same asset types in the same places agree on
/// `first_match` for every asset.
pub proof fn lemma_first_match_same_assets(s1: Seq<Account>, s2: Seq<Account>, asset: Seq<u8>)
    requires
        s1.len() == s2.len(),
        forall|j: int| 0 <= j < s1.len() ==> (#[trigger] s1[j]).asset_type@ == s2[j].asset_type@,
    ensures
        first_match(s1, asset) == first_match(s2, asset),
    decreases s1.len(),
{
    if s1.len() > 0 {
        assert(forall|j: int|
            0 <= j < s1.drop_first().len() ==> (#[trigger] s1.drop_first()[j]) == s1[j + 1]
                && s2.drop_first()[j] == s2[j + 1]);
        lemma_first_match_same_assets(s1.drop_first(), s2.drop_first(), asset);
    }
}

} // verus!
