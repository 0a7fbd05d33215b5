//! The mathematical model of an append-only ledger: a list of
//! (holder, amount) rows, summed and looked up by holder.
//!
//! Balance lists keep at most one row per holder ([`holders_unique`]);
//! stake lists on a proposal may hold many rows per voter. Both are modelled
//! as `Seq<(Seq<char>, u128)>`, the deep view of `Vec<(String, u128)>`.

use vstd::prelude::*;

use crate::error::ContractError;

verus! {

/// The model of a row list: each `String` replaced by its character sequence.
pub open spec fn rows(v: Vec<(String, u128)>) -> Seq<(Seq<char>, u128)> {
    v.deep_view()
}

/// Sum of all amounts in the list, as an unbounded integer.
pub open spec fn amount_sum(s: Seq<(Seq<char>, u128)>) -> int
    decreases s.len(),
{
    if s.len() == 0 {
        0
    } else {
        amount_sum(s.drop_last()) + s.last().1
    }
}

/// Sum of the amounts of the rows belonging to `who`.
pub open spec fn addr_total(s: Seq<(Seq<char>, u128)>, who: Seq<char>) -> int
    decreases s.len(),
{
    if s.len() == 0 {
        0
    } else {
        addr_total(s.drop_last(), who) + if s.last().0 == who {
            s.last().1 as int
        } else {
            0
        }
    }
}

/// The balance of `who`: the amount of its row, or zero when it has none.
pub open spec fn bal_of(s: Seq<(Seq<char>, u128)>, who: Seq<char>) -> int
    decreases s.len(),
{
    if s.len() == 0 {
        0
    } else if s.last().0 == who {
        s.last().1 as int
    } else {
        bal_of(s.drop_last(), who)
    }
}

/// No holder owns two rows.
pub open spec fn holders_unique(s: Seq<(Seq<char>, u128)>) -> bool {
    forall|i: int, j: int| 0 <= i < j < s.len() ==> s[i].0 != s[j].0
}

/// The balance of `who` after `amount` moved from `from` to `to`
/// (the identity when `from == to`, even when all three are one holder).
pub open spec fn moved_bal(
    pre: Seq<(Seq<char>, u128)>,
    from: Seq<char>,
    to: Seq<char>,
    amount: u128,
    who: Seq<char>,
) -> int {
    bal_of(pre, who) - (if who == from {
        amount as int
    } else {
        0
    }) + (if who == to {
        amount as int
    } else {
        0
    })
}

/// `post` is `pre` with `amount` moved from `from` to `to`: every balance
/// follows [`moved_bal`], the total is unchanged, and holders stay unique.
pub open spec fn balances_moved(
    pre: Seq<(Seq<char>, u128)>,
    post: Seq<(Seq<char>, u128)>,
    from: Seq<char>,
    to: Seq<char>,
    amount: u128,
) -> bool {
    &&& holders_unique(post)
    &&& amount_sum(post) == amount_sum(pre)
    &&& forall|who: Seq<char>| #[trigger] bal_of(post, who) == moved_bal(pre, from, to, amount, who)
}

pub proof fn lemma_amount_sum_nonneg(s: Seq<(Seq<char>, u128)>)
    ensures
        amount_sum(s) >= 0,
    decreases s.len(),
{
    if s.len() > 0 {
        lemma_amount_sum_nonneg(s.drop_last());
    }
}

pub proof fn lemma_addr_total_nonneg(s: Seq<(Seq<char>, u128)>, who: Seq<char>)
    ensures
        addr_total(s, who) >= 0,
    decreases s.len(),
{
    if s.len() > 0 {
        lemma_addr_total_nonneg(s.drop_last(), who);
    }
}

pub proof fn lemma_bal_of_nonneg(s: Seq<(Seq<char>, u128)>, who: Seq<char>)
    ensures
        bal_of(s, who) >= 0,
    decreases s.len(),
{
    if s.len() > 0 && s.last().0 != who {
        lemma_bal_of_nonneg(s.drop_last(), who);
    }
}

pub proof fn lemma_bal_of_le_sum(s: Seq<(Seq<char>, u128)>, who: Seq<char>)
    ensures
        bal_of(s, who) <= amount_sum(s),
    decreases s.len(),
{
    lemma_bal_of_nonneg(s, who);
    if s.len() > 0 {
        lemma_amount_sum_nonneg(s.drop_last());
        if s.last().0 != who {
            lemma_bal_of_le_sum(s.drop_last(), who);
        }
    }
}

pub proof fn lemma_addr_total_le_sum(s: Seq<(Seq<char>, u128)>, who: Seq<char>)
    ensures
        addr_total(s, who) <= amount_sum(s),
    decreases s.len(),
{
    if s.len() > 0 {
        lemma_addr_total_le_sum(s.drop_last(), who);
    }
}

/// Two distinct holders never own more than the whole pot together.
pub proof fn lemma_two_bal_le_sum(s: Seq<(Seq<char>, u128)>, a: Seq<char>, b: Seq<char>)
    requires
        holders_unique(s),
        a != b,
    ensures
        bal_of(s, a) + bal_of(s, b) <= amount_sum(s),
    decreases s.len(),
{
    lemma_bal_of_nonneg(s, a);
    lemma_bal_of_nonneg(s, b);
    if s.len() > 0 {
        let t = s.drop_last();
        assert(holders_unique(t)) by {
            assert(forall|i: int, j: int| 0 <= i < j < t.len() ==> t[i] == s[i] && t[j] == s[j]);
        }
        if s.last().0 == a {
            lemma_bal_of_le_sum(t, b);
        } else if s.last().0 == b {
            lemma_bal_of_le_sum(t, a);
        } else {
            lemma_two_bal_le_sum(t, a, b);
        }
    }
}

/// With unique holders, the balance of the holder of row `i` is that row's
/// amount.
pub proof fn lemma_bal_of_at_index(s: Seq<(Seq<char>, u128)>, i: int)
    requires
        holders_unique(s),
        0 <= i < s.len(),
    ensures
        bal_of(s, s[i].0) == s[i].1,
    decreases s.len(),
{
    if i == s.len() - 1 {
    } else {
        let t = s.drop_last();
        assert(holders_unique(t)) by {
            assert(forall|m: int, j: int| 0 <= m < j < t.len() ==> t[m] == s[m] && t[j] == s[j]);
        }
        assert(s.last().0 != s[i].0);
        lemma_bal_of_at_index(t, i);
    }
}

/// A holder with no row has balance zero.
pub proof fn lemma_bal_of_absent(s: Seq<(Seq<char>, u128)>, who: Seq<char>)
    requires
        forall|i: int| 0 <= i < s.len() ==> s[i].0 != who,
    ensures
        bal_of(s, who) == 0,
    decreases s.len(),
{
    if s.len() > 0 {
        lemma_bal_of_absent(s.drop_last(), who);
    }
}

pub proof fn lemma_amount_sum_update(s: Seq<(Seq<char>, u128)>, i: int, e: (Seq<char>, u128))
    requires
        0 <= i < s.len(),
    ensures
        amount_sum(s.update(i, e)) == amount_sum(s) - s[i].1 + e.1,
    decreases s.len(),
{
    let t = s.update(i, e);
    if i == s.len() - 1 {
        assert(t.drop_last() =~= s.drop_last());
    } else {
        assert(t.drop_last() =~= s.drop_last().update(i, e));
        lemma_amount_sum_update(s.drop_last(), i, e);
    }
}

proof fn lemma_bal_of_update_one(s: Seq<(Seq<char>, u128)>, i: int, v: u128, who: Seq<char>)
    requires
        holders_unique(s),
        0 <= i < s.len(),
    ensures
        bal_of(s.update(i, (s[i].0, v)), who) == if who == s[i].0 {
            v as int
        } else {
            bal_of(s, who)
        },
    decreases s.len(),
{
    let t = s.update(i, (s[i].0, v));
    if i == s.len() - 1 {
        assert(t.drop_last() =~= s.drop_last());
    } else {
        assert(t.drop_last() =~= s.drop_last().update(i, (s[i].0, v)));
        assert(holders_unique(s.drop_last())) by {
            assert(forall|m: int, j: int|
                0 <= m < j < s.drop_last().len() ==> s.drop_last()[m] == s[m] && s.drop_last()[j]
                    == s[j]);
        }
        assert(s.last().0 != s[i].0);
        lemma_bal_of_update_one(s.drop_last(), i, v, who);
    }
}

/// Changing only the amount of row `i` changes only that holder's balance.
pub proof fn lemma_bal_of_update(s: Seq<(Seq<char>, u128)>, i: int, v: u128)
    requires
        holders_unique(s),
        0 <= i < s.len(),
    ensures
        holders_unique(s.update(i, (s[i].0, v))),
        forall|who: Seq<char>| #[trigger] bal_of(s.update(i, (s[i].0, v)), who) == if who == s[i].0 {
            v as int
        } else {
            bal_of(s, who)
        },
{
    let t = s.update(i, (s[i].0, v));
    assert(forall|m: int, j: int| 0 <= m < j < t.len() ==> t[m].0 == s[m].0 && t[j].0 == s[j].0);
    assert forall|who: Seq<char>| #[trigger] bal_of(t, who) == if who == s[i].0 {
        v as int
    } else {
        bal_of(s, who)
    } by {
        lemma_bal_of_update_one(s, i, v, who);
    }
}

proof fn lemma_bal_of_push_one(s: Seq<(Seq<char>, u128)>, e: (Seq<char>, u128), who: Seq<char>)
    ensures
        bal_of(s.push(e), who) == if who == e.0 {
            e.1 as int
        } else {
            bal_of(s, who)
        },
{
    assert(s.push(e).drop_last() =~= s);
}

/// Appending a row for a fresh holder gives that holder its amount as
/// balance and leaves every other balance alone.
pub proof fn lemma_bal_of_push(s: Seq<(Seq<char>, u128)>, e: (Seq<char>, u128))
    requires
        holders_unique(s),
        forall|i: int| 0 <= i < s.len() ==> s[i].0 != e.0,
    ensures
        holders_unique(s.push(e)),
        amount_sum(s.push(e)) == amount_sum(s) + e.1,
        forall|who: Seq<char>| #[trigger] bal_of(s.push(e), who) == if who == e.0 {
            e.1 as int
        } else {
            bal_of(s, who)
        },
{
    assert(s.push(e).drop_last() =~= s);
    assert forall|who: Seq<char>| #[trigger] bal_of(s.push(e), who) == if who == e.0 {
        e.1 as int
    } else {
        bal_of(s, who)
    } by {
        lemma_bal_of_push_one(s, e, who);
    }
}

/// Sums of prefixes grow row by row.
pub proof fn lemma_amount_sum_take_step(s: Seq<(Seq<char>, u128)>, i: int)
    requires
        0 <= i < s.len(),
    ensures
        amount_sum(s.take(i + 1)) == amount_sum(s.take(i)) + s[i].1,
        addr_total(s.take(i + 1), s[i].0) == addr_total(s.take(i), s[i].0) + s[i].1,
        forall|who: Seq<char>| who != s[i].0 ==> #[trigger] addr_total(s.take(i + 1), who)
            == addr_total(s.take(i), who),
{
    assert(s.take(i + 1).drop_last() =~= s.take(i));
    assert(s.take(i + 1).last() == s[i]);
}

/// A prefix never sums to more than the whole.
pub proof fn lemma_amount_sum_take_le(s: Seq<(Seq<char>, u128)>, k: int)
    requires
        0 <= k <= s.len(),
    ensures
        amount_sum(s.take(k)) <= amount_sum(s),
    decreases s.len() - k,
{
    if k == s.len() {
        assert(s.take(k) =~= s);
    } else {
        lemma_amount_sum_take_step(s, k);
        lemma_amount_sum_take_le(s, k + 1);
    }
}

/// The whole list is its own prefix.
pub proof fn lemma_take_all(s: Seq<(Seq<char>, u128)>)
    ensures
        s.take(s.len() as int) =~= s,
{
}

/// `s` with every row of `who` zeroed out; rows are kept (with amount zero)
/// so later rows keep their positions.
pub open spec fn zeroed(s: Seq<(Seq<char>, u128)>, who: Seq<char>) -> Seq<(Seq<char>, u128)> {
    Seq::new(
        s.len(),
        |i: int|
            if s[i].0 == who {
                (s[i].0, 0u128)
            } else {
                s[i]
            },
    )
}

proof fn lemma_zeroed_addr_one(s: Seq<(Seq<char>, u128)>, who: Seq<char>, a: Seq<char>)
    ensures
        addr_total(zeroed(s, who), a) == if a == who {
            0
        } else {
            addr_total(s, a)
        },
    decreases s.len(),
{
    if s.len() > 0 {
        assert(zeroed(s, who).drop_last() =~= zeroed(s.drop_last(), who));
        lemma_zeroed_addr_one(s.drop_last(), who, a);
    }
}

/// Zeroing one holder's rows takes exactly that holder's total out of the
/// sum and leaves every other holder's total alone.
pub proof fn lemma_zeroed_sums(s: Seq<(Seq<char>, u128)>, who: Seq<char>)
    ensures
        amount_sum(zeroed(s, who)) == amount_sum(s) - addr_total(s, who),
        forall|a: Seq<char>| #[trigger] addr_total(zeroed(s, who), a) == if a == who {
            0
        } else {
            addr_total(s, a)
        },
    decreases s.len(),
{
    if s.len() > 0 {
        assert(zeroed(s, who).drop_last() =~= zeroed(s.drop_last(), who));
        lemma_zeroed_sums(s.drop_last(), who);
    }
    assert forall|a: Seq<char>| #[trigger] addr_total(zeroed(s, who), a) == (if a == who {
        0
    } else {
        addr_total(s, a)
    }) by {
        lemma_zeroed_addr_one(s, who, a);
    }
}

/// Copy a stake list with every row of `who` zeroed, returning the copy and
/// how much was zeroed out.
pub(crate) fn zero_entries(v: &Vec<(String, u128)>, who: &String) -> (out: (
    Vec<(String, u128)>,
    u128,
))
    requires
        amount_sum(rows(*v)) <= u128::MAX,
    ensures
        rows(out.0) == zeroed(rows(*v), who@),
        out.1 as int == addr_total(rows(*v), who@),
{
    let ghost s = rows(*v);
    let n = v.len();
    let mut out: Vec<(String, u128)> = Vec::new();
    let mut acc: u128 = 0;
    let mut i: usize = 0;
    proof {
        assert(s.take(0) =~= Seq::<(Seq<char>, u128)>::empty());
    }
    while i < n
        invariant
            n == v@.len(),
            s == rows(*v),
            amount_sum(s) <= u128::MAX,
            i <= n,
            out@.len() == i,
            forall|j: int| 0 <= j < i ==> rows(out)[j] == zeroed(s, who@)[j],
            acc as int == addr_total(s.take(i as int), who@),
        decreases n - i,
    {
        proof {
            lemma_amount_sum_take_step(s, i as int);
            lemma_addr_total_le_sum(s.take(i as int + 1), who@);
            lemma_amount_sum_take_le(s, i as int + 1);
            lemma_addr_total_nonneg(s.take(i as int), who@);
            assert(s[i as int] == (v@[i as int].0@, v@[i as int].1));
        }
        let ghost out_pre = rows(out);
        let row = &v[i];
        if row.0 == *who {
            out.push((row.0.clone(), 0));
            proof {
                assert(rows(out) =~= out_pre.push((s[i as int].0, 0u128)));
            }
            acc = acc + row.1;
        } else {
            out.push((row.0.clone(), row.1));
            proof {
                assert(rows(out) =~= out_pre.push(s[i as int]));
            }
        }
        i = i + 1;
    }
    proof {
        assert(s.take(n as int) =~= s);
        assert(rows(out) =~= zeroed(s, who@));
    }
    (out, acc)
}

/// Pay every row of `entries` back out of `from`'s balance, skipping rows
/// whose amount is zero. The caller shows that `from` covers the whole
/// list; each payment is then a transfer that cannot fail.
pub(crate) fn refund_entries(
    balances: &mut Vec<(String, u128)>,
    from: &String,
    entries: &Vec<(String, u128)>,
)
    requires
        holders_unique(rows(*old(balances))),
        amount_sum(rows(*old(balances))) <= u128::MAX,
        amount_sum(rows(*entries)) <= bal_of(rows(*old(balances)), from@),
    ensures
        holders_unique(rows(*final(balances))),
        amount_sum(rows(*final(balances))) == amount_sum(rows(*old(balances))),
        forall|who: Seq<char>| #[trigger] bal_of(rows(*final(balances)), who) == bal_of(
            rows(*old(balances)),
            who,
        ) - (if who == from@ {
            amount_sum(rows(*entries))
        } else {
            0
        }) + addr_total(rows(*entries), who),
{
    let ghost b0 = rows(*balances);
    let ghost es = rows(*entries);
    let n = entries.len();
    let mut i: usize = 0;
    proof {
        assert(es.take(0) =~= Seq::<(Seq<char>, u128)>::empty());
    }
    while i < n
        invariant
            n == entries@.len(),
            es == rows(*entries),
            i <= n,
            holders_unique(rows(*balances)),
            amount_sum(rows(*balances)) == amount_sum(b0),
            amount_sum(b0) <= u128::MAX,
            amount_sum(es) <= bal_of(b0, from@),
            forall|who: Seq<char>| #[trigger] bal_of(rows(*balances), who) == bal_of(b0, who) - (
            if who == from@ {
                amount_sum(es.take(i as int))
            } else {
                0
            }) + addr_total(es.take(i as int), who),
        decreases n - i,
    {
        let ghost cur = rows(*balances);
        proof {
            lemma_amount_sum_take_step(es, i as int);
            lemma_amount_sum_take_le(es, i as int + 1);
            lemma_addr_total_nonneg(es.take(i as int), from@);
            assert(es[i as int] == (entries@[i as int].0@, entries@[i as int].1));
        }
        let amt = entries[i].1;
        if amt > 0 {
            proof {
                assert(bal_of(cur, from@) == bal_of(b0, from@) - amount_sum(es.take(i as int))
                    + addr_total(es.take(i as int), from@));
            }
            match transfer_impl(balances, from, &entries[i].0, amt) {
                Ok(_) => {
                    proof {
                        let to = es[i as int].0;
                        assert forall|who: Seq<char>| #[trigger] bal_of(rows(*balances), who)
                            == bal_of(b0, who) - (if who == from@ {
                            amount_sum(es.take(i as int + 1))
                        } else {
                            0
                        }) + addr_total(es.take(i as int + 1), who) by {
                            assert(bal_of(rows(*balances), who) == moved_bal(
                                cur,
                                from@,
                                to,
                                amt,
                                who,
                            ));
                            assert(bal_of(cur, who) == bal_of(b0, who) - (if who == from@ {
                                amount_sum(es.take(i as int))
                            } else {
                                0
                            }) + addr_total(es.take(i as int), who));
                        }
                    }
                },
                Err(_) => {
                    proof {
                        assert(false);
                    }
                },
            }
        } else {
            proof {
                assert forall|who: Seq<char>| #[trigger] bal_of(rows(*balances), who) == bal_of(
                    b0,
                    who,
                ) - (if who == from@ {
                    amount_sum(es.take(i as int + 1))
                } else {
                    0
                }) + addr_total(es.take(i as int + 1), who) by {
                    assert(bal_of(rows(*balances), who) == bal_of(cur, who));
                }
            }
        }
        i = i + 1;
    }
    proof {
        assert(es.take(n as int) =~= es);
    }
}

/// Index of `who` in a row list, if it has a row.
pub(crate) fn find_holder(v: &Vec<(String, u128)>, who: &String) -> (r: Option<usize>)
    ensures
        match r {
            Some(i) => i < v@.len() && rows(*v)[i as int].0 == who@,
            None => forall|i: int| 0 <= i < v@.len() ==> rows(*v)[i].0 != who@,
        },
{
    let n = v.len();
    let mut i: usize = 0;
    while i < n
        invariant
            n == v@.len(),
            i <= n,
            forall|j: int| 0 <= j < i ==> rows(*v)[j].0 != who@,
        decreases n - i,
    {
        assert(rows(*v)[i as int].0 == v@[i as int].0@);
        if v[i].0 == *who {
            return Some(i);
        }
        i = i + 1;
    }
    None
}

/// `post` is `pre` with `amount` taken out of `from` and destroyed.
pub open spec fn balances_burned(
    pre: Seq<(Seq<char>, u128)>,
    post: Seq<(Seq<char>, u128)>,
    from: Seq<char>,
    amount: u128,
) -> bool {
    &&& holders_unique(post)
    &&& amount_sum(post) == amount_sum(pre) - amount
    &&& forall|who: Seq<char>| #[trigger] bal_of(post, who) == bal_of(pre, who) - (if who == from {
        amount as int
    } else {
        0
    })
}

/// Take `amount` out of `from`'s row without crediting anyone.
///
/// Same failure behaviour as [`transfer_impl`]: `InvalidZeroAmount` on a
/// zero amount, `Overflow` when the row cannot cover it, untouched on error.
pub(crate) fn debit_impl(
    balances: &mut Vec<(String, u128)>,
    from: &String,
    amount: u128,
) -> (r: Result<(), ContractError>)
    requires
        holders_unique(rows(*old(balances))),
    ensures
        holders_unique(rows(*final(balances))),
        match r {
            Ok(_) => amount > 0 && bal_of(rows(*old(balances)), from@) >= amount
                && balances_burned(rows(*old(balances)), rows(*final(balances)), from@, amount),
            Err(e) => *final(balances) == *old(balances) && (amount == 0 || bal_of(
                rows(*old(balances)),
                from@,
            ) < amount) && e == (if amount == 0 {
                ContractError::InvalidZeroAmount
            } else {
                ContractError::Overflow
            }),
        },
{
    let ghost s0 = rows(*balances);
    if amount == 0 {
        return Err(ContractError::InvalidZeroAmount);
    }
    let fi = match find_holder(balances, from) {
        Some(i) => i,
        None => {
            proof {
                lemma_bal_of_absent(s0, from@);
            }
            return Err(ContractError::Overflow);
        },
    };
    proof {
        lemma_bal_of_at_index(s0, fi as int);
    }
    let from_bal = balances[fi].1;
    if from_bal < amount {
        return Err(ContractError::Overflow);
    }
    let row = &mut balances[fi];
    row.1 = from_bal - amount;
    proof {
        let s1 = rows(*balances);
        assert(s1 =~= s0.update(fi as int, (s0[fi as int].0, (from_bal - amount) as u128)));
        lemma_bal_of_update(s0, fi as int, (from_bal - amount) as u128);
        lemma_amount_sum_update(s0, fi as int, (s0[fi as int].0, (from_bal - amount) as u128));
    }
    Ok(())
}

/// The balance of `who` in a balance list: its row's amount, or zero.
pub(crate) fn lookup_balance(v: &Vec<(String, u128)>, who: &String) -> (r: u128)
    requires
        holders_unique(rows(*v)),
    ensures
        r as int == bal_of(rows(*v), who@),
{
    match find_holder(v, who) {
        Some(i) => {
            proof {
                lemma_bal_of_at_index(rows(*v), i as int);
            }
            v[i].1
        },
        None => {
            proof {
                lemma_bal_of_absent(rows(*v), who@);
            }
            0
        },
    }
}

/// Move `amount` from `from` to `to` inside one balance list.
///
/// Fails with `InvalidZeroAmount` on a zero amount and with `Overflow` when
/// `from` cannot cover the amount; on failure the list is untouched. The
/// receiving side cannot overflow because the grand total fits in `u128`.
pub(crate) fn transfer_impl(
    balances: &mut Vec<(String, u128)>,
    from: &String,
    to: &String,
    amount: u128,
) -> (r: Result<(), ContractError>)
    requires
        holders_unique(rows(*old(balances))),
        amount_sum(rows(*old(balances))) <= u128::MAX,
    ensures
        holders_unique(rows(*final(balances))),
        match r {
            Ok(_) => amount > 0 && bal_of(rows(*old(balances)), from@) >= amount
                && balances_moved(rows(*old(balances)), rows(*final(balances)), from@, to@, amount),
            Err(e) => *final(balances) == *old(balances) && (amount == 0 || bal_of(
                rows(*old(balances)),
                from@,
            ) < amount) && e == (if amount == 0 {
                ContractError::InvalidZeroAmount
            } else {
                ContractError::Overflow
            }),
        },
{
    let ghost s0 = rows(*balances);
    if amount == 0 {
        return Err(ContractError::InvalidZeroAmount);
    }
    let fi = match find_holder(balances, from) {
        Some(i) => i,
        None => {
            proof {
                lemma_bal_of_absent(s0, from@);
            }
            return Err(ContractError::Overflow);
        },
    };
    proof {
        lemma_bal_of_at_index(s0, fi as int);
    }
    let from_bal = balances[fi].1;
    if from_bal < amount {
        return Err(ContractError::Overflow);
    }
    // Debit the sender's row.
    let row = &mut balances[fi];
    row.1 = from_bal - amount;
    let ghost s1 = rows(*balances);
    proof {
        assert(s1 =~= s0.update(fi as int, (s0[fi as int].0, (from_bal - amount) as u128)));
        lemma_bal_of_update(s0, fi as int, (from_bal - amount) as u128);
        lemma_amount_sum_update(s0, fi as int, (s0[fi as int].0, (from_bal - amount) as u128));
    }
    // Credit the recipient, appending a fresh row when it has none.
    match find_holder(balances, to) {
        Some(ti) => {
            proof {
                lemma_bal_of_at_index(s1, ti as int);
                lemma_bal_of_le_sum(s1, to@);
                lemma_bal_of_nonneg(s0, to@);
                lemma_amount_sum_nonneg(s1);
            }
            let to_bal = balances[ti].1;
            let row2 = &mut balances[ti];
            row2.1 = to_bal + amount;
            proof {
                let s2 = rows(*balances);
                assert(s2 =~= s1.update(ti as int, (s1[ti as int].0, (to_bal + amount) as u128)));
                lemma_bal_of_update(s1, ti as int, (to_bal + amount) as u128);
                lemma_amount_sum_update(s1, ti as int, (s1[ti as int].0, (to_bal + amount) as u128));
            }
        },
        None => {
            proof {
                lemma_bal_of_absent(s1, to@);
            }
            balances.push((to.clone(), amount));
            proof {
                let s2 = rows(*balances);
                assert(s2 =~= s1.push((to@, amount)));
                lemma_bal_of_push(s1, (to@, amount));
            }
        },
    }
    Ok(())
}

/// Sum a row list, which the caller knows fits in `u128`.
pub(crate) fn sum_amounts(v: &Vec<(String, u128)>) -> (total: u128)
    requires
        amount_sum(rows(*v)) <= u128::MAX,
    ensures
        total as int == amount_sum(rows(*v)),
{
    let n = v.len();
    let mut total: u128 = 0;
    let mut i: usize = 0;
    proof {
        assert(rows(*v).take(0) =~= Seq::<(Seq<char>, u128)>::empty());
    }
    while i < n
        invariant
            n == v@.len(),
            i <= n,
            amount_sum(rows(*v)) <= u128::MAX,
            total as int == amount_sum(rows(*v).take(i as int)),
        decreases n - i,
    {
        proof {
            lemma_amount_sum_take_step(rows(*v), i as int);
            lemma_amount_sum_take_le(rows(*v), i as int + 1);
            lemma_amount_sum_nonneg(rows(*v).take(i as int));
            assert(rows(*v)[i as int].1 == v@[i as int].1);
        }
        total = total + v[i].1;
        i = i + 1;
    }
    proof {
        lemma_take_all(rows(*v));
    }
    total
}

} // verus!
