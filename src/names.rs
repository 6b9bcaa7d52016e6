use vstd::prelude::*;
use vstd::set_lib::lemma_len_subset;

use crate::text::{push_char, texts};

verus! {

pub open spec fn digit_char(d: int) -> char {
    if d == 0 {
        '0'
    } else if d == 1 {
        '1'
    } else if d == 2 {
        '2'
    } else if d == 3 {
        '3'
    } else if d == 4 {
        '4'
    } else if d == 5 {
        '5'
    } else if d == 6 {
        '6'
    } else if d == 7 {
        '7'
    } else if d == 8 {
        '8'
    } else {
        '9'
    }
}

pub open spec fn digit_value(c: char) -> int {
    (c as u32) - ('0' as u32)
}

/// The decimal digits of `n`, without leading zeros.
pub open spec fn decimal(n: nat) -> Seq<char>
    decreases n,
{
    if n < 10 {
        seq![digit_char(n as int)]
    } else {
        decimal(n / 10).push(digit_char((n % 10) as int))
    }
}

/// The number that a string of decimal digits denotes.
pub open spec fn value_of(s: Seq<char>) -> int
    decreases s.len(),
{
    if s.len() == 0 {
        0
    } else {
        value_of(s.drop_last()) * 10 + digit_value(s.last())
    }
}

proof fn lemma_digit(d: int)
    requires
        0 <= d < 10,
    ensures
        digit_value(digit_char(d)) == d,
{
}

proof fn lemma_decimal_value(n: nat)
    ensures
        value_of(decimal(n)) == n,
        decimal(n).len() >= 1,
    decreases n,
{
    if n < 10 {
        lemma_digit(n as int);
        assert(decimal(n).drop_last() =~= Seq::<char>::empty());
        assert(value_of(decimal(n)) == value_of(Seq::<char>::empty()) * 10 + digit_value(digit_char(n as int)));
    } else {
        lemma_digit((n % 10) as int);
        lemma_decimal_value(n / 10);
        assert(decimal(n).drop_last() =~= decimal(n / 10));
        assert(decimal(n).last() == digit_char((n % 10) as int));
        let q = n / 10;
        let m = n % 10;
        assert(q * 10 + m == n) by (nonlinear_arith)
            requires
                q == n / 10,
                m == n % 10,
        ;
        assert(value_of(decimal(n)) == value_of(decimal(q)) * 10 + m);
    }
}

/// `name` with the suffix `_k`.
pub open spec fn suffixed(name: Seq<char>, k: nat) -> Seq<char> {
    name + "_"@ + decimal(k)
}

proof fn lemma_suffixed_distinct(name: Seq<char>, j: nat, k: nat)
    requires
        j != k,
    ensures
        suffixed(name, j) != suffixed(name, k),
        suffixed(name, j) != name,
{
    lemma_decimal_value(j);
    lemma_decimal_value(k);
    reveal_strlit("_");
    if suffixed(name, j) == suffixed(name, k) {
        assert(suffixed(name, j).skip(name.len() + 1int) =~= decimal(j));
        assert(suffixed(name, k).skip(name.len() + 1int) =~= decimal(k));
    }
    assert(suffixed(name, j).len() > name.len());
}

spec fn suffix_set(name: Seq<char>, k: nat) -> Set<Seq<char>>
    decreases k,
{
    if k == 0 {
        Set::empty()
    } else {
        suffix_set(name, (k - 1) as nat).insert(suffixed(name, k))
    }
}

proof fn lemma_suffix_set(name: Seq<char>, k: nat)
    ensures
        suffix_set(name, k).finite(),
        suffix_set(name, k).len() == k,
        forall|x: Seq<char>|
            #[trigger] suffix_set(name, k).contains(x) <==> exists|j: nat|
                1 <= j <= k && x == suffixed(name, j),
    decreases k,
{
    if k > 0 {
        lemma_suffix_set(name, (k - 1) as nat);
        if suffix_set(name, (k - 1) as nat).contains(suffixed(name, k)) {
            let j = choose|j: nat| 1 <= j <= k - 1 && suffixed(name, k) == suffixed(name, j);
            lemma_suffixed_distinct(name, j, k);
        }
        assert forall|x: Seq<char>|
            #[trigger] suffix_set(name, k).contains(x) implies exists|j: nat|
                1 <= j <= k && x == suffixed(name, j) by {
            if x == suffixed(name, k) {
            } else {
                assert(suffix_set(name, (k - 1) as nat).contains(x));
            }
        }
        assert forall|x: Seq<char>|
            (exists|j: nat| 1 <= j <= k && x == suffixed(name, j)) implies #[trigger] suffix_set(
            name,
            k,
        ).contains(x) by {
            let j = choose|j: nat| 1 <= j <= k && x == suffixed(name, j);
            if j < k {
                assert(suffix_set(name, (k - 1) as nat).contains(x));
            }
        }
    }
}

/// Where `name` and its first `k` suffixed forms are all taken, `used` holds more than `k` names.
proof fn lemma_suffix_bound(name: Seq<char>, used: Seq<Seq<char>>, k: nat)
    requires
        used.contains(name),
        forall|j: nat| 1 <= j <= k ==> used.contains(#[trigger] suffixed(name, j)),
    ensures
        k + 1 <= used.len(),
{
    lemma_suffix_set(name, k);
    let s = suffix_set(name, k).insert(name);
    if suffix_set(name, k).contains(name) {
        let j = choose|j: nat| 1 <= j <= k && name == suffixed(name, j);
        lemma_suffixed_distinct(name, j, j + 1);
    }
    assert(s.subset_of(used.to_set()));
    used.lemma_cardinality_of_set();
    lemma_len_subset(s, used.to_set());
}

/// The least `k >= 1` for which `name_k` is not taken.
pub open spec fn least_free(name: Seq<char>, used: Seq<Seq<char>>) -> nat {
    choose|k: nat|
        k >= 1 && !used.contains(suffixed(name, k)) && forall|j: nat|
            1 <= j < k ==> used.contains(#[trigger] suffixed(name, j))
}

/// `name` itself where it is free, else `name_k` for the least free `k >= 1`.
pub open spec fn unique_name(name: Seq<char>, used: Seq<Seq<char>>) -> Seq<char> {
    if !used.contains(name) {
        name
    } else {
        suffixed(name, least_free(name, used))
    }
}

proof fn lemma_least_exists(name: Seq<char>, used: Seq<Seq<char>>, k: nat)
    requires
        k >= 1,
        !used.contains(suffixed(name, k)),
    ensures
        exists|m: nat|
            m >= 1 && !used.contains(suffixed(name, m)) && forall|j: nat|
                1 <= j < m ==> used.contains(#[trigger] suffixed(name, j)),
    decreases k,
{
    if exists|j: nat| 1 <= j < k && !used.contains(#[trigger] suffixed(name, j)) {
        let j = choose|j: nat| 1 <= j < k && !used.contains(#[trigger] suffixed(name, j));
        lemma_least_exists(name, used, j);
    }
}

/// The name chosen for a column is never one that is already taken.
pub proof fn law_unique_name_is_fresh(name: Seq<char>, used: Seq<Seq<char>>)
    ensures
        !used.contains(unique_name(name, used)),
{
    if used.contains(name) {
        let n = used.len();
        if forall|j: nat| 1 <= j <= n ==> used.contains(#[trigger] suffixed(name, j)) {
            lemma_suffix_bound(name, used, n);
        }
        let k = choose|k: nat| 1 <= k <= n && !used.contains(#[trigger] suffixed(name, k));
        lemma_least_exists(name, used, k);
    }
}

/// A name that is already taken once gets the suffix `_1`.
pub proof fn law_repeated_name_gets_first_suffix(name: Seq<char>)
    ensures
        unique_name(name, seq![name]) == suffixed(name, 1),
{
    let used = seq![name];
    lemma_suffixed_distinct(name, 1, 2);
    assert(used.contains(name)) by {
        assert(used[0] == name);
    }
    assert(!used.contains(suffixed(name, 1)));
    assert(1 >= 1 && !used.contains(suffixed(name, 1)) && forall|j: nat|
        1 <= j < 1 ==> used.contains(#[trigger] suffixed(name, j)));
    let k = least_free(name, used);
    if k > 1 {
        assert(used.contains(suffixed(name, 1)));
    }
}

fn digit(d: u64) -> (r: char)
    requires
        d < 10,
    ensures
        r == digit_char(d as int),
{
    if d == 0 {
        '0'
    } else if d == 1 {
        '1'
    } else if d == 2 {
        '2'
    } else if d == 3 {
        '3'
    } else if d == 4 {
        '4'
    } else if d == 5 {
        '5'
    } else if d == 6 {
        '6'
    } else if d == 7 {
        '7'
    } else if d == 8 {
        '8'
    } else {
        '9'
    }
}

/// The decimal digits of `n`.
pub fn decimal_string(n: u64) -> (r: String)
    ensures
        r@ == decimal(n as nat),
    decreases n,
{
    if n < 10 {
        let mut s = String::new();
        push_char(&mut s, digit(n));
        assert(s@ =~= decimal(n as nat));
        s
    } else {
        let mut s = decimal_string(n / 10);
        push_char(&mut s, digit(n % 10));
        s
    }
}

/// Whether `used` holds `name`.
pub fn contains_name(used: &Vec<String>, name: &String) -> (r: bool)
    ensures
        r == texts(used@).contains(name@),
{
    let mut i: usize = 0;
    while i < used.len()
        invariant
            0 <= i <= used.len(),
            forall|j: int| 0 <= j < i ==> used@[j]@ != name@,
        decreases used.len() - i,
    {
        if used[i] == *name {
            assert(texts(used@)[i as int] == name@);
            return true;
        }
        i += 1;
    }
    assert(!texts(used@).contains(name@)) by {
        if texts(used@).contains(name@) {
            let j = choose|j: int| 0 <= j < texts(used@).len() && texts(used@)[j] == name@;
            assert(used@[j]@ == name@);
        }
    }
    false
}

/// A name for a column that no name of `used` equals: `name` itself, else `name_1`,
/// `name_2`, ... with the least free number.
pub fn make_unique(name: &String, used: &Vec<String>) -> (r: String)
    ensures
        r@ == unique_name(name@, texts(used@)),
{
    let ghost u = texts(used@);
    if !contains_name(used, name) {
        return name.clone();
    }
    let mut counter: usize = 1;
    loop
        invariant
            u == texts(used@),
            u.contains(name@),
            1 <= counter <= used.len(),
            forall|j: nat| 1 <= j < counter ==> u.contains(#[trigger] suffixed(name@, j)),
        decreases used.len() - counter,
    {
        let mut candidate = name.clone();
        candidate.append("_");
        let digits = decimal_string(counter as u64);
        candidate.append(digits.as_str());
        assert(candidate@ == suffixed(name@, counter as nat));
        if !contains_name(used, &candidate) {
            let ghost k = least_free(name@, u);
            assert(k == counter) by {
                assert(counter >= 1 && !u.contains(suffixed(name@, counter as nat)) && forall|
                    j: nat,
                | 1 <= j < counter ==> u.contains(#[trigger] suffixed(name@, j)));
                if k < counter {
                    assert(u.contains(suffixed(name@, k)));
                } else if k > counter {
                    assert(u.contains(suffixed(name@, counter as nat)));
                }
            }
            return candidate;
        }
        proof {
            lemma_suffix_bound(name@, u, counter as nat);
        }
        counter += 1;
    }
}

} // verus!
