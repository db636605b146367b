use vstd::prelude::*;
use vstd::string::StrSliceExecFns;
use vstd::string::StringExecFns;

verus! {

/// Character-by-character string equality, stated over the string views.
pub fn str_eq(a: &str, b: &str) -> (r: bool)
    ensures
        r == (a@ == b@),
{
    let na = a.unicode_len();
    let nb = b.unicode_len();
    if na != nb {
        return false;
    }
    let mut i: usize = 0;
    while i < na
        invariant
            na == a@.len(),
            nb == b@.len(),
            na == nb,
            i <= na,
            forall|j: int| 0 <= j < i ==> a@[j] == b@[j],
        decreases na - i,
    {
        if a.get_char(i) != b.get_char(i) {
            return false;
        }
        i = i + 1;
    }
    proof {
        assert(a@ =~= b@);
    }
    true
}

/// The character for a single decimal digit value.
pub open spec fn digit_char(d: int) -> char {
    if d == 0 {
        '0'
    } else if d == 1 {
        '1'
    } else if d == 2 {
        '2'
    } else if d == 3 {
        '3'
    } else if d == 4 {
        '4'
    } else if d == 5 {
        '5'
    } else if d == 6 {
        '6'
    } else if d == 7 {
        '7'
    } else if d == 8 {
        '8'
    } else {
        '9'
    }
}

/// Decimal digits of `n`, most significant first, without leading zeros.
pub open spec fn spec_dec(n: nat) -> Seq<char>
    decreases n,
{
    if n < 10 {
        seq![digit_char(n as int)]
    } else {
        spec_dec(n / 10) + seq![digit_char((n % 10) as int)]
    }
}

/// The single-character string for the digit `d`.
fn digit_str(d: u64) -> (r: &'static str)
    requires
        d < 10,
    ensures
        r@ == seq![digit_char(d as int)],
{
    if d == 0 {
        proof {
            reveal_strlit("0");
            assert("0"@ =~= seq![digit_char(0int)]);
        }
        "0"
    } else if d == 1 {
        proof {
            reveal_strlit("1");
            assert("1"@ =~= seq![digit_char(1int)]);
        }
        "1"
    } else if d == 2 {
        proof {
            reveal_strlit("2");
            assert("2"@ =~= seq![digit_char(2int)]);
        }
        "2"
    } else if d == 3 {
        proof {
            reveal_strlit("3");
            assert("3"@ =~= seq![digit_char(3int)]);
        }
        "3"
    } else if d == 4 {
        proof {
            reveal_strlit("4");
            assert("4"@ =~= seq![digit_char(4int)]);
        }
        "4"
    } else if d == 5 {
        proof {
            reveal_strlit("5");
            assert("5"@ =~= seq![digit_char(5int)]);
        }
        "5"
    } else if d == 6 {
        proof {
            reveal_strlit("6");
            assert("6"@ =~= seq![digit_char(6int)]);
        }
        "6"
    } else if d == 7 {
        proof {
            reveal_strlit("7");
            assert("7"@ =~= seq![digit_char(7int)]);
        }
        "7"
    } else if d == 8 {
        proof {
            reveal_strlit("8");
            assert("8"@ =~= seq![digit_char(8int)]);
        }
        "8"
    } else {
        proof {
            reveal_strlit("9");
            assert("9"@ =~= seq![digit_char(9int)]);
        }
        "9"
    }
}

/// Decimal representation of `n`, matching `spec_dec`.
pub fn u64_to_string(n: u64) -> (r: String)
    ensures
        r@ == spec_dec(n as nat),
    decreases n,
{
    if n < 10 {
        let r = digit_str(n).to_owned();
        r
    } else {
        let mut s = u64_to_string(n / 10);
        s.append(digit_str(n % 10));
        proof {
            assert(s@ =~= spec_dec(n as nat));
        }
        s
    }
}

/// A decimal representation has at least one digit, and at least two once
/// the value reaches ten.
pub proof fn lemma_dec_len(n: nat)
    ensures
        spec_dec(n).len() >= 1,
        n >= 10 ==> spec_dec(n).len() >= 2,
    decreases n,
{
    if n >= 10 {
        lemma_dec_len(n / 10);
    }
}

/// Distinct numbers have distinct decimal representations.
pub proof fn lemma_dec_injective(a: nat, b: nat)
    requires
        a != b,
    ensures
        spec_dec(a) != spec_dec(b),
    decreases a + b,
{
    lemma_dec_len(a);
    lemma_dec_len(b);
    if a < 10 && b < 10 {
        assert(spec_dec(a)[0] == digit_char(a as int));
        assert(spec_dec(b)[0] == digit_char(b as int));
        assert(digit_char(a as int) != digit_char(b as int));
    } else if a < 10 {
        assert(spec_dec(a).len() == 1);
    } else if b < 10 {
        assert(spec_dec(b).len() == 1);
    } else {
        vstd::arithmetic::div_mod::lemma_fundamental_div_mod(a as int, 10);
        vstd::arithmetic::div_mod::lemma_fundamental_div_mod(b as int, 10);
        if a % 10 != b % 10 {
            if spec_dec(a) == spec_dec(b) {
                assert(spec_dec(a).last() == digit_char((a % 10) as int));
                assert(spec_dec(b).last() == digit_char((b % 10) as int));
                assert(false);
            }
        } else {
            assert(a / 10 != b / 10);
            lemma_dec_injective(a / 10, b / 10);
            if spec_dec(a) == spec_dec(b) {
                assert(spec_dec(a).drop_last() =~= spec_dec(a / 10));
                assert(spec_dec(b).drop_last() =~= spec_dec(b / 10));
                assert(false);
            }
        }
    }
}

/// The path of backup slot `i`: the base path, a dot, and `i` in decimal.
pub open spec fn spec_backup_path(path: Seq<char>, i: nat) -> Seq<char> {
    path + seq!['.'] + spec_dec(i)
}

/// Executable counterpart of `spec_backup_path`.
pub fn backup_path(path: &str, i: u64) -> (r: String)
    ensures
        r@ == spec_backup_path(path@, i as nat),
{
    let mut s = path.to_owned();
    proof {
        reveal_strlit(".");
    }
    s.append(".");
    let d = u64_to_string(i);
    s.append(d.as_str());
    proof {
        assert(s@ =~= spec_backup_path(path@, i as nat));
    }
    s
}

/// A backup path is never the base path itself.
pub proof fn lemma_bpath_ne_base(p: Seq<char>, i: nat)
    ensures
        spec_backup_path(p, i) != p,
{
    lemma_dec_len(i);
    if spec_backup_path(p, i) == p {
        assert(spec_backup_path(p, i).len() == p.len() + 1 + spec_dec(i).len());
        assert(false);
    }
}

/// Distinct slot numbers give distinct backup paths.
pub proof fn lemma_bpath_injective(p: Seq<char>, a: nat, b: nat)
    requires
        a != b,
    ensures
        spec_backup_path(p, a) != spec_backup_path(p, b),
{
    lemma_dec_injective(a, b);
    lemma_dec_len(a);
    lemma_dec_len(b);
    if spec_backup_path(p, a) == spec_backup_path(p, b) {
        assert(spec_backup_path(p, a).len() == p.len() + 1 + spec_dec(a).len());
        assert(spec_backup_path(p, b).len() == p.len() + 1 + spec_dec(b).len());
        assert(spec_dec(a).len() == spec_dec(b).len());
        assert(spec_dec(a) =~= spec_dec(b)) by {
            assert forall|t: int| 0 <= t < spec_dec(a).len() implies spec_dec(a)[t] == spec_dec(
                b,
            )[t] by {
                assert(spec_backup_path(p, a)[p.len() + 1 + t] == spec_dec(a)[t]);
                assert(spec_backup_path(p, b)[p.len() + 1 + t] == spec_dec(b)[t]);
            }
        }
        assert(false);
    }
}

/// `n` in decimal, left-padded with zeros to at least two digits.
pub open spec fn spec_pad2(n: nat) -> Seq<char> {
    if n < 10 {
        seq!['0'] + spec_dec(n)
    } else {
        spec_dec(n)
    }
}

/// `n` in decimal, left-padded with zeros to at least four digits.
pub open spec fn spec_pad4(n: nat) -> Seq<char> {
    if n < 10 {
        seq!['0', '0', '0'] + spec_dec(n)
    } else if n < 100 {
        seq!['0', '0'] + spec_dec(n)
    } else if n < 1000 {
        seq!['0'] + spec_dec(n)
    } else {
        spec_dec(n)
    }
}

/// Executable counterpart of `spec_pad2`.
pub fn pad2(n: u64) -> (r: String)
    ensures
        r@ == spec_pad2(n as nat),
{
    proof {
        reveal_strlit("0");
    }
    if n < 10 {
        let mut s = String::from_str("0");
        let d = u64_to_string(n);
        s.append(d.as_str());
        proof {
            assert(s@ =~= spec_pad2(n as nat));
        }
        s
    } else {
        u64_to_string(n)
    }
}

/// Executable counterpart of `spec_pad4`.
pub fn pad4(n: u64) -> (r: String)
    ensures
        r@ == spec_pad4(n as nat),
{
    proof {
        reveal_strlit("000");
        reveal_strlit("00");
        reveal_strlit("0");
    }
    if n < 10 {
        let mut s = String::from_str("000");
        let d = u64_to_string(n);
        s.append(d.as_str());
        proof {
            assert(s@ =~= spec_pad4(n as nat));
        }
        s
    } else if n < 100 {
        let mut s = String::from_str("00");
        let d = u64_to_string(n);
        s.append(d.as_str());
        proof {
            assert(s@ =~= spec_pad4(n as nat));
        }
        s
    } else if n < 1000 {
        let mut s = String::from_str("0");
        let d = u64_to_string(n);
        s.append(d.as_str());
        proof {
            assert(s@ =~= spec_pad4(n as nat));
        }
        s
    } else {
        u64_to_string(n)
    }
}

} // verus!
