use vstd::prelude::*;

verus! {

/// A character that separates path segments on some platform, or that no
/// file name may hold.
pub open spec fn is_forbidden_char(c: char) -> bool {
    c == '/' || c == '\\' || c == '\0'
}

/// The parent-directory segment.
pub open spec fn parent_segment() -> Seq<char> {
    seq!['.', '.']
}

/// Whether `s`, read as a path, holds a `..` segment: two dots with a
/// separator or an end of `s` on each side.
pub open spec fn has_traversal(s: Seq<char>) -> bool {
    exists|i: int|
        0 <= i && i + 1 < s.len() && #[trigger] s[i] == '.' && s[i + 1] == '.' && (i == 0 || is_forbidden_char(
            s[i - 1],
        )) && (i + 2 == s.len() || is_forbidden_char(s[i + 2]))
}

/// A name that stands for exactly one entry inside the storage directory:
/// not empty, not `.` or `..`, and without a separator or NUL.
pub open spec fn is_valid_file_name(s: Seq<char>) -> bool {
    &&& s.len() > 0
    &&& s != seq!['.']
    &&& s != parent_segment()
    &&& forall|i: int| 0 <= i < s.len() ==> !is_forbidden_char(#[trigger] s[i])
}

/// Tells whether `name` is a single, safe path segment.
pub fn validate_file_name(name: &str) -> (r: bool)
    ensures
        r == is_valid_file_name(name@),
{
    let n = name.unicode_len();
    if n == 0 {
        return false;
    }
    let mut i: usize = 0;
    while i < n
        invariant
            n == name@.len(),
            i <= n,
            forall|k: int| 0 <= k < i ==> !is_forbidden_char(#[trigger] name@[k]),
        decreases n - i,
    {
        let c = name.get_char(i);
        if c == '/' || c == '\\' || c == '\0' {
            return false;
        }
        i = i + 1;
    }
    if n == 1 && name.get_char(0) == '.' {
        assert(name@ =~= seq!['.']);
        return false;
    }
    if n == 2 && name.get_char(0) == '.' && name.get_char(1) == '.' {
        assert(name@ =~= parent_segment());
        return false;
    }
    assert(name@ != seq!['.']) by {
        if n == 1 {
            assert(name@[0] != '.');
        }
    }
    assert(name@ != parent_segment()) by {
        if n == 2 {
            assert(name@[0] != '.' || name@[1] != '.');
        }
    }
    true
}

/// A name that holds a `..` segment is never valid: without separators,
/// the segment would be the whole name.
pub proof fn lemma_traversal_is_invalid(s: Seq<char>)
    requires
        has_traversal(s),
    ensures
        !is_valid_file_name(s),
{
    let i = choose|i: int|
        0 <= i && i + 1 < s.len() && #[trigger] s[i] == '.' && s[i + 1] == '.' && (i == 0 || is_forbidden_char(
            s[i - 1],
        )) && (i + 2 == s.len() || is_forbidden_char(s[i + 2]));
    if i > 0 {
        assert(is_forbidden_char(s[i - 1]));
    } else if i + 2 < s.len() {
        assert(is_forbidden_char(s[i + 2]));
    } else {
        assert(s =~= parent_segment());
    }
}

/// The storage directory, relative to the working directory.
pub open spec fn storage_dir() -> Seq<char> {
    seq!['a', 'u', 'd', 'i', 'o']
}

/// Where a clip named `name` is stored.
pub open spec fn stored_path(name: Seq<char>) -> Seq<char> {
    storage_dir() + seq!['/'] + name
}

pub open spec fn digit_char(d: nat) -> char {
    if d == 0 { '0' } else if d == 1 { '1' } else if d == 2 { '2' } else if d == 3 { '3' }
    else if d == 4 { '4' } else if d == 5 { '5' } else if d == 6 { '6' } else if d == 7 { '7' }
    else if d == 8 { '8' } else { '9' }
}

/// The decimal digits of `n`, most significant first.
pub open spec fn decimal(n: nat) -> Seq<char>
    decreases n,
{
    if n < 10 {
        seq![digit_char(n)]
    } else {
        decimal(n / 10).push(digit_char(n % 10))
    }
}

/// The directory beside the storage directory where saves write their
/// bytes before moving them into place.
pub open spec fn scratch_dir() -> Seq<char> {
    seq!['a', 'u', 'd', 'i', 'o', '-', 'p', 'a', 'r', 't', 'i', 'a', 'l']
}

/// Where the save with ticket `ticket` writes its bytes before moving them
/// into place: outside the storage directory, so never a stored path, and
/// named by the ticket first, so saves with different tickets never share it.
pub open spec fn temp_path(name: Seq<char>, ticket: nat) -> Seq<char> {
    scratch_dir() + seq!['/'] + decimal(ticket) + seq!['-'] + name
}

/// The storage directory.
pub fn storage_dir_string() -> (r: String)
    ensures
        r@ == storage_dir(),
{
    let r = String::from_str("audio");
    proof {
        reveal_strlit("audio");
    }
    assert(r@ =~= storage_dir());
    r
}

/// The path under which a clip named `name` is stored.
pub fn stored_path_string(name: &str) -> (r: String)
    ensures
        r@ == stored_path(name@),
{
    let r = String::from_str("audio/").concat(name);
    proof {
        reveal_strlit("audio/");
    }
    assert(r@ =~= stored_path(name@));
    r
}

fn digit_str(d: u64) -> (r: &'static str)
    requires
        d < 10,
    ensures
        r@ == seq![digit_char(d as nat)],
{
    proof {
        reveal_strlit("0");
        reveal_strlit("1");
        reveal_strlit("2");
        reveal_strlit("3");
        reveal_strlit("4");
        reveal_strlit("5");
        reveal_strlit("6");
        reveal_strlit("7");
        reveal_strlit("8");
        reveal_strlit("9");
    }
    let r = if d == 0 { "0" } else if d == 1 { "1" } else if d == 2 { "2" } else if d == 3 { "3" }
    else if d == 4 { "4" } else if d == 5 { "5" } else if d == 6 { "6" } else if d == 7 { "7" }
    else if d == 8 { "8" } else { "9" };
    assert(r@ =~= seq![digit_char(d as nat)]);
    r
}

/// The decimal digits of `n`.
pub fn decimal_string(n: u64) -> (r: String)
    ensures
        r@ == decimal(n as nat),
    decreases n,
{
    if n < 10 {
        String::from_str(digit_str(n))
    } else {
        let mut r = decimal_string(n / 10);
        r.append(digit_str(n % 10));
        assert(r@ =~= decimal(n as nat));
        r
    }
}

/// The scratch directory.
pub fn scratch_dir_string() -> (r: String)
    ensures
        r@ == scratch_dir(),
{
    let r = String::from_str("audio-partial");
    proof {
        reveal_strlit("audio-partial");
    }
    assert(r@ =~= scratch_dir());
    r
}

/// The temporary path that the save with ticket `ticket` writes to.
pub fn temp_path_string(name: &str, ticket: u64) -> (r: String)
    ensures
        r@ == temp_path(name@, ticket as nat),
{
    let mut r = String::from_str("audio-partial/");
    proof {
        reveal_strlit("audio-partial/");
        reveal_strlit("-");
    }
    let digits = decimal_string(ticket);
    r.append(digits.as_str());
    r.append("-");
    r.append(name);
    assert(r@ =~= temp_path(name@, ticket as nat));
    r
}

/// A temporary file never lands on the stored path of a clip.
pub proof fn lemma_temp_is_not_stored(name: Seq<char>, other: Seq<char>, ticket: nat)
    ensures
        temp_path(name, ticket) != stored_path(other),
{
    assert(temp_path(name, ticket)[5] == '-');
    assert(stored_path(other)[5] == '/');
}

/// No decimal digit is a dash.
proof fn lemma_decimal_has_no_dash(n: nat)
    ensures
        forall|i: int| 0 <= i < decimal(n).len() ==> #[trigger] decimal(n)[i] != '-',
    decreases n,
{
    if n >= 10 {
        lemma_decimal_has_no_dash(n / 10);
        assert forall|i: int| 0 <= i < decimal(n).len() implies #[trigger] decimal(n)[i] != '-' by {
            if i < decimal(n).len() - 1 {
                assert(decimal(n)[i] == decimal(n / 10)[i]);
            }
        }
    }
}

proof fn lemma_decimal_nonempty(n: nat)
    ensures
        decimal(n).len() >= 1,
        n >= 10 ==> decimal(n).len() >= 2,
    decreases n,
{
    if n >= 10 {
        lemma_decimal_nonempty(n / 10);
    }
}

/// Different numbers have different decimal digits.
pub proof fn lemma_decimal_injective(a: nat, b: nat)
    requires
        decimal(a) == decimal(b),
    ensures
        a == b,
    decreases a,
{
    lemma_decimal_nonempty(a);
    lemma_decimal_nonempty(b);
    if a < 10 && b < 10 {
        assert(decimal(a)[0] == digit_char(a));
        assert(decimal(b)[0] == digit_char(b));
    } else if a >= 10 && b >= 10 {
        let da = decimal(a);
        assert(da.drop_last() =~= decimal(a / 10));
        assert(decimal(b).drop_last() =~= decimal(b / 10));
        assert(digit_char(a % 10) == da.last());
        assert(digit_char(b % 10) == decimal(b).last());
        lemma_decimal_injective(a / 10, b / 10);
        assert(a == 10 * (a / 10) + a % 10);
        assert(b == 10 * (b / 10) + b % 10);
    }
}

/// Two saves get the same temporary file only when they have the same
/// name and the same ticket.
pub proof fn lemma_temp_paths_distinct(n1: Seq<char>, t1: nat, n2: Seq<char>, t2: nat)
    requires
        n1 != n2 || t1 != t2,
    ensures
        temp_path(n1, t1) != temp_path(n2, t2),
{
    if temp_path(n1, t1) == temp_path(n2, t2) {
        let p = temp_path(n1, t1);
        let q = temp_path(n2, t2);
        let d1 = decimal(t1);
        let d2 = decimal(t2);
        lemma_decimal_has_no_dash(t1);
        lemma_decimal_has_no_dash(t2);
        let k1 = d1.len() as int;
        let k2 = d2.len() as int;
        if k1 < k2 {
            assert(p[14 + k1] == '-');
            assert(q[14 + k1] == d2[k1]);
        } else if k2 < k1 {
            assert(q[14 + k2] == '-');
            assert(p[14 + k2] == d1[k2]);
        } else {
            assert(d1 =~= p.subrange(14, 14 + k1));
            assert(d2 =~= q.subrange(14, 14 + k2));
            lemma_decimal_injective(t1, t2);
            assert(n1 =~= p.subrange(15 + k1, p.len() as int));
            assert(n2 =~= q.subrange(15 + k2, q.len() as int));
        }
    }
}

} // verus!
