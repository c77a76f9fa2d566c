//! Character and byte helpers shared by the validators and formatters.
use vstd::prelude::*;

verus! {

/// ASCII letters and digits, as `u8::is_ascii_alphanumeric` decides them.
pub open spec fn is_alnum_byte(b: u8) -> bool {
    (48 <= b <= 57) || (65 <= b <= 90) || (97 <= b <= 122)
}

pub fn alnum_byte(b: u8) -> (r: bool)
    ensures r == is_alnum_byte(b),
{
    (48 <= b && b <= 57) || (65 <= b && b <= 90) || (97 <= b && b <= 122)
}

/// The characters of a string slice, in order.
pub fn chars_of(s: &str) -> (v: Vec<char>)
    ensures v@ == s@,
{
    let mut v: Vec<char> = Vec::new();
    for c in it: s.chars()
        invariant
            v@ == it.seq().take(it.index() as int),
    {
        v.push(c);
    }
    v
}

} // verus!

verus! {

/// Appends one character to a string (`String::push`).
#[verifier::external_body]
pub fn push_char(s: &mut String, c: char)
    ensures
        final(s)@ == old(s)@.push(c),
{
    s.push(c);
}

/// Builds a string holding exactly the given characters.
pub fn string_of(chars: &Vec<char>) -> (s: String)
    ensures
        s@ == chars@,
{
    let mut s = String::new();
    for i in 0..chars.len()
        invariant
            s@ == chars@.take(i as int),
    {
        push_char(&mut s, chars[i]);
        assert(chars@.take(i + 1) == chars@.take(i as int).push(chars@[i as int]));
    }
    assert(chars@.take(chars@.len() as int) == chars@);
    s
}

/// Appends every character of `suffix` to `v`.
pub fn extend_chars(v: &mut Vec<char>, suffix: &str)
    ensures
        final(v)@ == old(v)@ + suffix@,
{
    let cs = chars_of(suffix);
    let ghost start = v@;
    for i in 0..cs.len()
        invariant
            cs@ == suffix@,
            v@ == start + cs@.take(i as int),
    {
        v.push(cs[i]);
        assert(cs@.take(i + 1) == cs@.take(i as int).push(cs@[i as int]));
    }
    assert(cs@.take(cs@.len() as int) == cs@);
}

/// Whether two character sequences are equal, decided element by element.
pub fn chars_equal(a: &Vec<char>, b: &Vec<char>) -> (r: bool)
    ensures
        r == (a@ == b@),
{
    if a.len() != b.len() {
        return false;
    }
    for i in 0..a.len()
        invariant
            a@.len() == b@.len(),
            forall|j: int| 0 <= j < i ==> a@[j] == b@[j],
    {
        if a[i] != b[i] {
            return false;
        }
    }
    assert(a@ =~= b@);
    true
}

/// Whether two strings hold the same characters.
pub fn str_equal(a: &str, b: &str) -> (r: bool)
    ensures
        r == (a@ == b@),
{
    let x = chars_of(a);
    let y = chars_of(b);
    chars_equal(&x, &y)
}

/// `needle` occurs in `hay` starting at position `at`.
pub open spec fn occurs_at(hay: Seq<char>, needle: Seq<char>, at: int) -> bool {
    0 <= at && at + needle.len() <= hay.len() && hay.subrange(at, at + needle.len()) == needle
}

/// `needle` occurs somewhere in `hay` (`str::contains`).
pub open spec fn contains_seq(hay: Seq<char>, needle: Seq<char>) -> bool {
    exists|at: int| occurs_at(hay, needle, at)
}

/// Whether `needle` occurs at position `at` of `hay`.
pub fn matches_at(hay: &Vec<char>, needle: &Vec<char>, at: usize) -> (r: bool)
    ensures
        r == occurs_at(hay@, needle@, at as int),
{
    if at > hay.len() || needle.len() > hay.len() - at {
        return false;
    }
    for j in 0..needle.len()
        invariant
            at + needle@.len() <= hay@.len(),
            hay@.len() <= usize::MAX,
            forall|k: int| 0 <= k < j ==> hay@[at + k] == needle@[k],
    {
        if hay[at + j] != needle[j] {
            assert(hay@.subrange(at as int, at + needle@.len())[j as int] != needle@[j as int]);
            return false;
        }
    }
    assert(hay@.subrange(at as int, at + needle@.len()) =~= needle@);
    true
}

/// Whether `needle` occurs anywhere in `hay`.
pub fn contains_chars(hay: &Vec<char>, needle: &Vec<char>) -> (r: bool)
    ensures
        r == contains_seq(hay@, needle@),
{
    if needle.len() > hay.len() {
        return false;
    }
    if needle.len() == 0 {
        assert(hay@.subrange(0, 0) =~= needle@);
        assert(occurs_at(hay@, needle@, 0));
        return true;
    }
    let last = hay.len() - needle.len();
    for at in 0..hay.len()
        invariant
            last == hay@.len() - needle@.len(),
            forall|k: int| 0 <= k < at && k <= last ==> !occurs_at(hay@, needle@, k),
    {
        if at <= last && matches_at(hay, needle, at) {
            return true;
        }
    }
    assert forall|k: int| !occurs_at(hay@, needle@, k) by {
        if 0 <= k && k + needle@.len() <= hay@.len() {
            assert(k <= last);
        }
    }
    false
}

} // verus!

verus! {

/// Lexicographic order of character sequences, the order `str` comparison uses
/// (UTF-8 byte order and code-point order agree).
pub open spec fn seq_less(a: Seq<char>, b: Seq<char>) -> bool
    decreases a.len(),
{
    if a.len() == 0 {
        b.len() > 0
    } else if b.len() == 0 {
        false
    } else if a[0] != b[0] {
        a[0] < b[0]
    } else {
        seq_less(a.drop_first(), b.drop_first())
    }
}

pub proof fn lemma_seq_less_irreflexive(a: Seq<char>)
    ensures
        !seq_less(a, a),
    decreases a.len(),
{
    if a.len() > 0 {
        lemma_seq_less_irreflexive(a.drop_first());
    }
}

pub proof fn lemma_seq_less_total(a: Seq<char>, b: Seq<char>)
    ensures
        a == b || seq_less(a, b) || seq_less(b, a),
        !(seq_less(a, b) && seq_less(b, a)),
    decreases a.len(),
{
    if a.len() > 0 && b.len() > 0 && a[0] == b[0] {
        lemma_seq_less_total(a.drop_first(), b.drop_first());
        if a.drop_first() == b.drop_first() {
            assert(a =~= seq![a[0]] + a.drop_first());
            assert(b =~= seq![b[0]] + b.drop_first());
        }
    } else if a.len() == 0 && b.len() == 0 {
        assert(a =~= b);
    }
}

pub proof fn lemma_seq_less_transitive(a: Seq<char>, b: Seq<char>, c: Seq<char>)
    requires
        seq_less(a, b),
        seq_less(b, c),
    ensures
        seq_less(a, c),
    decreases a.len(),
{
    if a.len() > 0 && b.len() > 0 && c.len() > 0 && a[0] == b[0] && b[0] == c[0] {
        lemma_seq_less_transitive(a.drop_first(), b.drop_first(), c.drop_first());
    }
}

/// Decides `seq_less(a@, b@)`.
pub fn chars_less(a: &Vec<char>, b: &Vec<char>) -> (r: bool)
    ensures
        r == seq_less(a@, b@),
{
    let mut i: usize = 0;
    assert(a@.skip(0) =~= a@ && b@.skip(0) =~= b@);
    while i < a.len() && i < b.len()
        invariant
            i <= a@.len(),
            i <= b@.len(),
            seq_less(a@, b@) == seq_less(a@.skip(i as int), b@.skip(i as int)),
        decreases a.len() - i,
    {
        if a[i] != b[i] {
            let r = a[i] < b[i];
            proof {
                let x = a@.skip(i as int);
                let y = b@.skip(i as int);
                assert(x[0] == a@[i as int] && y[0] == b@[i as int]);
            }
            return r;
        }
        proof {
            let x = a@.skip(i as int);
            let y = b@.skip(i as int);
            assert(x.drop_first() =~= a@.skip(i + 1));
            assert(y.drop_first() =~= b@.skip(i + 1));
        }
        i = i + 1;
    }
    i == a.len() && i < b.len()
}

/// Decides `seq_less(a@, b@)` for two strings.
pub fn str_less(a: &str, b: &str) -> (r: bool)
    ensures
        r == seq_less(a@, b@),
{
    let x = chars_of(a);
    let y = chars_of(b);
    chars_less(&x, &y)
}

/// Strictly ascending in byte order, so without duplicates.
pub open spec fn strictly_sorted(paths: Seq<String>) -> bool {
    forall|a: int, b: int| 0 <= a < b < paths.len() ==> seq_less(#[trigger] paths[a]@, #[trigger] paths[b]@)
}

/// `p` is one of the paths.
pub open spec fn lists_path(paths: Seq<String>, p: Seq<char>) -> bool {
    exists|i: int| 0 <= i < paths.len() && #[trigger] paths[i]@ == p
}

/// The distinct strings of `paths`, in ascending byte order.
pub fn sorted_distinct(paths: &Vec<String>) -> (sorted: Vec<String>)
    ensures
        strictly_sorted(sorted@),
        forall|p: Seq<char>| #[trigger] lists_path(sorted@, p) <==> lists_path(paths@, p),
{
    let mut sorted: Vec<String> = Vec::new();
    for k in 0..paths.len()
        invariant
            strictly_sorted(sorted@),
            forall|p: Seq<char>| #[trigger] lists_path(sorted@, p) <==> lists_path(paths@.take(k as int), p),
    {
        let item = paths[k].as_str();
        let mut pos: usize = 0;
        while pos < sorted.len() && str_less(sorted[pos].as_str(), item)
            invariant
                pos <= sorted@.len(),
                forall|a: int| 0 <= a < pos ==> seq_less(#[trigger] sorted@[a]@, item@),
            decreases sorted.len() - pos,
        {
            pos = pos + 1;
        }
        let duplicate = pos < sorted.len() && str_equal(sorted[pos].as_str(), item);
        let ghost before = sorted@;
        proof {
            assert(paths@.take(k + 1) =~= paths@.take(k as int).push(paths@[k as int]));
        }
        if !duplicate {
            sorted.insert(pos, paths[k].clone());
            proof {
                assert forall|a: int, b: int| 0 <= a < b < sorted@.len() implies seq_less(#[trigger] sorted@[a]@, #[trigger] sorted@[b]@) by {
                    if b < pos {
                        assert(sorted@[a] == before[a] && sorted@[b] == before[b]);
                    } else if b == pos {
                        assert(sorted@[a] == before[a]);
                    } else if a < pos {
                        assert(sorted@[a] == before[a] && sorted@[b] == before[b - 1]);
                        lemma_seq_less_total(item@, before[b - 1]@);
                        if pos < before.len() {
                            lemma_seq_less_total(item@, before[pos as int]@);
                            if b - 1 > pos {
                                assert(seq_less(before[pos as int]@, before[b - 1]@));
                                if seq_less(item@, before[pos as int]@) {
                                    lemma_seq_less_transitive(item@, before[pos as int]@, before[b - 1]@);
                                }
                            }
                        }
                        lemma_seq_less_transitive(before[a]@, item@, before[b - 1]@);
                    } else if a == pos {
                        assert(sorted@[b] == before[b - 1]);
                        lemma_seq_less_total(item@, before[pos as int]@);
                        if b - 1 > pos {
                            assert(seq_less(before[pos as int]@, before[b - 1]@));
                            if seq_less(item@, before[pos as int]@) {
                                lemma_seq_less_transitive(item@, before[pos as int]@, before[b - 1]@);
                            }
                        }
                    } else {
                        assert(sorted@[a] == before[a - 1] && sorted@[b] == before[b - 1]);
                    }
                }
                assert forall|p: Seq<char>| #[trigger] lists_path(sorted@, p) <==> lists_path(paths@.take(k + 1), p) by {
                    if lists_path(sorted@, p) {
                        let i = choose|i: int| 0 <= i < sorted@.len() && #[trigger] sorted@[i]@ == p;
                        if i == pos {
                            assert(paths@.take(k + 1)[k as int]@ == p);
                        } else if i < pos {
                            assert(before[i]@ == p);
                            assert(lists_path(before, p));
                            let j = choose|j: int| 0 <= j < paths@.take(k as int).len() && #[trigger] paths@.take(k as int)[j]@ == p;
                            assert(paths@.take(k + 1)[j]@ == p);
                        } else {
                            assert(before[i - 1]@ == p);
                            assert(lists_path(before, p));
                            let j = choose|j: int| 0 <= j < paths@.take(k as int).len() && #[trigger] paths@.take(k as int)[j]@ == p;
                            assert(paths@.take(k + 1)[j]@ == p);
                        }
                    }
                    if lists_path(paths@.take(k + 1), p) {
                        let j = choose|j: int| 0 <= j < paths@.take(k + 1).len() && #[trigger] paths@.take(k + 1)[j]@ == p;
                        if j == k {
                            assert(sorted@[pos as int]@ == p);
                        } else {
                            assert(paths@.take(k as int)[j]@ == p);
                            assert(lists_path(before, p));
                            let i = choose|i: int| 0 <= i < before.len() && #[trigger] before[i]@ == p;
                            if i < pos {
                                assert(sorted@[i]@ == p);
                            } else {
                                assert(sorted@[i + 1]@ == p);
                            }
                        }
                    }
                }
            }
        } else {
            proof {
                assert forall|p: Seq<char>| #[trigger] lists_path(sorted@, p) <==> lists_path(paths@.take(k + 1), p) by {
                    if lists_path(sorted@, p) {
                        let j = choose|j: int| 0 <= j < paths@.take(k as int).len() && #[trigger] paths@.take(k as int)[j]@ == p;
                        assert(paths@.take(k + 1)[j]@ == p);
                    }
                    if lists_path(paths@.take(k + 1), p) {
                        let j = choose|j: int| 0 <= j < paths@.take(k + 1).len() && #[trigger] paths@.take(k + 1)[j]@ == p;
                        if j == k {
                            assert(sorted@[pos as int]@ == p);
                        } else {
                            assert(paths@.take(k as int)[j]@ == p);
                        }
                    }
                }
            }
        }
    }
    assert(paths@.take(paths@.len() as int) =~= paths@);
    sorted
}

} // verus!

verus! {

/// `s` begins with `prefix` (`str::starts_with`).
pub open spec fn starts_with(s: Seq<char>, prefix: Seq<char>) -> bool {
    occurs_at(s, prefix, 0)
}

/// Whether `s` begins with `prefix`.
pub fn str_starts_with(s: &str, prefix: &str) -> (r: bool)
    ensures
        r == starts_with(s@, prefix@),
{
    let x = chars_of(s);
    let y = chars_of(prefix);
    matches_at(&x, &y, 0)
}

/// The string `a`, then `b`, then `c`.
pub fn concat3(a: &str, b: &str, c: &str) -> (r: String)
    ensures
        r@ == a@ + b@ + c@,
{
    let mut v: Vec<char> = Vec::new();
    extend_chars(&mut v, a);
    extend_chars(&mut v, b);
    extend_chars(&mut v, c);
    assert(v@ =~= a@ + b@ + c@);
    string_of(&v)
}

/// The string `a`, `b`, `c`, `d` and `e` in turn.
pub fn concat5(a: &str, b: &str, c: &str, d: &str, e: &str) -> (r: String)
    ensures
        r@ == a@ + b@ + c@ + d@ + e@,
{
    let mut v: Vec<char> = Vec::new();
    extend_chars(&mut v, a);
    extend_chars(&mut v, b);
    extend_chars(&mut v, c);
    extend_chars(&mut v, d);
    extend_chars(&mut v, e);
    assert(v@ =~= a@ + b@ + c@ + d@ + e@);
    string_of(&v)
}

} // verus!

verus! {

/// The decimal digit for `d`, which is below ten.
pub open spec fn digit_char(d: nat) -> char {
    if d == 0 { '0' } else if d == 1 { '1' } else if d == 2 { '2' } else if d == 3 { '3' }
    else if d == 4 { '4' } else if d == 5 { '5' } else if d == 6 { '6' } else if d == 7 { '7' }
    else if d == 8 { '8' } else { '9' }
}

/// `n` written in decimal, without leading zeros (`0` for zero).
pub open spec fn decimal_spec(n: nat) -> Seq<char>
    decreases n,
{
    if n < 10 {
        seq![digit_char(n)]
    } else {
        decimal_spec(n / 10).push(digit_char(n % 10))
    }
}

fn digit_of(d: u64) -> (c: char)
    requires
        d < 10,
    ensures
        c == digit_char(d as nat),
{
    if d == 0 { '0' } else if d == 1 { '1' } else if d == 2 { '2' } else if d == 3 { '3' }
    else if d == 4 { '4' } else if d == 5 { '5' } else if d == 6 { '6' } else if d == 7 { '7' }
    else if d == 8 { '8' } else { '9' }
}

/// Appends `n` in decimal.
pub fn push_decimal(v: &mut Vec<char>, n: u64)
    ensures
        final(v)@ == old(v)@ + decimal_spec(n as nat),
    decreases n,
{
    if n >= 10 {
        push_decimal(v, n / 10);
    }
    v.push(digit_of(n % 10));
    proof {
        if n >= 10 {
            assert(decimal_spec(n as nat) == decimal_spec((n / 10) as nat).push(digit_char((n % 10) as nat)));
        } else {
            assert(decimal_spec(n as nat) == seq![digit_char(n as nat)]);
        }
    }
    assert(v@ =~= old(v)@ + decimal_spec(n as nat));
}

/// `n` in decimal (`u64::to_string`).
pub fn decimal(n: u64) -> (r: String)
    ensures
        r@ == decimal_spec(n as nat),
{
    let mut v: Vec<char> = Vec::new();
    push_decimal(&mut v, n);
    assert(v@ =~= decimal_spec(n as nat));
    string_of(&v)
}

} // verus!
