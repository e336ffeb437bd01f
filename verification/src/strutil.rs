//! Verified string helpers: equality, prefix tests, line splitting.

use vstd::prelude::*;
use vstd::string::*;

verus! {

/// True when `p` is a prefix of `s`.
pub open spec fn is_prefix_of(p: Seq<char>, s: Seq<char>) -> bool {
    p.len() <= s.len() && s.subrange(0, p.len() as int) == p
}

/// Character-wise string equality, decided without revealing literals.
pub fn str_eq(a: &str, b: &str) -> (r: bool)
    ensures
        r == (a@ == b@),
{
    let alen = a.unicode_len();
    let blen = b.unicode_len();
    if alen != blen {
        return false;
    }
    let mut i: usize = 0;
    while i < alen
        invariant
            i <= alen,
            alen == a@.len(),
            alen == b@.len(),
            forall|j: int| 0 <= j < i ==> a@[j] == b@[j],
        decreases alen - i,
    {
        if a.get_char(i) != b.get_char(i) {
            return false;
        }
        i += 1;
    }
    proof {
        assert(a@ =~= b@);
    }
    true
}

/// Whether `s` starts with `prefix`.
pub fn str_starts_with(s: &str, prefix: &str) -> (r: bool)
    ensures
        r == is_prefix_of(prefix@, s@),
{
    let slen = s.unicode_len();
    let plen = prefix.unicode_len();
    if plen > slen {
        return false;
    }
    let mut i: usize = 0;
    while i < plen
        invariant
            i <= plen,
            plen <= slen,
            slen == s@.len(),
            plen == prefix@.len(),
            forall|j: int| 0 <= j < i ==> s@[j] == prefix@[j],
        decreases plen - i,
    {
        if s.get_char(i) != prefix.get_char(i) {
            return false;
        }
        i += 1;
    }
    proof {
        assert(s@.subrange(0, prefix@.len() as int) =~= prefix@);
    }
    true
}

/// The remainder of `s` after a known prefix.
pub fn str_strip_prefix<'a>(s: &'a str, prefix: &str) -> (r: Option<&'a str>)
    ensures
        match r {
            Some(rest) => is_prefix_of(prefix@, s@) && rest@ == s@.subrange(
                prefix@.len() as int,
                s@.len() as int,
            ),
            None => !is_prefix_of(prefix@, s@),
        },
{
    if str_starts_with(s, prefix) {
        let plen = prefix.unicode_len();
        let slen = s.unicode_len();
        Some(s.substring_char(plen, slen))
    } else {
        None
    }
}

/// Decides whether `s` begins with `scheme` followed by a colon.
pub fn has_scheme(s: &str, scheme: &str) -> (r: bool)
    ensures
        r == is_prefix_of(scheme@.push(':'), s@),
{
    let slen = s.unicode_len();
    let plen = scheme.unicode_len();
    if plen >= slen {
        return false;
    }
    let mut i: usize = 0;
    while i < plen
        invariant
            i <= plen,
            plen < slen,
            slen == s@.len(),
            plen == scheme@.len(),
            forall|j: int| 0 <= j < i ==> s@[j] == scheme@[j],
        decreases plen - i,
    {
        if s.get_char(i) != scheme.get_char(i) {
            proof {
                assert(scheme@.push(':')[i as int] == scheme@[i as int]);
                assert(!is_prefix_of(scheme@.push(':'), s@)) by {
                    if is_prefix_of(scheme@.push(':'), s@) {
                        assert(s@.subrange(0, scheme@.len() as int + 1)[i as int] == s@[i as int]);
                    }
                };
            }
            return false;
        }
        i += 1;
    }
    let r = s.get_char(plen) == ':';
    proof {
        if r {
            assert(s@.subrange(0, scheme@.len() as int + 1) =~= scheme@.push(':'));
        } else {
            assert(scheme@.push(':')[plen as int] == ':');
            if is_prefix_of(scheme@.push(':'), s@) {
                assert(s@.subrange(0, scheme@.len() as int + 1)[plen as int] == s@[plen as int]);
            }
        }
    }
    r
}

/// The lines of `s`, split at every newline character; a trailing newline
/// yields a final empty line, and the empty string yields one empty line.
pub open spec fn spec_split_lines(s: Seq<char>) -> Seq<Seq<char>>
    decreases s.len(),
{
    if s.len() == 0 {
        seq![Seq::<char>::empty()]
    } else if s[0] == '\n' {
        seq![Seq::<char>::empty()].add(spec_split_lines(s.skip(1)))
    } else {
        let rest = spec_split_lines(s.skip(1));
        seq![seq![s[0]].add(rest[0])].add(rest.skip(1))
    }
}

/// Splitting always yields at least one line.
pub proof fn lemma_split_lines_nonempty(s: Seq<char>)
    ensures
        spec_split_lines(s).len() >= 1,
    decreases s.len(),
{
    if s.len() == 0 {
    } else if s[0] == '\n' {
    } else {
        lemma_split_lines_nonempty(s.skip(1));
    }
}

/// A sequence without newlines splits into itself as the only line.
pub proof fn lemma_split_lines_whole(s: Seq<char>)
    requires
        !s.contains('\n'),
    ensures
        spec_split_lines(s) =~~= seq![s],
    decreases s.len(),
{
    if s.len() == 0 {
        assert(s =~= Seq::<char>::empty());
    } else {
        assert(s[0] != '\n');
        assert(!s.skip(1).contains('\n')) by {
            if s.skip(1).contains('\n') {
                let k = choose|k: int| 0 <= k < s.skip(1).len() && s.skip(1)[k] == '\n';
                assert(s[k + 1] == '\n');
            }
        };
        lemma_split_lines_whole(s.skip(1));
        let rest = spec_split_lines(s.skip(1));
        assert(rest == seq![s.skip(1)]);
        assert(seq![s[0]].add(rest[0]) =~= s);
        assert(rest.skip(1) =~= Seq::<Seq<char>>::empty());
        assert(seq![seq![s[0]].add(rest[0])].add(rest.skip(1)) =~~= seq![s]);
    }
}

/// Splits `s` at newline characters, keeping terminating empty lines.
pub fn split_lines(s: &str) -> (r: Vec<String>)
    ensures
        r@.map_values(|t: String| t@) == spec_split_lines(s@),
        r@.len() >= 1,
{
    let slen = s.unicode_len();
    let mut out: Vec<String> = Vec::new();
    let mut start: usize = 0;
    let mut i: usize = 0;
    proof {
        assert(s@.subrange(0, s@.len() as int) =~= s@);
        assert(out@.map_values(|t: String| t@) =~= Seq::<Seq<char>>::empty());
    }
    while i < slen
        invariant
            start <= i <= slen,
            slen == s@.len(),
            forall|j: int| start <= j < i ==> s@[j] != '\n',
            spec_split_lines(s@) =~= out@.map_values(|t: String| t@).add(
                spec_split_lines(s@.subrange(start as int, s@.len() as int)),
            ),
        decreases slen - i,
    {
        if s.get_char(i) == '\n' {
            let line = s.substring_char(start, i);
            let ghost prev = out@.map_values(|t: String| t@);
            let owned = String::from_str(line);
            out.push(owned);
            proof {
                lemma_split_lines_step(s@.subrange(start as int, s@.len() as int), i - start);
                assert(s@.subrange(start as int, s@.len() as int).subrange(0, i - start) =~= s@
                    .subrange(start as int, i as int));
                assert(s@.subrange(start as int, s@.len() as int).subrange(
                    i - start + 1,
                    s@.len() - start,
                ) =~= s@.subrange(i + 1, s@.len() as int));
                assert(out@.map_values(|t: String| t@) =~= prev.push(line@));
            }
            start = i + 1;
        }
        i += 1;
    }
    let last = s.substring_char(start, slen);
    let ghost prev = out@.map_values(|t: String| t@);
    let owned = String::from_str(last);
    out.push(owned);
    proof {
        let tail = s@.subrange(start as int, s@.len() as int);
        assert(!tail.contains('\n')) by {
            if tail.contains('\n') {
                let k = choose|k: int| 0 <= k < tail.len() && tail[k] == '\n';
                assert(s@[start + k] == '\n');
            }
        };
        lemma_split_lines_whole(tail);
        assert(out@.map_values(|t: String| t@) =~= prev.push(last@));
    }
    out
}

/// Splitting a sequence whose first newline stands at `i` yields the part
/// before it, then the split of the part after it.
proof fn lemma_split_lines_step(s: Seq<char>, i: int)
    requires
        0 <= i < s.len(),
        s[i] == '\n',
        forall|j: int| 0 <= j < i ==> s[j] != '\n',
    ensures
        spec_split_lines(s) =~~= seq![s.subrange(0, i)].add(
            spec_split_lines(s.subrange(i + 1, s.len() as int)),
        ),
    decreases i,
{
    if i == 0 {
        assert(s.skip(1) =~= s.subrange(1, s.len() as int));
        assert(s.subrange(0, 0) =~= Seq::<char>::empty());
    } else {
        let t = s.skip(1);
        assert(t[i - 1] == s[i]);
        assert(forall|j: int| 0 <= j < i - 1 ==> t[j] == s[j + 1]);
        lemma_split_lines_step(t, i - 1);
        let rest = spec_split_lines(t);
        assert(rest == seq![t.subrange(0, i - 1)].add(
            spec_split_lines(t.subrange(i, t.len() as int)),
        ));
        assert(rest[0] == t.subrange(0, i - 1));
        assert(seq![s[0]].add(t.subrange(0, i - 1)) =~= s.subrange(0, i));
        assert(t.subrange(i, t.len() as int) =~= s.subrange(i + 1, s.len() as int));
        assert(rest.skip(1) =~= spec_split_lines(t.subrange(i, t.len() as int)));
    }
}

} // verus!

verus! {

/// The decimal digit character for `d`.
pub open spec fn spec_digit_char(d: int) -> char {
    if d == 0 {
        '0'
    } else if d == 1 {
        '1'
    } else if d == 2 {
        '2'
    } else if d == 3 {
        '3'
    } else if d == 4 {
        '4'
    } else if d == 5 {
        '5'
    } else if d == 6 {
        '6'
    } else if d == 7 {
        '7'
    } else if d == 8 {
        '8'
    } else {
        '9'
    }
}

/// The decimal rendering of `n`, most significant digit first.
pub open spec fn spec_decimal(n: nat) -> Seq<char>
    decreases n,
{
    if n < 10 {
        seq![spec_digit_char(n as int)]
    } else {
        spec_decimal(n / 10).push(spec_digit_char((n % 10) as int))
    }
}

/// One decimal digit as a string.
fn digit_string(d: u128) -> (r: String)
    requires
        d < 10,
    ensures
        r@ == seq![spec_digit_char(d as int)],
{
    proof {
        reveal_strlit("0");
        reveal_strlit("1");
        reveal_strlit("2");
        reveal_strlit("3");
        reveal_strlit("4");
        reveal_strlit("5");
        reveal_strlit("6");
        reveal_strlit("7");
        reveal_strlit("8");
        reveal_strlit("9");
    }
    let r = if d == 0 {
        String::from_str("0")
    } else if d == 1 {
        String::from_str("1")
    } else if d == 2 {
        String::from_str("2")
    } else if d == 3 {
        String::from_str("3")
    } else if d == 4 {
        String::from_str("4")
    } else if d == 5 {
        String::from_str("5")
    } else if d == 6 {
        String::from_str("6")
    } else if d == 7 {
        String::from_str("7")
    } else if d == 8 {
        String::from_str("8")
    } else {
        String::from_str("9")
    };
    proof {
        assert(r@ =~= seq![spec_digit_char(d as int)]);
    }
    r
}

/// Renders `n` in decimal.
pub fn decimal_string(n: u128) -> (r: String)
    ensures
        r@ == spec_decimal(n as nat),
    decreases n,
{
    if n < 10 {
        digit_string(n)
    } else {
        let mut r = decimal_string(n / 10);
        let d = digit_string(n % 10);
        r.append(d.as_str());
        proof {
            assert(spec_decimal((n as nat) / 10).push(spec_digit_char((n % 10) as int))
                =~= spec_decimal((n as nat) / 10) + seq![spec_digit_char((n % 10) as int)]);
        }
        r
    }
}

} // verus!
