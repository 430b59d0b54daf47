use vstd::prelude::*;

verus! {

// ---------------------------------------------------------------------------
// Spec-level vocabulary for character sequences.
// ---------------------------------------------------------------------------

/// `p` occurs in `s` starting at index `i`.
pub open spec fn is_match_at(s: Seq<char>, p: Seq<char>, i: int) -> bool {
    0 <= i && i + p.len() <= s.len() && s.subrange(i, i + p.len() as int) == p
}

/// The first index at or after `from` where `p` occurs in `s`.
pub open spec fn first_match_from(s: Seq<char>, p: Seq<char>, from: nat) -> Option<nat>
    decreases s.len() + 1 - from when from <= s.len() + 1
{
    if from + p.len() > s.len() {
        None
    } else if is_match_at(s, p, from as int) {
        Some(from)
    } else {
        first_match_from(s, p, (from + 1) as nat)
    }
}

/// `p` occurs somewhere in `s` at or after `from`.
pub open spec fn contains_from(s: Seq<char>, p: Seq<char>, from: nat) -> bool {
    exists|i: int| from <= i && is_match_at(s, p, i)
}

/// `s` begins with `p`.
pub open spec fn starts_with_spec(s: Seq<char>, p: Seq<char>) -> bool {
    is_match_at(s, p, 0)
}

/// The last index strictly below `end` at which `p` occurs in `s`.
pub open spec fn last_match_before(s: Seq<char>, p: Seq<char>, end: nat) -> Option<nat>
    decreases end
{
    if end == 0 {
        None
    } else if is_match_at(s, p, end - 1) {
        Some((end - 1) as nat)
    } else {
        last_match_before(s, p, (end - 1) as nat)
    }
}

pub proof fn lemma_first_match_from(s: Seq<char>, p: Seq<char>, from: nat)
    requires
        from <= s.len() + 1,
    ensures
        match first_match_from(s, p, from) {
            Some(i) => from <= i && is_match_at(s, p, i as int)
                && forall|j: int| from <= j < i ==> !is_match_at(s, p, j),
            None => forall|j: int| from <= j ==> !is_match_at(s, p, j),
        },
    decreases s.len() + 1 - from
{
    if from + p.len() > s.len() {
    } else if is_match_at(s, p, from as int) {
    } else {
        lemma_first_match_from(s, p, (from + 1) as nat);
    }
}

pub proof fn lemma_last_match_before(s: Seq<char>, p: Seq<char>, end: nat)
    ensures
        match last_match_before(s, p, end) {
            Some(i) => i < end && is_match_at(s, p, i as int)
                && forall|j: int| i < j < end ==> !is_match_at(s, p, j),
            None => forall|j: int| 0 <= j < end ==> !is_match_at(s, p, j),
        },
    decreases end
{
    if end == 0 {
    } else if is_match_at(s, p, end - 1) {
    } else {
        lemma_last_match_before(s, p, (end - 1) as nat);
    }
}

// ---------------------------------------------------------------------------
// Executable helpers over `&str` and `Vec<char>`.
// ---------------------------------------------------------------------------

/// Character-by-character equality of two string slices.
pub fn str_eq(a: &str, b: &str) -> (r: bool)
    ensures
        r == (a@ == b@),
{
    let alen = a.unicode_len();
    if alen != b.unicode_len() {
        return false;
    }
    let mut i: usize = 0;
    while i < alen
        invariant
            alen == a@.len(),
            alen == b@.len(),
            i <= alen,
            forall|j: int| 0 <= j < i ==> a@[j] == b@[j],
        decreases alen - i
    {
        if a.get_char(i) != b.get_char(i) {
            return false;
        }
        i += 1;
    }
    proof {
        assert(a@ =~= b@);
    }
    true
}

/// The characters of `s`, as an indexable vector.
pub fn to_chars(s: &str) -> (r: Vec<char>)
    ensures
        r@ == s@,
{
    let len = s.unicode_len();
    let mut r: Vec<char> = Vec::new();
    let mut i: usize = 0;
    while i < len
        invariant
            len == s@.len(),
            i <= len,
            r@ == s@.subrange(0, i as int),
        decreases len - i
    {
        r.push(s.get_char(i));
        proof {
            assert(r@ =~= s@.subrange(0, i + 1 as int));
        }
        i += 1;
    }
    proof {
        assert(r@ =~= s@);
    }
    r
}

/// Relies on `String::push`: appends the given character to the end of the string.
#[verifier::external_body]
pub(crate) fn push_char(s: &mut String, c: char)
    ensures
        final(s)@ == old(s)@.push(c),
{
    s.push(c)
}

/// The substring `v[from..to]` as a fresh `String`.
pub fn chars_string(v: &Vec<char>, from: usize, to: usize) -> (r: String)
    requires
        from <= to <= v@.len(),
    ensures
        r@ == v@.subrange(from as int, to as int),
{
    let mut r = String::new();
    let mut i: usize = from;
    while i < to
        invariant
            from <= i <= to <= v@.len(),
            r@ == v@.subrange(from as int, i as int),
        decreases to - i
    {
        push_char(&mut r, v[i]);
        proof {
            assert(r@ =~= v@.subrange(from as int, i + 1 as int));
        }
        i += 1;
    }
    r
}

/// Does `s` start with pattern `p`?
pub fn str_starts_with(s: &str, p: &str) -> (r: bool)
    ensures
        r == starts_with_spec(s@, p@),
{
    let plen = p.unicode_len();
    if plen > s.unicode_len() {
        return false;
    }
    let mut i: usize = 0;
    while i < plen
        invariant
            plen == p@.len(),
            plen <= s@.len(),
            i <= plen,
            forall|j: int| 0 <= j < i ==> s@[j] == p@[j],
        decreases plen - i
    {
        if s.get_char(i) != p.get_char(i) {
            proof {
                assert(s@.subrange(0, plen as int)[i as int] != p@[i as int]);
            }
            return false;
        }
        i += 1;
    }
    proof {
        assert(s@.subrange(0, plen as int) =~= p@);
    }
    true
}

/// First occurrence of `p` in `v` at or after `from`.
pub fn find_from(v: &Vec<char>, p: &Vec<char>, from: usize) -> (r: Option<usize>)
    requires
        from <= v@.len() + 1,
    ensures
        match r {
            Some(i) => Some(i as nat) == first_match_from(v@, p@, from as nat),
            None => first_match_from(v@, p@, from as nat) is None,
        },
{
    let slen = v.len();
    let plen = p.len();
    let mut i: usize = from;
    loop
        invariant
            slen == v@.len(),
            plen == p@.len(),
            from <= i,
            i <= slen + 1,
            first_match_from(v@, p@, from as nat) == first_match_from(v@, p@, i as nat),
        decreases slen + 1 - i
    {
        if i > slen || plen > slen - i {
            proof {
                reveal_with_fuel(first_match_from, 1);
            }
            return None;
        }
        if match_at(v, p, i) {
            proof {
                reveal_with_fuel(first_match_from, 1);
            }
            return Some(i);
        }
        proof {
            reveal_with_fuel(first_match_from, 2);
            if plen == 0 {
                assert(v@.subrange(i as int, i as int) =~= p@);
            }
            assert(plen > 0);
        }
        i += 1;
    }
}

/// Last occurrence of `p` in `v` strictly before `end`.
pub fn rfind_before(v: &Vec<char>, p: &Vec<char>, end: usize) -> (r: Option<usize>)
    requires
        end <= v@.len() + 1,
    ensures
        match r {
            Some(i) => Some(i as nat) == last_match_before(v@, p@, end as nat),
            None => last_match_before(v@, p@, end as nat) is None,
        },
{
    let mut e: usize = end;
    loop
        invariant
            e <= end <= v@.len() + 1,
            last_match_before(v@, p@, end as nat) == last_match_before(v@, p@, e as nat),
        decreases e
    {
        if e == 0 {
            return None;
        }
        if match_at(v, p, e - 1) {
            proof {
                reveal_with_fuel(last_match_before, 1);
            }
            return Some(e - 1);
        }
        proof {
            reveal_with_fuel(last_match_before, 2);
        }
        e -= 1;
    }
}

/// Does `p` occur in `v` starting exactly at `i`?
pub fn match_at(v: &Vec<char>, p: &Vec<char>, i: usize) -> (r: bool)
    ensures
        r == is_match_at(v@, p@, i as int),
{
    let slen = v.len();
    let plen = p.len();
    if i > slen || plen > slen - i {
        return false;
    }
    let mut j: usize = 0;
    while j < plen
        invariant
            slen == v@.len(),
            plen == p@.len(),
            i + plen <= slen,
            j <= plen,
            forall|k: int| 0 <= k < j ==> v@[i + k] == p@[k],
        decreases plen - j
    {
        if v[i + j] != p[j] {
            proof {
                assert(v@.subrange(i as int, i + plen as int)[j as int] != p@[j as int]);
            }
            return false;
        }
        j += 1;
    }
    proof {
        assert(v@.subrange(i as int, i + plen as int) =~= p@);
    }
    true
}

/// Does `p` occur anywhere in `s`?
pub fn str_contains(s: &str, p: &str) -> (r: bool)
    ensures
        r == contains_from(s@, p@, 0),
{
    let v = to_chars(s);
    let pv = to_chars(p);
    let r = find_from(&v, &pv, 0);
    proof {
        lemma_first_match_from(s@, p@, 0);
    }
    match r {
        Some(i) => true,
        None => false,
    }
}

// ---------------------------------------------------------------------------
// Decimal rendering of integers.
// ---------------------------------------------------------------------------

/// The decimal digit character for `d` (which must be below ten).
pub open spec fn digit_char(d: nat) -> char {
    ((48 + d) as u8) as char
}

/// The decimal rendering of a natural number.
pub open spec fn dec_spec(n: nat) -> Seq<char>
    decreases n
{
    if n < 10 {
        seq![digit_char(n)]
    } else {
        dec_spec(n / 10).push(digit_char(n % 10))
    }
}

/// The decimal rendering of an integer, with a leading minus sign if negative.
pub open spec fn dec_int_spec(n: int) -> Seq<char> {
    if n < 0 {
        seq!['-'] + dec_spec((-n) as nat)
    } else {
        dec_spec(n as nat)
    }
}

fn u64_dec_chars(n: u64) -> (r: Vec<char>)
    ensures
        r@ == dec_spec(n as nat),
    decreases n
{
    if n < 10 {
        let d: u8 = 48 + (n as u8);
        let c = d as char;
        let mut r: Vec<char> = Vec::new();
        r.push(c);
        proof {
            assert(r@ =~= dec_spec(n as nat));
        }
        r
    } else {
        let mut r = u64_dec_chars(n / 10);
        let d: u8 = 48 + ((n % 10) as u8);
        r.push(d as char);
        r
    }
}

/// The decimal rendering of `n` as a `String`.
pub fn u64_string(n: u64) -> (r: String)
    ensures
        r@ == dec_spec(n as nat),
{
    let v = u64_dec_chars(n);
    chars_string(&v, 0, v.len())
}

/// The decimal rendering of `n`, as `usize`.
pub fn usize_string(n: usize) -> (r: String)
    ensures
        r@ == dec_spec(n as nat),
{
    u64_string(n as u64)
}

/// The decimal rendering of a signed value.
pub fn i64_string(n: i64) -> (r: String)
    ensures
        r@ == dec_int_spec(n as int),
{
    if n >= 0 {
        u64_string(n as u64)
    } else {
        let m: u64 = ((-(n as i128)) as u64);
        let digits = u64_dec_chars(m);
        let mut r = String::new();
        push_char(&mut r, '-');
        let mut i: usize = 0;
        while i < digits.len()
            invariant
                digits@ == dec_spec(m as nat),
                i <= digits@.len(),
                r@ == seq!['-'] + digits@.subrange(0, i as int),
            decreases digits@.len() - i
        {
            push_char(&mut r, digits[i]);
            proof {
                assert(r@ =~= seq!['-'] + digits@.subrange(0, i + 1 as int));
            }
            i += 1;
        }
        proof {
            assert(digits@.subrange(0, digits@.len() as int) =~= digits@);
            assert(m as nat == (-(n as int)) as nat);
        }
        r
    }
}

// ---------------------------------------------------------------------------
// Joining strings with single spaces.
// ---------------------------------------------------------------------------

/// The elements of `ts` joined with single spaces.
pub open spec fn join_spaced(ts: Seq<Seq<char>>) -> Seq<char>
    decreases ts.len()
{
    if ts.len() == 0 {
        Seq::<char>::empty()
    } else if ts.len() == 1 {
        ts[0]
    } else {
        ts[0] + seq![' '] + join_spaced(ts.drop_first())
    }
}

/// Join `ts` with single spaces.
pub fn join_with_spaces(ts: &Vec<String>) -> (r: String)
    ensures
        r@ == join_spaced(ts.deep_view()),
{
    let mut r = String::new();
    let mut i: usize = 0;
    proof {
        assert(ts.deep_view().subrange(0, 0) =~= Seq::<Seq<char>>::empty());
    }
    while i < ts.len()
        invariant
            i <= ts@.len(),
            ts@.len() == ts.deep_view().len(),
            forall|k: int| 0 <= k < ts@.len() ==> ts.deep_view()[k] == ts@[k]@,
            r@ == join_spaced(ts.deep_view().subrange(0, i as int)),
        decreases ts@.len() - i
    {
        if i > 0 {
            push_char(&mut r, ' ');
        }
        r.append(ts[i].as_str());
        proof {
            lemma_join_push(ts.deep_view(), i as int);
        }
        i += 1;
    }
    proof {
        assert(ts.deep_view().subrange(0, ts.deep_view().len() as int) =~= ts.deep_view());
    }
    r
}

/// Extending the join by one element appends a space and that element.
proof fn lemma_join_push(ts: Seq<Seq<char>>, i: int)
    requires
        0 <= i < ts.len(),
    ensures
        i == 0 ==> join_spaced(ts.subrange(0, 1)) == join_spaced(ts.subrange(0, 0)) + ts[0],
        i > 0 ==> join_spaced(ts.subrange(0, i + 1))
            == join_spaced(ts.subrange(0, i)) + seq![' '] + ts[i],
{
    if i == 0 {
        assert(ts.subrange(0, 1) =~= seq![ts[0]]);
        assert(join_spaced(seq![ts[0]]) == ts[0]);
        assert(ts.subrange(0, 0) =~= Seq::<Seq<char>>::empty());
        assert(join_spaced(Seq::<Seq<char>>::empty()) =~= Seq::<char>::empty());
        assert(Seq::<char>::empty() + ts[0] =~= ts[0]);
    } else {
        lemma_join_sub(ts.subrange(0, i + 1));
        assert(ts.subrange(0, i + 1).drop_last() =~= ts.subrange(0, i));
        assert(ts.subrange(0, i + 1).last() == ts[i]);
    }
}

/// Splitting the join at the last element.
proof fn lemma_join_sub(ts: Seq<Seq<char>>)
    requires
        ts.len() >= 2,
    ensures
        join_spaced(ts) == join_spaced(ts.drop_last()) + seq![' '] + ts.last(),
    decreases ts.len()
{
    if ts.len() == 2 {
        assert(ts.drop_first() =~= seq![ts[1]]);
        assert(seq![ts[1]].len() == 1);
        assert(join_spaced(seq![ts[1]]) == ts[1]);
        assert(ts.drop_last() =~= seq![ts[0]]);
        assert(join_spaced(seq![ts[0]]) == ts[0]);
        assert(join_spaced(ts) == ts[0] + seq![' '] + ts[1]);
        assert(ts.last() == ts[1]);
    } else {
        lemma_join_sub(ts.drop_first());
        assert(ts.drop_first().drop_last() =~= ts.drop_last().drop_first());
        assert(ts.drop_last().len() >= 2);
        assert(join_spaced(ts.drop_last())
            == ts.drop_last()[0] + seq![' '] + join_spaced(ts.drop_last().drop_first()));
        assert(ts.drop_last()[0] == ts[0]);
        assert(ts.drop_first().last() == ts.last());
        assert(join_spaced(ts) == ts[0] + seq![' '] + join_spaced(ts.drop_first()));
        assert(ts[0] + seq![' '] + (join_spaced(ts.drop_last().drop_first()) + seq![' ']
            + ts.last()) =~= (ts[0] + seq![' '] + join_spaced(ts.drop_last().drop_first()))
            + seq![' '] + ts.last());
    }
}


// ---------------------------------------------------------------------------
// Decimal parsing.
// ---------------------------------------------------------------------------

/// Is `c` a decimal digit?
pub open spec fn is_digit(c: char) -> bool {
    '0' <= c && c <= '9'
}

/// The numeric value of a digit character.
pub open spec fn digit_val(c: char) -> nat {
    ((c as u32) - 48) as nat
}

/// The value of a digit string, read as a decimal number.
pub open spec fn digits_val(s: Seq<char>) -> nat
    decreases s.len()
{
    if s.len() == 0 {
        0
    } else {
        digits_val(s.drop_last()) * 10 + digit_val(s.last())
    }
}

/// A non-empty string of decimal digits.
pub open spec fn is_digits(s: Seq<char>) -> bool {
    s.len() > 0 && forall|i: int| 0 <= i < s.len() ==> is_digit(s[i])
}

/// A number may carry one leading plus sign, as the standard parser
/// accepts; the body is what remains.
pub open spec fn unsigned_body(s: Seq<char>) -> Seq<char> {
    if s.len() > 0 && s[0] == '+' {
        s.drop_first()
    } else {
        s
    }
}

/// The value of a digit string never shrinks as the string extends.
proof fn lemma_digits_val_prefix(s: Seq<char>, j: nat)
    requires
        j <= s.len(),
    ensures
        digits_val(s) >= digits_val(s.subrange(0, j as int)),
    decreases s.len() - j
{
    if j == s.len() {
        assert(s.subrange(0, j as int) =~= s);
    } else {
        lemma_digits_val_prefix(s, j + 1);
        assert(s.subrange(0, j + 1 as int).drop_last() =~= s.subrange(0, j as int));
        assert(digits_val(s.subrange(0, j + 1 as int))
            == digits_val(s.subrange(0, j as int)) * 10
                + digit_val(s.subrange(0, j + 1 as int).last()));
    }
}

/// Parse a decimal number, with at most one leading plus sign, as the
/// standard parser reads unsigned values. Returns nothing when what
/// follows the sign is empty, holds a non-digit, or its value does not
/// fit in a `u64`.
pub fn parse_u64(s: &str) -> (r: Option<u64>)
    ensures
        r is Some <==> is_digits(unsigned_body(s@))
            && digits_val(unsigned_body(s@)) <= u64::MAX,
        (match r {
            Some(v) => v as nat == digits_val(unsigned_body(s@)),
            None => true,
        }),
{
    let n = s.unicode_len();
    if n == 0 {
        return None;
    }
    let start: usize = if s.get_char(0) == '+' {
        1
    } else {
        0
    };
    let ghost body = unsigned_body(s@);
    proof {
        assert(body =~= s@.subrange(start as int, n as int));
    }
    if n == start {
        return None;
    }
    let mut acc: u64 = 0;
    let mut i: usize = start;
    proof {
        assert(body.subrange(0, 0) =~= Seq::<char>::empty());
    }
    while i < n
        invariant
            n == s@.len(),
            start <= i <= n,
            start < n,
            start <= 1,
            body == unsigned_body(s@),
            body =~= s@.subrange(start as int, n as int),
            acc as nat == digits_val(body.subrange(0, i - start)),
            forall|k: int| 0 <= k < i - start ==> is_digit(body[k]),
        decreases n - i
    {
        let c = s.get_char(i);
        proof {
            assert(body[i - start] == s@[i as int]);
        }
        if c < '0' || c > '9' {
            return None;
        }
        let d: u64 = ((c as u32) - 48) as u64;
        proof {
            assert(body.subrange(0, i + 1 - start).drop_last()
                =~= body.subrange(0, i - start));
            assert(body.subrange(0, i + 1 - start).last() == body[i - start]);
        }
        let m = match acc.checked_mul(10) {
            Some(m) => m,
            None => {
                proof {
                    lemma_digits_val_prefix(body, (i + 1 - start) as nat);
                }
                return None;
            },
        };
        let a = match m.checked_add(d) {
            Some(a) => a,
            None => {
                proof {
                    lemma_digits_val_prefix(body, (i + 1 - start) as nat);
                }
                return None;
            },
        };
        acc = a;
        i += 1;
    }
    proof {
        assert(body.subrange(0, n - start) =~= body);
    }
    Some(acc)
}

// ---------------------------------------------------------------------------
// Splitting on a separator character.
// ---------------------------------------------------------------------------

/// The parts of `s[from..]` delimited by `c`. A string without the
/// separator is one part; each separator ends a part.
pub open spec fn split_from(s: Seq<char>, c: char, from: nat) -> Seq<Seq<char>>
    decreases s.len() - from when from <= s.len()
{
    match first_match_from(s, seq![c], from) {
        None => seq![s.subrange(from as int, s.len() as int)],
        Some(i) => if from <= i && i < s.len() {
            seq![s.subrange(from as int, i as int)] + split_from(s, c, (i + 1) as nat)
        } else {
            Seq::<Seq<char>>::empty()
        },
    }
}

/// The parts of `s` delimited by `c`.
pub open spec fn split_spec(s: Seq<char>, c: char) -> Seq<Seq<char>> {
    split_from(s, c, 0)
}

fn split_at_char_from(v: &Vec<char>, c: char, from: usize) -> (r: Vec<String>)
    requires
        from <= v@.len(),
    ensures
        r.deep_view() == split_from(v@, c, from as nat),
    decreases v@.len() - from
{
    let mut pat: Vec<char> = Vec::new();
    pat.push(c);
    proof {
        assert(pat@ =~= seq![c]);
    }
    match find_from(v, &pat, from) {
        None => {
            let part = chars_string(v, from, v.len());
            let mut r: Vec<String> = Vec::new();
            r.push(part);
            proof {
                assert(r.deep_view() =~~= split_from(v@, c, from as nat));
            }
            r
        },
        Some(i) => {
            let n = v.len();
            proof {
                lemma_first_match_from(v@, seq![c], from as nat);
                assert(seq![c].len() == 1);
                assert(i + 1 <= v@.len());
                assert(i < n);
            }
            let part = chars_string(v, from, i);
            let mut rest = split_at_char_from(v, c, i + 1);
            let ghost pre_deep = rest.deep_view();
            let ghost pre_vals = rest@;
            rest.insert(0, part);
            proof {
                pre_vals.insert_ensures(0, part);
                assert forall|j: int| 0 <= j < rest@.len() implies
                    #[trigger] rest.deep_view()[j]
                        == (seq![v@.subrange(from as int, i as int)] + pre_deep)[j] by {
                    if j == 0 {
                        assert(rest@[0] == part);
                    } else {
                        assert(rest@[j] == pre_vals[j - 1]);
                        assert(pre_deep[j - 1] == pre_vals[j - 1]@);
                    }
                }
                assert(rest.deep_view()
                    =~= seq![v@.subrange(from as int, i as int)] + pre_deep);
            }
            rest
        },
    }
}

/// Split `s` on the separator `c`.
pub fn split_at_char(s: &str, c: char) -> (r: Vec<String>)
    ensures
        r.deep_view() == split_spec(s@, c),
{
    let v = to_chars(s);
    split_at_char_from(&v, c, 0)
}

} // verus!
