//! Text helpers over characters: prefixes, occurrences, joining, lexicographic order and
//! decimal numbers.
use vstd::prelude::*;

verus! {

/// `p` is a prefix of `s`.
pub open spec fn is_prefix_of(p: Seq<char>, s: Seq<char>) -> bool {
    p.len() <= s.len() && s.take(p.len() as int) == p
}

/// `p` occurs in `s` as a contiguous run of characters.
pub open spec fn occurs_in(p: Seq<char>, s: Seq<char>) -> bool {
    exists|i: int| 0 <= i <= s.len() - p.len() && #[trigger] s.subrange(i, i + p.len()) == p
}

/// The parts joined with `sep` between each neighbouring pair.
pub open spec fn joined(parts: Seq<Seq<char>>, sep: Seq<char>) -> Seq<char>
    decreases parts.len(),
{
    if parts.len() == 0 {
        Seq::empty()
    } else if parts.len() == 1 {
        parts[0]
    } else {
        joined(parts.drop_last(), sep) + sep + parts.last()
    }
}

/// The text `str::to_lowercase` returns for these characters.
pub uninterp spec fn lowercase_text(s: Seq<char>) -> Seq<char>;

/// The lower-case form of `s` as std's `str::to_lowercase` computes it. Claims the result is
/// the named `lowercase_text` of the characters of `s`.
#[verifier::external_body]
pub(crate) fn to_lowercase(s: &str) -> (r: String)
    ensures
        r@ == lowercase_text(s@),
{
    s.to_lowercase()
}

/// The characters of `s`, one per element.
pub fn chars_of(s: &str) -> (r: Vec<char>)
    ensures
        r@ == s@,
{
    broadcast use vstd::string::axiom_spec_iter;

    let mut r: Vec<char> = Vec::new();
    for c in it: s.chars()
        invariant
            it.seq() == s@,
            r@ == s@.take(it.index()),
    {
        assert(s@.take(it.index() + 1) =~= s@.take(it.index()).push(c));
        r.push(c);
    }
    r
}

/// Whether `p` is a prefix of `s`.
pub fn starts_with(s: &str, p: &str) -> (b: bool)
    ensures
        b == is_prefix_of(p@, s@),
{
    let sc = chars_of(s);
    let pc = chars_of(p);
    if pc.len() > sc.len() {
        return false;
    }
    let mut i: usize = 0;
    while i < pc.len()
        invariant
            pc@ == p@,
            sc@ == s@,
            pc.len() <= sc.len(),
            i <= pc.len(),
            forall|k: int| 0 <= k < i ==> sc@[k] == pc@[k],
        decreases pc.len() - i,
    {
        if sc[i] != pc[i] {
            assert(s@.take(p@.len() as int)[i as int] != p@[i as int]);
            return false;
        }
        i = i + 1;
    }
    assert(s@.take(p@.len() as int) =~= p@);
    true
}

/// Whether `p` occurs in `s` as a contiguous run of characters.
pub fn contains(s: &str, p: &str) -> (b: bool)
    ensures
        b == occurs_in(p@, s@),
{
    let sc = chars_of(s);
    let pc = chars_of(p);
    if pc.len() > sc.len() {
        return false;
    }
    let last = sc.len() - pc.len();
    let mut i: usize = 0;
    while i <= last
        invariant
            pc@ == p@,
            sc@ == s@,
            last == sc.len() - pc.len(),
            i <= last + 1,
            forall|k: int| 0 <= k < i ==> #[trigger] sc@.subrange(k, k + pc@.len()) != pc@,
        decreases last + 1 - i,
    {
        let mut j: usize = 0;
        let mut same = true;
        while j < pc.len()
            invariant
                pc@ == p@,
                sc@ == s@,
                last == sc.len() - pc.len(),
                i <= last,
                j <= pc.len(),
                same == (forall|k: int| 0 <= k < j ==> sc@[i + k] == pc@[k]),
            decreases pc.len() - j,
        {
            if sc[i + j] != pc[j] {
                same = false;
            }
            j = j + 1;
        }
        if same {
            assert(sc@.subrange(i as int, i + pc@.len()) =~= pc@);
            return true;
        }
        assert(sc@.subrange(i as int, i + pc@.len()) != pc@) by {
            let k = choose|k: int| 0 <= k < pc.len() && sc@[i + k] != pc@[k];
            assert(sc@.subrange(i as int, i + pc@.len())[k] != pc@[k]);
        }
        i = i + 1;
    }
    assert(!occurs_in(p@, s@)) by {
        if occurs_in(p@, s@) {
            let w = choose|w: int| 0 <= w <= s@.len() - p@.len() && #[trigger] s@.subrange(w, w + p@.len()) == p@;
            assert(sc@.subrange(w, w + pc@.len()) != pc@);
        }
    }
    false
}

/// The strings of `parts` joined with `sep` between each neighbouring pair.
pub fn join(parts: &Vec<String>, sep: &str) -> (r: String)
    ensures
        r@ == joined(parts@.map_values(|x: String| x@), sep@),
{
    let ghost views = parts@.map_values(|x: String| x@);
    let mut r = String::new();
    let mut i: usize = 0;
    while i < parts.len()
        invariant
            views == parts@.map_values(|x: String| x@),
            i <= parts.len(),
            r@ == joined(views.take(i as int), sep@),
        decreases parts.len() - i,
    {
        assert(views.take(i + 1).drop_last() =~= views.take(i as int));
        if i > 0 {
            r.append(sep);
        }
        r.append(parts[i].as_str());
        assert(r@ =~= joined(views.take(i + 1), sep@));
        i = i + 1;
    }
    assert(views.take(parts.len() as int) =~= views);
    r
}

/// `a` and `b` agree before position `i`, and at `i` either `a` has ended while `b` goes
/// on, or both go on and `a` has the smaller character.
pub open spec fn first_difference_at(a: Seq<char>, b: Seq<char>, i: int) -> bool {
    &&& 0 <= i <= a.len()
    &&& i <= b.len()
    &&& a.take(i) == b.take(i)
    &&& ((i == a.len() && i < b.len()) || (i < a.len() && i < b.len() && a[i] < b[i]))
}

/// `a` comes strictly before `b` in the lexicographic order of their characters.
pub open spec fn lex_lt(a: Seq<char>, b: Seq<char>) -> bool {
    exists|i: int| #[trigger] first_difference_at(a, b, i)
}

/// Every element comes strictly before every later one.
#[verifier::opaque]
pub open spec fn strictly_ascending(s: Seq<Seq<char>>) -> bool {
    forall|a: int, b: int| 0 <= a < b < s.len() ==> lex_lt(#[trigger] s[a], #[trigger] s[b])
}

proof fn lemma_take_agree(a: Seq<char>, b: Seq<char>, i: int, k: int)
    requires
        0 <= k <= i <= a.len(),
        i <= b.len(),
        a.take(i) == b.take(i),
    ensures
        a.take(k) == b.take(k),
        forall|m: int| 0 <= m < i ==> a[m] == b[m],
{
    assert forall|m: int| 0 <= m < i implies a[m] == b[m] by {
        assert(a.take(i)[m] == a[m]);
        assert(b.take(i)[m] == b[m]);
    }
    assert(a.take(k) =~= b.take(k));
}

/// The lexicographic order is transitive.
pub proof fn lemma_lex_lt_transitive(a: Seq<char>, b: Seq<char>, c: Seq<char>)
    requires
        lex_lt(a, b),
        lex_lt(b, c),
    ensures
        lex_lt(a, c),
{
    let i = choose|i: int| #[trigger] first_difference_at(a, b, i);
    let j = choose|j: int| #[trigger] first_difference_at(b, c, j);
    if i < j {
        lemma_take_agree(a, b, i, i);
        lemma_take_agree(b, c, j, i);
        assert(a.take(i) =~= c.take(i));
        assert(first_difference_at(a, c, i));
    } else if j < i {
        lemma_take_agree(a, b, i, j);
        lemma_take_agree(b, c, j, j);
        assert(a.take(j) =~= c.take(j));
        assert(first_difference_at(a, c, j));
    } else {
        lemma_take_agree(a, b, i, i);
        lemma_take_agree(b, c, j, j);
        assert(a.take(i) =~= c.take(i));
        assert(first_difference_at(a, c, i));
    }
}

/// Where two texts stand to each other in the lexicographic order.
pub enum TextOrder {
    Before,
    Same,
    After,
}

/// Compares `a` and `b` character by character.
pub fn order_of(a: &str, b: &str) -> (r: TextOrder)
    ensures
        r is Before <==> lex_lt(a@, b@),
        r is Same <==> a@ == b@,
        r is After <==> lex_lt(b@, a@),
{
    let ac = chars_of(a);
    let bc = chars_of(b);
    let mut i: usize = 0;
    while i < ac.len() && i < bc.len()
        invariant
            ac@ == a@,
            bc@ == b@,
            i <= ac.len(),
            i <= bc.len(),
            a@.take(i as int) == b@.take(i as int),
        decreases ac.len() - i,
    {
        let x = ac[i];
        let y = bc[i];
        if x != y {
            proof {
                lemma_take_agree(a@, b@, i as int, i as int);
            }
            if x < y {
                assert(first_difference_at(a@, b@, i as int));
                proof { lemma_exclusive(a@, b@); }
                return TextOrder::Before;
            } else {
                assert(b@.take(i as int) == a@.take(i as int));
                assert(first_difference_at(b@, a@, i as int));
                proof { lemma_exclusive(b@, a@); }
                return TextOrder::After;
            }
        }
        assert(a@.take(i + 1) =~= a@.take(i as int).push(x));
        assert(b@.take(i + 1) =~= b@.take(i as int).push(y));
        i = i + 1;
    }
    if ac.len() == bc.len() {
        assert(a@ =~= a@.take(i as int));
        assert(b@ =~= b@.take(i as int));
        TextOrder::Same
    } else if i == ac.len() {
        assert(first_difference_at(a@, b@, i as int));
        proof { lemma_exclusive(a@, b@); }
        TextOrder::Before
    } else {
        assert(b@.take(i as int) == a@.take(i as int));
        assert(first_difference_at(b@, a@, i as int));
        proof { lemma_exclusive(b@, a@); }
        TextOrder::After
    }
}

proof fn lemma_exclusive(a: Seq<char>, b: Seq<char>)
    requires
        lex_lt(a, b),
    ensures
        !lex_lt(b, a),
        a != b,
{
    if lex_lt(b, a) {
        lemma_lex_lt_transitive(a, b, a);
    }
}

/// Inserting `x` where everything before it is smaller and everything after it larger
/// keeps a strictly ascending sequence strictly ascending.
pub proof fn lemma_insert_ascending(s: Seq<Seq<char>>, p: int, x: Seq<char>)
    requires
        strictly_ascending(s),
        0 <= p <= s.len(),
        forall|a: int| 0 <= a < p ==> lex_lt(#[trigger] s[a], x),
        p < s.len() ==> lex_lt(x, s[p]),
    ensures
        strictly_ascending(s.insert(p, x)),
{
    reveal(strictly_ascending);
    let t = s.insert(p, x);
    assert forall|a: int, b: int| 0 <= a < b < t.len() implies lex_lt(#[trigger] t[a], #[trigger] t[b]) by {
        if b < p {
            assert(t[a] == s[a] && t[b] == s[b]);
        } else if b == p {
            assert(t[a] == s[a]);
        } else if a < p {
            assert(t[a] == s[a]);
            assert(t[b] == s[b - 1]);
        } else if a == p {
            assert(t[b] == s[b - 1]);
            if b - 1 > p {
                assert(lex_lt(s[p], s[b - 1]));
                lemma_lex_lt_transitive(x, s[p], s[b - 1]);
            }
        } else {
            assert(t[a] == s[a - 1]);
            assert(t[b] == s[b - 1]);
        }
    }
}

/// The decimal digits of `n`, most significant first; `0` for zero.
pub open spec fn digits_of(n: nat) -> Seq<char>
    decreases n,
{
    if n < 10 {
        seq![digit_char(n)]
    } else {
        digits_of(n / 10) + seq![digit_char(n % 10)]
    }
}

/// The character of a decimal digit.
pub open spec fn digit_char(d: nat) -> char {
    if d == 0 { '0' }
    else if d == 1 { '1' }
    else if d == 2 { '2' }
    else if d == 3 { '3' }
    else if d == 4 { '4' }
    else if d == 5 { '5' }
    else if d == 6 { '6' }
    else if d == 7 { '7' }
    else if d == 8 { '8' }
    else { '9' }
}

/// The decimal text of `i`, as `{}` formats an integer: a minus sign for a negative number,
/// then its digits.
pub open spec fn decimal_text(i: int) -> Seq<char> {
    if i < 0 {
        seq!['-'] + digits_of((-i) as nat)
    } else {
        digits_of(i as nat)
    }
}

/// The text of one decimal digit.
fn digit_str(d: u64) -> (r: &'static str)
    requires
        d < 10,
    ensures
        r@ == seq![digit_char(d as nat)],
{
    let r = if d == 0 { "0" }
    else if d == 1 { "1" }
    else if d == 2 { "2" }
    else if d == 3 { "3" }
    else if d == 4 { "4" }
    else if d == 5 { "5" }
    else if d == 6 { "6" }
    else if d == 7 { "7" }
    else if d == 8 { "8" }
    else { "9" };
    proof {
        reveal_strlit("0");
        reveal_strlit("1");
        reveal_strlit("2");
        reveal_strlit("3");
        reveal_strlit("4");
        reveal_strlit("5");
        reveal_strlit("6");
        reveal_strlit("7");
        reveal_strlit("8");
        reveal_strlit("9");
    }
    r
}

/// Appends the decimal digits of `n` to `out`.
fn append_digits(out: &mut String, n: u64)
    ensures
        final(out)@ == old(out)@ + digits_of(n as nat),
    decreases n,
{
    if n >= 10 {
        append_digits(out, n / 10);
    }
    out.append(digit_str(n % 10));
    proof {
        if n >= 10 {
            assert(old(out)@ + digits_of(n as nat) =~= old(out)@ + digits_of((n / 10) as nat) + seq![digit_char((n % 10) as nat)]);
        }
    }
}

/// The decimal text of `i`.
pub fn i64_text(i: i64) -> (r: String)
    ensures
        r@ == decimal_text(i as int),
{
    let mut out = String::new();
    if i < 0 {
        out.append("-");
        proof {
            reveal_strlit("-");
        }
        let magnitude: u64 = if i == i64::MIN { 9_223_372_036_854_775_808u64 } else { (-i) as u64 };
        append_digits(&mut out, magnitude);
        assert(out@ =~= decimal_text(i as int));
    } else {
        append_digits(&mut out, i as u64);
        assert(out@ =~= decimal_text(i as int));
    }
    out
}

} // verus!
