//! Text helpers shared by the URL and embed builders: whitespace splitting,
//! joining, character replacement and decimal rendering of integers.

use vstd::prelude::*;

verus! {

/// The Unicode `White_Space` property, the set that `char::is_whitespace`
/// (and so `str::split_whitespace`) recognises.
pub open spec fn is_white_space(c: char) -> bool {
    let u = c as u32;
    ||| 0x9 <= u <= 0xd
    ||| u == 0x20
    ||| u == 0x85
    ||| u == 0xa0
    ||| u == 0x1680
    ||| 0x2000 <= u <= 0x200a
    ||| u == 0x2028
    ||| u == 0x2029
    ||| u == 0x202f
    ||| u == 0x205f
    ||| u == 0x3000
}

/// The words of `s`: its maximal runs of non-whitespace characters, in order.
/// This is what `str::split_whitespace` yields.
pub open spec fn words(s: Seq<char>) -> Seq<Seq<char>>
    decreases s.len(),
{
    if s.len() == 0 {
        seq![]
    } else {
        let p = s.drop_last();
        let c = s.last();
        let w = words(p);
        if is_white_space(c) {
            w
        } else if p.len() > 0 && !is_white_space(p.last()) {
            w.update(w.len() - 1, w.last().push(c))
        } else {
            w.push(seq![c])
        }
    }
}

/// `parts` joined with `sep` between each two neighbours (`[T]::join`).
pub open spec fn join(parts: Seq<Seq<char>>, sep: Seq<char>) -> Seq<char>
    decreases parts.len(),
{
    if parts.len() == 0 {
        seq![]
    } else if parts.len() == 1 {
        parts[0]
    } else {
        join(parts.drop_last(), sep) + sep + parts.last()
    }
}

/// `s` with every `from` replaced by `to` (`str::replace` with two chars).
pub open spec fn replace_char(s: Seq<char>, from: char, to: char) -> Seq<char> {
    s.map_values(|c: char| if c == from { to } else { c })
}

/// The views of a sequence of strings.
pub open spec fn texts(v: Seq<String>) -> Seq<Seq<char>> {
    v.map_values(|w: String| w@)
}

/// The ASCII digit for `d < 10`.
pub open spec fn digit_char(d: nat) -> char {
    (d + 48) as char
}

/// The decimal digits of `n`, without leading zeros.
pub open spec fn decimal(n: nat) -> Seq<char>
    decreases n,
{
    if n < 10 {
        seq![digit_char(n)]
    } else {
        decimal(n / 10).push(digit_char(n % 10))
    }
}

/// `n` as `Display` writes an integer: a minus sign for negatives, then the digits.
pub open spec fn signed_decimal(n: int) -> Seq<char> {
    if n < 0 {
        seq!['-'] + decimal((-n) as nat)
    } else {
        decimal(n as nat)
    }
}

/// Appends `c` to `s` (`String::push`).
#[verifier::external_body]
fn push_char(s: &mut String, c: char)
    ensures
        final(s)@ == old(s)@.push(c),
{
    s.push(c);
}

/// Whether `c` is Unicode whitespace.
pub fn is_white_space_char(c: char) -> (r: bool)
    ensures
        r == is_white_space(c),
{
    let u = c as u32;
    (0x9 <= u && u <= 0xd) || u == 0x20 || u == 0x85 || u == 0xa0 || u == 0x1680 || (0x2000 <= u
        && u <= 0x200a) || u == 0x2028 || u == 0x2029 || u == 0x202f || u == 0x205f || u == 0x3000
}

/// Splits `s` into its whitespace-separated words.
pub fn split_words(s: &str) -> (r: Vec<String>)
    ensures
        texts(r@) == words(s@),
{
    let mut done: Vec<String> = Vec::new();
    let mut cur = String::new();
    for c in it: s.chars()
        invariant
            it.seq() == s@,
            words(s@.take(it.index() as int)) == texts(done@) + (if cur@.len() > 0 {
                seq![cur@]
            } else {
                seq![]
            }),
            cur@.len() > 0 <==> (it.index() > 0 && !is_white_space(s@[it.index() - 1])),
    {
        let ghost i = it.index() as int;
        let ghost before = texts(done@);
        assert(s@.take(i + 1).drop_last() =~= s@.take(i));
        assert(s@.take(i + 1).last() == c);
        if is_white_space_char(c) {
            if !cur.as_str().is_empty() {
                let w = cur;
                cur = String::new();
                done.push(w);
                assert(texts(done@) =~= before + seq![w@]);
            }
        } else {
            let had = !cur.as_str().is_empty();
            let ghost old_cur = cur@;
            push_char(&mut cur, c);
            if had {
                assert((before + seq![old_cur]).update(before.len() as int, old_cur.push(c))
                    =~= before + seq![cur@]);
            } else {
                assert(cur@ =~= seq![c]);
                assert((before).push(seq![c]) =~= before + seq![cur@]);
            }
        }
    }
    assert(s@.take(s@.len() as int) =~= s@);
    if !cur.as_str().is_empty() {
        let ghost before = texts(done@);
        done.push(cur);
        assert(texts(done@) =~= before + seq![texts(done@).last()]);
    } else {
        assert(texts(done@) =~= texts(done@) + seq![]);
    }
    done
}

/// Joins `parts` with `sep` between neighbours.
pub fn join_texts(parts: &Vec<String>, sep: &str) -> (r: String)
    ensures
        r@ == join(texts(parts@), sep@),
{
    let mut out = String::new();
    let n = parts.len();
    for i in 0..n
        invariant
            n == parts@.len(),
            out@ == join(texts(parts@).take(i as int), sep@),
    {
        assert(texts(parts@).take(i + 1).drop_last() =~= texts(parts@).take(i as int));
        if i > 0 {
            out.append(sep);
        }
        out.append(parts[i].as_str());
        assert(texts(parts@).take(i + 1).last() == parts@[i as int]@);
        if i == 0 {
            assert(out@ =~= texts(parts@).take(1)[0]);
        }
    }
    assert(texts(parts@).take(n as int) =~= texts(parts@));
    out
}

/// `s` with every `from` replaced by `to`.
pub fn replace_chars(s: &str, from: char, to: char) -> (r: String)
    ensures
        r@ == replace_char(s@, from, to),
{
    let mut out = String::new();
    for c in it: s.chars()
        invariant
            it.seq() == s@,
            out@ == replace_char(s@.take(it.index() as int), from, to),
    {
        let ghost i = it.index() as int;
        if c == from {
            push_char(&mut out, to);
        } else {
            push_char(&mut out, c);
        }
        assert(out@ =~= replace_char(s@.take(i + 1), from, to));
    }
    assert(s@.take(s@.len() as int) =~= s@);
    out
}

/// Appends the decimal digits of `n` to `out`.
fn push_decimal(out: &mut String, n: u64)
    ensures
        final(out)@ == old(out)@ + decimal(n as nat),
    decreases n,
{
    if n >= 10 {
        push_decimal(out, n / 10);
    }
    let d: u8 = (n % 10) as u8;
    let c = (48u8 + d) as char;
    assert(c == digit_char((n % 10) as nat));
    push_char(out, c);
    assert(out@ =~= old(out)@ + decimal(n as nat));
}

/// `n` in decimal, as `i64::to_string` writes it.
pub fn signed_decimal_text(n: i64) -> (r: String)
    ensures
        r@ == signed_decimal(n as int),
{
    let mut out = String::new();
    if n < 0 {
        push_char(&mut out, '-');
        let m: u64 = (0i128 - (n as i128)) as u64;
        push_decimal(&mut out, m);
        assert(out@ =~= seq!['-'] + decimal((-n) as nat));
    } else {
        push_decimal(&mut out, n as u64);
        assert(out@ =~= decimal(n as nat));
    }
    out
}

/// The parts one after the other.
pub open spec fn concat(parts: Seq<Seq<char>>) -> Seq<char>
    decreases parts.len(),
{
    if parts.len() == 0 {
        seq![]
    } else {
        concat(parts.drop_last()) + parts.last()
    }
}

/// `c` is not whitespace.
pub open spec fn is_not_white_space(c: char) -> bool {
    !is_white_space(c)
}

/// Every word is non-empty and holds no whitespace.
pub proof fn lemma_words_are_nonempty_without_whitespace(s: Seq<char>)
    ensures
        forall|i: int|
            0 <= i < words(s).len() ==> (#[trigger] words(s)[i]).len() > 0 && (forall|j: int|
                0 <= j < words(s)[i].len() ==> !is_white_space(words(s)[i][j])),
    decreases s.len(),
{
    if s.len() > 0 {
        let p = s.drop_last();
        let c = s.last();
        lemma_words_are_nonempty_without_whitespace(p);
        let w = words(p);
        if !is_white_space(c) {
            if p.len() > 0 && !is_white_space(p.last()) {
                lemma_words_nonempty_after_word_char(p);
                let k = w.len() - 1;
                assert forall|i: int| 0 <= i < words(s).len() implies (#[trigger] words(s)[i]).len()
                    > 0 && (forall|j: int|
                    0 <= j < words(s)[i].len() ==> !is_white_space(words(s)[i][j])) by {
                    if i == k {
                        assert(words(s)[i] == w[k].push(c));
                        assert forall|j: int| 0 <= j < words(s)[i].len() implies !is_white_space(
                            words(s)[i][j],
                        ) by {
                            if j < w[k].len() {
                                assert(words(s)[i][j] == w[k][j]);
                            }
                        }
                    } else {
                        assert(words(s)[i] == w[i]);
                    }
                }
            } else {
                assert forall|i: int| 0 <= i < words(s).len() implies (#[trigger] words(s)[i]).len()
                    > 0 && (forall|j: int|
                    0 <= j < words(s)[i].len() ==> !is_white_space(words(s)[i][j])) by {
                    if i < w.len() {
                        assert(words(s)[i] == w[i]);
                    }
                }
            }
        }
    }
}

/// After a non-whitespace character there is at least one word.
proof fn lemma_words_nonempty_after_word_char(p: Seq<char>)
    requires
        p.len() > 0,
        !is_white_space(p.last()),
    ensures
        words(p).len() > 0,
    decreases p.len(),
{
    let q = p.drop_last();
    if q.len() > 0 && !is_white_space(q.last()) {
        lemma_words_nonempty_after_word_char(q);
    }
}

/// The words, read one after the other, give back `s` without its whitespace.
pub proof fn lemma_words_keep_every_other_char(s: Seq<char>)
    ensures
        concat(words(s)) == s.filter(|c: char| is_not_white_space(c)),
    decreases s.len(),
{
    reveal(Seq::filter);
    if s.len() > 0 {
        let p = s.drop_last();
        let c = s.last();
        lemma_words_keep_every_other_char(p);
        let w = words(p);
        if !is_white_space(c) {
            if p.len() > 0 && !is_white_space(p.last()) {
                lemma_words_nonempty_after_word_char(p);
                let k = w.len() - 1;
                let u = w.update(k, w.last().push(c));
                assert(u.drop_last() =~= w.drop_last());
                assert(concat(u) =~= concat(w).push(c));
            } else {
                assert(w.push(seq![c]).drop_last() =~= w);
                assert(concat(w.push(seq![c])) =~= concat(w).push(c));
            }
        }
    }
}

/// Decimal digits never start with a minus sign and are never empty.
proof fn lemma_decimal_shape(n: nat)
    ensures
        decimal(n).len() > 0,
        decimal(n)[0] != '-',
        n < 10 <==> decimal(n).len() == 1,
    decreases n,
{
    if n >= 10 {
        lemma_decimal_shape(n / 10);
    }
}

/// Distinct numbers have distinct decimal texts.
proof fn lemma_decimal_injective(a: nat, b: nat)
    requires
        decimal(a) == decimal(b),
    ensures
        a == b,
    decreases a,
{
    lemma_decimal_shape(a);
    lemma_decimal_shape(b);
    if a >= 10 && b >= 10 {
        let da = decimal(a / 10);
        let db = decimal(b / 10);
        assert(decimal(a).drop_last() =~= da);
        assert(decimal(b).drop_last() =~= db);
        lemma_decimal_injective(a / 10, b / 10);
        assert(decimal(a).last() == digit_char(a % 10));
        assert(decimal(b).last() == digit_char(b % 10));
        assert(digit_char(a % 10) == digit_char(b % 10));
        assert((a % 10) == (b % 10));
    } else {
        assert(decimal(a)[0] == digit_char(a));
        assert(decimal(b)[0] == digit_char(b));
    }
}

/// Distinct integers are written differently.
pub proof fn lemma_signed_decimal_injective(a: int, b: int)
    requires
        a != b,
    ensures
        signed_decimal(a) != signed_decimal(b),
{
    if signed_decimal(a) == signed_decimal(b) {
        if a < 0 && b < 0 {
            assert(signed_decimal(a).drop_first() =~= decimal((-a) as nat));
            assert(signed_decimal(b).drop_first() =~= decimal((-b) as nat));
            lemma_decimal_injective((-a) as nat, (-b) as nat);
        } else if a < 0 {
            lemma_decimal_shape(b as nat);
            assert(signed_decimal(a)[0] == '-');
        } else if b < 0 {
            lemma_decimal_shape(a as nat);
            assert(signed_decimal(b)[0] == '-');
        } else {
            lemma_decimal_injective(a as nat, b as nat);
        }
    }
}

/// `x` stands in `y` from position `k` on.
pub open spec fn occurs_at(x: Seq<char>, y: Seq<char>, k: int) -> bool {
    0 <= k && k + x.len() <= y.len() && y.subrange(k, k + x.len()) == x
}

/// `x` stands somewhere in `y`.
pub open spec fn stands_in(x: Seq<char>, y: Seq<char>) -> bool {
    exists|k: int| occurs_at(x, y, k)
}

/// Every part stands, whole, in the joined text.
pub proof fn lemma_join_contains_every_part(parts: Seq<Seq<char>>, sep: Seq<char>, i: int)
    requires
        0 <= i < parts.len(),
    ensures
        stands_in(parts[i], join(parts, sep)),
    decreases parts.len(),
{
    if parts.len() == 1 {
        assert(join(parts, sep).subrange(0, parts[0].len() as int) =~= parts[0]);
        assert(occurs_at(parts[i], join(parts, sep), 0));
    } else {
        let front = join(parts.drop_last(), sep);
        let whole = join(parts, sep);
        if i == parts.len() - 1 {
            let k: int = (front.len() + sep.len()) as int;
            assert(whole.subrange(k, k + parts[i].len()) =~= parts[i]);
            assert(occurs_at(parts[i], whole, k));
        } else {
            lemma_join_contains_every_part(parts.drop_last(), sep, i);
            let k = choose|k: int| occurs_at(parts.drop_last()[i], front, k);
            assert(whole.subrange(k, k + parts[i].len()) =~= front.subrange(k, k + parts[i].len()));
            assert(occurs_at(parts[i], whole, k));
        }
    }
}

/// `c` is an ASCII digit.
pub open spec fn is_digit(c: char) -> bool {
    '0' <= c <= '9'
}

/// The number that the ASCII digits `s` write in base ten.
pub open spec fn digits_value(s: Seq<char>) -> int
    decreases s.len(),
{
    if s.len() == 0 {
        0
    } else {
        digits_value(s.drop_last()) * 10 + (s.last() as int - '0' as int)
    }
}

/// `s` is an integer as written in base ten: an optional minus sign, then at
/// least one digit, with no leading zero unless the number is zero.
pub open spec fn is_integer_text(s: Seq<char>) -> bool {
    let digits = if s.len() > 0 && s[0] == '-' { s.drop_first() } else { s };
    &&& digits.len() > 0
    &&& forall|i: int| 0 <= i < digits.len() ==> is_digit(#[trigger] digits[i])
    &&& digits.len() > 1 ==> digits[0] != '0'
}

/// The number that the integer text `s` writes.
pub open spec fn integer_value(s: Seq<char>) -> int {
    if s.len() > 0 && s[0] == '-' {
        -digits_value(s.drop_first())
    } else {
        digits_value(s)
    }
}

proof fn lemma_decimal_reads_back(n: nat)
    ensures
        decimal(n).len() > 0,
        forall|i: int| 0 <= i < decimal(n).len() ==> is_digit(#[trigger] decimal(n)[i]),
        decimal(n).len() > 1 ==> decimal(n)[0] != '0',
        decimal(n)[0] == '0' ==> n == 0,
        digits_value(decimal(n)) == n,
    decreases n,
{
    if n >= 10 {
        lemma_decimal_reads_back(n / 10);
        let d = decimal(n);
        assert(d.drop_last() =~= decimal(n / 10));
        assert forall|i: int| 0 <= i < d.len() implies is_digit(#[trigger] d[i]) by {
            if i < d.len() - 1 {
                assert(d[i] == decimal(n / 10)[i]);
            }
        }
        assert(d[0] == decimal(n / 10)[0]);
        assert(d.last() == digit_char(n % 10));
        assert(digit_char(n % 10) as int == (n % 10) + 48);
        assert(digits_value(d) == digits_value(decimal(n / 10)) * 10 + (n % 10) as int);
        assert((n / 10) * 10 + n % 10 == n);
    } else {
        assert(decimal(n)[0] == digit_char(n));
        assert(digit_char(n) as int == n + 48);
        assert(decimal(n).drop_last() =~= Seq::<char>::empty());
        assert(digits_value(Seq::<char>::empty()) == 0);
        assert('0' as int == 48);
        assert(digits_value(decimal(n)) == 0 * 10 + (decimal(n).last() as int - '0' as int));
    }
}

/// The decimal text of an integer is an integer text that reads back as that
/// integer.
pub proof fn lemma_signed_decimal_reads_back(n: int)
    ensures
        is_integer_text(signed_decimal(n)),
        integer_value(signed_decimal(n)) == n,
{
    if n < 0 {
        let m = (-n) as nat;
        lemma_decimal_reads_back(m);
        assert(signed_decimal(n).drop_first() =~= decimal(m));
    } else {
        lemma_decimal_reads_back(n as nat);
        lemma_decimal_shape(n as nat);
    }
}

} // verus!
