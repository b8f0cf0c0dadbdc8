//! Text helpers: the case folding that keys users and rooms, and byte copies.
use vstd::prelude::*;

verus! {

/// The characters of `str::to_lowercase` applied to a string of `s`.
pub uninterp spec fn lowercase(s: Seq<char>) -> Seq<char>;

/// `str::to_lowercase`: the Unicode lower case of `s`, a function of `s`
/// alone. Users and rooms are keyed by the lower case of their names.
#[verifier::external_body]
pub(crate) fn to_lower(s: &str) -> (r: String)
    ensures
        r@ == lowercase(s@),
{
    s.to_lowercase()
}

/// A copy of `v`.
pub fn copy_bytes(v: &Vec<u8>) -> (r: Vec<u8>)
    ensures
        r@ == v@,
{
    let mut out: Vec<u8> = Vec::with_capacity(v.len());
    let mut i: usize = 0;
    while i < v.len()
        invariant
            i <= v@.len(),
            out@ == v@.subrange(0, i as int),
        decreases v@.len() - i,
    {
        out.push(v[i]);
        i = i + 1;
        assert(v@.subrange(0, i as int) == v@.subrange(0, i - 1 as int).push(v@[i - 1]));
    }
    assert(v@.subrange(0, v@.len() as int) == v@);
    out
}

/// A copy of `s`.
pub fn copy_string(s: &String) -> (r: String)
    ensures
        r@ == s@,
{
    s.as_str().to_owned()
}

/// The characters of `s`.
pub fn chars_of(s: &str) -> (r: Vec<char>)
    ensures
        r@ == s@,
{
    broadcast use vstd::string::axiom_spec_iter;
    let mut r: Vec<char> = Vec::new();
    for c in it: s.chars()
        invariant
            r@ == it.seq().take(it.index() as int),
            it.seq() == s@,
    {
        r.push(c);
    }
    r
}

/// `String::push`: appends `c`.
#[verifier::external_body]
fn push_char(s: &mut String, c: char)
    ensures
        final(s)@ == old(s)@.push(c),
{
    s.push(c);
}

/// The string of the characters `chars`.
pub fn string_of(chars: &[char]) -> (r: String)
    ensures
        r@ == chars@,
{
    let mut r = String::new();
    let mut i: usize = 0;
    while i < chars.len()
        invariant
            i <= chars@.len(),
            r@ == chars@.take(i as int),
        decreases chars@.len() - i,
    {
        push_char(&mut r, chars[i]);
        i = i + 1;
        assert(chars@.take(i as int) == chars@.take(i - 1 as int).push(chars@[i - 1]));
    }
    assert(chars@.take(chars@.len() as int) == chars@);
    r
}

/// Unicode `White_Space`, the characters that `char::is_whitespace` accepts.
pub open spec fn is_white(c: char) -> bool {
    let u = c as u32;
    ||| 0x09 <= u <= 0x0D
    ||| u == 0x20
    ||| u == 0x85
    ||| u == 0xA0
    ||| u == 0x1680
    ||| 0x2000 <= u <= 0x200A
    ||| u == 0x2028
    ||| u == 0x2029
    ||| u == 0x202F
    ||| u == 0x205F
    ||| u == 0x3000
}

pub fn is_whitespace(c: char) -> (r: bool)
    ensures
        r == is_white(c),
{
    let u = c as u32;
    (0x09 <= u && u <= 0x0D) || u == 0x20 || u == 0x85 || u == 0xA0 || u == 0x1680 || (0x2000 <= u
        && u <= 0x200A) || u == 0x2028 || u == 0x2029 || u == 0x202F || u == 0x205F || u == 0x3000
}

/// Which characters a trim removes.
pub enum Strip {
    /// Unicode whitespace, as `str::trim` removes.
    White,
    /// NUL characters.
    Nul,
}

pub open spec fn strips(k: Strip, c: char) -> bool {
    match k {
        Strip::White => is_white(c),
        Strip::Nul => c == '\0',
    }
}

fn strips_exec(k: &Strip, c: char) -> (r: bool)
    ensures
        r == strips(*k, c),
{
    match k {
        Strip::White => is_whitespace(c),
        Strip::Nul => c == '\0',
    }
}

/// `s` without the leading characters that `k` removes.
pub open spec fn trim_start_by(s: Seq<char>, k: Strip) -> Seq<char>
    decreases s.len(),
{
    if s.len() > 0 && strips(k, s[0]) {
        trim_start_by(s.drop_first(), k)
    } else {
        s
    }
}

/// `s` without the trailing characters that `k` removes.
pub open spec fn trim_end_by(s: Seq<char>, k: Strip) -> Seq<char>
    decreases s.len(),
{
    if s.len() > 0 && strips(k, s.last()) {
        trim_end_by(s.drop_last(), k)
    } else {
        s
    }
}

/// `s` without the leading and trailing characters that `k` removes.
pub open spec fn trim_by(s: Seq<char>, k: Strip) -> Seq<char> {
    trim_end_by(trim_start_by(s, k), k)
}

/// `str::trim`: `s` without leading and trailing whitespace.
pub open spec fn trim(s: Seq<char>) -> Seq<char> {
    trim_by(s, Strip::White)
}

proof fn lemma_trim_start_at(s: Seq<char>, k: Strip, i: int)
    requires
        0 <= i <= s.len(),
        forall|j: int| 0 <= j < i ==> strips(k, #[trigger] s[j]),
        i == s.len() || !strips(k, s[i]),
    ensures
        trim_start_by(s, k) == s.skip(i),
    decreases i,
{
    if i > 0 {
        lemma_trim_start_at(s.drop_first(), k, i - 1);
        assert(s.drop_first().skip(i - 1) =~= s.skip(i));
    } else {
        assert(s.skip(0) =~= s);
    }
}

proof fn lemma_trim_end_at(s: Seq<char>, k: Strip, j: int)
    requires
        0 <= j <= s.len(),
        forall|m: int| j <= m < s.len() ==> strips(k, #[trigger] s[m]),
        j == 0 || !strips(k, s[j - 1]),
    ensures
        trim_end_by(s, k) == s.take(j),
    decreases s.len() - j,
{
    if j < s.len() {
        lemma_trim_end_at(s.drop_last(), k, j);
        assert(s.drop_last().take(j) =~= s.take(j));
    } else {
        assert(s.take(j) =~= s);
    }
}

/// The characters of `s` without the leading and trailing ones that `k`
/// removes.
pub fn trim_chars_by(s: &Vec<char>, k: Strip) -> (r: Vec<char>)
    ensures
        r@ == trim_by(s@, k),
{
    let mut i: usize = 0;
    while i < s.len() && strips_exec(&k, s[i])
        invariant
            i <= s@.len(),
            forall|j: int| 0 <= j < i ==> strips(k, #[trigger] s@[j]),
        decreases s@.len() - i,
    {
        i = i + 1;
    }
    proof {
        lemma_trim_start_at(s@, k, i as int);
    }
    let mut j: usize = s.len();
    while j > i && strips_exec(&k, s[j - 1])
        invariant
            i <= j <= s@.len(),
            forall|m: int| j <= m < s@.len() ==> strips(k, #[trigger] s@[m]),
        decreases j,
    {
        j = j - 1;
    }
    let ghost rest = s@.skip(i as int);
    proof {
        assert forall|m: int| j - i <= m < rest.len() implies strips(k, #[trigger] rest[m]) by {
            assert(rest[m] == s@[m + i]);
        }
        if j > i {
            assert(rest[j - i - 1] == s@[j - 1]);
        }
        lemma_trim_end_at(rest, k, j - i);
        assert(rest.take(j - i) =~= s@.subrange(i as int, j as int));
    }
    let mut r: Vec<char> = Vec::new();
    let mut m: usize = i;
    while m < j
        invariant
            i <= m <= j <= s@.len(),
            r@ == s@.subrange(i as int, m as int),
        decreases j - m,
    {
        r.push(s[m]);
        m = m + 1;
        assert(s@.subrange(i as int, m as int) == s@.subrange(i as int, m - 1 as int).push(s@[m - 1]));
    }
    r
}

/// The characters of `s` without leading and trailing whitespace.
pub fn trim_chars(s: &Vec<char>) -> (r: Vec<char>)
    ensures
        r@ == trim(s@),
{
    trim_chars_by(s, Strip::White)
}

/// Splitting by whitespace, with the words found so far and the word in
/// progress.
pub open spec fn words_acc(s: Seq<char>, done: Seq<Seq<char>>, cur: Seq<char>) -> Seq<Seq<char>>
    decreases s.len(),
{
    if s.len() == 0 {
        if cur.len() > 0 {
            done.push(cur)
        } else {
            done
        }
    } else if is_white(s[0]) {
        words_acc(
            s.drop_first(),
            if cur.len() > 0 {
                done.push(cur)
            } else {
                done
            },
            Seq::empty(),
        )
    } else {
        words_acc(s.drop_first(), done, cur.push(s[0]))
    }
}

/// `str::split_whitespace`: the maximal runs of non-whitespace characters.
pub open spec fn words(s: Seq<char>) -> Seq<Seq<char>> {
    words_acc(s, Seq::empty(), Seq::empty())
}

/// The words of `s`.
pub fn split_words(s: &Vec<char>) -> (r: Vec<Vec<char>>)
    ensures
        r@.len() == words(s@).len(),
        forall|i: int| 0 <= i < r@.len() ==> #[trigger] r@[i]@ == words(s@)[i],
{
    let mut done: Vec<Vec<char>> = Vec::new();
    let mut cur: Vec<char> = Vec::new();
    let ghost mut done_v: Seq<Seq<char>> = Seq::empty();
    let mut i: usize = 0;
    assert(s@.skip(0) == s@);
    assert(cur@ =~= Seq::<char>::empty());
    while i < s.len()
        invariant
            i <= s@.len(),
            done@.len() == done_v.len(),
            forall|j: int| 0 <= j < done@.len() ==> #[trigger] done@[j]@ == done_v[j],
            words_acc(s@.skip(i as int), done_v, cur@) == words(s@),
        decreases s@.len() - i,
    {
        let ghost rest = s@.skip(i as int);
        assert(rest.drop_first() == s@.skip(i + 1 as int));
        assert(rest[0] == s@[i as int]);
        if is_whitespace(s[i]) {
            if cur.len() > 0 {
                let mut word: Vec<char> = Vec::new();
                std::mem::swap(&mut word, &mut cur);
                proof {
                    done_v = done_v.push(word@);
                }
                done.push(word);
            }
            assert(cur@ =~= Seq::<char>::empty());
        } else {
            cur.push(s[i]);
        }
        i = i + 1;
    }
    if cur.len() > 0 {
        proof {
            done_v = done_v.push(cur@);
        }
        done.push(cur);
    }
    assert(s@.skip(s@.len() as int) =~= Seq::<char>::empty());
    done
}

/// Splitting at `sep`, with the pieces found so far and the piece in
/// progress.
pub open spec fn pieces_acc(s: Seq<char>, sep: char, done: Seq<Seq<char>>, cur: Seq<char>) -> Seq<Seq<char>>
    decreases s.len(),
{
    if s.len() == 0 {
        done.push(cur)
    } else if s[0] == sep {
        pieces_acc(s.drop_first(), sep, done.push(cur), Seq::empty())
    } else {
        pieces_acc(s.drop_first(), sep, done, cur.push(s[0]))
    }
}

/// `str::split` at a character: the pieces between the separators, empty
/// ones included.
pub open spec fn pieces(s: Seq<char>, sep: char) -> Seq<Seq<char>> {
    pieces_acc(s, sep, Seq::empty(), Seq::empty())
}

/// The pieces of `s` between the occurrences of `sep`.
pub fn split_at_char(s: &Vec<char>, sep: char) -> (r: Vec<Vec<char>>)
    ensures
        r@.len() == pieces(s@, sep).len(),
        forall|i: int| 0 <= i < r@.len() ==> #[trigger] r@[i]@ == pieces(s@, sep)[i],
{
    let mut done: Vec<Vec<char>> = Vec::new();
    let mut cur: Vec<char> = Vec::new();
    let ghost mut done_v: Seq<Seq<char>> = Seq::empty();
    let mut i: usize = 0;
    assert(s@.skip(0) == s@);
    assert(cur@ =~= Seq::<char>::empty());
    while i < s.len()
        invariant
            i <= s@.len(),
            done@.len() == done_v.len(),
            forall|j: int| 0 <= j < done@.len() ==> #[trigger] done@[j]@ == done_v[j],
            pieces_acc(s@.skip(i as int), sep, done_v, cur@) == pieces(s@, sep),
        decreases s@.len() - i,
    {
        let ghost rest = s@.skip(i as int);
        assert(rest.drop_first() == s@.skip(i + 1 as int));
        assert(rest[0] == s@[i as int]);
        if s[i] == sep {
            let mut piece: Vec<char> = Vec::new();
            std::mem::swap(&mut piece, &mut cur);
            proof {
                done_v = done_v.push(piece@);
            }
            done.push(piece);
            assert(cur@ =~= Seq::<char>::empty());
        } else {
            cur.push(s[i]);
        }
        i = i + 1;
    }
    proof {
        done_v = done_v.push(cur@);
    }
    done.push(cur);
    assert(s@.skip(s@.len() as int) =~= Seq::<char>::empty());
    done
}

pub open spec fn is_digit(c: char) -> bool {
    '0' <= c <= '9'
}

/// The number that the decimal digits `d` write.
pub open spec fn digits_value(d: Seq<char>) -> nat
    decreases d.len(),
{
    if d.len() == 0 {
        0
    } else {
        digits_value(d.drop_last()) * 10 + (d.last() as nat - '0' as nat) as nat
    }
}

/// `str::parse` of an unsigned integer type whose largest value is `max`:
/// an optional `+`, then at least one decimal digit and nothing else, with a
/// value of at most `max`.
pub open spec fn parse_decimal(s: Seq<char>, max: nat) -> Option<nat> {
    let d = unsigned_digits(s);
    if d.len() > 0 && all_digits(d) && digits_value(d) <= max {
        Some(digits_value(d))
    } else {
        None
    }
}

/// `s` without a leading `+`.
pub open spec fn unsigned_digits(s: Seq<char>) -> Seq<char> {
    if s.len() > 0 && s[0] == '+' {
        s.drop_first()
    } else {
        s
    }
}

pub open spec fn all_digits(d: Seq<char>) -> bool {
    forall|i: int| 0 <= i < d.len() ==> is_digit(#[trigger] d[i])
}

proof fn lemma_digits_prefix(d: Seq<char>, i: int)
    requires
        0 <= i <= d.len(),
        forall|k: int| 0 <= k < d.len() ==> is_digit(#[trigger] d[k]),
    ensures
        digits_value(d.take(i)) <= digits_value(d),
    decreases d.len(),
{
    if i < d.len() {
        lemma_digits_prefix(d.drop_last(), i);
        assert(d.drop_last().take(i) == d.take(i));
    } else {
        assert(d.take(i) == d);
    }
}

/// `str::parse` of an unsigned integer no larger than `max`.
pub fn parse_decimal_chars(s: &[char], max: u32) -> (r: Option<u32>)
    requires
        max <= 0xFFFF,
    ensures
        r == (match parse_decimal(s@, max as nat) {
            Some(v) => Some(v as u32),
            None => None,
        }),
{
    let start: usize = if s.len() > 0 && s[0] == '+' { 1 } else { 0 };
    let ghost d = s@.skip(start as int);
    assert(d =~= unsigned_digits(s@));
    if start == s.len() {
        return None;
    }
    let mut v: u32 = 0;
    let mut i: usize = start;
    while i < s.len()
        invariant
            start <= i <= s@.len(),
            d == s@.skip(start as int),
            d == unsigned_digits(s@),
            d.len() > 0,
            max <= 0xFFFF,
            v <= max,
            v == digits_value(d.take(i - start)),
            forall|k: int| 0 <= k < i - start ==> is_digit(#[trigger] d[k]),
        decreases s@.len() - i,
    {
        let c = s[i];
        assert(d[i - start] == c);
        if !('0' <= c && c <= '9') {
            assert(!is_digit(d[i - start]));
            assert(!all_digits(d));
            assert(parse_decimal(s@, max as nat) is None);
            return None;
        }
        let digit = (c as u32) - ('0' as u32);
        assert(d.take(i - start + 1).drop_last() == d.take(i - start));
        let next = v * 10 + digit;
        i = i + 1;
        assert(next == digits_value(d.take(i - start)));
        if next > max {
            proof {
                if all_digits(d) {
                    lemma_digits_prefix(d, i - start);
                    assert(digits_value(d) > max);
                }
                assert(parse_decimal(s@, max as nat) is None);
            }
            return None;
        }
        v = next;
    }
    assert(d.take(d.len() as int) == d);
    Some(v)
}

/// The decimal digit for `d`, a number below ten.
pub open spec fn digit_char(d: nat) -> char {
    if d == 0 {
        '0'
    } else if d == 1 {
        '1'
    } else if d == 2 {
        '2'
    } else if d == 3 {
        '3'
    } else if d == 4 {
        '4'
    } else if d == 5 {
        '5'
    } else if d == 6 {
        '6'
    } else if d == 7 {
        '7'
    } else if d == 8 {
        '8'
    } else {
        '9'
    }
}

/// `n` written in decimal, without leading zeros.
pub open spec fn decimal(n: nat) -> Seq<char>
    decreases n,
{
    if n < 10 {
        seq![digit_char(n)]
    } else {
        decimal(n / 10).push(digit_char(n % 10))
    }
}

proof fn lemma_digit_char(d: nat)
    requires
        d < 10,
    ensures
        is_digit(digit_char(d)),
        digit_char(d) as nat - '0' as nat == d,
{
}

/// The decimal text of `n` is digits only, starts with a digit, and
/// reads back as `n`.
pub proof fn lemma_decimal_reads_back(n: nat)
    ensures
        decimal(n).len() > 0,
        all_digits(decimal(n)),
        is_digit(decimal(n)[0]),
        digits_value(decimal(n)) == n,
    decreases n,
{
    if n < 10 {
        lemma_digit_char(n);
        assert(decimal(n).drop_last() =~= Seq::<char>::empty());
        assert(digits_value(Seq::<char>::empty()) == 0);
        assert(decimal(n).last() == digit_char(n));
    } else {
        lemma_decimal_reads_back(n / 10);
        lemma_digit_char(n % 10);
        let d = decimal(n);
        assert(d.drop_last() =~= decimal(n / 10));
        assert(d[0] == decimal(n / 10)[0]);
        assert(d.last() == digit_char(n % 10));
        assert(digits_value(d) == digits_value(decimal(n / 10)) * 10 + (d.last() as nat - '0' as nat) as nat);
        assert(n / 10 * 10 + n % 10 == n);
    }
}

/// `str::parse` reads the decimal text of `n` back as `n` when `n` is in
/// range.
pub proof fn lemma_parse_decimal_of(n: nat, max: nat)
    requires
        n <= max,
    ensures
        parse_decimal(decimal(n), max) == Some(n),
{
    lemma_decimal_reads_back(n);
    assert(unsigned_digits(decimal(n)) == decimal(n));
}

/// `parts` with `sep` between each two of them.
pub open spec fn joined(parts: Seq<Seq<char>>, sep: char) -> Seq<char>
    decreases parts.len(),
{
    if parts.len() == 0 {
        Seq::empty()
    } else if parts.len() == 1 {
        parts[0]
    } else {
        parts[0] + seq![sep] + joined(parts.drop_first(), sep)
    }
}

proof fn lemma_pieces_run(s: Seq<char>, rest: Seq<char>, sep: char, done: Seq<Seq<char>>, cur: Seq<char>)
    requires
        !s.contains(sep),
    ensures
        pieces_acc(s + rest, sep, done, cur) == pieces_acc(rest, sep, done, cur + s),
    decreases s.len(),
{
    if s.len() == 0 {
        assert(s + rest =~= rest);
        assert(cur + s =~= cur);
    } else {
        assert(s[0] != sep) by {
            if s[0] == sep {
                assert(s.contains(sep));
            }
        }
        assert(!s.drop_first().contains(sep)) by {
            if s.drop_first().contains(sep) {
                let p = choose|p: int| 0 <= p < s.drop_first().len() && s.drop_first()[p] == sep;
                assert(s[p + 1] == sep);
            }
        }
        assert((s + rest)[0] == s[0]);
        assert((s + rest).drop_first() =~= s.drop_first() + rest);
        lemma_pieces_run(s.drop_first(), rest, sep, done, cur.push(s[0]));
        assert(cur.push(s[0]) + s.drop_first() =~= cur + s);
    }
}

proof fn lemma_pieces_acc_joined(parts: Seq<Seq<char>>, sep: char, done: Seq<Seq<char>>, cur: Seq<char>)
    requires
        parts.len() >= 1,
        forall|i: int| 0 <= i < parts.len() ==> !(#[trigger] parts[i]).contains(sep),
    ensures
        pieces_acc(joined(parts, sep), sep, done, cur) == done.push(cur + parts[0]) + parts.drop_first(),
    decreases parts.len(),
{
    if parts.len() == 1 {
        lemma_pieces_run(parts[0], Seq::empty(), sep, done, cur);
        assert(parts[0] + Seq::<char>::empty() =~= parts[0]);
        assert(done.push(cur + parts[0]) + parts.drop_first() =~= done.push(cur + parts[0]));
    } else {
        let tail = parts.drop_first();
        let r = seq![sep] + joined(tail, sep);
        assert(joined(parts, sep) =~= parts[0] + r);
        lemma_pieces_run(parts[0], r, sep, done, cur);
        assert(r[0] == sep);
        assert(r.drop_first() =~= joined(tail, sep));
        let done2 = done.push(cur + parts[0]);
        assert(pieces_acc(r, sep, done, cur + parts[0]) == pieces_acc(joined(tail, sep), sep, done2, Seq::empty()));
        assert forall|i: int| 0 <= i < tail.len() implies !(#[trigger] tail[i]).contains(sep) by {
            assert(tail[i] == parts[i + 1]);
        }
        lemma_pieces_acc_joined(tail, sep, done2, Seq::empty());
        assert(Seq::<char>::empty() + tail[0] =~= tail[0]);
        assert(done2.push(tail[0]) + tail.drop_first() =~= done2 + tail);
    }
}

/// Splitting the parts joined by a separator that none of them holds
/// gives the parts back.
pub proof fn lemma_pieces_of_joined(parts: Seq<Seq<char>>, sep: char)
    requires
        parts.len() >= 1,
        forall|i: int| 0 <= i < parts.len() ==> !(#[trigger] parts[i]).contains(sep),
    ensures
        pieces(joined(parts, sep), sep) == parts,
{
    lemma_pieces_acc_joined(parts, sep, Seq::empty(), Seq::empty());
    assert(Seq::<char>::empty() + parts[0] =~= parts[0]);
    assert(Seq::<Seq<char>>::empty().push(parts[0]) + parts.drop_first() =~= parts);
}

} // verus!
