//! Text utilities on character sequences, each with its exact specification.
use vstd::prelude::*;

verus! {

broadcast use vstd::string::group_string_axioms;

/// The characters of a string slice.
pub fn text(s: &str) -> (r: Vec<char>)
    ensures
        r@ == s@,
{
    let mut r: Vec<char> = Vec::new();
    for c in it: s.chars()
        invariant
            r@ == it.history(),
    {
        r.push(c);
    }
    r
}

/// The string made of the given characters (std's `FromIterator<char>` for `String`).
#[verifier::external_body]
pub(crate) fn to_string(chars: &[char]) -> (r: String)
    ensures
        r@ == chars@,
{
    chars.iter().collect()
}

/// A copy of a character vector.
pub fn copy_text(s: &[char]) -> (r: Vec<char>)
    ensures
        r@ == s@,
{
    let mut r: Vec<char> = Vec::new();
    let mut i: usize = 0;
    while i < s.len()
        invariant
            i <= s.len(),
            r@ == s@.take(i as int),
        decreases s.len() - i,
    {
        r.push(s[i]);
        i = i + 1;
        assert(r@ =~= s@.take(i as int));
    }
    assert(s@.take(s.len() as int) =~= s@);
    r
}

/// Whether two character sequences are equal.
pub fn text_eq(a: &[char], b: &[char]) -> (r: bool)
    ensures
        r == (a@ == b@),
{
    if a.len() != b.len() {
        return false;
    }
    let mut i: usize = 0;
    while i < a.len()
        invariant
            i <= a.len(),
            a.len() == b.len(),
            forall|j: int| 0 <= j < i ==> a@[j] == b@[j],
        decreases a.len() - i,
    {
        if a[i] != b[i] {
            return false;
        }
        i = i + 1;
    }
    assert(a@ =~= b@);
    true
}

/// Whether a character vector equals the characters of a string slice.
pub fn text_is(a: &[char], b: &str) -> (r: bool)
    ensures
        r == (a@ == b@),
{
    let bt = text(b);
    text_eq(a, bt.as_slice())
}

/// `a` followed by `b`.
pub fn concat(a: &[char], b: &[char]) -> (r: Vec<char>)
    ensures
        r@ == a@ + b@,
{
    let mut r = copy_text(a);
    let mut i: usize = 0;
    while i < b.len()
        invariant
            i <= b.len(),
            r@ == a@ + b@.take(i as int),
        decreases b.len() - i,
    {
        r.push(b[i]);
        i = i + 1;
        assert(r@ =~= a@ + b@.take(i as int));
    }
    assert(b@.take(b.len() as int) =~= b@);
    r
}

/// Appends `b` to `a`.
pub fn push_all(a: &mut Vec<char>, b: &[char])
    ensures
        final(a)@ == old(a)@ + b@,
{
    let mut i: usize = 0;
    while i < b.len()
        invariant
            i <= b.len(),
            a@ == old(a)@ + b@.take(i as int),
        decreases b.len() - i,
    {
        a.push(b[i]);
        i = i + 1;
        assert(a@ =~= old(a)@ + b@.take(i as int));
    }
    assert(b@.take(b.len() as int) =~= b@);
}

// ---------------------------------------------------------------------------
// Replacing every occurrence of a pattern
// ---------------------------------------------------------------------------

/// `s` with every occurrence of the non-empty `pat` replaced by `rep`, taking
/// occurrences from the left without overlap (the semantics of std's `str::replace`).
pub open spec fn replace_all(s: Seq<char>, pat: Seq<char>, rep: Seq<char>) -> Seq<char>
    decreases s.len(),
{
    if pat.len() == 0 || s.len() < pat.len() {
        s
    } else if s.take(pat.len() as int) == pat {
        rep + replace_all(s.skip(pat.len() as int), pat, rep)
    } else {
        seq![s[0]] + replace_all(s.skip(1), pat, rep)
    }
}

fn matches_at(s: &[char], pat: &[char], i: usize) -> (r: bool)
    requires
        i + pat.len() <= s.len(),
    ensures
        r == (s@.skip(i as int).take(pat.len() as int) == pat@),
{
    let mut j: usize = 0;
    while j < pat.len()
        invariant
            j <= pat.len(),
            i + pat.len() <= s.len(),
            forall|k: int| 0 <= k < j ==> s@[i + k] == pat@[k],
        decreases pat.len() - j,
    {
        if s[i + j] != pat[j] {
            assert(s@.skip(i as int).take(pat.len() as int)[j as int] != pat@[j as int]);
            return false;
        }
        j = j + 1;
    }
    assert(s@.skip(i as int).take(pat.len() as int) =~= pat@);
    true
}

/// `s` with every occurrence of `pat` replaced by `rep`.
pub fn replace_text(s: &[char], pat: &[char], rep: &[char]) -> (r: Vec<char>)
    requires
        pat.len() > 0,
    ensures
        r@ == replace_all(s@, pat@, rep@),
{
    let mut out: Vec<char> = Vec::new();
    let mut i: usize = 0;
    assert(s@.skip(0) =~= s@);
    assert(out@ + replace_all(s@, pat@, rep@) =~= replace_all(s@, pat@, rep@));
    while i < s.len()
        invariant
            i <= s.len(),
            pat.len() > 0,
            out@ + replace_all(s@.skip(i as int), pat@, rep@) == replace_all(s@, pat@, rep@),
        decreases s.len() - i,
    {
        let ghost rest = s@.skip(i as int);
        if pat.len() <= s.len() - i && matches_at(s, pat, i) {
            assert(rest.skip(pat.len() as int) =~= s@.skip(i + pat.len()));
            push_all(&mut out, rep);
            i = i + pat.len();
            assert(out@ + replace_all(s@.skip(i as int), pat@, rep@) =~= replace_all(s@, pat@, rep@));
        } else {
            assert(rest.skip(1) =~= s@.skip(i + 1));
            assert(rest.len() >= pat@.len() ==> rest.take(pat.len() as int) != pat@);
            out.push(s[i]);
            i = i + 1;
            assert(out@ + replace_all(s@.skip(i as int), pat@, rep@) =~= replace_all(s@, pat@, rep@));
        }
    }
    assert(s@.skip(s.len() as int) =~= Seq::<char>::empty());
    assert(out@ + Seq::<char>::empty() =~= out@);
    out
}

// ---------------------------------------------------------------------------
// Splitting on a separator and joining back
// ---------------------------------------------------------------------------

/// The pieces of `s` between occurrences of `sep` (std's `str::split` with a char).
pub open spec fn split_on(s: Seq<char>, sep: char) -> Seq<Seq<char>>
    decreases s.len(),
{
    if s.len() == 0 {
        seq![Seq::<char>::empty()]
    } else {
        let init = split_on(s.drop_last(), sep);
        if s.last() == sep {
            init.push(Seq::<char>::empty())
        } else {
            init.update(init.len() - 1, init.last().push(s.last()))
        }
    }
}

/// The pieces joined with `sep` between them (std's `join`).
pub open spec fn join_on(parts: Seq<Seq<char>>, sep: char) -> Seq<char>
    decreases parts.len(),
{
    if parts.len() == 0 {
        Seq::<char>::empty()
    } else if parts.len() == 1 {
        parts[0]
    } else {
        join_on(parts.drop_last(), sep).push(sep) + parts.last()
    }
}

pub proof fn lemma_split_nonempty(s: Seq<char>, sep: char)
    ensures
        split_on(s, sep).len() >= 1,
    decreases s.len(),
{
    if s.len() > 0 {
        lemma_split_nonempty(s.drop_last(), sep);
    }
}

/// Joining the pieces of a split with the same separator gives back the text.
pub proof fn lemma_join_split(s: Seq<char>, sep: char)
    ensures
        join_on(split_on(s, sep), sep) == s,
    decreases s.len(),
{
    if s.len() > 0 {
        let init = split_on(s.drop_last(), sep);
        lemma_split_nonempty(s.drop_last(), sep);
        lemma_join_split(s.drop_last(), sep);
        if s.last() == sep {
            let parts = init.push(Seq::<char>::empty());
            assert(parts.drop_last() =~= init);
            assert(join_on(parts, sep) =~= s);
        } else {
            let parts = init.update(init.len() - 1, init.last().push(s.last()));
            if init.len() == 1 {
                assert(join_on(init, sep) == init[0]);
                assert(join_on(parts, sep) =~= s);
            } else {
                assert(parts.drop_last() =~= init.drop_last());
                let a = join_on(init.drop_last(), sep).push(sep);
                assert(join_on(init, sep) == a + init.last());
                assert(join_on(parts, sep) == a + parts.last());
                assert(parts.last() == init.last().push(s.last()));
                assert(s =~= s.drop_last().push(s.last()));
                assert((a + init.last()).push(s.last()) =~= a + init.last().push(s.last()));
                assert(join_on(parts, sep) =~= s);
            }
        }
    }
}

/// Whether `s` holds no `sep`.
pub open spec fn free_of(s: Seq<char>, sep: char) -> bool {
    forall|i: int| 0 <= i < s.len() ==> s[i] != sep
}

/// Characters without the separator extend the last piece of a split.
pub proof fn lemma_split_extend(x: Seq<char>, y: Seq<char>, sep: char)
    requires
        free_of(y, sep),
    ensures
        split_on(x + y, sep) == split_on(x, sep).update(
            split_on(x, sep).len() - 1,
            split_on(x, sep).last() + y,
        ),
    decreases y.len(),
{
    lemma_split_nonempty(x, sep);
    if y.len() == 0 {
        assert(x + y =~= x);
        assert(split_on(x, sep).last() + y =~= split_on(x, sep).last());
        assert(split_on(x, sep).update(split_on(x, sep).len() - 1, split_on(x, sep).last()) =~= split_on(x, sep));
    } else {
        let y0 = y.drop_last();
        assert(free_of(y0, sep));
        lemma_split_extend(x, y0, sep);
        assert((x + y).drop_last() =~= x + y0);
        assert((x + y).last() == y.last());
        assert(y.last() != sep);
        let p = split_on(x, sep);
        assert((p.last() + y0).push(y.last()) =~= p.last() + y);
        assert(split_on(x + y, sep) =~= p.update(p.len() - 1, p.last() + y));
    }
}

/// The pieces of a split hold no separator.
pub proof fn lemma_split_pieces(s: Seq<char>, sep: char)
    ensures
        forall|i: int| 0 <= i < split_on(s, sep).len() ==> free_of(#[trigger] split_on(s, sep)[i], sep),
    decreases s.len(),
{
    if s.len() > 0 {
        lemma_split_pieces(s.drop_last(), sep);
        lemma_split_nonempty(s.drop_last(), sep);
        let init = split_on(s.drop_last(), sep);
        if s.last() != sep {
            let p = init.last().push(s.last());
            assert(free_of(init[init.len() - 1], sep));
            assert(free_of(p, sep));
            assert forall|i: int| 0 <= i < split_on(s, sep).len() implies free_of(#[trigger] split_on(s, sep)[i], sep) by {
                if i < init.len() - 1 {
                    assert(split_on(s, sep)[i] == init[i]);
                }
            }
        } else {
            assert forall|i: int| 0 <= i < split_on(s, sep).len() implies free_of(#[trigger] split_on(s, sep)[i], sep) by {
                if i < init.len() {
                    assert(split_on(s, sep)[i] == init[i]);
                }
            }
        }
    }
}

/// A text without the separator is a single piece.
pub proof fn lemma_split_single(y: Seq<char>, sep: char)
    requires
        free_of(y, sep),
    ensures
        split_on(y, sep) == seq![y],
{
    lemma_split_extend(Seq::empty(), y, sep);
    assert(Seq::<char>::empty() + y =~= y);
    assert(Seq::<char>::empty() + y =~= y);
    assert(seq![Seq::<char>::empty()].update(0, Seq::<char>::empty() + y) =~= seq![y]);
}

/// Splitting the join of pieces without the separator gives the pieces back.
pub proof fn lemma_split_join(parts: Seq<Seq<char>>, sep: char)
    requires
        parts.len() >= 1,
        forall|i: int| 0 <= i < parts.len() ==> free_of(#[trigger] parts[i], sep),
    ensures
        split_on(join_on(parts, sep), sep) == parts,
    decreases parts.len(),
{
    if parts.len() == 1 {
        lemma_split_single(parts[0], sep);
        assert(seq![parts[0]] =~= parts);
    } else {
        let init = parts.drop_last();
        assert forall|i: int| 0 <= i < init.len() implies free_of(#[trigger] init[i], sep) by {
            assert(init[i] == parts[i]);
        }
        lemma_split_join(init, sep);
        let x = join_on(init, sep).push(sep);
        assert(free_of(parts[parts.len() - 1], sep));
        lemma_split_extend(x, parts.last(), sep);
        assert(x.drop_last() =~= join_on(init, sep));
        let px = split_on(x, sep);
        assert(px == init.push(Seq::<char>::empty()));
        assert(Seq::<char>::empty() + parts.last() =~= parts.last());
        assert(px.update(px.len() - 1, px.last() + parts.last()) =~= parts);
    }
}

/// The first piece of `a`, the separator and `b` is `a` when `a` holds no separator.
pub proof fn lemma_split_first(a: Seq<char>, b: Seq<char>, sep: char)
    requires
        free_of(a, sep),
    ensures
        split_on(a + seq![sep] + b, sep)[0] == a,
        split_on(a + seq![sep] + b, sep).len() >= 2,
    decreases b.len(),
{
    if b.len() == 0 {
        let s = a + seq![sep] + b;
        assert(s.drop_last() =~= a);
        lemma_split_single(a, sep);
    } else {
        lemma_split_first(a, b.drop_last(), sep);
        let s = a + seq![sep] + b;
        assert(s.drop_last() =~= a + seq![sep] + b.drop_last());
    }
}

/// The pieces of `s` between occurrences of `sep`.
pub fn split_text(s: &[char], sep: char) -> (r: Vec<Vec<char>>)
    ensures
        r@.len() == split_on(s@, sep).len(),
        forall|i: int| 0 <= i < r@.len() ==> #[trigger] r@[i]@ == split_on(s@, sep)[i],
{
    let mut parts: Vec<Vec<char>> = Vec::new();
    let mut cur: Vec<char> = Vec::new();
    let mut i: usize = 0;
    while i < s.len()
        invariant
            i <= s.len(),
            parts@.len() + 1 == split_on(s@.take(i as int), sep).len(),
            forall|j: int| 0 <= j < parts@.len() ==> #[trigger] parts@[j]@ == split_on(s@.take(i as int), sep)[j],
            cur@ == split_on(s@.take(i as int), sep).last(),
        decreases s.len() - i,
    {
        proof {
            lemma_split_nonempty(s@.take(i as int), sep);
        }
        assert(s@.take(i + 1).drop_last() =~= s@.take(i as int));
        if s[i] == sep {
            parts.push(cur);
            cur = Vec::new();
        } else {
            cur.push(s[i]);
        }
        i = i + 1;
    }
    assert(s@.take(s.len() as int) =~= s@);
    parts.push(cur);
    parts
}

/// The pieces joined with `sep` between them.
pub fn join_text(parts: &Vec<Vec<char>>, sep: char) -> (r: Vec<char>)
    ensures
        r@ == join_on(parts@.map_values(|p: Vec<char>| p@), sep),
{
    let ghost views = parts@.map_values(|p: Vec<char>| p@);
    let mut out: Vec<char> = Vec::new();
    let mut i: usize = 0;
    while i < parts.len()
        invariant
            i <= parts.len(),
            views == parts@.map_values(|p: Vec<char>| p@),
            out@ == join_on(views.take(i as int), sep),
        decreases parts.len() - i,
    {
        assert(views.take(i + 1).drop_last() =~= views.take(i as int));
        if i > 0 {
            out.push(sep);
        }
        push_all(&mut out, parts[i].as_slice());
        i = i + 1;
        assert(out@ =~= join_on(views.take(i as int), sep));
    }
    assert(views.take(parts.len() as int) =~= views);
    out
}

// ---------------------------------------------------------------------------
// Decimal numerals
// ---------------------------------------------------------------------------

/// The character of a decimal digit.
pub open spec fn digit_char(d: nat) -> char {
    if d == 0 { '0' } else if d == 1 { '1' } else if d == 2 { '2' } else if d == 3 { '3' }
    else if d == 4 { '4' } else if d == 5 { '5' } else if d == 6 { '6' } else if d == 7 { '7' }
    else if d == 8 { '8' } else { '9' }
}

/// Whether `c` is a decimal digit.
pub open spec fn is_digit(c: char) -> bool {
    '0' <= c && c <= '9'
}

/// The value of a decimal digit character.
pub open spec fn digit_value(c: char) -> nat {
    ((c as int) - ('0' as int)) as nat
}

/// The decimal numeral of `n`, without leading zeros (std's `Display` for integers).
pub open spec fn decimal(n: nat) -> Seq<char>
    decreases n,
{
    if n < 10 {
        seq![digit_char(n)]
    } else {
        decimal(n / 10).push(digit_char(n % 10))
    }
}

/// The value of a sequence of decimal digits.
pub open spec fn digits_value(s: Seq<char>) -> nat
    decreases s.len(),
{
    if s.len() == 0 {
        0
    } else {
        digits_value(s.drop_last()) * 10 + digit_value(s.last())
    }
}

/// Whether every character of `s` is a decimal digit.
pub open spec fn all_digits(s: Seq<char>) -> bool {
    forall|i: int| 0 <= i < s.len() ==> is_digit(#[trigger] s[i])
}

/// The decimal numeral of `n`.
pub fn decimal_text(n: u64) -> (r: Vec<char>)
    ensures
        r@ == decimal(n as nat),
    decreases n,
{
    let d = n % 10;
    let c: char = if d == 0 { '0' } else if d == 1 { '1' } else if d == 2 { '2' } else if d == 3 { '3' }
        else if d == 4 { '4' } else if d == 5 { '5' } else if d == 6 { '6' } else if d == 7 { '7' }
        else if d == 8 { '8' } else { '9' };
    if n < 10 {
        let mut r: Vec<char> = Vec::new();
        r.push(c);
        assert(r@ =~= seq![digit_char(n as nat)]);
        r
    } else {
        let mut r = decimal_text(n / 10);
        r.push(c);
        r
    }
}

/// Why a text is not the decimal numeral of a `u32` (std's `IntErrorKind`).
#[derive(PartialEq, Eq, Structural, Clone, Copy, Debug)]
pub enum NumberError {
    Empty,
    InvalidDigit,
    TooLarge,
}

/// The message std gives a failed parse.
pub open spec fn number_message(e: NumberError) -> Seq<char> {
    match e {
        NumberError::Empty => "cannot parse integer from empty string"@,
        NumberError::InvalidDigit => "invalid digit found in string"@,
        NumberError::TooLarge => "number too large to fit in target type"@,
    }
}

impl NumberError {
    /// The message std gives a failed parse.
    pub fn message_chars(&self) -> (r: Vec<char>)
        ensures
            r@ == number_message(*self),
    {
        match self {
            NumberError::Empty => text("cannot parse integer from empty string"),
            NumberError::InvalidDigit => text("invalid digit found in string"),
            NumberError::TooLarge => text("number too large to fit in target type"),
        }
    }
}

/// The length of the longest prefix of `s` made of decimal digits.
pub open spec fn leading_digits(s: Seq<char>) -> nat
    decreases s.len(),
{
    if all_digits(s) {
        s.len()
    } else {
        leading_digits(s.drop_last())
    }
}

/// The result of std's `str::parse::<u32>`: an optional leading `+`, then at
/// least one decimal digit, with a value below 2^32. The digits are read from
/// the left and the first problem met is reported: a value that grows too
/// large before a character that is not a digit is too large.
pub open spec fn parse_u32_spec(s: Seq<char>) -> Result<u32, NumberError> {
    let body = if s.len() > 0 && s[0] == '+' { s.skip(1) } else { s };
    let k = leading_digits(body);
    if s.len() == 0 {
        Err(NumberError::Empty)
    } else if body.len() == 0 {
        Err(NumberError::InvalidDigit)
    } else if digits_value(body.take(k as int)) > u32::MAX {
        Err(NumberError::TooLarge)
    } else if k < body.len() {
        Err(NumberError::InvalidDigit)
    } else {
        Ok(digits_value(body) as u32)
    }
}

proof fn lemma_leading_digits(s: Seq<char>)
    ensures
        leading_digits(s) <= s.len(),
        all_digits(s.take(leading_digits(s) as int)),
        leading_digits(s) < s.len() ==> !is_digit(s[leading_digits(s) as int]),
        forall|j: int| 0 <= j <= s.len() && #[trigger] all_digits(s.take(j)) ==> j <= leading_digits(s),
    decreases s.len(),
{
    if all_digits(s) {
        assert(s.take(s.len() as int) =~= s);
    } else {
        let d = s.drop_last();
        lemma_leading_digits(d);
        let l = leading_digits(d);
        assert(s.take(l as int) =~= d.take(l as int));
        if l == d.len() {
            assert(d.take(l as int) =~= d);
            assert(!is_digit(s[l as int])) by {
                if is_digit(s[l as int]) {
                    assert forall|i: int| 0 <= i < s.len() implies is_digit(#[trigger] s[i]) by {
                        if i < d.len() {
                            assert(d[i] == s[i]);
                        }
                    }
                }
            }
        } else {
            assert(d[l as int] == s[l as int]);
        }
        assert forall|j: int| 0 <= j <= s.len() && #[trigger] all_digits(s.take(j)) implies j <= leading_digits(s) by {
            if j == s.len() {
                assert(s.take(j) =~= s);
            } else {
                assert(s.take(j) =~= d.take(j));
            }
        }
    }
}

proof fn lemma_digits_value_monotone(s: Seq<char>, i: int)
    requires
        0 <= i <= s.len(),
        all_digits(s),
    ensures
        digits_value(s.take(i)) <= digits_value(s),
    decreases s.len() - i,
{
    if i < s.len() {
        lemma_digits_value_monotone(s, i + 1);
        assert(s.take(i + 1).drop_last() =~= s.take(i));
    } else {
        assert(s.take(i) =~= s);
    }
}

/// The `u32` whose decimal numeral `s` is.
pub fn parse_u32(s: &[char]) -> (r: Result<u32, NumberError>)
    ensures
        r == parse_u32_spec(s@),
{
    if s.len() == 0 {
        return Err(NumberError::Empty);
    }
    let start: usize = if s[0] == '+' { 1 } else { 0 };
    let ghost body = s@.skip(start as int);
    assert(s@.skip(0) =~= s@);
    assert(body == (if s@.len() > 0 && s@[0] == '+' { s@.skip(1) } else { s@ }));
    if start == s.len() {
        assert(body.len() == 0);
        return Err(NumberError::InvalidDigit);
    }
    proof {
        lemma_leading_digits(body);
    }
    let mut v: u64 = 0;
    let mut k: usize = start;
    assert(body.take(0) =~= Seq::<char>::empty());
    while k < s.len()
        invariant
            start <= k <= s.len(),
            start < s.len(),
            body == s@.skip(start as int),
            body == (if s@.len() > 0 && s@[0] == '+' { s@.skip(1) } else { s@ }),
            all_digits(body.take(k - start)),
            v as nat == digits_value(body.take(k - start)),
            v <= u32::MAX,
            leading_digits(body) <= body.len(),
            all_digits(body.take(leading_digits(body) as int)),
            leading_digits(body) < body.len() ==> !is_digit(body[leading_digits(body) as int]),
            forall|j: int| 0 <= j <= body.len() && #[trigger] all_digits(body.take(j)) ==> j <= leading_digits(body),
        decreases s.len() - k,
    {
        let ghost j = k - start;
        assert(body[j] == s@[k as int]);
        if !('0' <= s[k] && s[k] <= '9') {
            assert(j <= leading_digits(body));
            assert(leading_digits(body) == j) by {
                if leading_digits(body) > j {
                    assert(body.take(leading_digits(body) as int)[j] == body[j]);
                }
            }
            assert(body.take(j) =~= body.take(leading_digits(body) as int));
            return Err(NumberError::InvalidDigit);
        }
        assert(body.take(j + 1).drop_last() =~= body.take(j));
        assert(body.take(j + 1).last() == s@[k as int]);
        assert(all_digits(body.take(j + 1))) by {
            assert forall|i: int| 0 <= i < j + 1 implies is_digit(#[trigger] body.take(j + 1)[i]) by {
                if i < j {
                    assert(body.take(j + 1)[i] == body.take(j)[i]);
                }
            }
        }
        let d: u64 = (s[k] as u32 - '0' as u32) as u64;
        let nv = v * 10 + d;
        if nv > 0xffff_ffff {
            proof {
                let l = leading_digits(body) as int;
                assert(j + 1 <= l);
                assert(body.take(l).take(j + 1) =~= body.take(j + 1));
                lemma_digits_value_monotone(body.take(l), j + 1);
            }
            return Err(NumberError::TooLarge);
        }
        v = nv;
        k = k + 1;
    }
    assert(body.take(s.len() - start) =~= body);
    assert(leading_digits(body) == body.len());
    Ok(v as u32)
}

proof fn lemma_digit_char(d: nat)
    requires
        d < 10,
    ensures
        is_digit(digit_char(d)),
        digit_value(digit_char(d)) == d,
        digit_char(d) != '+',
{
}

/// Reading back the numeral of a number gives the number.
pub proof fn lemma_parse_decimal(n: u32)
    ensures
        parse_u32_spec(decimal(n as nat)) == Ok::<u32, NumberError>(n),
{
    lemma_decimal_digits(n as nat);
    lemma_leading_digits(decimal(n as nat));
    assert(all_digits(decimal(n as nat).take(decimal(n as nat).len() as int))) by {
        assert(decimal(n as nat).take(decimal(n as nat).len() as int) =~= decimal(n as nat));
    }
    assert(decimal(n as nat).take(decimal(n as nat).len() as int) =~= decimal(n as nat));
}

pub proof fn lemma_decimal_digits(n: nat)
    ensures
        decimal(n).len() > 0,
        all_digits(decimal(n)),
        digits_value(decimal(n)) == n,
        decimal(n)[0] != '+',
    decreases n,
{
    lemma_digit_char(n % 10);
    assert((n / 10) * 10 + n % 10 == n) by (nonlinear_arith);
    if n >= 10 {
        lemma_decimal_digits(n / 10);
        assert(decimal(n).drop_last() =~= decimal(n / 10));
        assert(decimal(n).last() == digit_char(n % 10));
        assert(digits_value(decimal(n)) == digits_value(decimal(n / 10)) * 10 + digit_value(digit_char(n % 10)));
    } else {
        assert(decimal(n).drop_last() =~= Seq::<char>::empty());
        assert(n % 10 == n);
        assert(decimal(n).last() == digit_char(n));
        assert(digits_value(decimal(n)) == digits_value(Seq::<char>::empty()) * 10 + digit_value(digit_char(n)));
    }
}

} // verus!

verus! {

/// The characters of `s` from position `from` on.
pub fn suffix_text(s: &[char], from: usize) -> (r: Vec<char>)
    requires
        from <= s.len(),
    ensures
        r@ == s@.skip(from as int),
{
    let mut r: Vec<char> = Vec::new();
    let mut i: usize = from;
    while i < s.len()
        invariant
            from <= i <= s.len(),
            r@ == s@.subrange(from as int, i as int),
        decreases s.len() - i,
    {
        r.push(s[i]);
        i = i + 1;
        assert(r@ =~= s@.subrange(from as int, i as int));
    }
    assert(r@ =~= s@.skip(from as int));
    r
}

/// Copies of a vector of texts.
pub fn copy_texts(v: &Vec<Vec<char>>) -> (r: Vec<Vec<char>>)
    ensures
        r@.len() == v@.len(),
        forall|i: int| 0 <= i < v@.len() ==> #[trigger] r@[i]@ == v@[i]@,
{
    let mut r: Vec<Vec<char>> = Vec::new();
    let mut i: usize = 0;
    while i < v.len()
        invariant
            i <= v.len(),
            r@.len() == i,
            forall|j: int| 0 <= j < i ==> #[trigger] r@[j]@ == v@[j]@,
        decreases v.len() - i,
    {
        r.push(copy_text(v[i].as_slice()));
        i = i + 1;
    }
    r
}

} // verus!
