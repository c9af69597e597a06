//! Character-level string helpers shared by the rest of the library.
use vstd::prelude::*;
use vstd::std_specs::iter::IteratorSpec;
use vstd::string::StringExecFns;

verus! {

broadcast use vstd::string::group_string_axioms;

/// ASCII punctuation, as `char::is_ascii_punctuation` defines it:
/// `! " # $ % & ' ( ) * + , - . /`, `: ; < = > ? @`, `[ \ ] ^ _ `` ` ``, `{ | } ~`.
pub open spec fn is_ascii_punct(c: char) -> bool {
    ('!' <= c && c <= '/') || (':' <= c && c <= '@') || ('[' <= c && c <= '`') || ('{' <= c
        && c <= '~')
}

/// Decides ASCII punctuation.
pub fn ascii_punct(c: char) -> (r: bool)
    ensures
        r == is_ascii_punct(c),
{
    ('!' <= c && c <= '/') || (':' <= c && c <= '@') || ('[' <= c && c <= '`') || ('{' <= c
        && c <= '~')
}

/// Appends one character to a `String` (`String::push`).
#[verifier::external_body]
pub(crate) fn push_char(s: &mut String, c: char)
    ensures
        final(s)@ == old(s)@.push(c),
{
    s.push(c);
}

/// The characters of a string slice, in order.
pub fn to_chars(s: &str) -> (v: Vec<char>)
    ensures
        v@ == s@,
{
    let mut v: Vec<char> = Vec::new();
    for c in it: s.chars()
        invariant
            it.seq() == s@,
            v@ == it.seq().take(it.index() as int),
    {
        v.push(c);
    }
    v
}

/// A `String` holding the given characters.
pub fn from_chars(v: &[char]) -> (s: String)
    ensures
        s@ == v@,
{
    let mut s = String::new();
    let mut i: usize = 0;
    while i < v.len()
        invariant
            i <= v.len(),
            s@ == v@.take(i as int),
        decreases v.len() - i,
    {
        push_char(&mut s, v[i]);
        assert(v@.take(i + 1) == v@.take(i as int).push(v@[i as int]));
        i = i + 1;
    }
    assert(v@.take(v.len() as int) == v@);
    s
}


/// The decimal digit character for `d < 10`.
pub open spec fn digit_char(d: nat) -> char {
    if d == 0 {
        '0'
    } else if d == 1 {
        '1'
    } else if d == 2 {
        '2'
    } else if d == 3 {
        '3'
    } else if d == 4 {
        '4'
    } else if d == 5 {
        '5'
    } else if d == 6 {
        '6'
    } else if d == 7 {
        '7'
    } else if d == 8 {
        '8'
    } else {
        '9'
    }
}

/// The decimal representation of `n`, without leading zeros (`0` is `"0"`).
pub open spec fn decimal(n: nat) -> Seq<char>
    decreases n,
{
    if n < 10 {
        seq![digit_char(n)]
    } else {
        decimal(n / 10).push(digit_char(n % 10))
    }
}

fn digit(d: u64) -> (c: char)
    requires
        d < 10,
    ensures
        c == digit_char(d as nat),
{
    if d == 0 {
        '0'
    } else if d == 1 {
        '1'
    } else if d == 2 {
        '2'
    } else if d == 3 {
        '3'
    } else if d == 4 {
        '4'
    } else if d == 5 {
        '5'
    } else if d == 6 {
        '6'
    } else if d == 7 {
        '7'
    } else if d == 8 {
        '8'
    } else {
        '9'
    }
}

fn decimal_chars(n: u64, out: &mut Vec<char>)
    ensures
        final(out)@ == old(out)@ + decimal(n as nat),
    decreases n,
{
    if n < 10 {
        out.push(digit(n));
    } else {
        decimal_chars(n / 10, out);
        out.push(digit(n % 10));
    }
}

/// The decimal representation of `n`, as `Display` prints an integer.
pub fn decimal_string(n: u64) -> (s: String)
    ensures
        s@ == decimal(n as nat),
{
    let mut chars: Vec<char> = Vec::new();
    decimal_chars(n, &mut chars);
    assert(chars@ =~= decimal(n as nat));
    from_chars(chars.as_slice())
}


/// Decides whether a list of strings holds a string with the given characters.
pub fn contains_text(v: &Vec<String>, s: &String) -> (r: bool)
    ensures
        r == v.deep_view().contains(s@),
{
    let mut i: usize = 0;
    while i < v.len()
        invariant
            i <= v.len(),
            forall|j: int| 0 <= j < i ==> v@[j]@ != s@,
        decreases v.len() - i,
    {
        if v[i] == *s {
            assert(v.deep_view()[i as int] == s@);
            return true;
        }
        i = i + 1;
    }
    assert forall|j: int| 0 <= j < v.deep_view().len() implies v.deep_view()[j] != s@ by {}
    false
}

/// Adds a string to a list of strings used as a set: the list keeps no duplicates.
pub fn set_insert(set: &mut Vec<String>, s: String)
    ensures
        final(set).deep_view().to_set() == old(set).deep_view().to_set().insert(s@),
        old(set).deep_view().no_duplicates() ==> final(set).deep_view().no_duplicates(),
{
    if contains_text(set, &s) {
        assert(old(set).deep_view().to_set().insert(s@) =~= old(set).deep_view().to_set());
    } else {
        let ghost before = set.deep_view();
        set.push(s);
        assert(set.deep_view() =~= before.push(s@));
        assert(set.deep_view().to_set() =~= before.to_set().insert(s@)) by {
            assert forall|x: Seq<char>| #[trigger] set.deep_view().contains(x) implies before.contains(x) || x == s@ by {
                let k = choose|k: int| 0 <= k < set.deep_view().len() && set.deep_view()[k] == x;
                if k < before.len() {
                    assert(before[k] == x);
                }
            }
            assert forall|x: Seq<char>| before.contains(x) implies #[trigger] set.deep_view().contains(x) by {
                let k = choose|k: int| 0 <= k < before.len() && before[k] == x;
                assert(set.deep_view()[k] == x);
            }
            assert(set.deep_view()[before.len() as int] == s@);
        }
        assert(before.no_duplicates() ==> set.deep_view().no_duplicates()) by {
            if before.no_duplicates() {
                assert forall|i: int, j: int|
                    0 <= i < set.deep_view().len() && 0 <= j < set.deep_view().len() && i != j
                    implies set.deep_view()[i] != set.deep_view()[j] by {
                    if i < before.len() && j < before.len() {
                        assert(before[i] == set.deep_view()[i]);
                        assert(before[j] == set.deep_view()[j]);
                    } else if i < before.len() {
                        assert(before.contains(before[i]));
                    } else if j < before.len() {
                        assert(before.contains(before[j]));
                    }
                }
            }
        }
    }
}

/// `a` and `b` joined by a colon.
pub open spec fn colon_join(a: Seq<char>, b: Seq<char>) -> Seq<char> {
    a + seq![':'] + b
}

/// Joins two strings with a colon: `a:b`.
pub fn join_colon(a: &String, b: &String) -> (r: String)
    ensures
        r@ == colon_join(a@, b@),
{
    let mut r = a.clone();
    push_char(&mut r, ':');
    r.append(b.as_str());
    assert(r@ =~= colon_join(a@, b@));
    r
}


/// The pieces of `s` between the occurrences of `sep`, in order (`str::split` with a
/// character pattern): there is always at least one piece, and one more than separators.
pub open spec fn split_on(s: Seq<char>, sep: char) -> Seq<Seq<char>>
    decreases s.len(),
{
    if s.len() == 0 {
        seq![Seq::<char>::empty()]
    } else {
        let prev = split_on(s.drop_last(), sep);
        if s.last() == sep {
            prev.push(Seq::<char>::empty())
        } else {
            prev.update(prev.len() - 1, prev.last().push(s.last()))
        }
    }
}

/// The pieces joined back together with `sep` between them.
pub open spec fn join_with(parts: Seq<Seq<char>>, sep: char) -> Seq<char>
    decreases parts.len(),
{
    if parts.len() == 0 {
        Seq::empty()
    } else if parts.len() == 1 {
        parts[0]
    } else {
        join_with(parts.drop_last(), sep).push(sep) + parts.last()
    }
}

proof fn lemma_split_nonempty(s: Seq<char>, sep: char)
    ensures
        split_on(s, sep).len() >= 1,
    decreases s.len(),
{
    if s.len() > 0 {
        lemma_split_nonempty(s.drop_last(), sep);
    }
}

/// Splitting on a separator and joining the pieces with it gives back the text, and no piece
/// holds the separator.
pub proof fn lemma_split_join(s: Seq<char>, sep: char)
    ensures
        split_on(s, sep).len() >= 1,
        join_with(split_on(s, sep), sep) == s,
        forall|i: int| 0 <= i < split_on(s, sep).len() ==> !(#[trigger] split_on(s, sep)[i]).contains(sep),
    decreases s.len(),
{
    lemma_split_nonempty(s, sep);
    if s.len() == 0 {
        assert(join_with(split_on(s, sep), sep) =~= s);
    } else {
        let prev = split_on(s.drop_last(), sep);
        lemma_split_join(s.drop_last(), sep);
        let parts = split_on(s, sep);
        if s.last() == sep {
            assert(parts.drop_last() =~= prev);
            if prev.len() == 1 {
                assert(join_with(parts, sep) =~= s);
            } else {
                assert(join_with(parts, sep) =~= s);
            }
            assert forall|i: int| 0 <= i < parts.len() implies !(#[trigger] parts[i]).contains(sep) by {
                if i < prev.len() {
                    assert(parts[i] == prev[i]);
                }
            }
        } else {
            let n = prev.len();
            assert(parts.drop_last() =~= prev.drop_last());
            assert(parts.last() == prev.last().push(s.last()));
            if n == 1 {
                assert(join_with(parts, sep) =~= s);
            } else {
                assert(join_with(parts, sep) == join_with(prev.drop_last(), sep).push(sep) + prev.last().push(s.last()));
                assert(join_with(prev, sep) == join_with(prev.drop_last(), sep).push(sep) + prev.last());
                assert(join_with(parts, sep) =~= join_with(prev, sep).push(s.last()));
            }
            assert forall|i: int| 0 <= i < parts.len() implies !(#[trigger] parts[i]).contains(sep) by {
                if i < n - 1 {
                    assert(parts[i] == prev[i]);
                } else {
                    assert(!prev[n - 1].contains(sep));
                    assert forall|k: int| 0 <= k < parts[i].len() implies parts[i][k] != sep by {
                        if k < prev[n - 1].len() {
                            assert(parts[i][k] == prev[n - 1][k]);
                        }
                    }
                }
            }
        }
    }
}

/// Splits a string slice at every occurrence of a separator character.
pub fn split_chars(s: &str, sep: char) -> (parts: Vec<String>)
    ensures
        parts.deep_view() == split_on(s@, sep),
{
    let chars = to_chars(s);
    let mut parts: Vec<Vec<char>> = Vec::new();
    let mut current: Vec<char> = Vec::new();
    let mut i: usize = 0;
    assert(s@.take(0) =~= Seq::<char>::empty());
    while i < chars.len()
        invariant
            i <= chars.len(),
            chars@ == s@,
            split_on(s@.take(i as int), sep) == Seq::new(parts@.len(), |k: int| parts@[k]@).push(current@),
        decreases chars.len() - i,
    {
        let c = chars[i];
        let ghost prev = split_on(s@.take(i as int), sep);
        assert(s@.take(i + 1).drop_last() =~= s@.take(i as int));
        assert(s@.take(i + 1).last() == c);
        if c == sep {
            let done = current;
            parts.push(done);
            current = Vec::new();
            assert(split_on(s@.take(i + 1), sep) =~= Seq::new(parts@.len(), |k: int| parts@[k]@).push(current@));
        } else {
            current.push(c);
            assert(split_on(s@.take(i + 1), sep) =~= Seq::new(parts@.len(), |k: int| parts@[k]@).push(current@));
        }
        i = i + 1;
    }
    assert(s@.take(chars.len() as int) =~= s@);
    parts.push(current);
    let mut out: Vec<String> = Vec::new();
    let mut k: usize = 0;
    while k < parts.len()
        invariant
            k <= parts.len(),
            out@.len() == k,
            forall|j: int| 0 <= j < k ==> out@[j]@ == parts@[j]@,
        decreases parts.len() - k,
    {
        out.push(from_chars(parts[k].as_slice()));
        k = k + 1;
    }
    assert(out.deep_view() =~= split_on(s@, sep));
    out
}


/// UTF-8 encoding distributes over concatenation.
pub proof fn lemma_encode_utf8_concat(a: Seq<char>, b: Seq<char>)
    ensures
        vstd::utf8::encode_utf8(a + b) == vstd::utf8::encode_utf8(a) + vstd::utf8::encode_utf8(b),
    decreases a.len(),
{
    if a.len() == 0 {
        assert(a + b =~= b);
        assert(vstd::utf8::encode_utf8(a) =~= Seq::<u8>::empty());
        assert(vstd::utf8::encode_utf8(a) + vstd::utf8::encode_utf8(b) =~= vstd::utf8::encode_utf8(b));
    } else {
        assert((a + b).drop_first() =~= a.drop_first() + b);
        assert((a + b)[0] == a[0]);
        lemma_encode_utf8_concat(a.drop_first(), b);
        assert(vstd::utf8::encode_utf8(a + b) =~= vstd::utf8::encode_utf8(a) + vstd::utf8::encode_utf8(b));
    }
}

/// Each piece of a split text is no longer in UTF-8 bytes than the text.
pub proof fn lemma_split_piece_bytes(s: Seq<char>, sep: char, i: int)
    requires
        0 <= i < split_on(s, sep).len(),
    ensures
        vstd::utf8::encode_utf8(split_on(s, sep)[i]).len() <= vstd::utf8::encode_utf8(s).len(),
    decreases split_on(s, sep).len(),
{
    lemma_split_join(s, sep);
    lemma_join_piece_bytes(split_on(s, sep), sep, i);
}

proof fn lemma_join_piece_bytes(parts: Seq<Seq<char>>, sep: char, i: int)
    requires
        0 <= i < parts.len(),
    ensures
        vstd::utf8::encode_utf8(parts[i]).len() <= vstd::utf8::encode_utf8(join_with(parts, sep)).len(),
    decreases parts.len(),
{
    if parts.len() > 1 {
        let front = join_with(parts.drop_last(), sep).push(sep);
        lemma_encode_utf8_concat(front, parts.last());
        if i == parts.len() - 1 {
        } else {
            lemma_join_piece_bytes(parts.drop_last(), sep, i);
            assert(join_with(parts.drop_last(), sep).push(sep) =~= join_with(parts.drop_last(), sep) + seq![sep]);
            lemma_encode_utf8_concat(join_with(parts.drop_last(), sep), seq![sep]);
        }
    }
}

} // verus!
