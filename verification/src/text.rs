//! Text helpers shared by the router and the handlers: decimal rendering,
//! splitting on `/` and joining back.

use vstd::prelude::*;

verus! {

/// The character that stands for the decimal digit `d`.
pub open spec fn digit_char(d: nat) -> char
    recommends
        d < 10,
{
    if d == 0 {
        '0'
    } else if d == 1 {
        '1'
    } else if d == 2 {
        '2'
    } else if d == 3 {
        '3'
    } else if d == 4 {
        '4'
    } else if d == 5 {
        '5'
    } else if d == 6 {
        '6'
    } else if d == 7 {
        '7'
    } else if d == 8 {
        '8'
    } else {
        '9'
    }
}

/// The decimal numeral of `n`, most significant digit first, without leading
/// zeros (`0` is written as the single digit `0`).
pub open spec fn decimal(n: nat) -> Seq<char>
    decreases n,
{
    if n < 10 {
        seq![digit_char(n)]
    } else {
        decimal(n / 10).push(digit_char(n % 10))
    }
}

/// Whether `c` is one of the ten decimal digits.
pub open spec fn is_digit(c: char) -> bool {
    '0' <= c <= '9'
}

/// The number that a decimal digit stands for.
pub open spec fn digit_value(c: char) -> nat
    recommends
        is_digit(c),
{
    (c as nat - '0' as nat) as nat
}

/// The number that a text of decimal digits is the numeral of.
pub open spec fn numeral_value(digits: Seq<char>) -> nat
    decreases digits.len(),
{
    if digits.len() == 0 {
        0
    } else {
        numeral_value(digits.drop_last()) * 10 + digit_value(digits.last())
    }
}

/// The decimal numeral of a number is made of digits only, has no leading
/// zero unless the number is zero, and reads back as the number.
pub proof fn lemma_decimal_reads_back(n: nat)
    ensures
        decimal(n).len() >= 1,
        forall|i: int| 0 <= i < decimal(n).len() ==> is_digit(#[trigger] decimal(n)[i]),
        decimal(n)[0] == '0' <==> n == 0,
        numeral_value(decimal(n)) == n,
    decreases n,
{
    if n < 10 {
        assert(decimal(n).drop_last() =~= Seq::<char>::empty());
        assert(numeral_value(decimal(n).drop_last()) == 0);
    } else {
        lemma_decimal_reads_back(n / 10);
        assert(decimal(n).drop_last() =~= decimal(n / 10));
    }
}

/// The one-character string of a decimal digit.
fn digit_str(d: u64) -> (s: &'static str)
    requires
        d < 10,
    ensures
        s@ == seq![digit_char(d as nat)],
{
    proof {
        reveal_strlit("0");
        reveal_strlit("1");
        reveal_strlit("2");
        reveal_strlit("3");
        reveal_strlit("4");
        reveal_strlit("5");
        reveal_strlit("6");
        reveal_strlit("7");
        reveal_strlit("8");
        reveal_strlit("9");
    }
    let s = if d == 0 {
        "0"
    } else if d == 1 {
        "1"
    } else if d == 2 {
        "2"
    } else if d == 3 {
        "3"
    } else if d == 4 {
        "4"
    } else if d == 5 {
        "5"
    } else if d == 6 {
        "6"
    } else if d == 7 {
        "7"
    } else if d == 8 {
        "8"
    } else {
        "9"
    };
    assert(s@ =~= seq![digit_char(d as nat)]);
    s
}

/// Appends the decimal numeral of `n` to `out`.
pub fn push_decimal(out: &mut String, n: u64)
    ensures
        final(out)@ == old(out)@ + decimal(n as nat),
    decreases n,
{
    if n >= 10 {
        push_decimal(out, n / 10);
    }
    out.append(digit_str(n % 10));
    assert(out@ =~= old(out)@ + decimal(n as nat));
}

/// The characters of `s`, in order.
pub fn chars_of(s: &str) -> (v: Vec<char>)
    ensures
        v@ == s@,
{
    broadcast use vstd::string::group_string_axioms;

    let mut v: Vec<char> = Vec::new();
    for c in it: s.chars()
        invariant
            it.seq() == s@,
            v@ == it.seq().take(it.index()),
    {
        v.push(c);
        assert(it.seq().take(it.index() + 1) =~= it.seq().take(it.index()).push(c));
    }
    assert(v@ =~= s@);
    v
}

/// The texts of a sequence of strings.
pub open spec fn text_of(strings: Seq<String>) -> Seq<Seq<char>> {
    Seq::new(strings.len(), |i: int| strings[i]@)
}

/// The pieces of `s` between its `/` characters, in order. There is always
/// one piece more than there are slashes; a piece is empty where two
/// slashes meet and where `s` begins or ends with one.
pub open spec fn split_slash(s: Seq<char>) -> Seq<Seq<char>>
    decreases s.len(),
{
    if s.len() == 0 {
        seq![Seq::<char>::empty()]
    } else if s.last() == '/' {
        split_slash(s.drop_last()).push(Seq::<char>::empty())
    } else {
        let pieces = split_slash(s.drop_last());
        pieces.drop_last().push(pieces.last().push(s.last()))
    }
}

/// The pieces put together again with one `/` between neighbours.
pub open spec fn join_slash(pieces: Seq<Seq<char>>) -> Seq<char>
    decreases pieces.len(),
{
    if pieces.len() == 0 {
        Seq::<char>::empty()
    } else if pieces.len() == 1 {
        pieces[0]
    } else {
        join_slash(pieces.drop_last()) + seq!['/'] + pieces.last()
    }
}

/// Splitting yields at least one piece, and no piece holds a `/`.
pub proof fn lemma_split_pieces(s: Seq<char>)
    ensures
        split_slash(s).len() >= 1,
        forall|i: int| 0 <= i < split_slash(s).len() ==> !(#[trigger] split_slash(s)[i]).contains(
            '/',
        ),
    decreases s.len(),
{
    if s.len() > 0 {
        lemma_split_pieces(s.drop_last());
        let before = split_slash(s.drop_last());
        if s.last() != '/' {
            let grown = before.last().push(s.last());
            assert forall|j: int| 0 <= j < grown.len() implies grown[j] != '/' by {
                if j < before.last().len() {
                    assert(before.last().contains(before.last()[j]));
                }
            }
        }
    }
}

/// Joining the pieces of a text gives the text back.
pub proof fn lemma_join_split(s: Seq<char>)
    ensures
        join_slash(split_slash(s)) == s,
    decreases s.len(),
{
    if s.len() > 0 {
        lemma_join_split(s.drop_last());
        lemma_split_pieces(s.drop_last());
        let before = split_slash(s.drop_last());
        let after = split_slash(s);
        if s.last() == '/' {
            assert(after.drop_last() =~= before);
            assert(join_slash(after) =~= s.drop_last() + seq!['/'] + Seq::<char>::empty());
        } else if before.len() == 1 {
            assert(join_slash(after) =~= before[0].push(s.last()));
        } else {
            assert(after.drop_last() =~= before.drop_last());
            assert(join_slash(after) =~= join_slash(before).push(s.last()));
        }
        assert(s =~= s.drop_last().push(s.last()));
    }
}

/// A text without a slash is its own single piece.
pub proof fn lemma_split_single(s: Seq<char>)
    requires
        !s.contains('/'),
    ensures
        split_slash(s) == seq![s],
    decreases s.len(),
{
    if s.len() == 0 {
        assert(s =~= Seq::<char>::empty());
    } else {
        let front = s.drop_last();
        assert(s.contains(s.last()));
        assert forall|j: int| 0 <= j < front.len() implies front[j] != '/' by {
            assert(s.contains(s[j]));
        }
        lemma_split_single(front);
        assert(front.push(s.last()) =~= s);
        assert(split_slash(s) =~= seq![s]);
    }
}

/// A slash and a piece without slashes behind a text add that piece to the
/// pieces of the text.
pub proof fn lemma_split_append(s: Seq<char>, piece: Seq<char>)
    requires
        !piece.contains('/'),
    ensures
        split_slash(s + seq!['/'] + piece) == split_slash(s).push(piece),
    decreases piece.len(),
{
    let whole = s + seq!['/'] + piece;
    if piece.len() == 0 {
        assert(piece =~= Seq::<char>::empty());
        assert(whole.drop_last() =~= s);
    } else {
        let front = piece.drop_last();
        assert(piece.contains(piece.last()));
        assert forall|j: int| 0 <= j < front.len() implies front[j] != '/' by {
            assert(piece.contains(piece[j]));
        }
        lemma_split_append(s, front);
        assert(whole.drop_last() =~= s + seq!['/'] + front);
        assert(front.push(piece.last()) =~= piece);
        let before = split_slash(s).push(front);
        assert(before.drop_last() =~= split_slash(s));
        assert(split_slash(whole) =~= split_slash(s).push(piece));
    }
}

/// Splitting what was joined gives the pieces back, provided there is at
/// least one piece and none of them holds a slash.
pub proof fn lemma_split_join(pieces: Seq<Seq<char>>)
    requires
        pieces.len() >= 1,
        forall|i: int| 0 <= i < pieces.len() ==> !(#[trigger] pieces[i]).contains('/'),
    ensures
        split_slash(join_slash(pieces)) == pieces,
    decreases pieces.len(),
{
    if pieces.len() == 1 {
        lemma_split_single(pieces[0]);
        assert(seq![pieces[0]] =~= pieces);
    } else {
        let front = pieces.drop_last();
        assert forall|i: int| 0 <= i < front.len() implies !(#[trigger] front[i]).contains(
            '/',
        ) by {
            assert(front[i] == pieces[i]);
        }
        lemma_split_join(front);
        lemma_split_append(join_slash(front), pieces.last());
        assert(front.push(pieces.last()) =~= pieces);
    }
}

/// The pieces of a text are the only way to cut it at slashes: whatever
/// pieces without slashes join to the text are the pieces that splitting
/// finds.
pub proof fn lemma_split_is_the_only_cut(s: Seq<char>, pieces: Seq<Seq<char>>)
    requires
        pieces.len() >= 1,
        forall|i: int| 0 <= i < pieces.len() ==> !(#[trigger] pieces[i]).contains('/'),
        join_slash(pieces) == s,
    ensures
        split_slash(s) == pieces,
{
    lemma_split_join(pieces);
}

/// Splits the part of `s` that begins at character `from` at its slashes.
/// `chars` holds the characters of `s`.
pub(crate) fn split_tail(s: &str, chars: &Vec<char>, from: usize) -> (pieces: Vec<String>)
    requires
        chars@ == s@,
        from <= s@.len(),
    ensures
        text_of(pieces@) == split_slash(s@.skip(from as int)),
{
    let n = chars.len();
    let ghost tail = s@.skip(from as int);
    let mut pieces: Vec<String> = Vec::new();
    let mut start: usize = from;
    let mut i: usize = from;
    assert(tail.take(0) =~= Seq::<char>::empty());
    assert(s@.subrange(from as int, from as int) =~= Seq::<char>::empty());
    assert(text_of(pieces@) =~= Seq::<Seq<char>>::empty());
    assert(split_slash(tail.take(0)) =~= text_of(pieces@).push(
        s@.subrange(from as int, from as int),
    ));
    while i < n
        invariant
            chars@ == s@,
            n == chars.len(),
            tail == s@.skip(from as int),
            from <= start <= i <= n,
            split_slash(tail.take(i - from)) == text_of(pieces@).push(
                s@.subrange(start as int, i as int),
            ),
        decreases n - i,
    {
        let ghost before = tail.take(i - from);
        let ghost now = tail.take(i + 1 - from);
        let ghost done = text_of(pieces@);
        let ghost open = s@.subrange(start as int, i as int);
        assert(now.drop_last() =~= before);
        assert(now.last() == s@[i as int]);
        if chars[i] == '/' {
            pieces.push(s.substring_char(start, i).to_owned());
            start = i + 1;
            assert(text_of(pieces@) =~= done.push(open));
            assert(s@.subrange(start as int, i + 1) =~= Seq::<char>::empty());
        } else {
            assert(done.push(open).drop_last() =~= done);
            assert(open.push(s@[i as int]) =~= s@.subrange(start as int, i + 1));
        }
        i += 1;
    }
    let ghost done = text_of(pieces@);
    assert(tail.take(n - from) =~= tail);
    pieces.push(s.substring_char(start, n).to_owned());
    assert(text_of(pieces@) =~= done.push(s@.subrange(start as int, n as int)));
    pieces
}

/// Joins the strings of `pieces` from index `from` on, with one `/` between
/// neighbours.
pub(crate) fn join_tail(pieces: &Vec<String>, from: usize) -> (text: String)
    requires
        from <= pieces.len(),
    ensures
        text@ == join_slash(text_of(pieces@).skip(from as int)),
{
    let n = pieces.len();
    let ghost all = text_of(pieces@);
    let mut text = String::new();
    let mut i: usize = from;
    assert(all.subrange(from as int, from as int) =~= Seq::<Seq<char>>::empty());
    while i < n
        invariant
            n == pieces.len(),
            all == text_of(pieces@),
            from <= i <= n,
            text@ == join_slash(all.subrange(from as int, i as int)),
        decreases n - i,
    {
        let ghost before = all.subrange(from as int, i as int);
        let ghost now = all.subrange(from as int, i + 1);
        assert(now.drop_last() =~= before);
        assert(now.last() == pieces@[i as int]@);
        if i > from {
            proof {
                reveal_strlit("/");
            }
            text.append("/");
            assert("/"@ =~= seq!['/']);
        } else {
            assert(text@ =~= Seq::<char>::empty());
            assert(text@ + pieces@[i as int]@ =~= now[0]);
        }
        text.append(pieces[i].as_str());
        i += 1;
    }
    assert(all.subrange(from as int, n as int) =~= all.skip(from as int));
    text
}

/// Splits `s` at its slashes.
pub fn split_on_slash(s: &str) -> (pieces: Vec<String>)
    ensures
        text_of(pieces@) == split_slash(s@),
{
    let chars = chars_of(s);
    assert(s@.skip(0) =~= s@);
    split_tail(s, &chars, 0)
}

/// Joins `pieces` with one `/` between neighbours.
pub fn join_with_slash(pieces: &Vec<String>) -> (text: String)
    ensures
        text@ == join_slash(text_of(pieces@)),
{
    assert(text_of(pieces@).skip(0) =~= text_of(pieces@));
    join_tail(pieces, 0)
}

} // verus!
