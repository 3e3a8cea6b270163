//! Text as sequences of characters: splitting, joining, lines and trimming.

use vstd::prelude::*;

verus! {

/// The pieces of `s` between the occurrences of `sep`, in order.
///
/// There is always at least one piece; two neighbouring separators enclose an
/// empty one.
pub open spec fn split_on(s: Seq<char>, sep: char) -> Seq<Seq<char>>
    decreases s.len(),
{
    if s.len() == 0 {
        seq![Seq::<char>::empty()]
    } else {
        let before = split_on(s.drop_last(), sep);
        if s.last() == sep {
            before.push(Seq::<char>::empty())
        } else {
            before.drop_last().push(before.last().push(s.last()))
        }
    }
}

/// The pieces with one `sep` between each two neighbours.
pub open spec fn joined(pieces: Seq<Seq<char>>, sep: char) -> Seq<char>
    decreases pieces.len(),
{
    if pieces.len() == 0 {
        Seq::empty()
    } else if pieces.len() == 1 {
        pieces[0]
    } else {
        joined(pieces.drop_last(), sep).push(sep) + pieces.last()
    }
}

/// A line without the carriage return that ends it, if one does.
pub open spec fn without_carriage_return(line: Seq<char>) -> Seq<char> {
    if line.len() > 0 && line.last() == '\r' {
        line.drop_last()
    } else {
        line
    }
}

/// The lines of `s`. A line ends in `\n` or `\r\n`, which is no part of it; the
/// end of the last line may be left out.
pub open spec fn lines(s: Seq<char>) -> Seq<Seq<char>> {
    let pieces = split_on(s, '\n');
    let ended = pieces.drop_last().map_values(|line: Seq<char>| without_carriage_return(line));
    if pieces.last().len() == 0 {
        ended
    } else {
        ended.push(pieces.last())
    }
}

/// The characters with the Unicode property `White_Space`.
pub open spec fn is_white_space(c: char) -> bool {
    let code = c as u32;
    ||| 0x9 <= code <= 0xd
    ||| code == 0x20
    ||| code == 0x85
    ||| code == 0xa0
    ||| code == 0x1680
    ||| 0x2000 <= code <= 0x200a
    ||| code == 0x2028
    ||| code == 0x2029
    ||| code == 0x202f
    ||| code == 0x205f
    ||| code == 0x3000
}

/// `s` from its first character that is no white space.
pub open spec fn trim_start(s: Seq<char>) -> Seq<char>
    decreases s.len(),
{
    if s.len() > 0 && is_white_space(s.first()) {
        trim_start(s.drop_first())
    } else {
        s
    }
}

/// `s` up to its last character that is no white space.
pub open spec fn trim_end(s: Seq<char>) -> Seq<char>
    decreases s.len(),
{
    if s.len() > 0 && is_white_space(s.last()) {
        trim_end(s.drop_last())
    } else {
        s
    }
}

/// `s` without the white space at both ends.
pub open spec fn trimmed(s: Seq<char>) -> Seq<char> {
    trim_end(trim_start(s))
}

/// `char::is_whitespace` of the standard library is documented to tell whether
/// the character has the Unicode property `White_Space`. The contract lists the
/// characters that have it.
pub assume_specification [char::is_whitespace](c: char) -> (b: bool)
    ensures
        b == is_white_space(c),
;

/// `String::push` of the standard library appends one character to the string.
pub assume_specification [String::push](s: &mut String, c: char)
    ensures
        final(s)@ == old(s)@.push(c),
;

/// Splits `s` at every `sep`.
pub fn split(s: &str, sep: char) -> (pieces: Vec<String>)
    ensures
        pieces.deep_view() == split_on(s@, sep),
        pieces@.len() > 0,
        forall|i: int| 0 <= i < pieces@.len() ==> !(#[trigger] pieces@[i])@.contains(sep),
        pieces.deep_view().map_values(|piece: Seq<char>| piece.push(sep)).flatten() == s@.push(sep),
{
    let mut done: Vec<String> = Vec::new();
    let mut current = String::new();
    assert(s@.take(0) =~= Seq::<char>::empty());
    assert(done.deep_view().push(current@) =~= split_on(s@.take(0), sep));
    for c in it: s.chars()
        invariant
            it.seq() == s@,
            done.deep_view().push(current@) =~= split_on(s@.take(it.index() as int), sep),
    {
        proof {
            let i = it.index() as int;
            assert(s@.take(i + 1).drop_last() =~= s@.take(i));
            assert(s@.take(i + 1).last() == c);
            assert(split_on(s@.take(i), sep).drop_last() =~= done.deep_view());
        }
        let ghost seen = done.deep_view();
        if c == sep {
            let ghost piece = current@;
            done.push(current);
            assert(done.deep_view() =~= seen.push(piece));
            current = String::new();
        } else {
            current.push(c);
        }
    }
    assert(s@.take(s@.len() as int) =~= s@);
    let ghost seen = done.deep_view();
    let ghost piece = current@;
    done.push(current);
    assert(done.deep_view() =~= seen.push(piece));
    proof {
        split_has_a_piece(s@, sep);
        split_pieces_lack_separator(s@, sep);
        split_pieces_make_the_text(s@, sep);
        assert forall|i: int| 0 <= i < done@.len() implies !(#[trigger] done@[i])@.contains(sep) by {
            assert(done@[i]@ == split_on(s@, sep)[i]);
        }
    }
    done
}

/// The characters of `s`.
fn characters(s: &str) -> (chars: Vec<char>)
    ensures
        chars@ == s@,
{
    let mut chars: Vec<char> = Vec::new();
    for c in it: s.chars()
        invariant
            it.seq() == s@,
            chars@ =~= s@.take(it.index() as int),
    {
        chars.push(c);
    }
    chars
}

/// Takes the white space off both ends of `s`.
pub fn trim(s: &str) -> (t: String)
    ensures
        t@ == trimmed(s@),
        t@.len() > 0 ==> !is_white_space(t@.first()) && !is_white_space(t@.last()),
        exists|from: int, to: int|
            {
                &&& 0 <= from <= to <= s@.len()
                &&& t@ == #[trigger] s@.subrange(from, to)
                &&& forall|k: int| 0 <= k < from ==> is_white_space(#[trigger] s@[k])
                &&& forall|k: int| to <= k < s@.len() ==> is_white_space(#[trigger] s@[k])
            },
{
    let chars = characters(s);
    let mut from: usize = 0;
    let mut to: usize = chars.len();
    assert(s@.skip(0) =~= s@);
    while from < to && chars[from].is_whitespace()
        invariant
            chars@ == s@,
            to == s@.len(),
            from <= to,
            trim_start(s@) == trim_start(s@.skip(from as int)),
        ensures
            from <= to,
            trim_start(s@) == s@.skip(from as int),
        decreases to - from,
    {
        assert(s@.skip(from as int).drop_first() =~= s@.skip(from + 1));
        from = from + 1;
    }
    assert(s@.skip(from as int) =~= s@.subrange(from as int, to as int));
    while from < to && chars[to - 1].is_whitespace()
        invariant
            chars@ == s@,
            from <= to <= s@.len(),
            trimmed(s@) == trim_end(s@.subrange(from as int, to as int)),
        ensures
            from <= to <= s@.len(),
            trimmed(s@) == s@.subrange(from as int, to as int),
        decreases to,
    {
        assert(s@.subrange(from as int, to as int).drop_last() =~= s@.subrange(
            from as int,
            to - 1,
        ));
        to = to - 1;
    }
    let mut t = String::new();
    let mut next: usize = from;
    while next < to
        invariant
            chars@ == s@,
            from <= next <= to <= s@.len(),
            t@ =~= s@.subrange(from as int, next as int),
        decreases to - next,
    {
        t.push(chars[next]);
        next = next + 1;
    }
    proof {
        trimmed_ends(s@);
        let (a, b) = trimmed_takes_off_white_space(s@);
        assert(t@ == s@.subrange(a, b));
    }
    t
}

/// Even an empty text has a piece.
pub proof fn split_has_a_piece(s: Seq<char>, sep: char)
    ensures
        split_on(s, sep).len() > 0,
    decreases s.len(),
{
    if s.len() > 0 {
        split_has_a_piece(s.drop_last(), sep);
    }
}

/// Putting the pieces of a text together again gives the text.
pub proof fn joined_split(s: Seq<char>, sep: char)
    ensures
        joined(split_on(s, sep), sep) == s,
    decreases s.len(),
{
    if s.len() > 0 {
        let rest = s.drop_last();
        let before = split_on(rest, sep);
        let pieces = split_on(s, sep);
        split_has_a_piece(rest, sep);
        joined_split(rest, sep);
        assert(rest.push(s.last()) =~= s);
        if s.last() == sep {
            assert(pieces.drop_last() =~= before);
            assert(joined(pieces, sep) =~= s);
        } else {
            assert(pieces.drop_last() =~= before.drop_last());
            assert(pieces.last() == before.last().push(s.last()));
            assert(joined(pieces, sep) =~= joined(before, sep).push(s.last()));
        }
    } else {
        assert(s =~= Seq::<char>::empty());
    }
}

/// No piece of a split text holds the separator.
pub proof fn split_pieces_lack_separator(s: Seq<char>, sep: char)
    ensures
        forall|i: int| 0 <= i < split_on(s, sep).len() ==> !(#[trigger] split_on(s, sep)[i]).contains(sep),
    decreases s.len(),
{
    if s.len() > 0 {
        let before = split_on(s.drop_last(), sep);
        split_has_a_piece(s.drop_last(), sep);
        split_pieces_lack_separator(s.drop_last(), sep);
        assert forall|i: int| 0 <= i < split_on(s, sep).len() implies !(#[trigger] split_on(
            s,
            sep,
        )[i]).contains(sep) by {
            if s.last() != sep && i == before.len() - 1 {
                let grown = before.last().push(s.last());
                assert(!before[i].contains(sep));
                assert forall|k: int| 0 <= k < grown.len() implies grown[k] != sep by {
                    if k < before.last().len() {
                        assert(before.last()[k] == grown[k]);
                    }
                }
            } else if i < before.len() {
                assert(split_on(s, sep)[i] == before[i]);
            }
        }
    }
}

/// A text without the separator is its own only piece.
pub proof fn split_of_one_piece(s: Seq<char>, sep: char)
    requires
        !s.contains(sep),
    ensures
        split_on(s, sep) == seq![s],
    decreases s.len(),
{
    if s.len() > 0 {
        assert(s.last() == s[s.len() - 1]);
        assert(!s.drop_last().contains(sep));
        split_of_one_piece(s.drop_last(), sep);
        assert(s.drop_last().push(s.last()) =~= s);
        assert(split_on(s, sep) =~= seq![s]);
    } else {
        assert(s =~= Seq::<char>::empty());
    }
}

/// A separator between two texts parts their pieces.
pub proof fn split_at_separator(a: Seq<char>, sep: char, b: Seq<char>)
    ensures
        split_on(a.push(sep) + b, sep) == split_on(a, sep) + split_on(b, sep),
    decreases b.len(),
{
    let s = a.push(sep) + b;
    if b.len() == 0 {
        assert(s =~= a.push(sep));
        assert(s.drop_last() =~= a);
        assert(split_on(s, sep) =~= split_on(a, sep) + split_on(b, sep));
    } else {
        assert(s.drop_last() =~= a.push(sep) + b.drop_last());
        assert(s.last() == b.last());
        split_at_separator(a, sep, b.drop_last());
        split_has_a_piece(b.drop_last(), sep);
        assert(split_on(s, sep) =~= split_on(a, sep) + split_on(b, sep));
    }
}

/// Splitting takes apart what joining put together, if no piece holds the separator.
pub proof fn split_joined(pieces: Seq<Seq<char>>, sep: char)
    requires
        pieces.len() > 0,
        forall|i: int| 0 <= i < pieces.len() ==> !(#[trigger] pieces[i]).contains(sep),
    ensures
        split_on(joined(pieces, sep), sep) == pieces,
    decreases pieces.len(),
{
    if pieces.len() == 1 {
        split_of_one_piece(pieces[0], sep);
        assert(pieces =~= seq![pieces[0]]);
    } else {
        split_joined(pieces.drop_last(), sep);
        split_of_one_piece(pieces.last(), sep);
        split_at_separator(joined(pieces.drop_last(), sep), sep, pieces.last());
        assert(pieces =~= pieces.drop_last() + seq![pieces.last()]);
    }
}

/// A text has more than one piece exactly where it holds the separator.
pub proof fn split_len(s: Seq<char>, sep: char)
    ensures
        split_on(s, sep).len() >= 2 <==> s.contains(sep),
{
    split_has_a_piece(s, sep);
    if s.contains(sep) {
        joined_split(s, sep);
        if split_on(s, sep).len() == 1 {
            split_pieces_lack_separator(s, sep);
            assert(split_on(s, sep)[0] == s);
        }
    } else {
        split_of_one_piece(s, sep);
    }
}

/// White space at neither end is left after trimming.
pub proof fn trimmed_ends(s: Seq<char>)
    ensures
        trimmed(s).len() > 0 ==> !is_white_space(trimmed(s).first()) && !is_white_space(
            trimmed(s).last(),
        ),
{
    trim_start_first(s);
    trim_end_last(trim_start(s));
}

proof fn trim_start_first(s: Seq<char>)
    ensures
        trim_start(s).len() > 0 ==> !is_white_space(trim_start(s).first()),
    decreases s.len(),
{
    if s.len() > 0 && is_white_space(s.first()) {
        trim_start_first(s.drop_first());
    }
}

proof fn trim_end_last(s: Seq<char>)
    ensures
        trim_end(s).len() > 0 ==> !is_white_space(trim_end(s).last()),
        trim_end(s).len() > 0 ==> trim_end(s).first() == s.first(),
    decreases s.len(),
{
    if s.len() > 0 && is_white_space(s.last()) {
        trim_end_last(s.drop_last());
    }
}

/// What is left after trimming is a stretch of the text.
pub proof fn trimmed_is_stretch(s: Seq<char>)
    ensures
        exists|from: int, to: int|
            0 <= from <= to <= s.len() && trimmed(s) == #[trigger] s.subrange(from, to),
{
    let from = trim_start_is_stretch(s);
    let start = trim_start(s);
    let len = trim_end_is_stretch(start);
    assert(trimmed(s) =~= s.subrange(from, from + len));
}

proof fn trim_start_is_stretch(s: Seq<char>) -> (from: int)
    ensures
        0 <= from <= s.len(),
        trim_start(s) == s.skip(from),
        forall|k: int| 0 <= k < from ==> is_white_space(#[trigger] s[k]),
    decreases s.len(),
{
    if s.len() > 0 && is_white_space(s.first()) {
        let from = trim_start_is_stretch(s.drop_first());
        assert(s.drop_first().skip(from) =~= s.skip(from + 1));
        assert forall|k: int| 0 <= k < from + 1 implies is_white_space(#[trigger] s[k]) by {
            if k > 0 {
                assert(s.drop_first()[k - 1] == s[k]);
            }
        }
        from + 1
    } else {
        assert(s.skip(0) =~= s);
        0
    }
}

proof fn trim_end_is_stretch(s: Seq<char>) -> (to: int)
    ensures
        0 <= to <= s.len(),
        trim_end(s) == s.take(to),
        forall|k: int| to <= k < s.len() ==> is_white_space(#[trigger] s[k]),
    decreases s.len(),
{
    if s.len() > 0 && is_white_space(s.last()) {
        let to = trim_end_is_stretch(s.drop_last());
        assert(s.drop_last().take(to) =~= s.take(to));
        assert forall|k: int| to <= k < s.len() implies is_white_space(#[trigger] s[k]) by {
            if k < s.len() - 1 {
                assert(s.drop_last()[k] == s[k]);
            }
        }
        to
    } else {
        assert(s.take(s.len() as int) =~= s);
        s.len() as int
    }
}

/// White space behind a text is taken off with the rest.
pub proof fn trimmed_push_white_space(s: Seq<char>, c: char)
    requires
        is_white_space(c),
    ensures
        trimmed(s.push(c)) == trimmed(s),
{
    trim_start_push(s, c);
    let start = trim_start(s);
    if start.len() > 0 {
        assert(start.push(c).drop_last() =~= start);
    } else {
        assert(start =~= Seq::<char>::empty());
    }
}

proof fn trim_start_push(s: Seq<char>, c: char)
    requires
        is_white_space(c),
    ensures
        trim_start(s).len() > 0 ==> trim_start(s.push(c)) == trim_start(s).push(c),
        trim_start(s).len() == 0 ==> trim_start(s.push(c)) == Seq::<char>::empty(),
    decreases s.len(),
{
    if s.len() == 0 {
        let rest = s.push(c).drop_first();
        assert(rest =~= Seq::<char>::empty());
        assert(trim_start(rest) == rest);
    } else if is_white_space(s.first()) {
        trim_start_push(s.drop_first(), c);
        assert(s.push(c).drop_first() =~= s.drop_first().push(c));
    }
}

/// Trimming takes off white space and nothing else: a text is white space, then its
/// trimmed text, which stands from `from` to `to`, then white space.
pub proof fn trimmed_takes_off_white_space(s: Seq<char>) -> (stretch: (int, int))
    ensures
        0 <= stretch.0 <= stretch.1 <= s.len(),
        trimmed(s) == s.subrange(stretch.0, stretch.1),
        forall|k: int| 0 <= k < stretch.0 ==> is_white_space(#[trigger] s[k]),
        forall|k: int| stretch.1 <= k < s.len() ==> is_white_space(#[trigger] s[k]),
{
    let from = trim_start_is_stretch(s);
    let start = trim_start(s);
    let len = trim_end_is_stretch(start);
    assert(trimmed(s) =~= s.subrange(from, from + len));
    assert forall|k: int| from + len <= k < s.len() implies is_white_space(#[trigger] s[k]) by {
        assert(start[k - from] == s[k]);
    }
    (from, from + len)
}

/// A text that begins and ends in other characters than white space, with white space
/// around it, is what trimming leaves.
pub proof fn trimmed_leaves_what_is_between(s: Seq<char>, from: int, to: int)
    requires
        0 <= from < to <= s.len(),
        forall|k: int| 0 <= k < from ==> is_white_space(#[trigger] s[k]),
        forall|k: int| to <= k < s.len() ==> is_white_space(#[trigger] s[k]),
        !is_white_space(s[from]),
        !is_white_space(s[to - 1]),
    ensures
        trimmed(s) == s.subrange(from, to),
{
    let (a, b) = trimmed_takes_off_white_space(s);
    trimmed_ends(s);
    assert(a <= from && to <= b);
    assert(trimmed(s).first() == s[a] && trimmed(s).last() == s[b - 1]);
}

/// White space alone leaves nothing.
pub proof fn trimmed_white_space(s: Seq<char>)
    requires
        forall|k: int| 0 <= k < s.len() ==> is_white_space(#[trigger] s[k]),
    ensures
        trimmed(s) == Seq::<char>::empty(),
{
    let (a, b) = trimmed_takes_off_white_space(s);
    trimmed_ends(s);
    if a < b {
        assert(trimmed(s).first() == s[a]);
    }
    assert(trimmed(s) =~= Seq::<char>::empty());
}

/// A text with other characters than white space at both ends is its own trimmed text.
pub proof fn trimmed_keeps_clean_text(s: Seq<char>)
    requires
        s.len() > 0 ==> !is_white_space(s.first()) && !is_white_space(s.last()),
    ensures
        trimmed(s) == s,
{
    if s.len() > 0 {
        trimmed_leaves_what_is_between(s, 0, s.len() as int);
    } else {
        trimmed_white_space(s);
    }
    assert(trimmed(s) =~= s);
}

/// Joining writes the pieces one behind the other, each but the last with a separator
/// behind it; with one behind the last too, all pieces are alike.
pub proof fn joined_is_pieces_in_order(pieces: Seq<Seq<char>>, sep: char)
    ensures
        pieces.len() > 0 ==> joined(pieces, sep).push(sep) == pieces.map_values(
            |piece: Seq<char>| piece.push(sep),
        ).flatten(),
        pieces.len() == 0 ==> joined(pieces, sep) == Seq::<char>::empty(),
    decreases pieces.len(),
{
    let ended = |piece: Seq<char>| piece.push(sep);
    if pieces.len() > 0 {
        let front = pieces.drop_last();
        let last = pieces.last();
        assert(pieces.map_values(ended) =~= front.map_values(ended).push(last.push(sep)));
        front.map_values(ended).lemma_flatten_push(last.push(sep));
        joined_is_pieces_in_order(front, sep);
        if front.len() == 0 {
            assert(front.map_values(ended).flatten() =~= Seq::<char>::empty());
            assert(pieces.map_values(ended).flatten() =~= last.push(sep));
        } else {
            assert(pieces.map_values(ended).flatten() =~= joined(pieces, sep).push(sep));
        }
    }
}

/// The pieces of a split text, each with a separator behind it, are the text with a
/// separator behind it.
pub proof fn split_pieces_make_the_text(s: Seq<char>, sep: char)
    ensures
        split_on(s, sep).map_values(|piece: Seq<char>| piece.push(sep)).flatten() == s.push(sep),
{
    split_has_a_piece(s, sep);
    joined_split(s, sep);
    joined_is_pieces_in_order(split_on(s, sep), sep);
}

/// A line that ends in a line feed is the first of the lines, whatever follows.
pub proof fn lines_at_line_feed(line: Seq<char>, rest: Seq<char>)
    requires
        !line.contains('\n'),
        line.len() > 0 ==> line.last() != '\r',
    ensures
        lines(line.push('\n') + rest) == seq![line] + lines(rest),
{
    lines_at_first_end(line, rest);
}

/// A carriage return before the line feed is no part of the line.
pub proof fn lines_at_carriage_return(line: Seq<char>, rest: Seq<char>)
    requires
        !line.contains('\n'),
    ensures
        lines(line.push('\r').push('\n') + rest) == seq![line] + lines(rest),
{
    let long = line.push('\r');
    assert forall|k: int| 0 <= k < long.len() implies long[k] != '\n' by {
        if k < line.len() {
            assert(line[k] == long[k]);
        }
    }
    lines_at_first_end(long, rest);
    assert(long.drop_last() =~= line);
}

/// What follows the last line feed is a line unless it is empty.
pub proof fn lines_at_end(line: Seq<char>)
    requires
        !line.contains('\n'),
    ensures
        line.len() > 0 ==> lines(line) == seq![line],
        line.len() == 0 ==> lines(line) == Seq::<Seq<char>>::empty(),
{
    split_of_one_piece(line, '\n');
    let none = Seq::<Seq<char>>::empty();
    assert(seq![line].drop_last() =~= none);
    assert(none.map_values(|line: Seq<char>| without_carriage_return(line)) =~= none);
    assert(none.push(line) =~= seq![line]);
}

proof fn lines_at_first_end(line: Seq<char>, rest: Seq<char>)
    requires
        !line.contains('\n'),
    ensures
        lines(line.push('\n') + rest) == seq![without_carriage_return(line)] + lines(rest),
{
    let bare = |line: Seq<char>| without_carriage_return(line);
    split_at_separator(line, '\n', rest);
    split_of_one_piece(line, '\n');
    split_has_a_piece(rest, '\n');
    let pieces = split_on(rest, '\n');
    let all = seq![line] + pieces;
    assert(all.drop_last() =~= seq![line] + pieces.drop_last());
    assert(all.drop_last().map_values(bare) =~= seq![bare(line)] + pieces.drop_last().map_values(
        bare,
    ));
    assert(lines(line.push('\n') + rest) =~= seq![bare(line)] + lines(rest));
}

} // verus!
