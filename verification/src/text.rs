//! Text helpers shared by the scanner and the template interpreter: decimal
//! numerals, quote trimming, and module paths written with `::`.

use vstd::prelude::*;

verus! {

/// The character that writes the digit `d`.
pub open spec fn digit_char(d: nat) -> char {
    if d == 0 {
        '0'
    } else if d == 1 {
        '1'
    } else if d == 2 {
        '2'
    } else if d == 3 {
        '3'
    } else if d == 4 {
        '4'
    } else if d == 5 {
        '5'
    } else if d == 6 {
        '6'
    } else if d == 7 {
        '7'
    } else if d == 8 {
        '8'
    } else {
        '9'
    }
}

/// The decimal numeral of `n`, without sign, separators or leading zeros.
pub open spec fn decimal(n: nat) -> Seq<char>
    decreases n,
{
    if n < 10 {
        seq![digit_char(n)]
    } else {
        decimal(n / 10).push(digit_char(n % 10))
    }
}

/// The digit `d` as text.
fn digit_str(d: usize) -> (text: &'static str)
    requires
        d < 10,
    ensures
        text@ == seq![digit_char(d as nat)],
{
    proof {
        reveal_strlit("0");
        reveal_strlit("1");
        reveal_strlit("2");
        reveal_strlit("3");
        reveal_strlit("4");
        reveal_strlit("5");
        reveal_strlit("6");
        reveal_strlit("7");
        reveal_strlit("8");
        reveal_strlit("9");
    }
    let text = if d == 0 {
        "0"
    } else if d == 1 {
        "1"
    } else if d == 2 {
        "2"
    } else if d == 3 {
        "3"
    } else if d == 4 {
        "4"
    } else if d == 5 {
        "5"
    } else if d == 6 {
        "6"
    } else if d == 7 {
        "7"
    } else if d == 8 {
        "8"
    } else {
        "9"
    };
    assert(text@ =~= seq![digit_char(d as nat)]);
    text
}

/// Writes `n` as a decimal numeral.
pub fn decimal_text(n: usize) -> (text: String)
    ensures
        text@ == decimal(n as nat),
    decreases n,
{
    if n < 10 {
        digit_str(n).to_owned()
    } else {
        let mut text = decimal_text(n / 10);
        text.append(digit_str(n % 10));
        assert(text@ =~= decimal((n / 10) as nat).push(digit_char((n % 10) as nat)));
        text
    }
}

/// The characters of `text`, in order.
pub fn chars_of(text: &str) -> (chars: Vec<char>)
    ensures
        chars@ == text@,
{
    let mut chars: Vec<char> = Vec::new();
    for ch in it: text.chars()
        invariant
            it.seq() == text@,
            chars@ == it.seq().take(it.index() as int),
    {
        chars.push(ch);
        assert(it.seq().take(it.index() + 1) =~= it.seq().take(it.index() as int).push(ch));
    }
    assert(text@.take(text@.len() as int) =~= text@);
    chars
}

/// Whether two texts hold the same characters.
pub fn same_text(a: &str, b: &str) -> (same: bool)
    ensures
        same == (a@ == b@),
{
    a.to_owned() == b.to_owned()
}

/// Taken on trust from the documentation of `String::push` in the standard
/// library: the call appends the given character to the end of the string
/// and changes nothing else of it.
pub assume_specification[ String::push ](text: &mut String, ch: char)
    ensures
        final(text)@ == old(text)@.push(ch),
;

/// The views of a sequence of strings, in order.
pub open spec fn strings_view(strings: Seq<String>) -> Seq<Seq<char>> {
    Seq::new(strings.len(), |i: int| strings[i]@)
}

/// `s` without the double quotes it begins with.
pub open spec fn trim_start_quotes(s: Seq<char>) -> Seq<char>
    decreases s.len(),
{
    if s.len() > 0 && s.first() == '"' {
        trim_start_quotes(s.drop_first())
    } else {
        s
    }
}

/// `s` without the double quotes it ends with.
pub open spec fn trim_end_quotes(s: Seq<char>) -> Seq<char>
    decreases s.len(),
{
    if s.len() > 0 && s.last() == '"' {
        trim_end_quotes(s.drop_last())
    } else {
        s
    }
}

/// `s` without the double quotes around it, however many there are.
pub open spec fn trim_quotes(s: Seq<char>) -> Seq<char> {
    trim_end_quotes(trim_start_quotes(s))
}

/// Strips every double quote from both ends of `text`.
pub fn trim_quotes_text(text: &str) -> (trimmed: &str)
    ensures
        trimmed@ == trim_quotes(text@),
{
    let chars = chars_of(text);
    let n = chars.len();
    let mut start: usize = 0;
    assert(text@.subrange(0, n as int) =~= text@);
    while start < n && chars[start] == '"'
        invariant
            start <= n,
            chars@ == text@,
            n == text@.len(),
            trim_start_quotes(text@) == trim_start_quotes(text@.subrange(start as int, n as int)),
        decreases n - start,
    {
        assert(text@.subrange(start as int, n as int).drop_first() =~= text@.subrange(
            start + 1,
            n as int,
        ));
        start += 1;
    }
    let mut end: usize = n;
    while end > start && chars[end - 1] == '"'
        invariant
            start <= end <= n,
            chars@ == text@,
            n == text@.len(),
            trim_end_quotes(text@.subrange(start as int, n as int)) == trim_end_quotes(
                text@.subrange(start as int, end as int),
            ),
        decreases end,
    {
        assert(text@.subrange(start as int, end as int).drop_last() =~= text@.subrange(
            start as int,
            end - 1,
        ));
        end -= 1;
    }
    text.substring_char(start, end)
}

/// Whether the module separator `::` stands at position `i` of `s`.
pub open spec fn separator_at(s: Seq<char>, i: int) -> bool {
    0 <= i && i + 1 < s.len() && s[i] == ':' && s[i + 1] == ':'
}

/// The position of the first `::` in `s` at or after `from`, or the length of
/// `s` where there is none.
pub open spec fn next_separator(s: Seq<char>, from: int) -> int
    decreases s.len() - from,
{
    if from < 0 || from + 1 >= s.len() {
        s.len() as int
    } else if separator_at(s, from) {
        from
    } else {
        next_separator(s, from + 1)
    }
}

/// The segments of `s` between its `::` separators, found from the left. A
/// text without separator is its own single segment.
pub open spec fn split_path(s: Seq<char>) -> Seq<Seq<char>>
    decreases s.len(),
{
    let at = next_separator(s, 0);
    if 0 <= at && at + 2 <= s.len() {
        seq![s.subrange(0, at)] + split_path(s.subrange(at + 2, s.len() as int))
    } else {
        seq![s]
    }
}

/// The segments joined by `::`.
pub open spec fn join_path(segments: Seq<Seq<char>>) -> Seq<char>
    decreases segments.len(),
{
    if segments.len() == 0 {
        Seq::empty()
    } else if segments.len() == 1 {
        segments[0]
    } else {
        join_path(segments.drop_last()) + seq![':', ':'] + segments.last()
    }
}

/// The first separator found is a separator, and none stands before it.
proof fn lemma_next_separator(s: Seq<char>, from: int)
    requires
        0 <= from,
    ensures
        from <= next_separator(s, from) || next_separator(s, from) == s.len(),
        next_separator(s, from) + 2 <= s.len() ==> separator_at(s, next_separator(s, from)),
    decreases s.len() - from,
{
    if from + 1 < s.len() && !separator_at(s, from) {
        lemma_next_separator(s, from + 1);
    }
}

/// A segment in front of others is joined to them by a separator.
proof fn lemma_join_first(first: Seq<char>, rest: Seq<Seq<char>>)
    requires
        rest.len() > 0,
    ensures
        join_path(seq![first] + rest) == first + seq![':', ':'] + join_path(rest),
    decreases rest.len(),
{
    let all = seq![first] + rest;
    assert(all.drop_last() =~= seq![first] + rest.drop_last());
    assert(all.last() == rest.last());
    if rest.len() == 1 {
        assert(all.drop_last() =~= seq![first]);
        assert(join_path(all.drop_last()) == first);
        assert(join_path(rest) == rest.last());
    } else {
        lemma_join_first(first, rest.drop_last());
        assert((first + seq![':', ':'] + join_path(rest.drop_last())) + seq![':', ':']
            + rest.last() =~= first + seq![':', ':'] + (join_path(rest.drop_last()) + seq![
            ':',
            ':',
        ] + rest.last()));
    }
}

/// A text is split into at least one segment.
pub proof fn lemma_split_is_not_empty(s: Seq<char>)
    ensures
        split_path(s).len() > 0,
{
}

/// The segments of a text, joined again, are the text.
pub proof fn lemma_split_then_join(s: Seq<char>)
    ensures
        join_path(split_path(s)) == s,
    decreases s.len(),
{
    let at = next_separator(s, 0);
    lemma_next_separator(s, 0);
    if 0 <= at && at + 2 <= s.len() {
        let rest = s.subrange(at + 2, s.len() as int);
        lemma_split_then_join(rest);
        lemma_split_is_not_empty(rest);
        lemma_join_first(s.subrange(0, at), split_path(rest));
        assert(s.subrange(0, at) + seq![':', ':'] + rest =~= s);
    }
}

/// Splits `text` at each `::`.
pub fn split_path_text(text: &str) -> (segments: Vec<String>)
    ensures
        strings_view(segments@) == split_path(text@),
{
    let chars = chars_of(text);
    let n = chars.len();
    let mut segments: Vec<String> = Vec::new();
    let mut start: usize = 0;
    let mut i: usize = 0;
    assert(text@.subrange(0, n as int) =~= text@);
    assert(strings_view(segments@) + split_path(text@) =~= split_path(text@));
    while i < n
        invariant
            start <= i <= n,
            chars@ == text@,
            n == text@.len(),
            split_path(text@) == strings_view(segments@) + split_path(
                text@.subrange(start as int, n as int),
            ),
            next_separator(text@.subrange(start as int, n as int), 0) == next_separator(
                text@.subrange(start as int, n as int),
                i - start,
            ),
        decreases n - i,
    {
        let ghost rest = text@.subrange(start as int, n as int);
        if i + 1 < n && chars[i] == ':' && chars[i + 1] == ':' {
            let segment = text.substring_char(start, i).to_owned();
            proof {
                assert(separator_at(rest, i - start));
                assert(rest.subrange(0, i - start) =~= text@.subrange(start as int, i as int));
                assert(rest.subrange(i - start + 2, rest.len() as int) =~= text@.subrange(
                    i + 2,
                    n as int,
                ));
                assert(strings_view(segments@.push(segment)) =~= strings_view(segments@) + seq![
                    segment@,
                ]);
            }
            segments.push(segment);
            start = i + 2;
            i = start;
        } else {
            i += 1;
        }
    }
    let last = text.substring_char(start, n).to_owned();
    proof {
        let rest = text@.subrange(start as int, n as int);
        assert(next_separator(rest, 0) == rest.len());
        assert(strings_view(segments@.push(last)) =~= strings_view(segments@) + seq![last@]);
    }
    segments.push(last);
    segments
}

/// Joins `segments` with `::`.
pub fn join_path_text(segments: &Vec<String>) -> (text: String)
    ensures
        text@ == join_path(strings_view(segments@)),
{
    let ghost views = strings_view(segments@);
    let mut text = String::new();
    let mut i: usize = 0;
    while i < segments.len()
        invariant
            i <= segments.len(),
            views == strings_view(segments@),
            text@ == join_path(views.take(i as int)),
        decreases segments.len() - i,
    {
        proof {
            reveal_strlit("::");
            assert(views.take(i + 1).drop_last() =~= views.take(i as int));
            assert("::"@ =~= seq![':', ':']);
        }
        if i > 0 {
            text.append("::");
        }
        text.append(segments[i].as_str());
        i += 1;
    }
    proof {
        assert(views.take(segments.len() as int) =~= views);
    }
    text
}

} // verus!
