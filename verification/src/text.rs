//! Text as characters: comparing, reading and trimming it.

use vstd::prelude::*;

verus! {

/// Whether two strings hold the same characters.
pub fn same(a: &str, b: &str) -> (r: bool)
    ensures
        r == (a@ == b@),
{
    let x: String = a.to_owned();
    let y: String = b.to_owned();
    x == y
}

/// The characters of a string.
pub fn letters(s: &str) -> (r: Vec<char>)
    ensures
        r@ == s@,
{
    let mut out: Vec<char> = Vec::new();
    for c in it: s.chars()
        invariant
            out@ == s@.take(it.index()),
            it.seq() == s@,
    {
        out.push(c);
    }
    assert(s@.take(s@.len() as int) =~= s@);
    out
}

/// The characters with the Unicode property White_Space.
pub open spec fn white(c: char) -> bool {
    let n = c as u32;
    ||| 0x09 <= n <= 0x0d
    ||| n == 0x20
    ||| n == 0x85
    ||| n == 0xa0
    ||| n == 0x1680
    ||| 0x2000 <= n <= 0x200a
    ||| n == 0x2028
    ||| n == 0x2029
    ||| n == 0x202f
    ||| n == 0x205f
    ||| n == 0x3000
}

pub fn is_white(c: char) -> (r: bool)
    ensures
        r == white(c),
{
    let n: u32 = c as u32;
    (0x09 <= n && n <= 0x0d) || n == 0x20 || n == 0x85 || n == 0xa0 || n == 0x1680 || (0x2000 <= n
        && n <= 0x200a) || n == 0x2028 || n == 0x2029 || n == 0x202f || n == 0x205f || n == 0x3000
}

/// `s` without the white space at its start.
pub open spec fn without_leading_white(s: Seq<char>) -> Seq<char>
    decreases s.len(),
{
    if s.len() > 0 && white(s.first()) {
        without_leading_white(s.drop_first())
    } else {
        s
    }
}

/// `s` without the white space at its end.
pub open spec fn without_trailing_white(s: Seq<char>) -> Seq<char>
    decreases s.len(),
{
    if s.len() > 0 && white(s.last()) {
        without_trailing_white(s.drop_last())
    } else {
        s
    }
}

/// `s` without the white space at either end.
pub open spec fn trimmed(s: Seq<char>) -> Seq<char> {
    without_trailing_white(without_leading_white(s))
}

/// Where the text between the white space at the ends of `s` begins and ends.
pub fn trim(s: &Vec<char>) -> (r: (usize, usize))
    ensures
        r.0 <= r.1 <= s.len(),
        s@.subrange(r.0 as int, r.1 as int) == trimmed(s@),
{
    let mut from: usize = 0;
    assert(s@.skip(0) =~= s@);
    while from < s.len() && is_white(s[from])
        invariant
            from <= s.len(),
            without_leading_white(s@.skip(from as int)) == without_leading_white(s@),
        decreases s.len() - from,
    {
        assert(s@.skip(from as int).drop_first() =~= s@.skip(from + 1));
        from = from + 1;
    }
    let ghost body = s@.skip(from as int);
    let mut to: usize = s.len();
    assert(s@.subrange(from as int, to as int) =~= body);
    while to > from && is_white(s[to - 1])
        invariant
            from <= to <= s.len(),
            without_trailing_white(s@.subrange(from as int, to as int)) == without_trailing_white(
                body,
            ),
        decreases to,
    {
        assert(s@.subrange(from as int, to as int).drop_last() =~= s@.subrange(
            from as int,
            to - 1,
        ));
        to = to - 1;
    }
    (from, to)
}

/// White space before some text goes.
proof fn lemma_leading_white(lead: Seq<char>, body: Seq<char>)
    requires
        forall|i: int| 0 <= i < lead.len() ==> white(#[trigger] lead[i]),
        body.len() > 0 ==> !white(body[0]),
    ensures
        without_leading_white(lead + body) == body,
    decreases lead.len(),
{
    if lead.len() == 0 {
        assert(lead + body =~= body);
    } else {
        assert((lead + body).drop_first() =~= lead.drop_first() + body);
        assert(white((lead + body).first()));
        lemma_leading_white(lead.drop_first(), body);
    }
}

/// White space after some text goes.
proof fn lemma_trailing_white(body: Seq<char>, trail: Seq<char>)
    requires
        forall|i: int| 0 <= i < trail.len() ==> white(#[trigger] trail[i]),
        body.len() > 0 ==> !white(body.last()),
    ensures
        without_trailing_white(body + trail) == body,
    decreases trail.len(),
{
    if trail.len() == 0 {
        assert(body + trail =~= body);
    } else {
        assert((body + trail).drop_last() =~= body + trail.drop_last());
        assert((body + trail).last() == trail.last());
        lemma_trailing_white(body, trail.drop_last());
    }
}

/// Trimming takes off the white space at both ends and nothing else: text
/// that neither begins nor ends with white space comes out as it is, however
/// much of it is around, and nothing is left of white space alone.
pub proof fn law_trimming(lead: Seq<char>, body: Seq<char>, trail: Seq<char>)
    requires
        forall|i: int| 0 <= i < lead.len() ==> white(#[trigger] lead[i]),
        forall|i: int| 0 <= i < trail.len() ==> white(#[trigger] trail[i]),
        body.len() > 0 ==> !white(body[0]) && !white(body.last()),
    ensures
        trimmed(lead + body + trail) == body,
        trimmed(trimmed(lead + body + trail)) == body,
{
    if body.len() > 0 {
        assert(lead + body + trail =~= lead + (body + trail));
        lemma_leading_white(lead, body + trail);
        lemma_trailing_white(body, trail);
    } else {
        let all = lead + body + trail;
        assert(all =~= all + body);
        assert forall|i: int| 0 <= i < all.len() implies white(#[trigger] all[i]) by {}
        lemma_leading_white(all, body);
        assert(body =~= body + Seq::<char>::empty());
        lemma_trailing_white(body, Seq::empty());
    }
    let none = Seq::<char>::empty();
    lemma_leading_white(none, body);
    lemma_trailing_white(body, none);
    assert(none + body =~= body && body + none =~= body);
}

} // verus!
