use vstd::prelude::*;

verus! {

/// What a rope holds, as a sequence of characters.
pub uninterp spec fn rope_text(r: ropey::Rope) -> Seq<char>;

/// ropey's `Rope`, held opaque; what it holds is `rope_text`.
#[verifier::external_type_specification]
#[verifier::external_body]
pub struct ExRope(ropey::Rope);

/// Number of line feeds in `s`. Only `'\n'` ends a line here.
pub open spec fn newlines(s: Seq<char>) -> nat
    decreases s.len(),
{
    if s.len() == 0 {
        0
    } else {
        (if s[0] == '\n' { 1nat } else { 0nat }) + newlines(s.drop_first())
    }
}

/// Offset of the first character of line `l`; past the last line, the length of `s`.
pub open spec fn line_start(s: Seq<char>, l: nat) -> nat
    decreases s.len(),
{
    if l == 0 || s.len() == 0 {
        0
    } else if s[0] == '\n' {
        1 + line_start(s.drop_first(), (l - 1) as nat)
    } else {
        1 + line_start(s.drop_first(), l)
    }
}

/// Line that holds offset `p`: the line feeds strictly before `p`.
pub open spec fn line_of(s: Seq<char>, p: nat) -> nat {
    newlines(s.take(p as int))
}

/// Distance of `p` from the start of its line.
pub open spec fn column_of(s: Seq<char>, p: nat) -> int {
    p - line_start(s, line_of(s, p))
}

/// Characters on line `l`, its line feed not counted.
pub open spec fn line_length(s: Seq<char>, l: nat) -> int {
    if l < newlines(s) {
        line_start(s, l + 1) - 1 - line_start(s, l)
    } else {
        s.len() - line_start(s, l)
    }
}

pub proof fn lemma_take_drop_first(s: Seq<char>, p: int)
    requires
        1 <= p <= s.len(),
    ensures
        s.take(p).drop_first() == s.drop_first().take(p - 1),
        s.take(p)[0] == s[0],
{
    assert(s.take(p).drop_first() =~= s.drop_first().take(p - 1));
}

/// A line starts no later than the end of the text.
pub proof fn lemma_line_start_bounded(s: Seq<char>, l: nat)
    ensures
        line_start(s, l) <= s.len(),
    decreases s.len(),
{
    if l != 0 && s.len() != 0 {
        if s[0] == '\n' {
            lemma_line_start_bounded(s.drop_first(), (l - 1) as nat);
        } else {
            lemma_line_start_bounded(s.drop_first(), l);
        }
    }
}

/// Every line but the last is followed by a line feed, so the next one starts later.
pub proof fn lemma_line_start_step(s: Seq<char>, l: nat)
    requires
        l < newlines(s),
    ensures
        line_start(s, l) + 1 <= line_start(s, l + 1),
    decreases s.len(),
{
    let t = s.drop_first();
    if s[0] == '\n' {
        if l > 0 {
            lemma_line_start_step(t, (l - 1) as nat);
        }
    } else {
        if l > 0 {
            lemma_line_start_step(t, l);
        }
    }
}

/// A prefix holds no more line feeds than the whole.
pub proof fn lemma_newlines_prefix(s: Seq<char>, p: nat)
    requires
        p <= s.len(),
    ensures
        newlines(s.take(p as int)) <= newlines(s),
    decreases s.len(),
{
    if p == 0 {
        assert(s.take(0).len() == 0);
    } else {
        lemma_take_drop_first(s, p as int);
        lemma_newlines_prefix(s.drop_first(), (p - 1) as nat);
    }
}

/// The line that holds `p` starts at or before `p`.
pub proof fn lemma_line_of_start(s: Seq<char>, p: nat)
    requires
        p <= s.len(),
    ensures
        line_start(s, line_of(s, p)) <= p,
    decreases s.len(),
{
    if p > 0 {
        let t = s.drop_first();
        lemma_take_drop_first(s, p as int);
        lemma_line_of_start(t, (p - 1) as nat);
    } else {
        assert(s.take(0).len() == 0);
    }
}

/// The whole text ends on its last line.
pub proof fn lemma_newlines_take_all(s: Seq<char>)
    ensures
        line_of(s, s.len()) == newlines(s),
{
    assert(s.take(s.len() as int) =~= s);
}

/// Relies on ropey::Rope::new: an empty rope.
#[verifier::external_body]
pub(crate) fn rope_new() -> (r: ropey::Rope)
    ensures
        rope_text(r) == Seq::<char>::empty(),
{
    ropey::Rope::new()
}

/// Relies on ropey::Rope::from_str: the rope holds the characters of `s`.
#[verifier::external_body]
pub(crate) fn rope_from_str(s: &str) -> (r: ropey::Rope)
    ensures
        rope_text(r) == s@,
{
    ropey::Rope::from_str(s)
}

/// Relies on ropey::Rope::len_chars: the number of characters.
#[verifier::external_body]
pub(crate) fn rope_len_chars(r: &ropey::Rope) -> (n: usize)
    ensures
        n == rope_text(*r).len(),
{
    r.len_chars()
}

/// Relies on ropey::Rope::insert: `text` goes in before character `idx`.
#[verifier::external_body]
pub(crate) fn rope_insert(r: &mut ropey::Rope, idx: usize, text: &str)
    requires
        idx <= rope_text(*old(r)).len(),
    ensures
        rope_text(*final(r)) == rope_text(*old(r)).take(idx as int) + text@ + rope_text(
            *old(r),
        ).skip(idx as int),
{
    r.insert(idx, text)
}

/// Relies on ropey::Rope::insert_char: `c` goes in before character `idx`.
#[verifier::external_body]
pub(crate) fn rope_insert_char(r: &mut ropey::Rope, idx: usize, c: char)
    requires
        idx <= rope_text(*old(r)).len(),
    ensures
        rope_text(*final(r)) == rope_text(*old(r)).insert(idx as int, c),
{
    r.insert_char(idx, c)
}

/// Relies on ropey::Rope::remove: the characters in `start..end` leave.
#[verifier::external_body]
pub(crate) fn rope_remove(r: &mut ropey::Rope, start: usize, end: usize)
    requires
        start <= end <= rope_text(*old(r)).len(),
    ensures
        rope_text(*final(r)) == rope_text(*old(r)).take(start as int) + rope_text(*old(r)).skip(
            end as int,
        ),
{
    r.remove(start..end)
}

/// Relies on ropey::Rope::char_to_line: the line feeds before character `idx`
/// (built without ropey's CR and Unicode line-break features).
#[verifier::external_body]
pub(crate) fn rope_char_to_line(r: &ropey::Rope, idx: usize) -> (l: usize)
    requires
        idx <= rope_text(*r).len(),
    ensures
        l == line_of(rope_text(*r), idx as nat),
{
    r.char_to_line(idx)
}

/// Relies on ropey::Rope::line_to_char: where line `l` starts, or the length
/// for one past the last line.
#[verifier::external_body]
pub(crate) fn rope_line_to_char(r: &ropey::Rope, l: usize) -> (p: usize)
    requires
        l <= newlines(rope_text(*r)) + 1,
    ensures
        p == line_start(rope_text(*r), l as nat),
{
    r.line_to_char(l)
}

/// Relies on ropey::Rope::char: the character at offset `idx`.
#[verifier::external_body]
pub(crate) fn rope_char(r: &ropey::Rope, idx: usize) -> (c: char)
    requires
        idx < rope_text(*r).len(),
    ensures
        c == rope_text(*r)[idx as int],
{
    r.char(idx)
}

/// Relies on `From<&Rope> for String`: the rope's characters as a string.
#[verifier::external_body]
pub(crate) fn rope_to_string(r: &ropey::Rope) -> (s: String)
    ensures
        s@ == rope_text(*r),
{
    String::from(r)
}

} // verus!
