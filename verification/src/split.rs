//! Splitting a status record on single space characters, exactly as the
//! record format demands: one token per stretch between spaces, with an
//! empty token between adjacent spaces and at either end; the empty input
//! consists of one empty token.

use vstd::prelude::*;

verus! {

/// The tokens of `s` under a strict single-space split.
pub open spec fn split_tokens(s: Seq<char>) -> Seq<Seq<char>>
    decreases s.len(),
{
    if s.len() == 0 {
        seq![Seq::<char>::empty()]
    } else if s[0] == ' ' {
        seq![Seq::<char>::empty()] + split_tokens(s.skip(1))
    } else {
        let rest = split_tokens(s.skip(1));
        seq![seq![s[0]] + rest[0]] + rest.skip(1)
    }
}

pub proof fn lemma_split_nonempty(s: Seq<char>)
    ensures
        split_tokens(s).len() >= 1,
    decreases s.len(),
{
    if s.len() == 0 {
    } else if s[0] == ' ' {
    } else {
        lemma_split_nonempty(s.skip(1));
    }
}

/// A string without a space is a single token.
pub proof fn lemma_split_no_space(s: Seq<char>)
    requires
        forall|i: int| 0 <= i < s.len() ==> s[i] != ' ',
    ensures
        split_tokens(s) =~~= seq![s],
    decreases s.len(),
{
    if s.len() == 0 {
        assert(Seq::<char>::empty() =~= s);
    } else {
        lemma_split_no_space(s.skip(1));
        assert(seq![s[0]] + s.skip(1) =~= s);
    }
}

/// A string whose first space stands at `i` has the prefix before `i` as
/// its first token, and the split of what follows the space as the rest.
pub proof fn lemma_split_first_space(s: Seq<char>, i: int)
    requires
        0 <= i < s.len(),
        s[i] == ' ',
        forall|j: int| 0 <= j < i ==> s[j] != ' ',
    ensures
        split_tokens(s) =~~= seq![s.take(i)] + split_tokens(s.skip(i + 1)),
    decreases i,
{
    if i == 0 {
        assert(s.take(0) =~= Seq::<char>::empty());
    } else {
        let t = s.skip(1);
        assert(t[i - 1] == ' ');
        assert(forall|j: int| 0 <= j < i - 1 ==> t[j] != ' ');
        lemma_split_first_space(t, i - 1);
        assert(t.skip(i) =~= s.skip(i + 1));
        assert(seq![s[0]] + t.take(i - 1) =~= s.take(i));
        let rest = split_tokens(t);
        assert(rest =~~= seq![t.take(i - 1)] + split_tokens(t.skip(i)));
        assert(rest.skip(1) =~~= split_tokens(s.skip(i + 1)));
    }
}

/// Walks the tokens of one record from left to right, keeping count of how
/// many have been handed out.
pub struct Cursor<'a> {
    line: &'a str,
    len: usize,
    pos: usize,
    exhausted: bool,
    idx: u32,
}

impl<'a> Cursor<'a> {
    /// The tokens of the underlying record.
    pub closed spec fn toks(self) -> Seq<Seq<char>> {
        split_tokens(self.line@)
    }

    /// How many tokens have been handed out so far.
    pub closed spec fn taken(self) -> int {
        self.idx as int
    }

    pub closed spec fn wf(self) -> bool {
        &&& self.len == self.line@.len()
        &&& self.idx as int <= self.toks().len()
        &&& if self.exhausted {
            self.idx as int == self.toks().len()
        } else {
            self.pos <= self.len
                && split_tokens(self.line@.skip(self.pos as int)) == self.toks().skip(
                self.idx as int,
            )
        }
    }

    pub fn new(line: &'a str) -> (c: Cursor<'a>)
        ensures
            c.wf(),
            c.taken() == 0,
            c.toks() == split_tokens(line@),
    {
        let n = line.unicode_len();
        proof {
            lemma_split_nonempty(line@);
            assert(line@.skip(0) =~= line@);
            assert(split_tokens(line@).skip(0) =~= split_tokens(line@));
        }
        Cursor { line, len: n, pos: 0, exhausted: false, idx: 0 }
    }

    /// Hands out the next token, or nothing once every token has been seen.
    pub fn next(&mut self) -> (r: Option<&'a str>)
        requires
            old(self).wf(),
            old(self).taken() < u32::MAX as int,
        ensures
            final(self).wf(),
            final(self).toks() == old(self).toks(),
            match r {
                Some(t) => {
                    &&& old(self).taken() < old(self).toks().len()
                    &&& t@ == old(self).toks()[old(self).taken()]
                    &&& final(self).taken() == old(self).taken() + 1
                },
                None => {
                    &&& old(self).taken() == old(self).toks().len()
                    &&& final(self).taken() == old(self).taken()
                },
            },
    {
        if self.exhausted {
            return None;
        }
        let ghost suffix = self.line@.skip(self.pos as int);
        let mut j = self.pos;
        while j < self.len && self.line.get_char(j) != ' '
            invariant
                self.pos <= j <= self.len,
                self.len == self.line@.len(),
                forall|k: int| self.pos <= k < j ==> self.line@[k] != ' ',
            decreases self.len - j,
        {
            j += 1;
        }
        let t = self.line.substring_char(self.pos, j);
        proof {
            assert(forall|k: int| 0 <= k < j - self.pos ==> suffix[k] != ' ');
            if j == self.len {
                lemma_split_no_space(suffix);
                assert(t@ =~= suffix);
            } else {
                assert(suffix[j - self.pos] == ' ');
                lemma_split_first_space(suffix, j - self.pos as int);
                assert(t@ =~= suffix.take(j - self.pos as int));
                let rest = self.line@.skip(j + 1);
                assert(suffix.skip(j - self.pos as int + 1) =~= rest);
                lemma_split_nonempty(rest);
                assert(split_tokens(suffix) == seq![t@] + split_tokens(rest));
                assert((seq![t@] + split_tokens(rest)).skip(1) =~~= split_tokens(rest));
            }
            assert(self.toks().skip(self.idx as int).skip(1) =~~= self.toks().skip(
                self.idx as int + 1,
            ));
            assert(t@ == self.toks().skip(self.idx as int)[0]);
        }
        if j == self.len {
            self.exhausted = true;
        } else {
            self.pos = j + 1;
        }
        self.idx += 1;
        Some(t)
    }
}

} // verus!
